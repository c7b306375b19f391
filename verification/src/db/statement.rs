//! Statements with their parameters, and the rows that answer them.

use vstd::prelude::*;

use crate::json::Json;
use crate::score::Score;
use crate::text::{opt_str_view, opt_view, same, views};

verus! {

/// A moment, in microseconds since the beginning of 1970 in UTC.
#[derive(Debug, Clone, Copy, PartialEq, Eq, Structural)]
pub struct Moment {
    pub micros: i64,
}

/// The first moment of the year -262143.
pub const FIRST_MICROS: i64 = -8_334_601_228_800_000_000;

/// The last microsecond of the year 262142.
pub const LAST_MICROS: i64 = 8_210_266_876_799_999_999;

impl Moment {
    /// The moment is one of the calendar.
    pub open spec fn in_calendar(self) -> bool {
        FIRST_MICROS <= self.micros <= LAST_MICROS
    }

    /// Whether the moment is one of the calendar.
    pub fn is_in_calendar(&self) -> (r: bool)
        ensures
            r == self.in_calendar(),
    {
        FIRST_MICROS <= self.micros && self.micros <= LAST_MICROS
    }
}

/// A value that goes to the database as a parameter, or comes back in a row.
#[derive(Debug, Clone)]
pub enum SqlValue {
    Text(Option<String>),
    Texts(Vec<String>),
    Bool(Option<bool>),
    Int(Option<i32>),
    BigInt(Option<i64>),
    Double(Option<Score>),
    Uuid(Option<u128>),
    Document(Option<Json>),
    /// The components of a vector, each as the bits of its 32-bit floating point number.
    Embedding(Vec<u32>),
    Time(Option<Moment>),
    /// A value of a type that is not read.
    Other,
}

/// What a `SqlValue` stands for.
#[verifier::ext_equal]
pub enum SqlView {
    Text(Option<Seq<char>>),
    Texts(Seq<Seq<char>>),
    Bool(Option<bool>),
    Int(Option<i32>),
    BigInt(Option<i64>),
    Double(Option<Score>),
    Uuid(Option<u128>),
    Document(Option<Seq<char>>),
    Embedding(Seq<u32>),
    Time(Option<Moment>),
    Other,
}

/// The text of a document that may be absent.
pub open spec fn opt_json_view(json: Option<Json>) -> Option<Seq<char>> {
    match json {
        Some(json) => Some(json@),
        None => None,
    }
}

impl View for SqlValue {
    type V = SqlView;

    open spec fn view(&self) -> SqlView {
        match self {
            SqlValue::Text(v) => SqlView::Text(opt_view(*v)),
            SqlValue::Texts(v) => SqlView::Texts(views(v@)),
            SqlValue::Bool(v) => SqlView::Bool(*v),
            SqlValue::Int(v) => SqlView::Int(*v),
            SqlValue::BigInt(v) => SqlView::BigInt(*v),
            SqlValue::Double(v) => SqlView::Double(*v),
            SqlValue::Uuid(v) => SqlView::Uuid(*v),
            SqlValue::Document(v) => SqlView::Document(opt_json_view(*v)),
            SqlValue::Embedding(v) => SqlView::Embedding(v@),
            SqlValue::Time(v) => SqlView::Time(*v),
            SqlValue::Other => SqlView::Other,
        }
    }
}

/// What a list of values stands for.
pub open spec fn sql_views(values: Seq<SqlValue>) -> Seq<SqlView> {
    Seq::new(values.len(), |i: int| values[i]@)
}

/// A statement with its parameters.
#[derive(Debug, Clone)]
pub struct Statement {
    pub sql: String,
    pub params: Vec<SqlValue>,
}

/// What a `Statement` says.
#[verifier::ext_equal]
pub struct StatementView {
    pub sql: Seq<char>,
    pub params: Seq<SqlView>,
}

impl View for Statement {
    type V = StatementView;

    open spec fn view(&self) -> StatementView {
        StatementView { sql: self.sql@, params: sql_views(self.params@) }
    }
}

/// A statement.
pub open spec fn statement(sql: &str, params: Seq<SqlView>) -> StatementView {
    StatementView { sql: sql@, params }
}


impl Statement {
    /// A statement.
    pub fn new(sql: &str, params: Vec<SqlValue>) -> (r: Statement)
        ensures
            r@ == statement(sql, sql_views(params@)),
    {
        Statement { sql: sql.to_owned(), params }
    }
}

/// A text as a parameter.
pub open spec fn text_param(text: Seq<char>) -> SqlView {
    SqlView::Text(Some(text))
}

/// A copy of a text that may be absent.
pub fn copy_text(text: &Option<String>) -> (r: Option<String>)
    ensures
        opt_view(r) == opt_view(*text),
{
    match text {
        Some(text) => Some(text.clone()),
        None => None,
    }
}

/// An owned copy of a text that may be absent.
pub fn own_text(text: Option<&str>) -> (r: Option<String>)
    ensures
        opt_view(r) == opt_str_view(text),
{
    match text {
        Some(text) => Some(text.to_owned()),
        None => None,
    }
}

/// A text as a parameter.
pub fn text_value(text: &str) -> (r: SqlValue)
    ensures
        r@ == text_param(text@),
{
    SqlValue::Text(Some(text.to_owned()))
}

/// A copy of a list of texts.
pub fn copy_texts(texts: &Vec<String>) -> (r: Vec<String>)
    ensures
        views(r@) == views(texts@),
{
    let mut out: Vec<String> = Vec::new();
    let mut i: usize = 0;
    while i < texts.len()
        invariant
            i <= texts@.len(),
            out@.len() == i,
            forall|k: int| 0 <= k < i ==> (#[trigger] out@[k])@ == texts@[k]@,
        decreases texts@.len() - i,
    {
        out.push(texts[i].clone());
        i += 1;
    }
    assert(views(out@) =~= views(texts@));
    out
}

/// A copy of a document that may be absent.
pub fn copy_json(json: &Option<Json>) -> (r: Option<Json>)
    ensures
        opt_json_view(r) == opt_json_view(*json),
{
    match json {
        Some(json) => Some(json.copy()),
        None => None,
    }
}

// ---------------------------------------------------------------------------
// Rows
// ---------------------------------------------------------------------------

/// A row of an answer: the name and the value of each column.
#[derive(Debug, Clone)]
pub struct Row {
    pub columns: Vec<(String, SqlValue)>,
}

/// What a column must hold to be read.
#[derive(Debug, Clone, Copy, PartialEq, Eq, Structural)]
pub enum ColumnKind {
    Text,
    OptText,
    Texts,
    Int,
    OptInt,
    BigInt,
    OptDouble,
    Uuid,
    OptUuid,
    Document,
    OptDocument,
    Time,
    OptTime,
}

impl ColumnKind {
    /// A column of this kind can hold the value.
    pub open spec fn fits(self, value: SqlView) -> bool {
        match self {
            ColumnKind::Text => value matches SqlView::Text(Some(_)),
            ColumnKind::OptText => value is Text,
            ColumnKind::Texts => value is Texts,
            ColumnKind::Int => value matches SqlView::Int(Some(_)),
            ColumnKind::OptInt => value is Int,
            ColumnKind::BigInt => value matches SqlView::BigInt(Some(_)),
            ColumnKind::OptDouble => value is Double,
            ColumnKind::Uuid => value matches SqlView::Uuid(Some(_)),
            ColumnKind::OptUuid => value is Uuid,
            ColumnKind::Document => value matches SqlView::Document(Some(_)),
            ColumnKind::OptDocument => value is Document,
            ColumnKind::Time => value matches SqlView::Time(Some(_)),
            ColumnKind::OptTime => value is Time,
        }
    }

    /// Whether a column of this kind can hold the value.
    pub fn accepts(&self, value: &SqlValue) -> (r: bool)
        ensures
            r == self.fits(value@),
    {
        match (self, value) {
            (ColumnKind::Text, SqlValue::Text(Some(_))) => true,
            (ColumnKind::OptText, SqlValue::Text(_)) => true,
            (ColumnKind::Texts, SqlValue::Texts(_)) => true,
            (ColumnKind::Int, SqlValue::Int(Some(_))) => true,
            (ColumnKind::OptInt, SqlValue::Int(_)) => true,
            (ColumnKind::BigInt, SqlValue::BigInt(Some(_))) => true,
            (ColumnKind::OptDouble, SqlValue::Double(_)) => true,
            (ColumnKind::Uuid, SqlValue::Uuid(Some(_))) => true,
            (ColumnKind::OptUuid, SqlValue::Uuid(_)) => true,
            (ColumnKind::Document, SqlValue::Document(Some(_))) => true,
            (ColumnKind::OptDocument, SqlValue::Document(_)) => true,
            (ColumnKind::Time, SqlValue::Time(Some(_))) => true,
            (ColumnKind::OptTime, SqlValue::Time(_)) => true,
            _ => false,
        }
    }
}

/// The value of the first of the columns that has the name.
pub open spec fn column_value(columns: Seq<(String, SqlValue)>, name: Seq<char>) -> Option<SqlView>
    decreases columns.len(),
{
    if columns.len() == 0 {
        None
    } else if columns[0].0@ == name {
        Some(columns[0].1@)
    } else {
        column_value(columns.skip(1), name)
    }
}

/// The names and kinds of a list of columns.
pub open spec fn schema_view(schema: Seq<(&'static str, ColumnKind)>) -> Seq<
    (Seq<char>, ColumnKind),
> {
    Seq::new(schema.len(), |i: int| (schema[i].0@, schema[i].1))
}

impl Row {
    /// The value of the column of that name.
    pub open spec fn cell(self, name: Seq<char>) -> Option<SqlView> {
        column_value(self.columns@, name)
    }

    /// The row has each of the columns, with a value that it can hold.
    pub open spec fn conforms(self, schema: Seq<(Seq<char>, ColumnKind)>) -> bool {
        forall|i: int| 0 <= i < schema.len() ==> self.has(#[trigger] schema[i])
    }

    /// The row has the column, with a value that it can hold.
    pub open spec fn has(self, column: (Seq<char>, ColumnKind)) -> bool {
        self.cell(column.0) matches Some(value) && column.1.fits(value)
    }

    /// The moment in a column, in microseconds.
    pub open spec fn moment(self, column: Seq<char>) -> int {
        match self.cell(column) {
            Some(SqlView::Time(Some(moment))) => moment.micros as int,
            _ => 0,
        }
    }

    /// The row holds parameters, each in its column.
    pub open spec fn holds(self, columns: Seq<Seq<char>>, params: Seq<SqlView>) -> bool {
        forall|i: int|
            0 <= i < columns.len() ==> self.cell(#[trigger] columns[i]) == Some(params[i])
    }

    fn find(&self, name: &str) -> (r: Option<&SqlValue>)
        ensures
            match r {
                Some(value) => self.cell(name@) == Some(value@),
                None => self.cell(name@) is None,
            },
    {
        let mut i: usize = 0;
        assert(self.columns@.skip(0) =~= self.columns@);
        while i < self.columns.len()
            invariant
                i <= self.columns@.len(),
                self.cell(name@) == column_value(self.columns@.skip(i as int), name@),
            decreases self.columns@.len() - i,
        {
            if same(self.columns[i].0.as_str(), name) {
                return Some(&self.columns[i].1);
            }
            assert(self.columns@.skip(i as int).skip(1) =~= self.columns@.skip(i + 1));
            i += 1;
        }
        None
    }

    /// Whether the row has each of the columns, with a value that it can hold.
    pub fn is_conforming(&self, schema: &Vec<(&'static str, ColumnKind)>) -> (r: bool)
        ensures
            r == self.conforms(schema_view(schema@)),
    {
        let mut i: usize = 0;
        while i < schema.len()
            invariant
                i <= schema@.len(),
                forall|k: int| 0 <= k < i ==> self.has(#[trigger] schema_view(schema@)[k]),
            decreases schema@.len() - i,
        {
            let (name, kind) = schema[i];
            let fits = match self.find(name) {
                Some(value) => kind.accepts(value),
                None => false,
            };
            assert(schema_view(schema@)[i as int] == (name@, kind));
            if !fits {
                return false;
            }
            i += 1;
        }
        true
    }

    /// The text in a column.
    pub fn text(&self, name: &str) -> (r: String)
        requires
            self.has((name@, ColumnKind::Text)),
        ensures
            self.cell(name@) == Some(SqlView::Text(Some(r@))),
    {
        match self.find(name) {
            Some(SqlValue::Text(Some(text))) => text.clone(),
            _ => String::new(),
        }
    }

    /// The text in a column, if it is not null.
    pub fn opt_text(&self, name: &str) -> (r: Option<String>)
        requires
            self.has((name@, ColumnKind::OptText)),
        ensures
            self.cell(name@) == Some(SqlView::Text(opt_view(r))),
    {
        match self.find(name) {
            Some(SqlValue::Text(text)) => copy_text(text),
            _ => None,
        }
    }

    /// The texts in a column.
    pub fn texts(&self, name: &str) -> (r: Vec<String>)
        requires
            self.has((name@, ColumnKind::Texts)),
        ensures
            self.cell(name@) == Some(SqlView::Texts(views(r@))),
    {
        match self.find(name) {
            Some(SqlValue::Texts(texts)) => copy_texts(texts),
            _ => Vec::new(),
        }
    }

    /// The integer in a column.
    pub fn integer(&self, name: &str) -> (r: i32)
        requires
            self.has((name@, ColumnKind::Int)),
        ensures
            self.cell(name@) == Some(SqlView::Int(Some(r))),
    {
        match self.find(name) {
            Some(SqlValue::Int(Some(n))) => *n,
            _ => 0,
        }
    }

    /// The integer in a column, if it is not null.
    pub fn opt_integer(&self, name: &str) -> (r: Option<i32>)
        requires
            self.has((name@, ColumnKind::OptInt)),
        ensures
            self.cell(name@) == Some(SqlView::Int(r)),
    {
        match self.find(name) {
            Some(SqlValue::Int(n)) => *n,
            _ => None,
        }
    }

    /// The long integer in a column.
    pub fn bigint(&self, name: &str) -> (r: i64)
        requires
            self.has((name@, ColumnKind::BigInt)),
        ensures
            self.cell(name@) == Some(SqlView::BigInt(Some(r))),
    {
        match self.find(name) {
            Some(SqlValue::BigInt(Some(n))) => *n,
            _ => 0,
        }
    }

    /// The number in a column, if it is not null.
    pub fn opt_double(&self, name: &str) -> (r: Option<Score>)
        requires
            self.has((name@, ColumnKind::OptDouble)),
        ensures
            self.cell(name@) == Some(SqlView::Double(r)),
    {
        match self.find(name) {
            Some(SqlValue::Double(n)) => *n,
            _ => None,
        }
    }

    /// The identifier in a column.
    pub fn uuid(&self, name: &str) -> (r: u128)
        requires
            self.has((name@, ColumnKind::Uuid)),
        ensures
            self.cell(name@) == Some(SqlView::Uuid(Some(r))),
    {
        match self.find(name) {
            Some(SqlValue::Uuid(Some(id))) => *id,
            _ => 0,
        }
    }

    /// The identifier in a column, if it is not null.
    pub fn opt_uuid(&self, name: &str) -> (r: Option<u128>)
        requires
            self.has((name@, ColumnKind::OptUuid)),
        ensures
            self.cell(name@) == Some(SqlView::Uuid(r)),
    {
        match self.find(name) {
            Some(SqlValue::Uuid(id)) => *id,
            _ => None,
        }
    }

    /// The document in a column.
    pub fn document(&self, name: &str) -> (r: Json)
        requires
            self.has((name@, ColumnKind::Document)),
        ensures
            self.cell(name@) == Some(SqlView::Document(Some(r@))),
    {
        match self.find(name) {
            Some(SqlValue::Document(Some(json))) => json.copy(),
            _ => Json::empty_object(),
        }
    }

    /// The document in a column, if it is not null.
    pub fn opt_document(&self, name: &str) -> (r: Option<Json>)
        requires
            self.has((name@, ColumnKind::OptDocument)),
        ensures
            self.cell(name@) == Some(SqlView::Document(opt_json_view(r))),
    {
        match self.find(name) {
            Some(SqlValue::Document(json)) => copy_json(json),
            _ => None,
        }
    }

    /// The moment in a column.
    pub fn time(&self, name: &str) -> (r: Moment)
        requires
            self.has((name@, ColumnKind::Time)),
        ensures
            self.cell(name@) == Some(SqlView::Time(Some(r))),
    {
        match self.find(name) {
            Some(SqlValue::Time(Some(moment))) => *moment,
            _ => Moment { micros: 0 },
        }
    }

    /// The moment in a column, if it is not null.
    pub fn opt_time(&self, name: &str) -> (r: Option<Moment>)
        requires
            self.has((name@, ColumnKind::OptTime)),
        ensures
            self.cell(name@) == Some(SqlView::Time(r)),
    {
        match self.find(name) {
            Some(SqlValue::Time(moment)) => *moment,
            _ => None,
        }
    }
}

// ---------------------------------------------------------------------------
// What a database answers
// ---------------------------------------------------------------------------

/// The rows answer a query that lists the rows of a table that are wanted, the latest first,
/// and no more than the limit, if there is one: each is a wanted row of the table, and a
/// wanted row is left out only where the limit is reached.
pub open spec fn lists(
    rows: Seq<Row>,
    table: Seq<Row>,
    wanted: spec_fn(Row) -> bool,
    column: Seq<char>,
    limit: Option<int>,
) -> bool {
    &&& forall|i: int|
        0 <= i < rows.len() ==> wanted(#[trigger] rows[i]) && table.contains(rows[i])
    &&& forall|i: int, j: int|
        0 <= i < j < rows.len() ==> (#[trigger] rows[i]).moment(column) >= (
        #[trigger] rows[j]).moment(column)
    &&& match limit {
        Some(limit) => rows.len() <= limit,
        None => true,
    }
    &&& forall|row: Row| #[trigger]
        table.contains(row) && wanted(row) ==> rows.contains(row) || match limit {
            Some(limit) => rows.len() >= limit,
            None => false,
        }
}

// ---------------------------------------------------------------------------
// Laws
// ---------------------------------------------------------------------------

/// A statement says its text and its parameters, each of them, in order.
pub proof fn law_statement(sent: Statement, sql: &str, params: Seq<SqlView>)
    ensures
        statement(sql, params).sql == sql@,
        statement(sql, params).params == params,
        sent@.sql == sent.sql@,
        sent@.params.len() == sent.params@.len(),
        forall|i: int|
            0 <= i < sent.params@.len() ==> #[trigger] sent@.params[i] == sent.params@[i]@,
{
}

/// A value stands for what it holds.
pub proof fn law_value_seen(value: SqlValue)
    ensures
        match value {
            SqlValue::Text(Some(text)) => value@ == SqlView::Text(Some(text@)),
            SqlValue::Text(None) => value@ == SqlView::Text(None),
            SqlValue::Texts(texts) => value@ is Texts && value@->Texts_0.len() == texts@.len()
                && forall|i: int|
                0 <= i < texts@.len() ==> value@->Texts_0[i] == (#[trigger] texts@[i])@,
            SqlValue::Bool(b) => value@ == SqlView::Bool(b),
            SqlValue::Int(n) => value@ == SqlView::Int(n),
            SqlValue::BigInt(n) => value@ == SqlView::BigInt(n),
            SqlValue::Double(score) => value@ == SqlView::Double(score),
            SqlValue::Uuid(id) => value@ == SqlView::Uuid(id),
            SqlValue::Document(Some(json)) => value@ == SqlView::Document(Some(json@)),
            SqlValue::Document(None) => value@ == SqlView::Document(None),
            SqlValue::Embedding(components) => value@ == SqlView::Embedding(components@),
            SqlValue::Time(moment) => value@ == SqlView::Time(moment),
            SqlValue::Other => value@ == SqlView::Other,
        },
{
}

proof fn lemma_column(columns: Seq<(String, SqlValue)>, name: Seq<char>, i: int)
    requires
        0 <= i <= columns.len(),
        forall|k: int| 0 <= k < i ==> (#[trigger] columns[k]).0@ != name,
        i < columns.len() ==> columns[i].0@ == name,
    ensures
        column_value(columns, name) == if i < columns.len() {
            Some(columns[i].1@)
        } else {
            None
        },
    decreases i,
{
    if i > 0 {
        let rest = columns.skip(1);
        assert forall|k: int| 0 <= k < i - 1 implies (#[trigger] rest[k]).0@ != name by {
            assert(rest[k] == columns[k + 1]);
        }
        assert(i < columns.len() ==> rest[i - 1] == columns[i]);
        assert(columns[0].0@ != name);
        lemma_column(rest, name, i - 1);
    }
}

/// A cell is found under its name: the value of the first column that has it, wherever the
/// column stands. Under a name that no column has there is none.
pub proof fn law_cell(row: Row, name: Seq<char>, i: int)
    requires
        0 <= i <= row.columns@.len(),
        forall|k: int| 0 <= k < i ==> (#[trigger] row.columns@[k]).0@ != name,
        i < row.columns@.len() ==> row.columns@[i].0@ == name,
    ensures
        i < row.columns@.len() ==> row.cell(name) == Some(row.columns@[i].1@),
        i == row.columns@.len() ==> row.cell(name) is None,
{
    lemma_column(row.columns@, name, i);
}

} // verus!
