//! Read-only SQL queries, and how their answers are shown.

use vstd::arithmetic::power::pow;
use vstd::prelude::*;
use vstd::string::*;

use crate::db::relational::RelationalStore;
use crate::db::statement::{statement, sql_views, Moment, SqlValue, SqlView, Statement};
use crate::json::{hex_digit, json_str, quoted, scalar_json, Json, JsonScalar, ScalarView};
use crate::number::signed_decimal;
use crate::text::{all_ascii, same, starts_with, trim, trimmed};

verus! {

/// What is said of a query that is not a SELECT statement.
pub const NOT_A_SELECT: &'static str = "Only SELECT queries are allowed via read_only_query";

/// The upper-case text that `str::to_uppercase` makes of a text.
pub uninterp spec fn unicode_uppercase(s: Seq<char>) -> Seq<char>;

/// The upper-case letter of an ASCII letter; any other character as it is.
pub open spec fn ascii_upper(c: char) -> char {
    if 'a' <= c <= 'z' {
        (c as u32 - 32) as char
    } else {
        c
    }
}

/// An ASCII text in upper case.
pub open spec fn ascii_uppercase(s: Seq<char>) -> Seq<char> {
    Seq::new(s.len(), |i: int| ascii_upper(s[i]))
}

/// Makes a text upper-case with `str::to_uppercase`, which depends on the text alone and
/// maps the letters of an ASCII text one by one. What it makes of other texts is Unicode's
/// to say, and left unsaid here.
#[verifier::external_body]
fn to_uppercase(s: &str) -> (r: String)
    ensures
        r@ == unicode_uppercase(s@),
        all_ascii(s@) ==> r@ == ascii_uppercase(s@),
{
    s.to_uppercase()
}

/// Whether a query, trimmed and in upper case, is a SELECT statement.
pub open spec fn begins_select(upper: Seq<char>) -> bool {
    "SELECT"@.is_prefix_of(upper)
}

/// Whether a query, trimmed and in upper case, is a SELECT statement.
pub fn is_select(upper: &str) -> (r: bool)
    ensures
        r == begins_select(upper@),
{
    starts_with(upper, "SELECT")
}

impl RelationalStore {
    /// A read-only SQL query. Only SELECT statements are allowed; such a query is sent as
    /// it is.
    pub fn read_only_query(&self, sql: &str) -> (r: Result<Statement, &'static str>)
        ensures
            match r {
                Ok(query) => query@ == statement(sql, Seq::empty()),
                Err(message) => message@ == NOT_A_SELECT@,
            },
            r is Ok <==> begins_select(unicode_uppercase(trimmed(sql@))),
            all_ascii(trimmed(sql@)) ==> (r is Ok <==> begins_select(
                ascii_uppercase(trimmed(sql@)),
            )),
    {
        let upper = to_uppercase(trim(sql).as_str());
        if !is_select(upper.as_str()) {
            return Err(NOT_A_SELECT);
        }
        let params: Vec<SqlValue> = Vec::new();
        assert(sql_views(params@) =~= Seq::empty());
        Ok(Statement::new(sql, params))
    }
}

// ---------------------------------------------------------------------------
// Identifiers and moments as text
// ---------------------------------------------------------------------------

/// A hexadecimal digit of an identifier, counted from the left.
pub open spec fn uuid_digit(id: u128, k: int) -> char {
    hex_digit(((id as int / pow(16, (31 - k) as nat)) % 16) as nat)
}

/// An identifier as text: its digits in groups of eight, four, four, four and twelve.
pub open spec fn uuid_text(id: u128) -> Seq<char> {
    Seq::new(
        36,
        |i: int|
            if i < 8 {
                uuid_digit(id, i)
            } else if i == 8 || i == 13 || i == 18 || i == 23 {
                '-'
            } else if i < 13 {
                uuid_digit(id, i - 1)
            } else if i < 18 {
                uuid_digit(id, i - 2)
            } else if i < 23 {
                uuid_digit(id, i - 3)
            } else {
                uuid_digit(id, i - 4)
            },
    )
}

/// The identifier that `uuid::Uuid::parse_str` reads from a text; nothing where the text
/// is not one.
pub uninterp spec fn uuid_parse(text: Seq<char>) -> Option<u128>;

/// Reads an identifier with `uuid::Uuid::parse_str`, which depends on the text alone.
#[verifier::external_body]
pub(crate) fn parse_uuid(text: &str) -> (r: Option<u128>)
    ensures
        r == uuid_parse(text@),
{
    uuid::Uuid::parse_str(text).ok().map(|id| id.as_u128())
}

/// Prints an identifier with `Uuid::to_string`: its hexadecimal digits in lower case, in
/// five groups with hyphens between them. `Uuid::parse_str` reads it back.
#[verifier::external_body]
fn print_uuid(id: u128) -> (r: String)
    ensures
        r@ == uuid_text(id),
        uuid_parse(r@) == Some(id),
{
    uuid::Uuid::from_u128(id).to_string()
}

/// The text that `DateTime::to_rfc3339` makes of a moment, given in microseconds since the
/// beginning of 1970 in UTC.
pub uninterp spec fn rfc3339_text(micros: int) -> Seq<char>;

/// Prints a moment of the calendar with `DateTime::<Utc>::from_timestamp_micros` and
/// `DateTime::to_rfc3339`. The first knows every moment of the years -262143 to 262142; the
/// text depends on the moment alone.
#[verifier::external_body]
fn print_moment(moment: Moment) -> (r: String)
    requires
        moment.in_calendar(),
    ensures
        r@ == rfc3339_text(moment.micros as int),
{
    let time = chrono::DateTime::<chrono::Utc>::from_timestamp_micros(moment.micros);
    time.map(|time| time.to_rfc3339()).unwrap_or_default()
}

// ---------------------------------------------------------------------------
// Cells
// ---------------------------------------------------------------------------

/// A cell of an answer: the name of its column, the name of the column's type, its value.
#[derive(Debug, Clone)]
pub struct Cell {
    pub column: String,
    pub sql_type: String,
    pub value: SqlValue,
}

/// Whether a type is shown as text.
pub open spec fn is_text_type(name: Seq<char>) -> bool {
    name == "text"@ || name == "varchar"@
}

/// Whether a type is shown as a document.
pub open spec fn is_document_type(name: Seq<char>) -> bool {
    name == "jsonb"@ || name == "json"@
}

/// Whether a type is shown as a moment.
pub open spec fn is_time_type(name: Seq<char>) -> bool {
    name == "timestamptz"@ || name == "timestamp"@
}

/// The value of a column of that type can be shown.
pub open spec fn is_shown(sql_type: Seq<char>, value: SqlView) -> bool {
    if sql_type == "int4"@ {
        value is Int
    } else if sql_type == "int8"@ {
        value is BigInt
    } else if is_text_type(sql_type) {
        value is Text
    } else if sql_type == "bool"@ {
        value is Bool
    } else if is_document_type(sql_type) {
        value is Document
    } else if sql_type == "uuid"@ {
        value is Uuid
    } else if is_time_type(sql_type) {
        value is Time && (value->Time_0 matches Some(moment) ==> moment.in_calendar())
    } else {
        true
    }
}

/// The text that stands for a value of a type that is not shown.
pub open spec fn unsupported(sql_type: Seq<char>) -> Seq<char> {
    "<unsupported type: "@ + sql_type + ">"@
}

/// The scalar that shows a value, null where there is none.
pub open spec fn shown_scalar(value: SqlView) -> ScalarView {
    match value {
        SqlView::Int(Some(n)) => ScalarView::Number(n as int),
        SqlView::BigInt(Some(n)) => ScalarView::Number(n as int),
        SqlView::Text(Some(text)) => ScalarView::Text(text),
        SqlView::Bool(Some(b)) => ScalarView::Bool(b),
        SqlView::Uuid(Some(id)) => ScalarView::Text(uuid_text(id)),
        SqlView::Time(Some(moment)) => ScalarView::Text(rfc3339_text(moment.micros as int)),
        _ => ScalarView::Null,
    }
}

/// Whether the values of a type are shown.
pub open spec fn is_supported(sql_type: Seq<char>) -> bool {
    ||| sql_type == "int4"@
    ||| sql_type == "int8"@
    ||| is_text_type(sql_type)
    ||| sql_type == "bool"@
    ||| is_document_type(sql_type)
    ||| sql_type == "uuid"@
    ||| is_time_type(sql_type)
}

/// The JSON text that shows a value of a column of that type.
pub open spec fn shown_value(sql_type: Seq<char>, value: SqlView) -> Seq<char> {
    if !is_supported(sql_type) {
        quoted(unsupported(sql_type))
    } else {
        match value {
            SqlView::Document(Some(json)) => json,
            _ => scalar_json(shown_scalar(value)),
        }
    }
}

fn supported(sql_type: &str) -> (r: bool)
    ensures
        r == is_supported(sql_type@),
{
    same(sql_type, "int4") || same(sql_type, "int8") || same(sql_type, "text") || same(
        sql_type,
        "varchar",
    ) || same(sql_type, "bool") || same(sql_type, "jsonb") || same(sql_type, "json") || same(
        sql_type,
        "uuid",
    ) || same(sql_type, "timestamptz") || same(sql_type, "timestamp")
}

impl Cell {
    /// The cell can be shown.
    pub open spec fn can_show(self) -> bool {
        is_shown(self.sql_type@, self.value@)
    }

    /// Whether the cell can be shown.
    pub fn is_showable(&self) -> (r: bool)
        ensures
            r == self.can_show(),
    {
        let name = self.sql_type.as_str();
        if same(name, "int4") {
            matches!(self.value, SqlValue::Int(_))
        } else if same(name, "int8") {
            matches!(self.value, SqlValue::BigInt(_))
        } else if same(name, "text") || same(name, "varchar") {
            matches!(self.value, SqlValue::Text(_))
        } else if same(name, "bool") {
            matches!(self.value, SqlValue::Bool(_))
        } else if same(name, "jsonb") || same(name, "json") {
            matches!(self.value, SqlValue::Document(_))
        } else if same(name, "uuid") {
            matches!(self.value, SqlValue::Uuid(_))
        } else if same(name, "timestamptz") || same(name, "timestamp") {
            match self.value {
                SqlValue::Time(Some(moment)) => moment.is_in_calendar(),
                SqlValue::Time(None) => true,
                _ => false,
            }
        } else {
            true
        }
    }

    /// The JSON value that shows the cell.
    pub fn shown(&self) -> (r: Json)
        requires
            self.can_show(),
        ensures
            r@ == shown_value(self.sql_type@, self.value@),
            self.sql_type@ == "uuid"@ ==> match self.value@ {
                SqlView::Uuid(Some(id)) => {
                    &&& json_str(r@) == Some(uuid_text(id))
                    &&& uuid_parse(uuid_text(id)) == Some(id)
                },
                _ => true,
            },
    {
        if !supported(self.sql_type.as_str()) {
            let mut text = "<unsupported type: ".to_owned();
            text.append(self.sql_type.as_str());
            text.append(">");
            return Json::scalar(&JsonScalar::Text(text));
        }
        let scalar = match &self.value {
            SqlValue::Document(Some(json)) => {
                return json.copy();
            },
            SqlValue::Int(Some(n)) => JsonScalar::Number(*n as i64),
            SqlValue::BigInt(Some(n)) => JsonScalar::Number(*n),
            SqlValue::Text(Some(text)) => JsonScalar::Text(text.clone()),
            SqlValue::Bool(Some(b)) => JsonScalar::Bool(*b),
            SqlValue::Uuid(Some(id)) => JsonScalar::Text(print_uuid(*id)),
            SqlValue::Time(Some(moment)) => JsonScalar::Text(print_moment(*moment)),
            _ => JsonScalar::Null,
        };
        Json::scalar(&scalar)
    }
}

/// The names of the columns of a row, each with the JSON text that shows its value.
pub open spec fn shown_row(cells: Seq<Cell>) -> Seq<(Seq<char>, Seq<char>)> {
    Seq::new(
        cells.len(),
        |i: int| (cells[i].column@, shown_value(cells[i].sql_type@, cells[i].value@)),
    )
}

/// A row as names and texts.
pub open spec fn named_views(row: Seq<(String, Json)>) -> Seq<(Seq<char>, Seq<char>)> {
    Seq::new(row.len(), |i: int| (row[i].0@, row[i].1@))
}

/// Every cell of a row can be shown.
pub open spec fn row_can_show(cells: Seq<Cell>) -> bool {
    forall|i: int| 0 <= i < cells.len() ==> (#[trigger] cells[i]).can_show()
}

fn show_row(cells: &Vec<Cell>) -> (r: Vec<(String, Json)>)
    requires
        row_can_show(cells@),
    ensures
        named_views(r@) == shown_row(cells@),
{
    let mut out: Vec<(String, Json)> = Vec::new();
    let mut i: usize = 0;
    while i < cells.len()
        invariant
            i <= cells@.len(),
            row_can_show(cells@),
            out@.len() == i,
            forall|k: int|
                0 <= k < i ==> (#[trigger] out@[k]).0@ == cells@[k].column@ && out@[k].1@
                    == shown_value(cells@[k].sql_type@, cells@[k].value@),
        decreases cells@.len() - i,
    {
        out.push((cells[i].column.clone(), cells[i].shown()));
        i += 1;
    }
    assert(named_views(out@) =~= shown_row(cells@));
    out
}

/// The rows of an answer, each as the names of its columns with the values that show them.
pub fn show_rows(rows: &Vec<Vec<Cell>>) -> (r: Vec<Vec<(String, Json)>>)
    requires
        forall|i: int| 0 <= i < rows@.len() ==> row_can_show(#[trigger] rows@[i]@),
    ensures
        r@.len() == rows@.len(),
        forall|i: int|
            0 <= i < rows@.len() ==> named_views(#[trigger] r@[i]@) == shown_row(rows@[i]@),
{
    let mut out: Vec<Vec<(String, Json)>> = Vec::new();
    let mut i: usize = 0;
    while i < rows.len()
        invariant
            i <= rows@.len(),
            out@.len() == i,
            forall|i: int| 0 <= i < rows@.len() ==> row_can_show(#[trigger] rows@[i]@),
            forall|k: int|
                0 <= k < i ==> named_views(#[trigger] out@[k]@) == shown_row(rows@[k]@),
        decreases rows@.len() - i,
    {
        out.push(show_row(&rows[i]));
        i += 1;
    }
    out
}

// ---------------------------------------------------------------------------
// Laws
// ---------------------------------------------------------------------------

/// A query is taken for a SELECT statement by its first six letters, and by nothing else.
pub proof fn law_select(upper: Seq<char>)
    ensures
        begins_select(upper) <==> upper.len() >= 6 && upper[0] == 'S' && upper[1] == 'E'
            && upper[2] == 'L' && upper[3] == 'E' && upper[4] == 'C' && upper[5] == 'T',
{
    reveal_strlit("SELECT");
    let word = "SELECT"@;
    assert(word.len() == 6 && word[0] == 'S' && word[1] == 'E' && word[2] == 'L' && word[3] == 'E'
        && word[4] == 'C' && word[5] == 'T');
    if begins_select(upper) {
        assert forall|i: int| 0 <= i < 6 implies upper[i] == word[i] by {
            assert(word[i] == upper.subrange(0, 6)[i]);
        }
        assert(upper[0] == word[0] && upper[1] == word[1] && upper[2] == word[2] && upper[3]
            == word[3] && upper[4] == word[4] && upper[5] == word[5]);
    }
    if upper.len() >= 6 && upper[0] == 'S' && upper[1] == 'E' && upper[2] == 'L' && upper[3] == 'E'
        && upper[4] == 'C' && upper[5] == 'T' {
        assert(word =~= upper.subrange(0, 6));
    }
}

/// The types whose values are shown.
pub open spec fn is_known_type(name: Seq<char>) -> bool {
    ||| name == "int4"@
    ||| name == "int8"@
    ||| name == "text"@
    ||| name == "varchar"@
    ||| name == "bool"@
    ||| name == "jsonb"@
    ||| name == "json"@
    ||| name == "uuid"@
    ||| name == "timestamptz"@
    ||| name == "timestamp"@
}

/// A value of a known type is shown as what it is: a number as its numeral, a text and an
/// identifier and a moment as a string, a document as itself, and nothing as null. A value of
/// any other type is shown as the name of the type.
pub proof fn law_values_are_shown(sql_type: Seq<char>, value: SqlView)
    ensures
        !is_known_type(sql_type) ==> shown_value(sql_type, value) == quoted(
            "<unsupported type: "@ + sql_type + ">"@,
        ),
        is_known_type(sql_type) ==> match value {
            SqlView::Int(Some(n)) => shown_value(sql_type, value) == signed_decimal(n as int),
            SqlView::BigInt(Some(n)) => shown_value(sql_type, value) == signed_decimal(n as int),
            SqlView::Text(Some(text)) => shown_value(sql_type, value) == quoted(text),
            SqlView::Bool(Some(true)) => shown_value(sql_type, value) == seq!['t', 'r', 'u', 'e'],
            SqlView::Bool(Some(false)) => shown_value(sql_type, value) == seq![
                'f',
                'a',
                'l',
                's',
                'e',
            ],
            SqlView::Document(Some(json)) => shown_value(sql_type, value) == json,
            SqlView::Uuid(Some(id)) => shown_value(sql_type, value) == quoted(uuid_text(id)),
            SqlView::Time(Some(moment)) => shown_value(sql_type, value) == quoted(
                rfc3339_text(moment.micros as int),
            ),
            _ => shown_value(sql_type, value) == seq!['n', 'u', 'l', 'l'],
        },
{
}

/// A row is shown whole: each of its cells, in order, under the name of its column.
pub proof fn law_rows_are_shown(row: Seq<(String, Json)>, cells: Seq<Cell>)
    requires
        named_views(row) == shown_row(cells),
    ensures
        row.len() == cells.len(),
        forall|i: int|
            0 <= i < cells.len() ==> (#[trigger] row[i]).0@ == cells[i].column@ && row[i].1@
                == shown_value(cells[i].sql_type@, cells[i].value@),
{
    assert(named_views(row).len() == row.len());
    assert forall|i: int| 0 <= i < cells.len() implies (#[trigger] row[i]).0@ == cells[i].column@
        && row[i].1@ == shown_value(cells[i].sql_type@, cells[i].value@) by {
        assert(named_views(row)[i] == (row[i].0@, row[i].1@));
        assert(shown_row(cells)[i] == (
            cells[i].column@,
            shown_value(cells[i].sql_type@, cells[i].value@),
        ));
    }
}

} // verus!
