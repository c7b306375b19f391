//! JSON values.
//!
//! A JSON value is carried as its text. Reading and writing that text is the work of
//! `serde_json`; what is written is stated in full, what is read is named.

use vstd::prelude::*;
use vstd::string::*;

use crate::number::signed_decimal;
use crate::text::{opt_view, text_less};

verus! {

/// A JSON value, held as its text without insignificant white space.
#[derive(Debug, Clone)]
pub struct Json {
    text: String,
}

/// A JSON value without parts.
#[derive(Debug, Clone)]
pub enum JsonScalar {
    Null,
    Bool(bool),
    Number(i64),
    Count(u64),
    Text(String),
}

/// What a `JsonScalar` stands for.
pub enum ScalarView {
    Null,
    Bool(bool),
    Number(int),
    Text(Seq<char>),
}

impl View for Json {
    type V = Seq<char>;

    closed spec fn view(&self) -> Seq<char> {
        self.text@
    }
}

impl View for JsonScalar {
    type V = ScalarView;

    open spec fn view(&self) -> ScalarView {
        match self {
            JsonScalar::Null => ScalarView::Null,
            JsonScalar::Bool(b) => ScalarView::Bool(*b),
            JsonScalar::Number(n) => ScalarView::Number(*n as int),
            JsonScalar::Count(n) => ScalarView::Number(*n as int),
            JsonScalar::Text(s) => ScalarView::Text(s@),
        }
    }
}

/// The values of a list of JSON values.
pub open spec fn json_views(values: Seq<Json>) -> Seq<Seq<char>> {
    Seq::new(values.len(), |i: int| values[i]@)
}

/// The members of an object, as names and values.
pub open spec fn field_views(fields: Seq<(String, JsonScalar)>) -> Seq<(Seq<char>, ScalarView)> {
    Seq::new(fields.len(), |i: int| (fields[i].0@, fields[i].1@))
}

// ---------------------------------------------------------------------------
// What JSON text is written
// ---------------------------------------------------------------------------

/// A lower-case hexadecimal digit.
pub open spec fn hex_digit(n: nat) -> char {
    if n < 10 {
        ('0' as u32 + n) as char
    } else {
        ('a' as u32 + n - 10) as char
    }
}

/// A character as it stands inside a JSON string.
pub open spec fn escaped(c: char) -> Seq<char> {
    if c == '"' || c == '\\' {
        seq!['\\', c]
    } else if c == '\u{8}' {
        seq!['\\', 'b']
    } else if c == '\t' {
        seq!['\\', 't']
    } else if c == '\n' {
        seq!['\\', 'n']
    } else if c == '\u{c}' {
        seq!['\\', 'f']
    } else if c == '\r' {
        seq!['\\', 'r']
    } else if c <= '\u{1f}' {
        let code = c as nat;
        seq!['\\', 'u', '0', '0', hex_digit(code / 16), hex_digit(code % 16)]
    } else {
        seq![c]
    }
}

/// The characters of a text as they stand inside a JSON string.
pub open spec fn escaped_text(s: Seq<char>) -> Seq<char>
    decreases s.len(),
{
    if s.len() == 0 {
        Seq::empty()
    } else {
        escaped_text(s.drop_last()) + escaped(s.last())
    }
}

/// A text as a JSON string.
pub open spec fn quoted(s: Seq<char>) -> Seq<char> {
    seq!['"'] + escaped_text(s) + seq!['"']
}

/// The JSON text of a scalar.
pub open spec fn scalar_json(value: ScalarView) -> Seq<char> {
    match value {
        ScalarView::Null => seq!['n', 'u', 'l', 'l'],
        ScalarView::Bool(b) => if b {
            seq!['t', 'r', 'u', 'e']
        } else {
            seq!['f', 'a', 'l', 's', 'e']
        },
        ScalarView::Number(n) => signed_decimal(n),
        ScalarView::Text(s) => quoted(s),
    }
}

/// The JSON text of the members of an object.
pub open spec fn members_json(fields: Seq<(Seq<char>, ScalarView)>) -> Seq<char>
    decreases fields.len(),
{
    if fields.len() == 0 {
        Seq::empty()
    } else {
        let last = quoted(fields.last().0) + seq![':'] + scalar_json(fields.last().1);
        if fields.len() == 1 {
            last
        } else {
            members_json(fields.drop_last()) + seq![','] + last
        }
    }
}

/// The JSON text of an object.
pub open spec fn object_json(fields: Seq<(Seq<char>, ScalarView)>) -> Seq<char> {
    seq!['{'] + members_json(fields) + seq!['}']
}

/// The text that a scalar holds, if it is one.
pub open spec fn scalar_text(value: ScalarView) -> Option<Seq<char>> {
    match value {
        ScalarView::Text(s) => Some(s),
        _ => None,
    }
}

/// A member of an object.
pub fn member(name: &str, value: JsonScalar) -> (r: (String, JsonScalar))
    ensures
        r.0@ == name@,
        r.1@ == value@,
{
    (name.to_owned(), value)
}

/// A text as a scalar.
pub fn text_scalar(text: &str) -> (r: JsonScalar)
    ensures
        r@ == ScalarView::Text(text@),
{
    JsonScalar::Text(text.to_owned())
}

/// The names of the members stand in ascending order, each once.
pub open spec fn ascending_names(fields: Seq<(Seq<char>, ScalarView)>) -> bool {
    forall|i: int, j: int|
        0 <= i < j < fields.len() ==> text_less(#[trigger] fields[i].0, #[trigger] fields[j].0)
}

/// Prints a scalar with `Value::to_string`, which writes `null`, `true`,
/// `false`, an integer in decimal, or a string in double quotes with its quotes,
/// backslashes and control characters escaped. `Value::as_str` gives the text of a
/// string back, and nothing for another value.
#[verifier::external_body]
fn print_scalar(value: &JsonScalar) -> (r: String)
    ensures
        r@ == scalar_json(value@),
        json_str(r@) == scalar_text(value@),
{
    let v = match value {
        JsonScalar::Null => serde_json::Value::Null,
        JsonScalar::Bool(b) => serde_json::Value::Bool(*b),
        JsonScalar::Number(n) => serde_json::Value::from(*n),
        JsonScalar::Count(n) => serde_json::Value::from(*n),
        JsonScalar::Text(s) => serde_json::Value::String(s.clone()),
    };
    v.to_string()
}

/// Prints an object with `Value::to_string`, which writes the members without white
/// space between them, in ascending order of their names. `Value::get` finds each
/// member again under its name and nothing under another one, and `Value::as_str`
/// gives the text of a member that is a string.
#[verifier::external_body]
fn print_object(fields: &Vec<(String, JsonScalar)>) -> (r: String)
    requires
        ascending_names(field_views(fields@)),
    ensures
        r@ == object_json(field_views(fields@)),
        forall|i: int|
            0 <= i < fields@.len() ==> #[trigger] text_member(r@, fields@[i].0@) == scalar_text(
                fields@[i].1@,
            ),
        forall|name: Seq<char>|
            (forall|i: int| 0 <= i < fields@.len() ==> #[trigger] fields@[i].0@ != name)
                ==> #[trigger] text_member(r@, name) is None,
{
    let convert = |value: &JsonScalar| match value {
        JsonScalar::Null => serde_json::Value::Null,
        JsonScalar::Bool(b) => serde_json::Value::Bool(*b),
        JsonScalar::Number(n) => serde_json::Value::from(*n),
        JsonScalar::Count(n) => serde_json::Value::from(*n),
        JsonScalar::Text(s) => serde_json::Value::String(s.clone()),
    };
    let map = fields.iter().map(|(name, value)| (name.clone(), convert(value))).collect();
    serde_json::Value::Object(map).to_string()
}

// ---------------------------------------------------------------------------
// What is read from JSON text
// ---------------------------------------------------------------------------

/// The text without insignificant white space of the value that `serde_json::from_str`
/// reads from a text; nothing where the text is not JSON.
pub uninterp spec fn json_parse(text: Seq<char>) -> Option<Seq<char>>;

/// The member that `Value::get` finds under a name in the value that a text holds.
pub uninterp spec fn json_get(doc: Seq<char>, name: Seq<char>) -> Option<Seq<char>>;

/// The text that `Value::as_str` finds in the value that a text holds.
pub uninterp spec fn json_str(doc: Seq<char>) -> Option<Seq<char>>;

/// The members that `Value::as_object` finds in the value that a text holds, in the
/// order of the map.
pub uninterp spec fn json_object(doc: Seq<char>) -> Option<Seq<(Seq<char>, Seq<char>)>>;

/// The text of the member of that name, if there is one and it is a string.
pub open spec fn text_member(doc: Seq<char>, name: Seq<char>) -> Option<Seq<char>> {
    match json_get(doc, name) {
        Some(value) => json_str(value),
        None => None,
    }
}

/// Reads a text with `serde_json::from_str`, and gives the text of the value it holds.
#[verifier::external_body]
fn parse_json(text: &str) -> (r: Option<String>)
    ensures
        opt_view(r) == json_parse(text@),
{
    serde_json::from_str::<serde_json::Value>(text).ok().map(|value| value.to_string())
}

/// Looks a member up by `Value::get`, which finds the value under a name of an object
/// and nothing in a value of another kind.
#[verifier::external_body]
fn get_member(doc: &str, name: &str) -> (r: Option<String>)
    ensures
        opt_view(r) == json_get(doc@, name@),
{
    let value: serde_json::Value = serde_json::from_str(doc).ok()?;
    value.get(name).map(|member| member.to_string())
}

/// Reads a string by `Value::as_str`, which gives nothing for a value of another kind.
#[verifier::external_body]
fn read_string(doc: &str) -> (r: Option<String>)
    ensures
        opt_view(r) == json_str(doc@),
{
    let value: serde_json::Value = serde_json::from_str(doc).ok()?;
    value.as_str().map(|text| text.to_string())
}

/// The members of an object, by `Value::as_object`, which gives nothing for a value of
/// another kind.
#[verifier::external_body]
fn read_object(doc: &str) -> (r: Option<Vec<(String, String)>>)
    ensures
        match r {
            Some(members) => json_object(doc@) == Some(pair_views(members@)),
            None => json_object(doc@) is None,
        },
{
    let value: serde_json::Value = serde_json::from_str(doc).ok()?;
    let members = value.as_object()?.iter();
    Some(members.map(|(name, member)| (name.clone(), member.to_string())).collect())
}

/// The texts of a list of pairs of strings.
pub open spec fn pair_views(pairs: Seq<(String, String)>) -> Seq<(Seq<char>, Seq<char>)> {
    Seq::new(pairs.len(), |i: int| (pairs[i].0@, pairs[i].1@))
}

// ---------------------------------------------------------------------------
// Operations
// ---------------------------------------------------------------------------

impl Json {
    /// Reads a JSON text.
    pub fn parse(text: &str) -> (r: Option<Json>)
        ensures
            match r {
                Some(json) => json_parse(text@) == Some(json@),
                None => json_parse(text@) is None,
            },
    {
        match parse_json(text) {
            Some(text) => Some(Json { text }),
            None => None,
        }
    }

    /// A scalar as a JSON value.
    pub fn scalar(value: &JsonScalar) -> (r: Json)
        ensures
            r@ == scalar_json(value@),
            json_str(r@) == scalar_text(value@),
    {
        Json { text: print_scalar(value) }
    }

    /// An object with the given members.
    pub fn object(fields: &Vec<(String, JsonScalar)>) -> (r: Json)
        requires
            ascending_names(field_views(fields@)),
        ensures
            r@ == object_json(field_views(fields@)),
            forall|i: int|
                0 <= i < fields@.len() ==> #[trigger] text_member(r@, fields@[i].0@) == scalar_text(
                    fields@[i].1@,
                ),
            forall|name: Seq<char>|
                (forall|i: int| 0 <= i < fields@.len() ==> #[trigger] fields@[i].0@ != name)
                    ==> #[trigger] text_member(r@, name) is None,
    {
        Json { text: print_object(fields) }
    }

    /// The object without members.
    pub fn empty_object() -> (r: Json)
        ensures
            r@ == seq!['{', '}'],
    {
        let fields: Vec<(String, JsonScalar)> = Vec::new();
        let r = Json::object(&fields);
        assert(r@ =~= seq!['{', '}']);
        r
    }

    /// The same value.
    pub fn copy(&self) -> (r: Json)
        ensures
            r@ == self@,
    {
        Json { text: self.text.clone() }
    }

    /// The text of the value.
    pub fn as_text(&self) -> (r: &str)
        ensures
            r@ == self@,
    {
        self.text.as_str()
    }

    /// The text of the member of that name, if there is one and it is a string.
    pub fn get_text(&self, name: &str) -> (r: Option<String>)
        ensures
            opt_view(r) == text_member(self@, name@),
    {
        match get_member(self.text.as_str(), name) {
            Some(member) => read_string(member.as_str()),
            None => None,
        }
    }

    /// The text of the member of that name, or the given text where there is none.
    pub fn text_or(&self, name: &str, default: &str) -> (r: String)
        ensures
            r@ == (match text_member(self@, name@) {
                Some(text) => text,
                None => default@,
            }),
    {
        match self.get_text(name) {
            Some(text) => text,
            None => default.to_owned(),
        }
    }

    /// The members of the object under a name, each with its text if it is a string.
    pub fn text_entries(&self, name: &str) -> (r: Option<Vec<(String, Option<String>)>>)
        ensures
            match r {
                Some(entries) => text_entries_of(self@, name@) == Some(entry_views(entries@)),
                None => text_entries_of(self@, name@) is None,
            },
    {
        let member = match get_member(self.text.as_str(), name) {
            Some(member) => member,
            None => {
                return None;
            },
        };
        let members = match read_object(member.as_str()) {
            Some(members) => members,
            None => {
                return None;
            },
        };
        let mut out: Vec<(String, Option<String>)> = Vec::new();
        let mut i: usize = 0;
        while i < members.len()
            invariant
                i <= members@.len(),
                out@.len() == i,
                forall|k: int|
                    0 <= k < i ==> #[trigger] out@[k].0@ == members@[k].0@ && opt_view(
                        out@[k].1,
                    ) == json_str(members@[k].1@),
            decreases members@.len() - i,
        {
            let text = read_string(members[i].1.as_str());
            out.push((members[i].0.clone(), text));
            i += 1;
        }
        proof {
            assert(entry_views(out@) =~= texts_of_members(pair_views(members@)));
        }
        Some(out)
    }
}

/// The names of a list of entries, each with its text if it has one.
pub open spec fn entry_views(entries: Seq<(String, Option<String>)>) -> Seq<
    (Seq<char>, Option<Seq<char>>),
> {
    Seq::new(entries.len(), |i: int| (entries[i].0@, opt_view(entries[i].1)))
}

/// The names of members, each with its text if it is a string.
pub open spec fn texts_of_members(members: Seq<(Seq<char>, Seq<char>)>) -> Seq<
    (Seq<char>, Option<Seq<char>>),
> {
    Seq::new(members.len(), |i: int| (members[i].0, json_str(members[i].1)))
}

/// The members of the object under a name, each with its text if it is a string.
pub open spec fn text_entries_of(doc: Seq<char>, name: Seq<char>) -> Option<
    Seq<(Seq<char>, Option<Seq<char>>)>,
> {
    match json_get(doc, name) {
        Some(member) => match json_object(member) {
            Some(members) => Some(texts_of_members(members)),
            None => None,
        },
        None => None,
    }
}

// ---------------------------------------------------------------------------
// Laws
// ---------------------------------------------------------------------------

/// The members of an object are seen as they are, in order, each with its name and its value.
pub proof fn law_fields_seen(fields: Seq<(String, JsonScalar)>)
    ensures
        field_views(fields).len() == fields.len(),
        forall|i: int|
            0 <= i < fields.len() ==> {
                let seen = #[trigger] field_views(fields)[i];
                &&& seen.0 == fields[i].0@
                &&& match fields[i].1 {
                    JsonScalar::Null => seen.1 == ScalarView::Null,
                    JsonScalar::Bool(b) => seen.1 == ScalarView::Bool(b),
                    JsonScalar::Number(n) => seen.1 == ScalarView::Number(n as int),
                    JsonScalar::Count(n) => seen.1 == ScalarView::Number(n as int),
                    JsonScalar::Text(text) => seen.1 == ScalarView::Text(text@),
                }
            },
{
}

/// The entries of the object under a name are its members, in order, each with its text if it
/// is a string.
pub proof fn law_entries(doc: Seq<char>, name: Seq<char>, members: Seq<(Seq<char>, Seq<char>)>)
    requires
        json_get(doc, name) is Some,
        json_object(json_get(doc, name)->0) == Some(members),
    ensures
        text_entries_of(doc, name) is Some,
        text_entries_of(doc, name)->0.len() == members.len(),
        forall|i: int|
            0 <= i < members.len() ==> {
                let entry = #[trigger] text_entries_of(doc, name)->0[i];
                entry.0 == members[i].0 && entry.1 == json_str(members[i].1)
            },
{
}

/// A text is quoted without loss: between the quotes stands what each of its characters is
/// written as, one after the other, and only quotes, backslashes and control characters are
/// written as something else.
pub proof fn law_quoted(a: Seq<char>, b: Seq<char>, c: char)
    ensures
        quoted(a + b) == quoted(a).drop_last() + quoted(b).skip(1),
        c != '"' && c != '\\' && c > '\u{1f}' ==> quoted(seq![c]) == seq!['"', c, '"'],
        quoted(a).len() >= a.len() + 2,
        quoted(a)[0] == '"' && quoted(a).last() == '"',
{
    let one = seq![c];
    assert(one.drop_last() =~= Seq::empty());
    assert(escaped_text(one.drop_last()) =~= Seq::empty());
    assert(escaped_text(one) =~= escaped(c));
    assert(c != '"' && c != '\\' && c > '\u{1f}' ==> quoted(one) =~= seq!['"', c, '"']);
    lemma_escaped_grows(a);
    lemma_escaped_parts(a, b);
    assert(quoted(a + b) =~= quoted(a).drop_last() + quoted(b).skip(1));
}

proof fn lemma_escaped_grows(s: Seq<char>)
    ensures
        escaped_text(s).len() >= s.len(),
    decreases s.len(),
{
    if s.len() > 0 {
        lemma_escaped_grows(s.drop_last());
    }
}

proof fn lemma_escaped_parts(a: Seq<char>, b: Seq<char>)
    ensures
        escaped_text(a + b) == escaped_text(a) + escaped_text(b),
    decreases b.len(),
{
    if b.len() == 0 {
        assert(a + b =~= a);
        assert(escaped_text(a) + escaped_text(b) =~= escaped_text(a));
    } else {
        lemma_escaped_parts(a, b.drop_last());
        assert((a + b).drop_last() =~= a + b.drop_last());
        assert((a + b).last() == b.last());
        assert((escaped_text(a) + escaped_text(b.drop_last())) + escaped(b.last())
            =~= escaped_text(a) + escaped_text(b));
    }
}

} // verus!
