//! JSON texts and JSON objects.
//!
//! The functions that call `serde_json` are trusted. Which texts are JSON, and
//! what the crate complains about in the others, is a long story, so the outcome
//! of reading a text gets a name here.

use crate::content::read_as;
use vstd::prelude::*;

verus! {

/// A value in a JSON object.
#[derive(Debug)]
pub enum JsonValue {
    Null,
    Text(String),
    Number(u64),
    /// A value that is given by its JSON text.
    Json(String),
}

/// What a [`JsonValue`] says.
pub enum JsonValueView {
    Null,
    Text(Seq<char>),
    Number(u64),
    Json(Seq<char>),
}

impl DeepView for JsonValue {
    type V = JsonValueView;

    open spec fn deep_view(&self) -> JsonValueView {
        match *self {
            JsonValue::Null => JsonValueView::Null,
            JsonValue::Text(text) => JsonValueView::Text(text@),
            JsonValue::Number(number) => JsonValueView::Number(number),
            JsonValue::Json(json) => JsonValueView::Json(json@),
        }
    }
}

/// The members of a JSON object, each key with its value.
pub type JsonObject = Vec<(String, JsonValue)>;

/// No key occurs twice, so that the order of the members does not matter.
pub open spec fn distinct_keys(members: Seq<(Seq<char>, JsonValueView)>) -> bool {
    forall|i: int, j: int|
        0 <= i < j < members.len() ==> #[trigger] members[i].0 != #[trigger] members[j].0
}

/// The character is whitespace between the tokens of a JSON text.
pub open spec fn json_space(c: char) -> bool {
    c == ' ' || c == '\t' || c == '\n' || c == '\r'
}

/// The text without the whitespace around it.
pub open spec fn trimmed(text: Seq<char>) -> Seq<char>
    decreases text.len(),
{
    if text.len() == 0 {
        text
    } else if json_space(text[0]) {
        trimmed(text.drop_first())
    } else if json_space(text.last()) {
        trimmed(text.drop_last())
    } else {
        text
    }
}

/// The JSON text itself, [`trimmed`], or the complaint of `serde_json` where the
/// text is no JSON.
pub uninterp spec fn raw_of(text: Seq<char>) -> Result<Seq<char>, Seq<char>>;

/// Trusted: `serde_json::from_str`, as a `serde_json::value::RawValue`, which
/// is what a raw event content of `ruma` wraps. The outcome is [`raw_of`] the
/// text; where it succeeds, it gives the text without the whitespace around it.
#[verifier::external_body]
pub(crate) fn raw_json(text: &str) -> (outcome: Result<String, String>)
    ensures
        read_as(outcome) == raw_of(text@),
        outcome is Ok ==> outcome->Ok_0@ == trimmed(text@),
{
    match serde_json::from_str::<Box<serde_json::value::RawValue>>(text) {
        Ok(value) => Ok(value.get().to_owned()),
        Err(error) => Err(error.to_string()),
    }
}

/// The text is JSON without whitespace around it: what is read from it is the
/// text itself.
pub open spec fn reads_as_itself(json: Seq<char>) -> bool {
    trimmed(json) == json && raw_of(json) == Ok::<Seq<char>, Seq<char>>(json)
}

/// The text in which `serde_json` writes down what it reads from a JSON text,
/// without insignificant whitespace, or its complaint where the text is no
/// JSON.
pub uninterp spec fn compact_of(text: Seq<char>) -> Result<Seq<char>, Seq<char>>;

/// Trusted: `serde_json::from_str`, as a `serde_json::Value`, which is then
/// written down as a text. The outcome is [`compact_of`] the text; where it
/// succeeds, it gives a JSON text that [`reads_as_itself`].
#[verifier::external_body]
pub(crate) fn compact_json(text: &str) -> (outcome: Result<String, String>)
    ensures
        read_as(outcome) == compact_of(text@),
        outcome is Ok ==> reads_as_itself(outcome->Ok_0@),
{
    match serde_json::from_str::<serde_json::Value>(text) {
        Ok(value) => Ok(value.to_string()),
        Err(error) => Err(error.to_string()),
    }
}

/// The hexadecimal digit, in lower case.
pub open spec fn hex_digit(value: u32) -> char {
    if value < 10 {
        ('0' as u32 + value) as char
    } else {
        ('a' as u32 + (value - 10)) as char
    }
}

/// The character as it stands in a JSON string: quotes, backslashes and control
/// characters are escaped.
pub open spec fn escaped(c: char) -> Seq<char> {
    if c == '"' {
        seq!['\\', '"']
    } else if c == '\\' {
        seq!['\\', '\\']
    } else if c as u32 == 8 {
        seq!['\\', 'b']
    } else if c as u32 == 9 {
        seq!['\\', 't']
    } else if c as u32 == 10 {
        seq!['\\', 'n']
    } else if c as u32 == 12 {
        seq!['\\', 'f']
    } else if c as u32 == 13 {
        seq!['\\', 'r']
    } else if (c as u32) < 32 {
        seq!['\\', 'u', '0', '0', hex_digit(c as u32 / 16), hex_digit(c as u32 % 16)]
    } else {
        seq![c]
    }
}

/// The characters, [`escaped`] one by one.
pub open spec fn all_escaped(text: Seq<char>) -> Seq<char>
    decreases text.len(),
{
    if text.len() == 0 {
        Seq::empty()
    } else {
        all_escaped(text.drop_last()) + escaped(text.last())
    }
}

/// The text as a JSON string, in quotes and with escapes.
pub open spec fn quoted(text: Seq<char>) -> Seq<char> {
    seq!['"'] + all_escaped(text) + seq!['"']
}

/// Trusted: how `serde_json` writes down a `serde_json::Value::String`. The
/// result is the text [`quoted`].
#[verifier::external_body]
pub(crate) fn quote(text: &str) -> (json: String)
    ensures
        json@ == quoted(text@),
{
    serde_json::Value::String(text.to_owned()).to_string()
}

} // verus!
