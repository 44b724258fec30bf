//! Reading JSON documents: `serde_json` parses a text and looks a value up
//! by JSON pointer (RFC 6901). Which values the library reads, and what it
//! makes of them, is decided in verified code: the model's replies, and the
//! arguments of a tool call.
use vstd::prelude::*;
use crate::text::concat2;

verus! {

/// The string that `serde_json` finds at `pointer` in the document `text`.
pub uninterp spec fn json_string_at(text: Seq<char>, pointer: Seq<char>) -> Option<Seq<char>>;

/// Whether `serde_json` finds an array at `pointer` in the document `text`.
pub uninterp spec fn json_array_at(text: Seq<char>, pointer: Seq<char>) -> bool;

/// The message of the error `serde_json` reports for `text`, when `text` is
/// not a JSON document.
pub uninterp spec fn json_error_of(text: Seq<char>) -> Option<Seq<char>>;

/// `serde_json::from_str::<serde_json::Value>`, then `Value::pointer` and
/// `Value::as_str`: the string at `pointer`, or `None` when `text` does not
/// parse, nothing is there, or it is not a string. The result is named, a
/// function of the text and the pointer alone.
#[verifier::external_body]
pub(crate) fn string_at(text: &str, pointer: &str) -> (r: Option<String>)
    ensures
        match r {
            Some(s) => json_string_at(text@, pointer@) == Some(s@),
            None => json_string_at(text@, pointer@) == None::<Seq<char>>,
        },
{
    let v: serde_json::Value = serde_json::from_str(text).ok()?;
    v.pointer(pointer)?.as_str().map(|s| s.to_string())
}

/// `serde_json::from_str::<serde_json::Value>`, then `Value::pointer` and
/// `Value::is_array`: whether an array is at `pointer`. The result is named,
/// a function of the text and the pointer alone.
#[verifier::external_body]
fn array_at(text: &str, pointer: &str) -> (r: bool)
    ensures
        r == json_array_at(text@, pointer@),
{
    match serde_json::from_str::<serde_json::Value>(text) {
        Ok(v) => v.pointer(pointer).map_or(false, |x| x.is_array()),
        Err(_) => false,
    }
}

/// `serde_json::from_str::<serde_json::Value>`: the `Display` text of its
/// error, or `None` when `text` parses. The result is named, a function of
/// the text alone.
#[verifier::external_body]
pub(crate) fn parse_error(text: &str) -> (r: Option<String>)
    ensures
        match r {
            Some(e) => json_error_of(text@) == Some(e@),
            None => json_error_of(text@) == None::<Seq<char>>,
        },
{
    serde_json::from_str::<serde_json::Value>(text).err().map(|e| e.to_string())
}

/// The `content` string of the first choice's `field` object in a chat
/// completion (`choices[0].<field>.content`): `choices` must be an array.
pub open spec fn choice_content(text: Seq<char>, field: Seq<char>) -> Option<Seq<char>> {
    if json_array_at(text, "/choices"@) {
        json_string_at(text, "/choices/0/"@ + field + "/content"@)
    } else {
        None
    }
}

/// Reads `choices[0].<field>.content` out of a chat completion document.
pub fn choice_content_of(text: &str, field: &str) -> (r: Option<String>)
    ensures
        match r {
            Some(s) => choice_content(text@, field@) == Some(s@),
            None => choice_content(text@, field@) == None::<Seq<char>>,
        },
{
    if !array_at(text, "/choices") {
        return None;
    }
    let head = concat2("/choices/0/", field);
    let pointer = concat2(head.as_str(), "/content");
    string_at(text, pointer.as_str())
}

} // verus!
