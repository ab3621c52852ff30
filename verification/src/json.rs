//! JSON text: what `serde_json` writes for strings and values, and how a
//! record frames its entries into one object on one line.

use vstd::prelude::*;
use vstd::string::*;

verus! {

/// `serde_json::Value`, a JSON value that is carried through as it is.
#[verifier::external_type_specification]
#[verifier::external_body]
pub struct ExJsonValue(serde_json::Value);

/// `serde_json::Error`, the reason for which `serde_json` gave up on a value.
#[verifier::external_type_specification]
#[verifier::external_body]
pub struct ExJsonError(serde_json::Error);

/// The JSON string literal that `serde_json::to_string` writes for a string,
/// quotes and escapes included; `None` where it reports an error.
pub uninterp spec fn json_string_text(text: Seq<char>) -> Option<Seq<char>>;

/// The compact JSON text that `serde_json::to_string` writes for a value;
/// `None` where it reports an error.
pub uninterp spec fn json_value_text(value: serde_json::Value) -> Option<Seq<char>>;

/// The characters of a JSON value that is a string, as `Value::as_str` gives
/// them; `None` for every other kind of value.
pub uninterp spec fn json_string_content(value: serde_json::Value) -> Option<Seq<char>>;

/// Calls `serde_json::to_string` on a string. The call is a function of the
/// string alone: it succeeds exactly where `json_string_text` is defined, and
/// then returns that text. Nothing is claimed about what the text holds.
#[verifier::external_body]
pub(crate) fn encode_str(text: &str) -> (r: Result<String, serde_json::Error>)
    ensures
        match r {
            Ok(s) => json_string_text(text@) == Some(s@),
            Err(_) => json_string_text(text@) is None,
        },
{
    serde_json::to_string(text)
}

/// Calls `serde_json::to_string` on a JSON value. The call is a function of
/// the value alone: it succeeds exactly where `json_value_text` is defined,
/// and then returns that text. Nothing is claimed about what the text holds.
#[verifier::external_body]
pub(crate) fn encode_value(value: &serde_json::Value) -> (r: Result<String, serde_json::Error>)
    ensures
        match r {
            Ok(s) => json_value_text(*value) == Some(s@),
            Err(_) => json_value_text(*value) is None,
        },
{
    serde_json::to_string(value)
}

/// Calls `serde_json::Value::as_str`, which hands out the characters of a
/// string value and `None` for any other value.
#[verifier::external_body]
pub(crate) fn value_as_str(value: &serde_json::Value) -> (r: Option<&str>)
    ensures
        match r {
            Some(s) => json_string_content(*value) == Some(s@),
            None => json_string_content(*value) is None,
        },
{
    value.as_str()
}

/// Calls `Clone::clone` on a JSON value. `serde_json` derives it, so the
/// copy is the same value.
#[verifier::external_body]
pub(crate) fn clone_value(value: &serde_json::Value) -> (r: serde_json::Value)
    ensures
        r == *value,
{
    value.clone()
}

/// The parts joined into one text, with `sep` between neighbours.
pub open spec fn join(parts: Seq<Seq<char>>, sep: Seq<char>) -> Seq<char>
    decreases parts.len(),
{
    if parts.len() == 0 {
        Seq::empty()
    } else if parts.len() == 1 {
        parts[0]
    } else {
        join(parts.drop_last(), sep) + sep + parts.last()
    }
}

/// A JSON object in compact form: the entries between braces, separated by
/// commas.
pub open spec fn object_text(entries: Seq<Seq<char>>) -> Seq<char> {
    "{"@ + join(entries, ","@) + "}"@
}

/// One entry of an object: the key's literal, a colon, the value's text.
pub open spec fn entry_text(key: Seq<char>, value: Seq<char>) -> Seq<char> {
    key + ":"@ + value
}

/// Frames one entry from the key's literal and the value's text.
pub fn frame_entry(key: &str, value: &str) -> (r: String)
    ensures
        r@ == entry_text(key@, value@),
{
    let mut out = String::from_str(key);
    out.append(":");
    out.append(value);
    out
}

/// The view of a list of strings: the characters of each.
pub open spec fn texts(parts: Seq<String>) -> Seq<Seq<char>> {
    Seq::new(parts.len(), |i: int| parts[i]@)
}

/// Frames already encoded entries into one compact JSON object.
pub fn frame_object(entries: &Vec<String>) -> (r: String)
    ensures
        r@ == object_text(texts(entries@)),
{
    let mut out = String::from_str("{");
    let mut i: usize = 0;
    while i < entries.len()
        invariant
            i <= entries@.len(),
            out@ == "{"@ + join(texts(entries@).take(i as int), ","@),
        decreases entries@.len() - i,
    {
        let ghost before = texts(entries@).take(i as int);
        let ghost after = texts(entries@).take(i + 1);
        assert(after.drop_last() =~= before);
        assert(after.last() == entries@[i as int]@);
        if i > 0 {
            out.append(",");
        }
        out.append(entries[i].as_str());
        proof {
            if i == 0 {
                assert(before =~= Seq::<Seq<char>>::empty());
                assert(out@ =~= "{"@ + join(after, ","@));
            } else {
                assert(out@ =~= "{"@ + join(after, ","@));
            }
        }
        i += 1;
    }
    assert(texts(entries@).take(i as int) =~= texts(entries@));
    out.append("}");
    out
}

} // verus!
