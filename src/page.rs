//! The three fields of a stored page that the sweep reads: the upstream total
//! `count`, the `link` of an entry of `list`, and the `next` link. A page is
//! JSON text; serde_json parses it.
use vstd::prelude::*;

verus! {

/// The `count` field of the JSON object in `text`, where `text` parses and the
/// field is an unsigned integer.
pub uninterp spec fn count_field(text: Seq<char>) -> Option<u64>;

/// The `link` string of entry `index` of the `list` array of the JSON object in
/// `text`, where all of these are present.
pub uninterp spec fn link_field(text: Seq<char>, index: nat) -> Option<Seq<char>>;

/// The `next` string of the JSON object in `text`, where present and a string
/// (a `null` link reads as absent).
pub uninterp spec fn next_field(text: Seq<char>) -> Option<Seq<char>>;

/// Relies on serde_json::from_str, Value::get and Value::as_u64: the result
/// depends on the text alone.
#[verifier::external_body]
pub(crate) fn read_count(text: &str) -> (r: Option<u64>)
    ensures
        r == count_field(text@),
{
    let v: serde_json::Value = serde_json::from_str(text).ok()?;
    v.get("count")?.as_u64()
}

/// Relies on serde_json::from_str, Value::get and Value::as_str: the result
/// depends on the text and the index alone (an index past `usize` is past
/// the end of any array).
#[verifier::external_body]
pub(crate) fn read_link(text: &str, index: u64) -> (r: Option<String>)
    ensures
        r matches Some(l) ==> link_field(text@, index as nat) == Some(l@),
        r is None ==> link_field(text@, index as nat) is None,
{
    let v: serde_json::Value = serde_json::from_str(text).ok()?;
    let index = usize::try_from(index).ok()?;
    v.get("list")?.get(index)?.get("link")?.as_str().map(String::from)
}

/// Relies on serde_json::from_str, Value::get and Value::as_str: the result
/// depends on the text alone.
#[verifier::external_body]
pub(crate) fn read_next(text: &str) -> (r: Option<String>)
    ensures
        r matches Some(l) ==> next_field(text@) == Some(l@),
        r is None ==> next_field(text@) is None,
{
    let v: serde_json::Value = serde_json::from_str(text).ok()?;
    v.get("next")?.as_str().map(String::from)
}

} // verus!
