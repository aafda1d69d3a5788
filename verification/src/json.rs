//! What the workers read from a JSON document: texts and numbers at
//! given places.
//!
//! A place is a JSON Pointer: the names and indices on the way from the
//! root, each behind a `/`.

use vstd::prelude::*;
use crate::artifacts::opt_text;
use crate::text::names;

verus! {

/// The text at `pointer` in the JSON document `body`, as `serde_json`
/// parses the document and follows the pointer; `None` where the document
/// does not parse, nothing is at that place, or what is there is no text.
pub uninterp spec fn json_text(body: Seq<char>, pointer: Seq<char>) -> Option<Seq<char>>;

/// Parses `body` with `serde_json::from_str`, follows `pointer` with
/// `Value::pointer` and reads a text with `Value::as_str`. The result
/// depends on the two texts alone.
#[verifier::external_body]
pub(crate) fn text_at(body: &str, pointer: &str) -> (r: Option<String>)
    ensures
        opt_text(r) == json_text(body@, pointer@),
{
    serde_json::from_str::<serde_json::Value>(body).ok()?.pointer(pointer)?.as_str().map(
        |s| s.to_string(),
    )
}

/// The number at `pointer` in the JSON document `body`; `None` where the
/// document does not parse, nothing is at that place, or what is there is
/// no whole number from zero to `u64::MAX`.
pub uninterp spec fn json_number(body: Seq<char>, pointer: Seq<char>) -> Option<u64>;

/// Parses `body` with `serde_json::from_str`, follows `pointer` with
/// `Value::pointer` and reads a number with `Value::as_u64`.
#[verifier::external_body]
pub(crate) fn number_at(body: &str, pointer: &str) -> (r: Option<u64>)
    ensures
        r == json_number(body@, pointer@),
{
    serde_json::from_str::<serde_json::Value>(body).ok()?.pointer(pointer)?.as_u64()
}

/// For each item of the array at `array` in the JSON document `body`, the
/// text at `item` in it, or `None` where there is no text; `None` for the
/// whole where the document does not parse or there is no array.
pub uninterp spec fn json_texts(body: Seq<char>, array: Seq<char>, item: Seq<char>) -> Option<
    Seq<Option<Seq<char>>>,
>;

/// Parses `body` with `serde_json::from_str`, follows `array` with
/// `Value::pointer`, takes the items with `Value::as_array`, and reads
/// from each the text at `item` with `Value::pointer` and `Value::as_str`.
#[verifier::external_body]
pub(crate) fn texts_at(body: &str, array: &str, item: &str) -> (r: Option<Vec<Option<String>>>)
    ensures
        match r {
            Some(v) => json_texts(body@, array@, item@) == Some(optional_texts(v@)),
            None => json_texts(body@, array@, item@) is None,
        },
{
    let root = serde_json::from_str::<serde_json::Value>(body).ok()?;
    Some(
        root.pointer(array)?.as_array()?.iter().map(
            |v| v.pointer(item).and_then(|x| x.as_str()).map(|s| s.to_string()),
        ).collect(),
    )
}

/// For each item of the array at `array` in the JSON document `body`, the
/// whole number at `item` in it, or `None` where there is none that fits
/// in an `i64`; `None` for the whole where the document does not parse or
/// there is no array.
pub uninterp spec fn json_integers(body: Seq<char>, array: Seq<char>, item: Seq<char>) -> Option<
    Seq<Option<i64>>,
>;

/// Parses `body` with `serde_json::from_str`, follows `array` with
/// `Value::pointer`, takes the items with `Value::as_array`, and reads
/// from each the number at `item` with `Value::pointer` and
/// `Value::as_i64`.
#[verifier::external_body]
pub(crate) fn integers_at(body: &str, array: &str, item: &str) -> (r: Option<Vec<Option<i64>>>)
    ensures
        match r {
            Some(v) => json_integers(body@, array@, item@) == Some(v@),
            None => json_integers(body@, array@, item@) is None,
        },
{
    let root = serde_json::from_str::<serde_json::Value>(body).ok()?;
    Some(root.pointer(array)?.as_array()?.iter().map(|v| v.pointer(item).and_then(|x| x.as_i64())).collect())
}

/// The text of each optional text.
pub open spec fn optional_texts(v: Seq<Option<String>>) -> Seq<Option<Seq<char>>> {
    v.map_values(|o: Option<String>| opt_text(o))
}

/// The texts at `item` in the items of the array at `array`, where every
/// item has one.
pub open spec fn column(body: Seq<char>, array: Seq<char>, item: Seq<char>) -> Option<
    Seq<Seq<char>>,
> {
    match json_texts(body, array, item) {
        Some(v) => if forall|i: int| 0 <= i < v.len() ==> (#[trigger] v[i]) is Some {
            Some(v.map_values(|o: Option<Seq<char>>| o->0))
        } else {
            None
        },
        None => None,
    }
}

/// The texts at `item` in the items of the array at `array`, where every
/// item has one.
pub fn required_texts(body: &str, array: &str, item: &str) -> (r: Option<Vec<String>>)
    ensures
        match r {
            Some(v) => column(body@, array@, item@) == Some(names(v@)),
            None => column(body@, array@, item@) is None,
        },
{
    let cells = match texts_at(body, array, item) {
        Some(c) => c,
        None => {
            return None;
        },
    };
    let ghost held = cells@;
    let ghost all = optional_texts(cells@);
    let mut out: Vec<String> = Vec::new();
    for cell in it: cells
        invariant
            it.seq() == held,
            all == optional_texts(held),
            json_texts(body@, array@, item@) == Some(all),
            out@.len() == it.index(),
            forall|i: int| 0 <= i < it.index() ==> all[i] == Some((#[trigger] out@[i])@),
    {
        let ghost i = it.index() as int;
        assert(all[i] == opt_text(cell));
        match cell {
            Some(s) => {
                out.push(s);
            },
            None => {
                assert(!(all[i] is Some));
                return None;
            },
        }
    }
    proof {
        assert forall|i: int| 0 <= i < all.len() implies (#[trigger] all[i]) is Some by {
            assert(all[i] == Some(out@[i]@));
        }
        assert(names(out@) =~= all.map_values(|o: Option<Seq<char>>| o->0));
    }
    Some(out)
}

} // verus!
