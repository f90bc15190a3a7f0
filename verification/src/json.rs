//! Trusted boundary to the JSON parser. Two operations are relied on, each
//! behind one wrapper: parsing a JSON array of strings, and reading the
//! entries of one named object field of a JSON document. What a document
//! parses to is a function of the text alone, so each result is given an
//! uninterpreted name that the wrappers' contracts and their callers'
//! contracts share.

use vstd::prelude::*;
use crate::text::seq_views;

verus! {

/// What parsing `s` as a JSON array of strings yields: the strings in
/// order, or nothing when `s` is not such a document.
pub uninterp spec fn json_string_list(s: Seq<char>) -> Option<Seq<Seq<char>>>;

/// What reading object field `field` of the JSON document `s` yields: for
/// each entry of that object, in order, its key and its value when the
/// value is a string. Nothing when `s` does not parse or `field` is not an
/// object field of it.
pub uninterp spec fn json_field_entries(s: Seq<char>, field: Seq<char>) -> Option<
    Seq<(Seq<char>, Option<Seq<char>>)>,
>;

/// The character sequences of a sequence of key/value entries.
pub open spec fn entries_views(es: Seq<(String, Option<String>)>) -> Seq<
    (Seq<char>, Option<Seq<char>>),
> {
    Seq::new(
        es.len(),
        |i: int|
            (
                es[i].0@,
                match es[i].1 {
                    Some(v) => Some(v@),
                    None => None,
                },
            ),
    )
}

/// Relies on serde_json::from_str::<Vec<String>>: parses a JSON array of
/// strings; the result depends on the text alone.
#[verifier::external_body]
pub(crate) fn parse_string_list(s: &str) -> (r: Option<Vec<String>>)
    ensures
        match r {
            Some(v) => json_string_list(s@) == Some(seq_views(v@)),
            None => json_string_list(s@) is None,
        },
{
    serde_json::from_str::<Vec<String>>(s).ok()
}

/// Relies on serde_json::from_str::<Value>, Value::get, Value::as_object
/// and Value::as_str: parses a JSON document and walks one object field's
/// entries in order; the result depends on the text and field name alone.
#[verifier::external_body]
pub(crate) fn object_field_entries(s: &str, field: &str) -> (r: Option<
    Vec<(String, Option<String>)>,
>)
    ensures
        match r {
            Some(v) => json_field_entries(s@, field@) == Some(entries_views(v@)),
            None => json_field_entries(s@, field@) is None,
        },
{
    let v: serde_json::Value = match serde_json::from_str(s) {
        Ok(v) => v,
        Err(_) => return None,
    };
    let f = match v.get(field) {
        Some(f) => f,
        None => return None,
    };
    let obj = match f.as_object() {
        Some(o) => o,
        None => return None,
    };
    Some(obj.iter().map(|(k, val)| (k.clone(), val.as_str().map(|x| x.to_owned()))).collect())
}

/// Whether an entry with the given key exists.
pub open spec fn entries_contain(es: Seq<(Seq<char>, Option<Seq<char>>)>, key: Seq<char>) -> bool {
    exists|i: int| 0 <= i < es.len() && (#[trigger] es[i]).0 == key
}

/// The value of the first entry with the given key, if that entry holds a
/// string value.
pub open spec fn entries_lookup(
    es: Seq<(Seq<char>, Option<Seq<char>>)>,
    key: Seq<char>,
) -> Option<Seq<char>>
    decreases es.len(),
{
    if es.len() == 0 {
        None
    } else if es[0].0 == key {
        es[0].1
    } else {
        entries_lookup(es.drop_first(), key)
    }
}

/// Whether an entry with key `key` exists among the parsed entries.
pub fn entries_have_key(es: &Vec<(String, Option<String>)>, key: &str) -> (r: bool)
    ensures
        r == entries_contain(entries_views(es@), key@),
{
    let mut i: usize = 0;
    while i < es.len()
        invariant
            i <= es@.len(),
            forall|j: int| 0 <= j < i ==> (#[trigger] entries_views(es@)[j]).0 != key@,
        decreases es@.len() - i,
    {
        if crate::text::str_eq(es[i].0.as_str(), key) {
            proof {
                assert((entries_views(es@)[i as int]).0 == key@);
            }
            return true;
        }
        proof {
            assert((entries_views(es@)[i as int]).0 == es@[i as int].0@);
        }
        i = i + 1;
    }
    false
}

/// Find the first entry with key `key` and return a copy of its string
/// value, if it has one.
pub fn entries_get(es: &Vec<(String, Option<String>)>, key: &str) -> (r: Option<Option<String>>)
    ensures
        match r {
            Some(v) => entries_contain(entries_views(es@), key@) && match v {
                Some(x) => entries_lookup(entries_views(es@), key@) == Some(x@),
                None => entries_lookup(entries_views(es@), key@) is None,
            },
            None => !entries_contain(entries_views(es@), key@),
        },
{
    let ghost evs = entries_views(es@);
    let mut i: usize = 0;
    while i < es.len()
        invariant
            evs == entries_views(es@),
            i <= es@.len(),
            forall|j: int| 0 <= j < i ==> (#[trigger] evs[j]).0 != key@,
        decreases es@.len() - i,
    {
        if crate::text::str_eq(es[i].0.as_str(), key) {
            proof {
                assert((evs[i as int]).0 == key@);
                lemma_entries_lookup_at(evs, key@, i as int);
            }
            let r = match &es[i].1 {
                Some(v) => Some(crate::text::copy_str(v.as_str())),
                None => None,
            };
            proof {
                assert((evs[i as int]).1 == match es@[i as int].1 {
                    Some(v) => Some(v@),
                    None => None::<Seq<char>>,
                });
            }
            return Some(r);
        }
        proof {
            assert((evs[i as int]).0 == es@[i as int].0@);
        }
        i = i + 1;
    }
    None
}

proof fn lemma_entries_lookup_at(es: Seq<(Seq<char>, Option<Seq<char>>)>, key: Seq<char>, i: int)
    requires
        0 <= i < es.len(),
        es[i].0 == key,
        forall|j: int| 0 <= j < i ==> (#[trigger] es[j]).0 != key,
    ensures
        entries_lookup(es, key) == es[i].1,
    decreases i,
{
    if i > 0 {
        lemma_entries_lookup_at(es.drop_first(), key, i - 1);
        assert(forall|j: int| 0 <= j < i - 1 ==> (#[trigger] es.drop_first()[j]).0 == es[j + 1].0);
    }
}

} // verus!
