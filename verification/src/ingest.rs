//! Bringing provider text into the document model.
//!
//! serde_json parses the raw body; the parsed value is then folded,
//! bounded by a depth budget, into the library's [`Json`] model, with
//! each number read exactly from its decimal text.
//!
//! The bridge is specified through a content model: `json_doc_of`
//! names what serde_json reads out of a text, `content_of` names what
//! a parsed value holds, the accessor wrappers state their results
//! over that model, and `json_matches_content` pins the verified fold
//! against it — so the document a station works on is tied, clause by
//! clause, to the text that was fetched.

use vstd::prelude::*;

use crate::dec_text::parse_dec;
use crate::dec_text::spec_parse_dec;
use crate::json::Json;
use crate::json::json_wf;

verus! {

/// Declares serde_json::Value, the parsed-document type the wrappers
/// below take apart; opaque here, described only through `content_of`.
#[verifier::external_type_specification]
#[verifier::external_body]
pub struct ExJsonValue(serde_json::Value);

/// The content of a parsed JSON value: the exact tree it holds, with
/// each number as the decimal text serde_json prints for it.
pub enum JsonContent {
    Null,
    Bool(bool),
    Num(String),
    Str(String),
    Arr(Vec<JsonContent>),
    Obj(Vec<(String, JsonContent)>),
}

/// What a `serde_json::Value` holds.  The accessor wrappers below
/// state their results over this one model, so together they tie every
/// fold of a value to its content.
pub uninterp spec fn content_of(v: serde_json::Value) -> JsonContent;

/// What serde_json reads out of a text: `None` exactly when the text
/// is not a JSON document, else the parsed document's content.  The
/// parse depends on the text alone.
pub uninterp spec fn json_doc_of(s: Seq<char>) -> Option<JsonContent>;

/// Relies on serde_json::from_str::<Value>: deterministic in its
/// input, succeeding exactly on text it reads as a JSON document.
#[verifier::external_body]
fn parse_json_document(s: &str) -> (r: Option<serde_json::Value>)
    ensures
        r is Some <==> json_doc_of(s@) is Some,
        match r {
            Some(v) => Some(content_of(v)) == json_doc_of(s@),
            None => json_doc_of(s@) is None,
        },
{
    serde_json::from_str(s).ok()
}

/// Relies on serde_json::Value::is_null: true of the null value alone.
#[verifier::external_body]
fn value_is_null(v: &serde_json::Value) -> (r: bool)
    ensures
        r == (content_of(*v) is Null),
{
    v.is_null()
}

/// Relies on serde_json::Value::as_bool: the held boolean, of a
/// boolean value alone.
#[verifier::external_body]
fn value_as_bool(v: &serde_json::Value) -> (r: Option<bool>)
    ensures
        r == (match content_of(*v) {
            JsonContent::Bool(b) => Some(b),
            _ => None::<bool>,
        }),
{
    v.as_bool()
}

/// Relies on serde_json::Value::as_str: the held text, of a string
/// value alone.
#[verifier::external_body]
fn value_as_text(v: &serde_json::Value) -> (r: Option<String>)
    ensures
        match r {
            Some(t) => content_of(*v) matches JsonContent::Str(s) && t@ == s@,
            None => !(content_of(*v) is Str),
        },
{
    v.as_str().map(|s| s.to_owned())
}

/// Relies on the Display form of serde_json::Number: the decimal text
/// that reads back as the same number, of a number value alone.
#[verifier::external_body]
fn value_number_text(v: &serde_json::Value) -> (r: Option<String>)
    ensures
        match r {
            Some(t) => content_of(*v) matches JsonContent::Num(s) && t@ == s@,
            None => !(content_of(*v) is Num),
        },
{
    match v {
        serde_json::Value::Number(n) => Some(format!("{}", n)),
        _ => None,
    }
}

/// Relies on serde_json::Value::as_array: the held elements in order,
/// of an array value alone.
#[verifier::external_body]
fn value_array_items(v: &serde_json::Value) -> (r: Option<Vec<serde_json::Value>>)
    ensures
        match r {
            Some(items) => content_of(*v) matches JsonContent::Arr(cs) && items@.len()
                == cs@.len() && forall|i: int|
                0 <= i < items@.len() ==> content_of(#[trigger] items@[i]) == cs@[i],
            None => !(content_of(*v) is Arr),
        },
{
    v.as_array().map(|items| items.clone())
}

/// Relies on serde_json::Value::as_object: the members in the map's
/// order, each key bound once, of an object value alone.
#[verifier::external_body]
fn value_object_pairs(v: &serde_json::Value) -> (r: Option<Vec<(String, serde_json::Value)>>)
    ensures
        match r {
            Some(pairs) => content_of(*v) matches JsonContent::Obj(cs) && pairs@.len()
                == cs@.len() && forall|i: int|
                0 <= i < pairs@.len() ==> (#[trigger] pairs@[i]).0@ == cs@[i].0@ && content_of(
                    pairs@[i].1,
                ) == cs@[i].1,
            None => !(content_of(*v) is Obj),
        },
{
    v.as_object().map(|m| m.iter().map(|(k, x)| (k.clone(), x.clone())).collect())
}

/// How the fold reads a content tree, to a depth budget: numbers
/// through the exact decimal parser (an unreadable one as `Null`), and
/// anything deeper than the budget as `Null`.
pub open spec fn json_matches_content(j: Json, c: JsonContent, fuel: nat) -> bool
    decreases fuel,
{
    if fuel == 0 {
        j == Json::Null
    } else {
        match c {
            JsonContent::Null => j == Json::Null,
            JsonContent::Bool(b) => j == Json::Bool(b),
            JsonContent::Num(txt) => match spec_parse_dec(txt@) {
                Some(d) => j == Json::Num(d),
                None => j == Json::Null,
            },
            JsonContent::Str(s) => match j {
                Json::Str(t) => t@ == s@,
                _ => false,
            },
            JsonContent::Arr(cs) => match j {
                Json::Arr(items) => items@.len() == cs@.len() && forall|i: int|
                    0 <= i < items@.len() ==> json_matches_content(
                        #[trigger] items@[i],
                        cs@[i],
                        (fuel - 1) as nat,
                    ),
                _ => false,
            },
            JsonContent::Obj(ps) => match j {
                Json::Obj(qs) => qs@.len() == ps@.len() && forall|i: int|
                    0 <= i < qs@.len() ==> (#[trigger] qs@[i]).0@ == ps@[i].0@
                        && json_matches_content(qs@[i].1, ps@[i].1, (fuel - 1) as nat),
                _ => false,
            },
        }
    }
}

/// Folds a parsed value into the document model, to a bounded depth:
/// the result reads the value's content exactly as
/// `json_matches_content` states.
pub fn json_from_value(v: &serde_json::Value, fuel: u32) -> (r: Json)
    ensures
        json_wf(r),
        json_matches_content(r, content_of(*v), fuel as nat),
    decreases fuel,
{
    let ghost c = content_of(*v);
    if fuel == 0 {
        return Json::Null;
    }
    if value_is_null(v) {
        return Json::Null;
    }
    if let Some(b) = value_as_bool(v) {
        return Json::Bool(b);
    }
    if let Some(t) = value_number_text(v) {
        return match parse_dec(t.as_str()) {
            Some(d) => Json::Num(d),
            None => Json::Null,
        };
    }
    if let Some(s) = value_as_text(v) {
        return Json::Str(s);
    }
    if let Some(items) = value_array_items(v) {
        let ghost cs = c->Arr_0;
        let n = items.len();
        let mut out: Vec<Json> = Vec::new();
        let mut i: usize = 0;
        while i < n
            invariant
                n == items.len(),
                i <= n,
                out.len() == i,
                fuel >= 1,
                c == content_of(*v),
                c matches JsonContent::Arr(inner) && inner == cs,
                cs@.len() == n,
                forall|k: int|
                    0 <= k < items@.len() ==> content_of(#[trigger] items@[k]) == cs@[k],
                forall|k: int| 0 <= k < out.len() ==> json_wf(#[trigger] out[k]),
                forall|k: int|
                    0 <= k < out.len() ==> json_matches_content(
                        #[trigger] out[k],
                        cs@[k],
                        (fuel - 1) as nat,
                    ),
            decreases n - i,
        {
            let child = json_from_value(&items[i], fuel - 1);
            out.push(child);
            i = i + 1;
        }
        return Json::Arr(out);
    }
    if let Some(pairs) = value_object_pairs(v) {
        let ghost cs = c->Obj_0;
        let n = pairs.len();
        let mut out: Vec<(String, Json)> = Vec::new();
        let mut i: usize = 0;
        while i < n
            invariant
                n == pairs.len(),
                i <= n,
                out.len() == i,
                fuel >= 1,
                c == content_of(*v),
                c matches JsonContent::Obj(inner) && inner == cs,
                cs@.len() == n,
                forall|k: int|
                    0 <= k < pairs@.len() ==> (#[trigger] pairs@[k]).0@ == cs@[k].0@
                        && content_of(pairs@[k].1) == cs@[k].1,
                forall|k: int| 0 <= k < out.len() ==> json_wf(#[trigger] out[k].1),
                forall|k: int|
                    0 <= k < out.len() ==> (#[trigger] out[k]).0@ == cs@[k].0@
                        && json_matches_content(out[k].1, cs@[k].1, (fuel - 1) as nat),
            decreases n - i,
        {
            let child = json_from_value(&pairs[i].1, fuel - 1);
            let key = pairs[i].0.clone();
            out.push((key, child));
            i = i + 1;
        }
        return Json::Obj(out);
    }
    proof {
        // every variant of the content model is claimed by one of the
        // accessors above, so no value reaches this point
        assert(false);
    }
    Json::Null
}

/// The depth budget the ingest functions fold documents with: deeper
/// nesting than this reads as `Null`.
pub const FOLD_DEPTH: u32 = 64;

/// Parses raw provider text into the document model: `None` exactly
/// when serde_json does not read the text as JSON, else the fold of
/// the document the text holds.
pub fn json_from_text(s: &str) -> (r: Option<Json>)
    ensures
        r is Some <==> json_doc_of(s@) is Some,
        match r {
            Some(doc) => json_wf(doc) && (json_doc_of(s@) matches Some(c)
                && json_matches_content(doc, c, FOLD_DEPTH as nat)),
            None => true,
        },
{
    match parse_json_document(s) {
        Some(v) => Some(json_from_value(&v, FOLD_DEPTH)),
        None => None,
    }
}

} // verus!
