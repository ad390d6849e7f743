//! The library's model of a provider JSON document.
//!
//! Numbers are exact decimals; a number outside the readable window is
//! modelled as `Null`, so the normalizer treats it like an absent
//! field.  Object member access mirrors the provider documents: a
//! missing member reads as `Null`.

use vstd::prelude::*;

use crate::dec::Dec;
use crate::dec::readable;
use crate::strutil::str_eq;

verus! {

/// A JSON value.
pub enum Json {
    Null,
    Bool(bool),
    Num(Dec),
    Str(String),
    Arr(Vec<Json>),
    Obj(Vec<(String, Json)>),
}

/// Every number in the document lies in the readable window.
pub open spec fn json_wf(j: Json) -> bool
    decreases j,
{
    match j {
        Json::Num(d) => readable(d),
        Json::Arr(items) => forall|i: int|
            0 <= i < items.len() ==> json_wf(#[trigger] items[i]),
        Json::Obj(pairs) => forall|i: int|
            0 <= i < pairs.len() ==> json_wf(#[trigger] pairs[i].1),
        _ => true,
    }
}

/// First binding of `key` among object members.
pub open spec fn pairs_lookup(ps: Seq<(String, Json)>, key: Seq<char>) -> Option<Json>
    decreases ps.len(),
{
    if ps.len() == 0 {
        None
    } else if ps[0].0@ == key {
        Some(ps[0].1)
    } else {
        pairs_lookup(ps.drop_first(), key)
    }
}

/// The member `key` of an object, `Null` when the value is not an
/// object or has no such member — exactly how the provider documents
/// are indexed.
pub open spec fn member_of(j: Json, key: Seq<char>) -> Json {
    match j {
        Json::Obj(pairs) => match pairs_lookup(pairs@, key) {
            Some(v) => v,
            None => Json::Null,
        },
        _ => Json::Null,
    }
}

/// The `i`-th element of an array, `Null` otherwise.
pub open spec fn element_of(j: Json, i: int) -> Json {
    match j {
        Json::Arr(items) => if 0 <= i < items.len() {
            items[i]
        } else {
            Json::Null
        },
        _ => Json::Null,
    }
}

/// The decimal held by a number value.
pub open spec fn as_num(j: Json) -> Option<Dec> {
    match j {
        Json::Num(d) => Some(d),
        _ => None,
    }
}

/// The text held by a string value.
pub open spec fn as_text(j: Json) -> Option<Seq<char>> {
    match j {
        Json::Str(s) => Some(s@),
        _ => None,
    }
}

proof fn lemma_pairs_lookup_wf(ps: Seq<(String, Json)>, key: Seq<char>)
    requires
        forall|i: int| 0 <= i < ps.len() ==> json_wf(#[trigger] ps[i].1),
    ensures
        match pairs_lookup(ps, key) {
            Some(v) => json_wf(v),
            None => true,
        },
    decreases ps.len(),
{
    if ps.len() > 0 && !(ps[0].0@ == key) {
        lemma_pairs_lookup_wf(ps.drop_first(), key);
    }
}

/// Well-formedness passes through member access.
pub proof fn lemma_member_wf(j: Json, key: Seq<char>)
    requires
        json_wf(j),
    ensures
        json_wf(member_of(j, key)),
{
    match j {
        Json::Obj(pairs) => {
            lemma_pairs_lookup_wf(pairs@, key);
        },
        _ => {},
    }
}

/// Well-formedness passes through element access.
pub proof fn lemma_element_wf(j: Json, i: int)
    requires
        json_wf(j),
    ensures
        json_wf(element_of(j, i)),
{
}

impl Json {
    /// Looks up a member of an object value; `None` when the value is
    /// not an object or lacks the member.
    pub fn member<'a>(&'a self, key: &str) -> (r: Option<&'a Json>)
        ensures
            match r {
                Some(v) => member_of(*self, key@) == *v,
                None => member_of(*self, key@) == Json::Null,
            },
    {
        match self {
            Json::Obj(pairs) => {
                let n = pairs.len();
                proof {
                    assert(pairs@.skip(0) =~= pairs@);
                }
                let mut i: usize = 0;
                while i < n
                    invariant
                        n == pairs.len(),
                        i <= n,
                        *self == Json::Obj(*pairs),
                        pairs_lookup(pairs@, key@) == pairs_lookup(pairs@.skip(i as int), key@),
                    decreases n - i,
                {
                    proof {
                        assert(pairs@.skip(i as int).len() > 0);
                        assert(pairs@.skip(i as int)[0] == pairs@[i as int]);
                        assert(pairs@.skip(i as int).drop_first() =~= pairs@.skip(i + 1));
                    }
                    if str_eq(pairs[i].0.as_str(), key) {
                        proof {
                            assert(pairs@.skip(i as int)[0].0@ == key@);
                            assert(pairs_lookup(pairs@.skip(i as int), key@) == Some(
                                pairs@[i as int].1,
                            ));
                            assert(pairs_lookup(pairs@, key@) == Some(pairs@[i as int].1));
                            assert(*self == Json::Obj(*pairs));
                            assert(member_of(*self, key@) == pairs@[i as int].1);
                        }
                        return Some(&pairs[i].1);
                    }
                    i = i + 1;
                }
                proof {
                    assert(pairs@.skip(i as int).len() == 0);
                }
                None
            },
            _ => None,
        }
    }

    /// Looks up an element of an array value.
    pub fn element<'a>(&'a self, i: usize) -> (r: Option<&'a Json>)
        ensures
            match r {
                Some(v) => element_of(*self, i as int) == *v,
                None => element_of(*self, i as int) == Json::Null,
            },
    {
        match self {
            Json::Arr(items) => {
                if i < items.len() {
                    Some(&items[i])
                } else {
                    None
                }
            },
            _ => None,
        }
    }
}

} // verus!
