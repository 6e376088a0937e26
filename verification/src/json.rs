//! The JSON value model.
//!
//! `Json` is the executable representation of a JSON document; `JsonVal`
//! is its mathematical model, with sequences in place of vectors and
//! strings.  Numbers are carried as their literal decimal text, so that a
//! value decoded from a line can be echoed back without loss; the
//! protocol core never does arithmetic on them.

use vstd::prelude::*;

verus! {

/// A JSON value. Object members keep their textual order; a lookup takes
/// the first member with a matching key.
#[derive(Debug, PartialEq)]
pub enum Json {
    Null,
    Bool(bool),
    /// A number, as the literal text that matches the JSON number grammar.
    Num(String),
    Str(String),
    Arr(Vec<Json>),
    Obj(Vec<(String, Json)>),
}

/// The mathematical model of a JSON value.
#[verifier::ext_equal]
pub enum JsonVal {
    Null,
    Bool(bool),
    Num(Seq<char>),
    Str(Seq<char>),
    Arr(Seq<JsonVal>),
    Obj(Seq<(Seq<char>, JsonVal)>),
}

pub open spec fn view_json(j: Json) -> JsonVal
    decreases j,
{
    match j {
        Json::Null => JsonVal::Null,
        Json::Bool(b) => JsonVal::Bool(b),
        Json::Num(t) => JsonVal::Num(t@),
        Json::Str(s) => JsonVal::Str(s@),
        Json::Arr(items) => JsonVal::Arr(view_items(items@)),
        Json::Obj(members) => JsonVal::Obj(view_members(members@)),
    }
}

pub open spec fn view_items(s: Seq<Json>) -> Seq<JsonVal>
    decreases s,
{
    if s.len() == 0 {
        Seq::empty()
    } else {
        seq![view_json(s[0])] + view_items(s.subrange(1, s.len() as int))
    }
}

pub open spec fn view_members(s: Seq<(String, Json)>) -> Seq<(Seq<char>, JsonVal)>
    decreases s,
{
    if s.len() == 0 {
        Seq::empty()
    } else {
        seq![(s[0].0@, view_json(s[0].1))] + view_members(s.subrange(1, s.len() as int))
    }
}

impl View for Json {
    type V = JsonVal;

    open spec fn view(&self) -> JsonVal {
        view_json(*self)
    }
}

/// The views of a sequence of values, element by element.
pub proof fn lemma_view_items_index(s: Seq<Json>)
    ensures
        view_items(s).len() == s.len(),
        forall|i: int| #![trigger view_items(s)[i]] #![trigger s[i]]
            0 <= i < s.len() ==> view_items(s)[i] == view_json(s[i]),
    decreases s.len(),
{
    if s.len() > 0 {
        lemma_view_items_index(s.subrange(1, s.len() as int));
        assert forall|i: int| 0 <= i < s.len() implies view_items(s)[i] == view_json(#[trigger] s[i]) by {
            if i > 0 {
                assert(s.subrange(1, s.len() as int)[i - 1] == s[i]);
            }
        }
    }
}

/// The views of a sequence of object members, member by member.
pub proof fn lemma_view_members_index(s: Seq<(String, Json)>)
    ensures
        view_members(s).len() == s.len(),
        forall|i: int| #![trigger view_members(s)[i]] #![trigger s[i]]
            0 <= i < s.len() ==> view_members(s)[i] == (s[i].0@, view_json(s[i].1)),
    decreases s.len(),
{
    if s.len() > 0 {
        lemma_view_members_index(s.subrange(1, s.len() as int));
        assert forall|i: int| 0 <= i < s.len() implies view_members(s)[i]
            == ((#[trigger] s[i]).0@, view_json(s[i].1)) by {
            if i > 0 {
                assert(s.subrange(1, s.len() as int)[i - 1] == s[i]);
            }
        }
    }
}

/// A deep copy of `j`, with the same view.
#[verifier::loop_isolation(false)]
pub fn clone_json(j: &Json) -> (r: Json)
    ensures
        r@ == j@,
    decreases *j,
{
    match j {
        Json::Null => Json::Null,
        Json::Bool(b) => Json::Bool(*b),
        Json::Num(t) => Json::Num(t.clone()),
        Json::Str(s) => Json::Str(s.clone()),
        Json::Arr(items) => {
            let mut out: Vec<Json> = Vec::new();
            let mut i: usize = 0;
            while i < items.len()
                invariant
                    i <= items@.len(),
                    out@.len() == i,
                    forall|k: int| 0 <= k < i ==> view_json(#[trigger] out@[k])
                        == view_json(items@[k]),
                decreases items@.len() - i,
            {
                let c = clone_json(&items[i]);
                out.push(c);
                i = i + 1;
            }
            proof {
                lemma_view_items_index(out@);
                lemma_view_items_index(items@);
                assert forall|k: int| 0 <= k < out@.len() implies view_items(out@)[k]
                    == view_items(items@)[k] by {
                    assert(view_items(out@)[k] == view_json(out@[k]));
                    assert(view_items(items@)[k] == view_json(items@[k]));
                }
                assert(view_items(out@) =~= view_items(items@));
            }
            Json::Arr(out)
        },
        Json::Obj(ms) => {
            let mut out: Vec<(String, Json)> = Vec::new();
            let mut i: usize = 0;
            while i < ms.len()
                invariant
                    i <= ms@.len(),
                    out@.len() == i,
                    forall|k: int| 0 <= k < i ==> (#[trigger] out@[k]).0@ == ms@[k].0@
                        && view_json(out@[k].1) == view_json(ms@[k].1),
                decreases ms@.len() - i,
            {
                proof {
                    assert(decreases_to!(ms => ms[i as int]));
                    assert(decreases_to!(ms@[i as int] => ms@[i as int].1));
                }
                let k = ms[i].0.clone();
                let v = clone_json(&ms[i].1);
                out.push((k, v));
                i = i + 1;
            }
            proof {
                lemma_view_members_index(out@);
                lemma_view_members_index(ms@);
                assert forall|k: int| 0 <= k < out@.len() implies view_members(out@)[k]
                    == view_members(ms@)[k] by {
                    assert(view_members(out@)[k] == (out@[k].0@, view_json(out@[k].1)));
                    assert(view_members(ms@)[k] == (ms@[k].0@, view_json(ms@[k].1)));
                }
                assert(view_members(out@) =~= view_members(ms@));
            }
            Json::Obj(out)
        },
    }
}

} // verus!
