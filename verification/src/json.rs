//! A JSON value as the library holds it: what a serde parser produced, with numbers kept as
//! the text JSON writes them in, and objects as their members in the order the parsed map
//! iterates them.

use vstd::prelude::*;

use crate::text::str_eq;

verus! {

/// A JSON value. An object's members are in the order the parsed map iterates them (by key,
/// each key once).
#[derive(Debug)]
pub enum Json {
    Null,
    Bool(bool),
    /// A number, as JSON text.
    Num(String),
    Str(String),
    Arr(Vec<Json>),
    Obj(Vec<(String, Json)>),
}

/// The value a [`Json`] stands for.
pub enum JsonV {
    Null,
    Bool(bool),
    Num(Seq<char>),
    Str(Seq<char>),
    Arr(Seq<JsonV>),
    Obj(Seq<(Seq<char>, JsonV)>),
}

pub open spec fn jv(j: Json) -> JsonV
    decreases j,
{
    match j {
        Json::Null => JsonV::Null,
        Json::Bool(b) => JsonV::Bool(b),
        Json::Num(t) => JsonV::Num(t@),
        Json::Str(s) => JsonV::Str(s@),
        Json::Arr(a) => JsonV::Arr(
            Seq::new(a@.len(), |i: int| if 0 <= i < a@.len() { jv(a@[i]) } else { JsonV::Null }),
        ),
        Json::Obj(m) => JsonV::Obj(
            Seq::new(
                m@.len(),
                |i: int| if 0 <= i < m@.len() { (m@[i].0@, jv(m@[i].1)) } else { (Seq::empty(), JsonV::Null) },
            ),
        ),
    }
}

impl Json {
    /// A copy of the value.
    pub fn copy(&self) -> (r: Json)
        ensures
            jv(r) == jv(*self),
        decreases self,
    {
        match self {
            Json::Null => Json::Null,
            Json::Bool(b) => Json::Bool(*b),
            Json::Num(t) => Json::Num(t.clone()),
            Json::Str(s) => Json::Str(s.clone()),
            Json::Arr(a) => {
                let mut out: Vec<Json> = Vec::new();
                let mut i: usize = 0;
                while i < a.len()
                    invariant
                        i <= a@.len(),
                        *self == Json::Arr(*a),
                        out@.len() == i,
                        forall|k: int| 0 <= k < i ==> jv(#[trigger] out@[k]) == jv(a@[k]),
                    decreases a@.len() - i,
                {
                    proof {
                        assert(decreases_to!(*self => self->Arr_0));
                        assert(decreases_to!(*a => a@));
                        assert(decreases_to!(a@ => a@[i as int]));
                        assert(decreases_to!(*self => a@[i as int]));
                    }
                    out.push(a[i].copy());
                    i = i + 1;
                }
                proof {
                    assert(jv(Json::Arr(out)) == jv(*self)) by {
                        assert(jv(Json::Arr(out))->Arr_0 =~= jv(*self)->Arr_0);
                    }
                }
                Json::Arr(out)
            },
            Json::Obj(m) => {
                let mut out: Vec<(String, Json)> = Vec::new();
                let mut i: usize = 0;
                while i < m.len()
                    invariant
                        i <= m@.len(),
                        *self == Json::Obj(*m),
                        out@.len() == i,
                        forall|k: int| 0 <= k < i ==> (#[trigger] out@[k]).0@ == m@[k].0@ && jv(out@[k].1) == jv(m@[k].1),
                    decreases m@.len() - i,
                {
                    let (key, val) = &m[i];
                    proof {
                        assert(decreases_to!(*self => self->Obj_0));
                        assert(decreases_to!(*m => m@));
                        assert(decreases_to!(m@ => m@[i as int]));
                        assert(decreases_to!(m@[i as int] => m@[i as int].1));
                        assert(decreases_to!(*self => m@[i as int].1));
                    }
                    out.push((key.clone(), val.copy()));
                    i = i + 1;
                }
                proof {
                    assert(jv(Json::Obj(out)) == jv(*self)) by {
                        assert(jv(Json::Obj(out))->Obj_0 =~= jv(*self)->Obj_0);
                    }
                }
                Json::Obj(out)
            },
        }
    }
}


// ── Reading a value ───────────────────────────────────────────────────────────

/// The value under `k` in an object's members: the first member with that key.
pub open spec fn member_in(m: Seq<(Seq<char>, JsonV)>, k: Seq<char>) -> Option<JsonV>
    decreases m.len(),
{
    if m.len() == 0 {
        None
    } else if m[0].0 == k {
        Some(m[0].1)
    } else {
        member_in(m.drop_first(), k)
    }
}

/// `Value::get`: an object's member, `None` for anything else.
pub open spec fn member(v: JsonV, k: Seq<char>) -> Option<JsonV> {
    match v {
        JsonV::Obj(m) => member_in(m, k),
        _ => None,
    }
}

/// The members of an object, as values.
pub open spec fn members_view(m: Seq<(String, Json)>) -> Seq<(Seq<char>, JsonV)> {
    Seq::new(m.len(), |i: int| (m[i].0@, jv(m[i].1)))
}

pub proof fn lemma_members_view(m: Vec<(String, Json)>)
    ensures
        jv(Json::Obj(m)) == JsonV::Obj(members_view(m@)),
{
    assert(jv(Json::Obj(m))->Obj_0 =~= members_view(m@));
}

/// The elements of an array, as values.
pub open spec fn items_view(a: Seq<Json>) -> Seq<JsonV> {
    Seq::new(a.len(), |i: int| jv(a[i]))
}

pub proof fn lemma_items_view(a: Vec<Json>)
    ensures
        jv(Json::Arr(a)) == JsonV::Arr(items_view(a@)),
{
    assert(jv(Json::Arr(a))->Arr_0 =~= items_view(a@));
}

/// The member of `v` under `k`, when `v` is an object that has one.
pub fn get<'a>(v: &'a Json, k: &str) -> (r: Option<&'a Json>)
    ensures
        match r {
            Some(x) => member(jv(*v), k@) == Some(jv(*x)),
            None => member(jv(*v), k@) is None,
        },
{
    match v {
        Json::Obj(m) => {
            let ghost mv = members_view(m@);
            proof {
                lemma_members_view(*m);
                assert(mv.skip(0) == mv);
            }
            let mut i: usize = 0;
            while i < m.len()
                invariant
                    i <= m@.len(),
                    mv == members_view(m@),
                    member(jv(*v), k@) == member_in(mv, k@),
                    member_in(mv, k@) == member_in(mv.skip(i as int), k@),
                decreases m@.len() - i,
            {
                proof {
                    assert(mv.skip(i as int).drop_first() == mv.skip(i + 1));
                    assert(mv.skip(i as int)[0] == mv[i as int]);
                }
                if str_eq(m[i].0.as_str(), k) {
                    return Some(&m[i].1);
                }
                i = i + 1;
            }
            None
        },
        _ => None,
    }
}


/// The text member `k` of `v`, if it has one.
pub open spec fn str_member(v: JsonV, k: Seq<char>) -> Option<Seq<char>> {
    match member(v, k) {
        Some(JsonV::Str(s)) => Some(s),
        _ => None,
    }
}

pub fn str_get<'a>(v: &'a Json, k: &str) -> (r: Option<&'a str>)
    ensures
        match r {
            Some(s) => str_member(jv(*v), k@) == Some(s@),
            None => str_member(jv(*v), k@) is None,
        },
{
    match get(v, k) {
        Some(Json::Str(s)) => Some(s.as_str()),
        _ => None,
    }
}

} // verus!
