//! Shaping a JSON response for an agent: `pick` extracts dot-paths, `head` caps every array,
//! and an oversized body is reported key by key or reduced, so the follow-up call can ask
//! for just what it needs.
//!
//! A body is held as [`Json`]: what the gateway parsed. Rendering it back to text is the
//! caller's.

use vstd::prelude::*;

use crate::json::{
    get, items_view, jv, lemma_items_view, lemma_members_view, member, member_in, members_view, Json, JsonV,
};
use crate::text::{
    chars_of, decimal, decimal_of, is_digit, join, join_with, lex_le, split_chars, split_on, string_of, trim,
    trim_vec, views,
};

verus! {

// ── Numbers ───────────────────────────────────────────────────────────────────

/// A non-empty run of ASCII digits.
pub open spec fn all_digits(s: Seq<char>) -> bool {
    s.len() > 0 && forall|i: int| 0 <= i < s.len() ==> is_digit(#[trigger] s[i])
}

/// The number a run of digits writes.
pub open spec fn digits_value(s: Seq<char>) -> nat
    decreases s.len(),
{
    if s.len() == 0 {
        0
    } else {
        digits_value(s.drop_last()) * 10 + ((s.last() as u32) - 48) as nat
    }
}

/// What a run of digits reads as when it fits in a `u64`.
pub open spec fn u64_of(s: Seq<char>) -> Option<u64> {
    if all_digits(s) && digits_value(s) <= u64::MAX {
        Some(digits_value(s) as u64)
    } else {
        None
    }
}

/// A longer run of digits writes at least as much.
pub proof fn lemma_digits_grow(s: Seq<char>, k: int)
    requires
        0 <= k <= s.len(),
        forall|i: int| 0 <= i < s.len() ==> is_digit(#[trigger] s[i]),
    ensures
        digits_value(s.take(k)) <= digits_value(s),
    decreases s.len(),
{
    if k < s.len() {
        assert(s.drop_last().take(k) == s.take(k));
        lemma_digits_grow(s.drop_last(), k);
    } else {
        assert(s.take(k) == s);
    }
}

/// The digits of `v` from `from` on, read as a `u64`.
pub fn parse_u64(v: &Vec<char>, from: usize) -> (r: Option<u64>)
    requires
        from <= v@.len(),
    ensures
        r == u64_of(v@.skip(from as int)),
{
    let ghost s = v@.skip(from as int);
    if from == v.len() {
        return None;
    }
    let mut acc: u64 = 0;
    let mut i: usize = from;
    assert(s.take(0) == Seq::<char>::empty());
    while i < v.len()
        invariant
            from <= i <= v@.len(),
            s == v@.skip(from as int),
            forall|j: int| 0 <= j < i - from ==> is_digit(#[trigger] s[j]),
            acc == digits_value(s.take(i - from)),
        decreases v@.len() - i,
    {
        let c = v[i];
        proof {
            assert(s[i - from] == c);
            assert(s.take(i - from + 1).drop_last() == s.take(i - from));
            assert(s.take(i - from + 1).last() == c);
        }
        if !('0' <= c && c <= '9') {
            return None;
        }
        let d: u64 = (c as u64) - 48;
        let next = match acc.checked_mul(10) {
            Some(x) => x.checked_add(d),
            None => None,
        };
        match next {
            Some(x) => {
                acc = x;
            },
            None => {
                proof {
                    if forall|j: int| 0 <= j < s.len() ==> is_digit(#[trigger] s[j]) {
                        lemma_digits_grow(s, i - from + 1);
                    }
                }
                return None;
            },
        }
        i = i + 1;
    }
    proof {
        assert(s.take(i - from) == s);
    }
    Some(acc)
}

/// `Value::as_u64`: a number written as plain digits that fits.
pub open spec fn as_u64(v: JsonV) -> Option<u64> {
    match v {
        JsonV::Num(t) => u64_of(t),
        _ => None,
    }
}

// ── The shaping arguments ─────────────────────────────────────────────────────

/// Parsed shaping arguments of a read or write call.
pub struct Shape {
    /// Dot-paths to extract, trimmed.
    pub pick: Vec<String>,
    /// Cap every array at this many elements.
    pub head: Option<u64>,
}

impl Shape {
    pub open spec fn pick_view(&self) -> Seq<Seq<char>> {
        crate::text::views(self.pick@)
    }

    /// Nothing to do: the body goes out as it came.
    pub fn is_noop(&self) -> (b: bool)
        ensures
            b == (self.pick@.len() == 0 && self.head is None),
    {
        self.pick.len() == 0 && self.head.is_none()
    }
}

/// The picks an argument list names: each a non-blank string, trimmed; `None` when one is not.
pub open spec fn picks_of(ps: Seq<JsonV>) -> Option<Seq<Seq<char>>>
    decreases ps.len(),
{
    if ps.len() == 0 {
        Some(Seq::empty())
    } else {
        match picks_of(ps.drop_last()) {
            Some(r) => match ps.last() {
                JsonV::Str(s) => if trim(s).len() > 0 { Some(r.push(trim(s))) } else { None },
                _ => None,
            },
            None => None,
        }
    }
}

/// What a call's arguments ask for: the picks and the head, or the sentence that says which
/// argument is malformed.
pub open spec fn shape_of(args: JsonV) -> Result<(Seq<Seq<char>>, Option<u64>), Seq<char>> {
    let pick: Result<Seq<Seq<char>>, Seq<char>> = match member(args, "pick"@) {
        None => Ok(Seq::empty()),
        Some(JsonV::Null) => Ok(Seq::empty()),
        Some(JsonV::Arr(ps)) => match picks_of(ps) {
            Some(r) => Ok(r),
            None => Err("pick must be an array of non-empty strings"@),
        },
        Some(_) => Err("pick must be an array of dot-paths"@),
    };
    match pick {
        Err(e) => Err(e),
        Ok(p) => match member(args, "head"@) {
            None => Ok((p, None)),
            Some(JsonV::Null) => Ok((p, None)),
            Some(h) => match as_u64(h) {
                Some(n) => if n >= 1 { Ok((p, Some(n))) } else { Err("head must be a positive integer"@) },
                None => Err("head must be a positive integer"@),
            },
        },
    }
}

/// Extract `pick` and `head` from a call's arguments. `Err` is a caller-facing message.
pub fn shape_from(args: &Json) -> (r: Result<Shape, String>)
    ensures
        match r {
            Ok(s) => shape_of(jv(*args)) == Ok::<(Seq<Seq<char>>, Option<u64>), Seq<char>>((s.pick_view(), s.head)),
            Err(e) => shape_of(jv(*args)) == Err::<(Seq<Seq<char>>, Option<u64>), Seq<char>>(e@),
        },
{
    let mut pick: Vec<String> = Vec::new();
    match get(args, "pick") {
        None => {
            assert(crate::text::views(pick@) =~= Seq::empty());
        },
        Some(Json::Null) => {
            assert(crate::text::views(pick@) =~= Seq::empty());
        },
        Some(Json::Arr(ps)) => {
            proof {
                lemma_items_view(*ps);
            }
            let ghost pv = items_view(ps@);
            let mut i: usize = 0;
            while i < ps.len()
                invariant
                    i <= ps@.len(),
                    pv == items_view(ps@),
                    member(jv(*args), "pick"@) == Some(JsonV::Arr(pv)),
                    picks_of(pv.take(i as int)) == Some(crate::text::views(pick@)),
                decreases ps@.len() - i,
            {
                proof {
                    assert(pv.take(i + 1).drop_last() == pv.take(i as int));
                    assert(pv.take(i + 1).last() == jv(ps@[i as int]));
                }
                match &ps[i] {
                    Json::Str(s) => {
                        let t = string_of(trim_vec(&chars_of(s.as_str())).as_slice());
                        if t.as_str().is_empty() {
                            proof {
                                lemma_picks_fail(pv, i as int + 1);
                                assert(pv.take(ps@.len() as int) == pv);
                            }
                            return Err("pick must be an array of non-empty strings".to_string());
                        }
                        let ghost before = crate::text::views(pick@);
                        pick.push(t);
                        proof {
                            assert(crate::text::views(pick@) == before.push(t@));
                        }
                    },
                    _ => {
                        proof {
                            lemma_picks_fail(pv, i as int + 1);
                            assert(pv.take(ps@.len() as int) == pv);
                        }
                        return Err("pick must be an array of non-empty strings".to_string());
                    },
                }
                i = i + 1;
            }
            proof {
                assert(pv.take(ps@.len() as int) == pv);
            }
        },
        Some(_) => {
            return Err("pick must be an array of dot-paths".to_string());
        },
    }
    let head = match get(args, "head") {
        None => None,
        Some(Json::Null) => None,
        Some(Json::Num(t)) => {
            let v = chars_of(t.as_str());
            match parse_u64(&v, 0) {
                Some(n) => {
                    proof {
                        assert(v@.skip(0) == v@);
                    }
                    if n >= 1 {
                        Some(n)
                    } else {
                        return Err("head must be a positive integer".to_string());
                    }
                },
                None => {
                    proof {
                        assert(v@.skip(0) == v@);
                    }
                    return Err("head must be a positive integer".to_string());
                },
            }
        },
        Some(_) => {
            return Err("head must be a positive integer".to_string());
        },
    };
    Ok(Shape { pick, head })
}

/// A malformed pick anywhere in the list fails the whole list.
proof fn lemma_picks_fail(ps: Seq<JsonV>, k: int)
    requires
        0 < k <= ps.len(),
        picks_of(ps.take(k)) is None,
    ensures
        picks_of(ps) is None,
    decreases ps.len(),
{
    if k < ps.len() {
        assert(ps.drop_last().take(k) == ps.take(k));
        lemma_picks_fail(ps.drop_last(), k);
    } else {
        assert(ps.take(k) == ps);
    }
}


// ── Picking a path ────────────────────────────────────────────────────────────

/// Where the first member under `k` sits, or -1.
pub open spec fn member_index(m: Seq<(Seq<char>, JsonV)>, k: Seq<char>) -> int
    decreases m.len(),
{
    if m.len() == 0 {
        -1
    } else if m[0].0 == k {
        0
    } else {
        let r = member_index(m.drop_first(), k);
        if r < 0 { -1 } else { r + 1 }
    }
}

pub proof fn lemma_member_index(m: Seq<(Seq<char>, JsonV)>, k: Seq<char>)
    ensures
        -1 <= member_index(m, k) < m.len(),
        member_index(m, k) >= 0 ==> m[member_index(m, k)].0 == k
            && member_in(m, k) == Some(m[member_index(m, k)].1),
        member_index(m, k) < 0 ==> member_in(m, k) is None,
        forall|j: int| 0 <= j < member_index(m, k) ==> m[j].0 != k,
        member_index(m, k) < 0 ==> forall|j: int| 0 <= j < m.len() ==> m[j].0 != k,
    decreases m.len(),
{
    if m.len() > 0 && m[0].0 != k {
        lemma_member_index(m.drop_first(), k);
        assert forall|j: int| 0 < j < m.len() implies m[j] == m.drop_first()[j - 1] by {}
    }
}

/// `str::parse::<usize>` on a path segment: an optional `+`, then digits that fit.
pub open spec fn seg_index(seg: Seq<char>) -> Option<usize> {
    let d = if seg.len() > 0 && seg[0] == '+' { seg.drop_first() } else { seg };
    if all_digits(d) && digits_value(d) <= usize::MAX {
        Some(digits_value(d) as usize)
    } else {
        None
    }
}

pub fn parse_index(seg: &str) -> (r: Option<usize>)
    ensures
        r == seg_index(seg@),
{
    let v = chars_of(seg);
    let from: usize = if v.len() > 0 && v[0] == '+' { 1 } else { 0 };
    proof {
        if from == 1 {
            assert(v@.skip(1) == seg@.drop_first());
        } else {
            assert(v@.skip(0) == seg@);
        }
    }
    match parse_u64(&v, from) {
        Some(n) => {
            if n <= usize::MAX as u64 {
                Some(n as usize)
            } else {
                None
            }
        },
        None => None,
    }
}

/// The values present, in order.
pub open spec fn somes(s: Seq<Option<JsonV>>) -> Seq<JsonV>
    decreases s.len(),
{
    if s.len() == 0 {
        Seq::empty()
    } else {
        match s.last() {
            Some(x) => somes(s.drop_last()).push(x),
            None => somes(s.drop_last()),
        }
    }
}

/// A dot-path resolved against a value: objects are walked by key; an array indexes when
/// the segment is a number and otherwise maps the rest of the path over its elements, keeping
/// those that match (none matching is no match).
pub open spec fn project(v: JsonV, segs: Seq<Seq<char>>) -> Option<JsonV>
    decreases v,
{
    if segs.len() == 0 {
        Some(v)
    } else {
        match v {
            JsonV::Obj(m) => {
                let i = member_index(m, segs[0]);
                if 0 <= i < m.len() {
                    project(m[i].1, segs.drop_first())
                } else {
                    None
                }
            },
            JsonV::Arr(a) => match seg_index(segs[0]) {
                Some(i) => if i < a.len() {
                    project(a[i as int], segs.drop_first())
                } else {
                    None
                },
                None => {
                    let hits = somes(projected(a, segs));
                    if hits.len() == 0 {
                        None
                    } else {
                        Some(JsonV::Arr(hits))
                    }
                },
            },
            _ => None,
        }
    }
}

/// The path resolved against each element of an array.
pub open spec fn projected(a: Seq<JsonV>, segs: Seq<Seq<char>>) -> Seq<Option<JsonV>>
    decreases a,
{
    Seq::new(a.len(), |k: int| if 0 <= k < a.len() { project(a[k], segs) } else { None })
}

pub open spec fn opt_jv(r: Option<Json>) -> Option<JsonV> {
    match r {
        Some(x) => Some(jv(x)),
        None => None,
    }
}

/// Resolve the path `segs[from..]` against `v`.
pub fn project_path(v: &Json, segs: &Vec<String>, from: usize) -> (r: Option<Json>)
    requires
        from <= segs@.len(),
    ensures
        opt_jv(r) == project(jv(*v), crate::text::views(segs@).skip(from as int)),
    decreases v,
{
    let ghost sv = crate::text::views(segs@).skip(from as int);
    if from == segs.len() {
        return Some(v.copy());
    }
    let next = from + 1;
    proof {
        assert(sv[0] == segs@[from as int]@);
        assert(sv.drop_first() == crate::text::views(segs@).skip(from + 1));
    }
    match v {
        Json::Obj(m) => {
            let ghost mv = members_view(m@);
            proof {
                lemma_members_view(*m);
                lemma_member_index(mv, sv[0]);
            }
            let seg = segs[from].as_str();
            let mut i: usize = 0;
            while i < m.len()
                invariant
                    i <= m@.len(),
                    mv == members_view(m@),
                    *v == Json::Obj(*m),
                    from < segs@.len(),
                    sv == crate::text::views(segs@).skip(from as int),
                    seg@ == sv[0],
                    next == from + 1,
                    jv(*v) == JsonV::Obj(mv),
                    sv.len() > 0,
                    sv.drop_first() == crate::text::views(segs@).skip(next as int),
                    forall|j: int| 0 <= j < i ==> mv[j].0 != seg@,
                decreases m@.len() - i,
            {
                if crate::text::str_eq(m[i].0.as_str(), seg) {
                    proof {
                        lemma_member_index(mv, sv[0]);
                        assert(mv[i as int].0 == m@[i as int].0@);
                        assert(mv[i as int].1 == jv(m@[i as int].1));
                        assert(member_index(mv, sv[0]) == i);
                        assert(decreases_to!(*v => v->Obj_0));
                        assert(decreases_to!(*m => m@));
                        assert(decreases_to!(m@ => m@[i as int]));
                        assert(decreases_to!(m@[i as int] => m@[i as int].1));
                    }
                    return project_path(&m[i].1, segs, next);
                }
                i = i + 1;
            }
            proof {
                lemma_member_index(mv, sv[0]);
                assert(member_index(mv, sv[0]) < 0);
            }
            None
        },
        Json::Arr(a) => {
            let ghost items = items_view(a@);
            proof {
                lemma_items_view(*a);
            }
            match parse_index(segs[from].as_str()) {
                Some(i) => {
                    if i < a.len() {
                        proof {
                            assert(decreases_to!(*v => v->Arr_0));
                            assert(decreases_to!(*a => a@));
                            assert(decreases_to!(a@ => a@[i as int]));
                        }
                        project_path(&a[i], segs, next)
                    } else {
                        None
                    }
                },
                None => {
                    let ghost mapped = projected(items, sv);
                    let mut hits: Vec<Json> = Vec::new();
                    let mut k: usize = 0;
                    while k < a.len()
                        invariant
                            k <= a@.len(),
                            *v == Json::Arr(*a),
                            from < segs@.len(),
                            sv == crate::text::views(segs@).skip(from as int),
                            sv.len() > 0,
                            jv(*v) == JsonV::Arr(items),
                            items == items_view(a@),
                            mapped == projected(items, sv),
                            items_view(hits@) == somes(mapped.take(k as int)),
                        decreases a@.len() - k,
                    {
                        proof {
                            assert(decreases_to!(*v => v->Arr_0));
                            assert(decreases_to!(*a => a@));
                            assert(decreases_to!(a@ => a@[k as int]));
                            assert(mapped.take(k + 1).drop_last() == mapped.take(k as int));
                        }
                        let ghost before = items_view(hits@);
                        match project_path(&a[k], segs, from) {
                            Some(x) => {
                                hits.push(x);
                                proof {
                                    assert(items_view(hits@) =~= before.push(jv(x)));
                                }
                            },
                            None => {},
                        }
                        k = k + 1;
                    }
                    proof {
                        assert(mapped.take(a@.len() as int) == mapped);
                        lemma_items_view(hits);
                    }
                    if hits.len() == 0 {
                        None
                    } else {
                        Some(Json::Arr(hits))
                    }
                },
            }
        },
        _ => None,
    }
}


// ── Capping arrays ────────────────────────────────────────────────────────────

/// How a note names where an array sat: its dot-path, `(root)` for the body itself.
pub open spec fn path_label(path: Seq<char>) -> Seq<char> {
    if path.len() == 0 { "(root)"@ } else { path }
}

/// The dot-path of an object's member.
pub open spec fn child_path(path: Seq<char>, k: Seq<char>) -> Seq<char> {
    if path.len() == 0 { k } else { path + "."@ + k }
}

/// The note for an array of `len` elements cut to `n`.
pub open spec fn cut_note(path: Seq<char>, len: nat, n: nat) -> Seq<char> {
    path_label(path) + ": "@ + decimal_of(len) + " items, kept first "@ + decimal_of(n)
}

/// Lists of notes, one after another.
pub open spec fn flat(s: Seq<Seq<Seq<char>>>) -> Seq<Seq<char>>
    decreases s.len(),
{
    if s.len() == 0 {
        Seq::empty()
    } else {
        flat(s.drop_last()) + s.last()
    }
}

pub open spec fn firsts(s: Seq<(JsonV, Seq<Seq<char>>)>) -> Seq<JsonV> {
    Seq::new(s.len(), |i: int| s[i].0)
}

pub open spec fn seconds(s: Seq<(JsonV, Seq<Seq<char>>)>) -> Seq<Seq<Seq<char>>> {
    Seq::new(s.len(), |i: int| s[i].1)
}

pub open spec fn rekeyed(m: Seq<(Seq<char>, JsonV)>, kids: Seq<(JsonV, Seq<Seq<char>>)>) -> Seq<(Seq<char>, JsonV)> {
    Seq::new(m.len(), |i: int| (m[i].0, kids[i].0))
}

/// Every array under `v` cut to its first `n` elements, with a note `path: total` for each
/// one cut, in document order.
pub open spec fn truncated(v: JsonV, n: nat, path: Seq<char>) -> (JsonV, Seq<Seq<char>>)
    decreases v,
{
    match v {
        JsonV::Arr(a) => {
            let kl: int = if a.len() > n { n as int } else { a.len() as int };
            let note: Seq<Seq<char>> = if a.len() > n { seq![cut_note(path, a.len(), n)] } else { Seq::empty() };
            let kids = truncated_items(a, kl, n, path);
            (JsonV::Arr(firsts(kids)), note + flat(seconds(kids)))
        },
        JsonV::Obj(m) => {
            let kids = truncated_members(m, n, path);
            (JsonV::Obj(rekeyed(m, kids)), flat(seconds(kids)))
        },
        _ => (v, Seq::empty()),
    }
}

/// The first `kl` elements, each truncated.
pub open spec fn truncated_items(a: Seq<JsonV>, kl: int, n: nat, path: Seq<char>) -> Seq<(JsonV, Seq<Seq<char>>)>
    decreases a,
{
    Seq::new(
        (if 0 <= kl <= a.len() { kl } else { 0 }) as nat,
        |i: int| if 0 <= i < a.len() { truncated(a[i], n, path) } else { (JsonV::Null, Seq::empty()) },
    )
}

/// Each member's value truncated under its own path.
pub open spec fn truncated_members(m: Seq<(Seq<char>, JsonV)>, n: nat, path: Seq<char>) -> Seq<(JsonV, Seq<Seq<char>>)>
    decreases m,
{
    Seq::new(
        m.len(),
        |i: int| if 0 <= i < m.len() { truncated(m[i].1, n, child_path(path, m[i].0)) } else { (JsonV::Null, Seq::empty()) },
    )
}

proof fn lemma_flat_step(s: Seq<Seq<Seq<char>>>, i: int)
    requires
        0 <= i < s.len(),
    ensures
        flat(s.take(i + 1)) == flat(s.take(i)) + s[i],
{
    assert(s.take(i + 1).drop_last() == s.take(i));
}

/// No array anywhere in `v` holds more than `n` elements.
pub open spec fn arrays_within(v: JsonV, n: nat) -> bool
    decreases v,
{
    match v {
        JsonV::Arr(a) => a.len() <= n && forall|i: int| 0 <= i < a.len() ==> arrays_within(#[trigger] a[i], n),
        JsonV::Obj(m) => forall|i: int| 0 <= i < m.len() ==> arrays_within(#[trigger] m[i].1, n),
        _ => true,
    }
}

/// `head` caps every array: after truncating to `n`, no array anywhere holds more.
pub proof fn lemma_head_caps_every_array(v: JsonV, n: nat, path: Seq<char>)
    ensures
        arrays_within(truncated(v, n, path).0, n),
    decreases v,
{
    match v {
        JsonV::Arr(a) => {
            let kl: int = if a.len() > n { n as int } else { a.len() as int };
            let kids = truncated_items(a, kl, n, path);
            assert forall|i: int| 0 <= i < firsts(kids).len() implies arrays_within(#[trigger] firsts(kids)[i], n) by {
                assert(decreases_to!(v => a));
                assert(decreases_to!(a => a[i]));
                lemma_head_caps_every_array(a[i], n, path);
            }
        },
        JsonV::Obj(m) => {
            let kids = truncated_members(m, n, path);
            assert forall|i: int| 0 <= i < rekeyed(m, kids).len() implies arrays_within(#[trigger] rekeyed(m, kids)[i].1, n) by {
                assert(decreases_to!(v => m));
                assert(decreases_to!(m => m[i]));
                assert(decreases_to!(m[i] => m[i].1));
                lemma_head_caps_every_array(m[i].1, n, child_path(path, m[i].0));
            }
        },
        _ => {},
    }
}

/// Cut every array under `v` to `n` elements; the notes say what was cut.
pub fn truncate_arrays(v: &Json, n: u64, path: &str) -> (r: (Json, Vec<String>))
    ensures
        jv(r.0) == truncated(jv(*v), n as nat, path@).0,
        views(r.1@) == truncated(jv(*v), n as nat, path@).1,
    decreases v,
{
    match v {
        Json::Arr(a) => {
            let ghost items = items_view(a@);
            proof {
                lemma_items_view(*a);
            }
            let cut = a.len() as u64 > n;
            let kl: usize = if cut { n as usize } else { a.len() };
            let ghost kids = truncated_items(items, kl as int, n as nat, path@);
            let mut notes: Vec<String> = Vec::new();
            if cut {
                let mut t = if path.is_empty() { "(root)".to_string() } else { path.to_string() };
                t.append(": ");
                t.append(decimal(a.len() as u64).as_str());
                t.append(" items, kept first ");
                t.append(decimal(n).as_str());
                notes.push(t);
                proof {
                    reveal_strlit("(root)");
                    assert(views(notes@) =~= seq![cut_note(path@, items.len(), n as nat)]);
                }
            } else {
                assert(views(notes@) =~= Seq::empty());
            }
            let ghost note = views(notes@);
            let mut vals: Vec<Json> = Vec::new();
            let mut i: usize = 0;
            while i < kl
                invariant
                    i <= kl <= a@.len(),
                    *v == Json::Arr(*a),
                    items == items_view(a@),
                    kids == truncated_items(items, kl as int, n as nat, path@),
                    kids.len() == kl,
                    vals@.len() == i,
                    forall|j: int| 0 <= j < i ==> jv(#[trigger] vals@[j]) == kids[j].0,
                    views(notes@) == note + flat(seconds(kids).take(i as int)),
                decreases kl - i,
            {
                proof {
                    assert(decreases_to!(*v => v->Arr_0));
                    assert(decreases_to!(*a => a@));
                    assert(decreases_to!(a@ => a@[i as int]));
                    lemma_flat_step(seconds(kids), i as int);
                }
                let (x, mut sub) = truncate_arrays(&a[i], n, path);
                vals.push(x);
                let ghost before = notes@;
                notes.append(&mut sub);
                proof {
                    assert(views(notes@) =~= views(before) + seconds(kids)[i as int]);
                }
                i = i + 1;
            }
            proof {
                lemma_items_view(vals);
                assert(items_view(vals@) =~= firsts(kids));
                assert(seconds(kids).take(kl as int) == seconds(kids));
            }
            (Json::Arr(vals), notes)
        },
        Json::Obj(m) => {
            let ghost mv = members_view(m@);
            proof {
                lemma_members_view(*m);
            }
            let ghost kids = truncated_members(mv, n as nat, path@);
            let mut notes: Vec<String> = Vec::new();
            let mut out: Vec<(String, Json)> = Vec::new();
            let mut i: usize = 0;
            while i < m.len()
                invariant
                    i <= m@.len(),
                    *v == Json::Obj(*m),
                    mv == members_view(m@),
                    kids == truncated_members(mv, n as nat, path@),
                    out@.len() == i,
                    forall|j: int| 0 <= j < i ==> (#[trigger] out@[j]).0@ == m@[j].0@ && jv(out@[j].1) == kids[j].0,
                    views(notes@) == flat(seconds(kids).take(i as int)),
                decreases m@.len() - i,
            {
                proof {
                    assert(decreases_to!(*v => v->Obj_0));
                    assert(decreases_to!(*m => m@));
                    assert(decreases_to!(m@ => m@[i as int]));
                    assert(decreases_to!(m@[i as int] => m@[i as int].1));
                    lemma_flat_step(seconds(kids), i as int);
                    if i == 0 {
                        assert(seconds(kids).take(0) =~= Seq::<Seq<Seq<char>>>::empty());
                    }
                }
                let key = &m[i].0;
                let child = if path.is_empty() {
                    key.clone()
                } else {
                    let mut c = path.to_string();
                    c.append(".");
                    c.append(key.as_str());
                    c
                };
                proof {
                    assert(child@ == child_path(path@, mv[i as int].0));
                }
                let (x, mut sub) = truncate_arrays(&m[i].1, n, child.as_str());
                out.push((key.clone(), x));
                let ghost before = notes@;
                notes.append(&mut sub);
                proof {
                    assert(views(notes@) =~= views(before) + seconds(kids)[i as int]);
                }
                i = i + 1;
            }
            proof {
                lemma_members_view(out);
                assert(members_view(out@) =~= rekeyed(mv, kids));
                assert(seconds(kids).take(m@.len() as int) == seconds(kids));
            }
            (Json::Obj(out), notes)
        },
        Json::Null => (Json::Null, Vec::new()),
        Json::Bool(b) => (Json::Bool(*b), Vec::new()),
        Json::Num(t) => (Json::Num(t.clone()), Vec::new()),
        Json::Str(t) => (Json::Str(t.clone()), Vec::new()),
    }
}


// ── Keyed by order ────────────────────────────────────────────────────────────

/// `a <= b` on strings: code-point order, which is the order `String` sorts in.
pub fn str_le(a: &str, b: &str) -> (r: bool)
    ensures
        r == lex_le(a@, b@),
{
    let x = chars_of(a);
    let y = chars_of(b);
    let mut i: usize = 0;
    proof {
        assert(x@.skip(0) == a@);
        assert(y@.skip(0) == b@);
    }
    while i < x.len() && i < y.len()
        invariant
            i <= x@.len(),
            i <= y@.len(),
            x@ == a@,
            y@ == b@,
            lex_le(a@, b@) == lex_le(x@.skip(i as int), y@.skip(i as int)),
        decreases x@.len() - i,
    {
        proof {
            assert(x@.skip(i as int)[0] == x@[i as int]);
            assert(y@.skip(i as int)[0] == y@[i as int]);
            assert(x@.skip(i as int).drop_first() == x@.skip(i + 1));
            assert(y@.skip(i as int).drop_first() == y@.skip(i + 1));
        }
        if x[i] != y[i] {
            return (x[i] as u32) < (y[i] as u32);
        }
        i = i + 1;
    }
    i == x.len()
}

/// `BTreeMap::insert` on members kept in key order: the value under an existing key is
/// replaced; a new key goes where the order puts it.
pub open spec fn map_insert(m: Seq<(Seq<char>, JsonV)>, k: Seq<char>, v: JsonV) -> Seq<(Seq<char>, JsonV)>
    decreases m.len(),
{
    if m.len() == 0 {
        seq![(k, v)]
    } else if m.last().0 == k {
        m.drop_last().push((k, v))
    } else if lex_le(m.last().0, k) {
        m.push((k, v))
    } else {
        map_insert(m.drop_last(), k, v).push(m.last())
    }
}

/// Insert `(k, v)` into members kept in key order.
pub fn obj_insert(m: &mut Vec<(String, Json)>, k: String, v: Json)
    ensures
        members_view(final(m)@) == map_insert(members_view(old(m)@), k@, jv(v)),
{
    let ghost orig = members_view(m@);
    let mut j: usize = m.len();
    proof {
        assert(orig.take(j as int) == orig);
        assert(orig.skip(j as int) =~= Seq::<(Seq<char>, JsonV)>::empty());
    }
    while j > 0 && !crate::text::str_eq(m[j - 1].0.as_str(), k.as_str()) && !str_le(m[j - 1].0.as_str(), k.as_str())
        invariant
            j <= m@.len(),
            m@.len() == orig.len(),
            orig == members_view(m@),
            map_insert(orig, k@, jv(v)) == map_insert(orig.take(j as int), k@, jv(v)) + orig.skip(j as int),
        decreases j,
    {
        proof {
            let t = orig.take(j as int);
            assert(t.last() == orig[j - 1]);
            assert(t.drop_last() == orig.take(j - 1));
            assert(orig.skip(j - 1) == seq![orig[j - 1]] + orig.skip(j as int));
            assert(map_insert(t, k@, jv(v)) == map_insert(orig.take(j - 1), k@, jv(v)).push(orig[j - 1]));
        }
        j = j - 1;
    }
    let ghost target = map_insert(orig, k@, jv(v));
    if j > 0 && crate::text::str_eq(m[j - 1].0.as_str(), k.as_str()) {
        proof {
            assert(orig.take(j as int).drop_last() == orig.take(j - 1));
        }
        m.set(j - 1, (k, v));
        proof {
            assert(members_view(m@) =~= target);
        }
    } else {
        proof {
            if j > 0 {
                assert(orig.take(j as int).last() == orig[j - 1]);
            }
        }
        m.insert(j, (k, v));
        proof {
            assert(members_view(m@) =~= target);
        }
    }
}

// ── Shaping a response ────────────────────────────────────────────────────────

/// The member keys of an object.
pub open spec fn keys_of(m: Seq<(Seq<char>, JsonV)>) -> Seq<Seq<char>> {
    Seq::new(m.len(), |i: int| m[i].0)
}

/// What a body offers at its top level, for a pick that matched nothing.
pub open spec fn top_level_keys_of(v: JsonV) -> Seq<char> {
    match v {
        JsonV::Obj(m) => join_with(keys_of(m), ", "@),
        JsonV::Arr(a) => "(array of "@ + decimal_of(a.len()) + " items)"@,
        _ => "(scalar body)"@,
    }
}

pub fn top_level_keys(v: &Json) -> (r: String)
    ensures
        r@ == top_level_keys_of(jv(*v)),
{
    match v {
        Json::Obj(m) => {
            proof {
                lemma_members_view(*m);
            }
            let mut keys: Vec<String> = Vec::new();
            let mut i: usize = 0;
            while i < m.len()
                invariant
                    i <= m@.len(),
                    keys@.len() == i,
                    forall|j: int| 0 <= j < i ==> (#[trigger] keys@[j])@ == m@[j].0@,
                decreases m@.len() - i,
            {
                keys.push(m[i].0.clone());
                i = i + 1;
            }
            proof {
                assert(views(keys@) =~= keys_of(members_view(m@)));
            }
            join(keys.as_slice(), ", ")
        },
        Json::Arr(a) => {
            proof {
                lemma_items_view(*a);
            }
            let mut r = "(array of ".to_string();
            r.append(decimal(a.len() as u64).as_str());
            r.append(" items)");
            r
        },
        _ => "(scalar body)".to_string(),
    }
}

/// The picks resolved in order: matches go into an object keyed by their path, misses
/// become notes.
pub open spec fn picked(body: JsonV, picks: Seq<Seq<char>>) -> (Seq<(Seq<char>, JsonV)>, Seq<Seq<char>>)
    decreases picks.len(),
{
    if picks.len() == 0 {
        (Seq::empty(), Seq::empty())
    } else {
        let prev = picked(body, picks.drop_last());
        let p = picks.last();
        match project(body, split_on(p, '.')) {
            Some(x) => (map_insert(prev.0, p, x), prev.1),
            None => (prev.0, prev.1.push("pick \""@ + p + "\": no match"@)),
        }
    }
}

/// The shaped body and its notes.
pub open spec fn shaped(body: JsonV, picks: Seq<Seq<char>>, head: Option<u64>) -> (JsonV, Seq<Seq<char>>) {
    let first: (JsonV, Seq<Seq<char>>) = if picks.len() == 0 {
        (body, Seq::empty())
    } else {
        let (m, notes) = picked(body, picks);
        (
            JsonV::Obj(m),
            if m.len() == 0 { notes.push("available top-level keys: "@ + top_level_keys_of(body)) } else { notes },
        )
    };
    match head {
        Some(n) => {
            let t = truncated(first.0, n as nat, Seq::empty());
            (t.0, first.1 + t.1)
        },
        None => first,
    }
}

/// The text that follows the shaped JSON: nothing, or a `note:` line listing the notes.
pub open spec fn note_suffix(notes: Seq<Seq<char>>) -> Seq<char> {
    if notes.len() == 0 { Seq::empty() } else { "\nnote: "@ + join_with(notes, "; "@) }
}

/// Apply `shape` to a response body: the shaped value, and the note line that follows it
/// once rendered (truncations and unmatched picks, so the agent can correct itself).
pub fn shape_response(body: &Json, shape: &Shape) -> (r: (Json, String))
    ensures
        jv(r.0) == shaped(jv(*body), shape.pick_view(), shape.head).0,
        r.1@ == note_suffix(shaped(jv(*body), shape.pick_view(), shape.head).1),
        shape.head matches Some(n) ==> arrays_within(jv(r.0), n as nat),
{
    let ghost picks = shape.pick_view();
    let ghost fst: (JsonV, Seq<Seq<char>>) = if picks.len() == 0 {
        (jv(*body), Seq::empty())
    } else {
        let (m, notes) = picked(jv(*body), picks);
        (
            JsonV::Obj(m),
            if m.len() == 0 { notes.push("available top-level keys: "@ + top_level_keys_of(jv(*body))) } else { notes },
        )
    };
    let mut notes: Vec<String> = Vec::new();
    let first = if shape.pick.len() == 0 {
        proof {
            assert(views(notes@) =~= Seq::empty());
        }
        body.copy()
    } else {
        let mut m: Vec<(String, Json)> = Vec::new();
        let mut i: usize = 0;
        proof {
            assert(picks.take(0) =~= Seq::<Seq<char>>::empty());
            assert(members_view(m@) =~= Seq::empty());
            assert(views(notes@) =~= Seq::empty());
        }
        while i < shape.pick.len()
            invariant
                i <= shape.pick@.len(),
                picks == shape.pick_view(),
                (members_view(m@), views(notes@)) == picked(jv(*body), picks.take(i as int)),
            decreases shape.pick@.len() - i,
        {
            let p = &shape.pick[i];
            proof {
                assert(picks.take(i + 1).drop_last() == picks.take(i as int));
                assert(picks.take(i + 1).last() == p@);
            }
            let segs = split_chars(p.as_str(), '.');
            proof {
                assert(views(segs@).skip(0) == views(segs@));
            }
            match project_path(body, &segs, 0) {
                Some(x) => {
                    obj_insert(&mut m, p.clone(), x);
                },
                None => {
                    let mut t = "pick \"".to_string();
                    t.append(p.as_str());
                    t.append("\": no match");
                    let ghost before = views(notes@);
                    notes.push(t);
                    proof {
                        assert(views(notes@) =~= before.push(t@));
                    }
                },
            }
            i = i + 1;
        }
        proof {
            assert(picks.take(shape.pick@.len() as int) == picks);
        }
        if m.len() == 0 {
            let mut t = "available top-level keys: ".to_string();
            t.append(top_level_keys(body).as_str());
            let ghost before = views(notes@);
            notes.push(t);
            proof {
                assert(views(notes@) =~= before.push(t@));
            }
        }
        proof {
            lemma_members_view(m);
        }
        Json::Obj(m)
    };
    assert(jv(first) == fst.0 && views(notes@) == fst.1);
    let out = match shape.head {
        Some(n) => {
            let (t, mut sub) = truncate_arrays(&first, n, "");
            proof {
                lemma_head_caps_every_array(jv(first), n as nat, ""@);
                reveal_strlit("");
                assert(""@ =~= Seq::<char>::empty());
            }
            let ghost before = notes@;
            let ghost subv = sub@;
            notes.append(&mut sub);
            proof {
                assert(views(notes@) =~= views(before) + views(subv));
            }
            t
        },
        None => first,
    };
    let suffix = if notes.len() == 0 {
        String::new()
    } else {
        let mut t = "\nnote: ".to_string();
        t.append(join(notes.as_slice(), "; ").as_str());
        t
    };
    proof {
        assert(shaped(jv(*body), picks, shape.head) == (match shape.head {
            Some(n) => {
                let t = truncated(fst.0, n as nat, Seq::empty());
                (t.0, fst.1 + t.1)
            },
            None => fst,
        }));
    }
    (out, suffix)
}


// ── An oversized response ─────────────────────────────────────────────────────

/// The most the agent channel carries.
pub const MAX_RESULT_BYTES: usize = 524288;

/// `n.div_ceil(1024)`.
pub open spec fn kb_up(n: nat) -> nat {
    ((n + 1023) / 1024) as nat
}

/// Keys with their serialized sizes, largest first; equal sizes keep their order.
pub open spec fn ins_desc(sorted: Seq<(Seq<char>, nat)>, x: (Seq<char>, nat)) -> Seq<(Seq<char>, nat)>
    decreases sorted.len(),
{
    if sorted.len() == 0 {
        seq![x]
    } else if sorted.last().1 >= x.1 {
        sorted.push(x)
    } else {
        ins_desc(sorted.drop_last(), x).push(sorted.last())
    }
}

pub open spec fn by_size(s: Seq<(Seq<char>, nat)>) -> Seq<(Seq<char>, nat)>
    decreases s.len(),
{
    if s.len() == 0 {
        Seq::empty()
    } else {
        ins_desc(by_size(s.drop_last()), s.last())
    }
}

pub open spec fn sized(m: Seq<(Seq<char>, JsonV)>, sizes: Seq<usize>) -> Seq<(Seq<char>, nat)> {
    Seq::new(m.len(), |i: int| (m[i].0, sizes[i] as nat))
}

pub open spec fn kb_lines(l: Seq<(Seq<char>, nat)>) -> Seq<Seq<char>> {
    Seq::new(l.len(), |i: int| l[i].0 + ": "@ + decimal_of(kb_up(l[i].1)) + " KB"@)
}

pub open spec fn size_error_of(body: Option<JsonV>, sizes: Seq<usize>, total: nat) -> Seq<char> {
    "response too large for the agent channel ("@ + decimal_of(total / 1024) + " KB > 512 KB limit)."@
        + match body {
        Some(JsonV::Obj(m)) => " Top-level keys: "@ + join_with(kb_lines(by_size(sized(m, sizes))), ", "@) + "."@,
        _ => Seq::empty(),
    }
        + " Re-call with \"pick\" (dot-paths of just the fields the user needs) and/or \"head\" (cap arrays to N items), or narrow with query filters/limit."@
}

pub open spec fn opt_body(b: Option<&Json>) -> Option<JsonV> {
    match b {
        Some(j) => Some(jv(*j)),
        None => None,
    }
}

/// Insert a key and its size into a list kept largest first, after any of equal size.
fn insert_desc(v: &mut Vec<(String, usize)>, k: String, n: usize)
    ensures
        Seq::new(final(v)@.len(), |i: int| (final(v)@[i].0@, final(v)@[i].1 as nat)) == ins_desc(
            Seq::new(old(v)@.len(), |i: int| (old(v)@[i].0@, old(v)@[i].1 as nat)),
            (k@, n as nat),
        ),
{
    let ghost orig = Seq::new(v@.len(), |i: int| (v@[i].0@, v@[i].1 as nat));
    let mut j: usize = v.len();
    proof {
        assert(orig.take(j as int) == orig);
        assert(orig.skip(j as int) =~= Seq::<(Seq<char>, nat)>::empty());
    }
    while j > 0 && v[j - 1].1 < n
        invariant
            j <= v@.len(),
            orig == Seq::new(v@.len(), |i: int| (v@[i].0@, v@[i].1 as nat)),
            ins_desc(orig, (k@, n as nat)) == ins_desc(orig.take(j as int), (k@, n as nat)) + orig.skip(j as int),
        decreases j,
    {
        proof {
            let t = orig.take(j as int);
            assert(t.last() == orig[j - 1]);
            assert(t.drop_last() == orig.take(j - 1));
            assert(orig.skip(j - 1) == seq![orig[j - 1]] + orig.skip(j as int));
        }
        j = j - 1;
    }
    proof {
        if j > 0 {
            assert(orig.take(j as int).last() == orig[j - 1]);
        }
    }
    v.insert(j, (k, n));
    proof {
        assert(Seq::new(v@.len(), |i: int| (v@[i].0@, v@[i].1 as nat)) =~= ins_desc(orig, (k@, n as nat)));
    }
}

/// The report for a response too large to send: its size against the limit, the size of
/// each top-level key (largest first) when the body is an object, and how to ask for less.
/// `value_sizes` are the serialized sizes of the object's members, in order.
pub fn size_error(body: Option<&Json>, value_sizes: &[usize], total: usize) -> (r: String)
    requires
        body matches Some(Json::Obj(m)) ==> value_sizes@.len() == m@.len(),
    ensures
        r@ == size_error_of(opt_body(body), value_sizes@, total as nat),
{
    let mut msg = "response too large for the agent channel (".to_string();
    msg.append(decimal((total / 1024) as u64).as_str());
    msg.append(" KB > 512 KB limit).");
    let ghost head = msg@;
    match body {
        Some(Json::Obj(m)) => {
            let ghost mv = members_view(m@);
            let ghost sz = sized(mv, value_sizes@);
            proof {
                lemma_members_view(*m);
            }
            let mut sorted: Vec<(String, usize)> = Vec::new();
            let mut i: usize = 0;
            proof {
                assert(sz.take(0) =~= Seq::<(Seq<char>, nat)>::empty());
                assert(Seq::new(sorted@.len(), |i: int| (sorted@[i].0@, sorted@[i].1 as nat)) =~= Seq::<(Seq<char>, nat)>::empty());
            }
            while i < m.len()
                invariant
                    i <= m@.len(),
                    value_sizes@.len() == m@.len(),
                    mv == members_view(m@),
                    sz == sized(mv, value_sizes@),
                    Seq::new(sorted@.len(), |i: int| (sorted@[i].0@, sorted@[i].1 as nat)) == by_size(sz.take(i as int)),
                decreases m@.len() - i,
            {
                proof {
                    assert(sz.take(i + 1).drop_last() == sz.take(i as int));
                    assert(sz.take(i + 1).last() == (m@[i as int].0@, value_sizes@[i as int] as nat));
                }
                insert_desc(&mut sorted, m[i].0.clone(), value_sizes[i]);
                i = i + 1;
            }
            proof {
                assert(sz.take(m@.len() as int) == sz);
            }
            let ghost l = by_size(sz);
            let mut lines: Vec<String> = Vec::new();
            let mut k: usize = 0;
            while k < sorted.len()
                invariant
                    k <= sorted@.len(),
                    l == Seq::new(sorted@.len(), |i: int| (sorted@[i].0@, sorted@[i].1 as nat)),
                    lines@.len() == k,
                    forall|j: int| 0 <= j < k ==> (#[trigger] lines@[j])@ == kb_lines(l)[j],
                decreases sorted@.len() - k,
            {
                let (key, n) = &sorted[k];
                let mut line = key.clone();
                line.append(": ");
                let kb = n / 1024 + if n % 1024 > 0 { 1 } else { 0 };
                proof {
                    assert(kb == kb_up(*n as nat)) by (nonlinear_arith)
                        requires
                            kb == n / 1024 + if n % 1024 > 0 { 1int } else { 0int },
                    {}
                }
                line.append(decimal(kb as u64).as_str());
                line.append(" KB");
                lines.push(line);
                k = k + 1;
            }
            proof {
                assert(views(lines@) =~= kb_lines(l));
            }
            msg.append(" Top-level keys: ");
            msg.append(join(lines.as_slice(), ", ").as_str());
            msg.append(".");
        },
        _ => {},
    }
    msg.append(
        " Re-call with \"pick\" (dot-paths of just the fields the user needs) and/or \"head\" (cap arrays to N items), or narrow with query filters/limit.",
    );
    msg
}


/// A member too heavy to send: an array whose serialized weight exceeds an eighth of the cap.
pub open spec fn heavy(v: JsonV, weight: usize) -> bool {
    v is Arr && weight > MAX_RESULT_BYTES / 8
}

/// What stands in for a dropped array of `n` elements.
pub open spec fn omitted_marker(n: nat) -> Seq<char> {
    "["@ + decimal_of(n) + " items omitted: response too large]"@
}

pub open spec fn truncated_note(names: Seq<Seq<char>>) -> Seq<char> {
    "Omitted large field(s): "@ + join_with(names, ", "@)
        + ". Re-call with \"pick\" (dot-paths of just the fields you need) or \"head\" (cap arrays to N items); or narrow with limit/filter, or (for a backtest) pass \"view\":\"summary\" and read the full result from its run_id."@
}

/// The members kept as they are, among the first `i`.
pub open spec fn kept_upto(m: Seq<(Seq<char>, JsonV)>, w: Seq<usize>, i: int) -> Seq<(Seq<char>, JsonV)>
    decreases i,
{
    if i <= 0 {
        Seq::empty()
    } else if heavy(m[i - 1].1, w[i - 1]) {
        kept_upto(m, w, i - 1)
    } else {
        map_insert(kept_upto(m, w, i - 1), m[i - 1].0, m[i - 1].1)
    }
}

/// `base` with a marker under each heavy member among the first `i`.
pub open spec fn marked_upto(m: Seq<(Seq<char>, JsonV)>, w: Seq<usize>, i: int, base: Seq<(Seq<char>, JsonV)>) -> Seq<(Seq<char>, JsonV)>
    decreases i,
{
    if i <= 0 {
        base
    } else if heavy(m[i - 1].1, w[i - 1]) {
        map_insert(
            marked_upto(m, w, i - 1, base),
            m[i - 1].0,
            JsonV::Str(omitted_marker(m[i - 1].1->Arr_0.len())),
        )
    } else {
        marked_upto(m, w, i - 1, base)
    }
}

/// The keys of the heavy members among the first `i`.
pub open spec fn heavy_names(m: Seq<(Seq<char>, JsonV)>, w: Seq<usize>, i: int) -> Seq<Seq<char>>
    decreases i,
{
    if i <= 0 {
        Seq::empty()
    } else if heavy(m[i - 1].1, w[i - 1]) {
        heavy_names(m, w, i - 1).push(m[i - 1].0)
    } else {
        heavy_names(m, w, i - 1)
    }
}

/// An over-budget object reduced: every heavy array replaced by a marker that says how many
/// elements it had, and a `_truncated` note naming them and how to ask for less.
pub open spec fn shrunk(m: Seq<(Seq<char>, JsonV)>, w: Seq<usize>) -> Seq<(Seq<char>, JsonV)> {
    let n = m.len() as int;
    let marked = marked_upto(m, w, n, kept_upto(m, w, n));
    let names = heavy_names(m, w, n);
    if names.len() == 0 {
        marked
    } else {
        map_insert(marked, "_truncated"@, JsonV::Str(truncated_note(names)))
    }
}

/// Reduce an over-budget object (its members and their serialized weights, in order) by
/// dropping the heavy arrays.
pub fn shrink(m: &Vec<(String, Json)>, weights: &[usize]) -> (r: Vec<(String, Json)>)
    requires
        weights@.len() == m@.len(),
    ensures
        members_view(r@) == shrunk(members_view(m@), weights@),
{
    let ghost mv = members_view(m@);
    let ghost w = weights@;
    let mut kept: Vec<(String, Json)> = Vec::new();
    let mut i: usize = 0;
    proof {
        assert(members_view(kept@) =~= Seq::empty());
    }
    while i < m.len()
        invariant
            i <= m@.len(),
            w == weights@,
            w.len() == m@.len(),
            mv == members_view(m@),
            members_view(kept@) == kept_upto(mv, w, i as int),
        decreases m@.len() - i,
    {
        let heavy_here = match &m[i].1 {
            Json::Arr(_) => weights[i] > MAX_RESULT_BYTES / 8,
            _ => false,
        };
        proof {
            assert(mv[i as int].1 == jv(m@[i as int].1));
        }
        if !heavy_here {
            obj_insert(&mut kept, m[i].0.clone(), m[i].1.copy());
        }
        i = i + 1;
    }
    let ghost base = members_view(kept@);
    let mut names: Vec<String> = Vec::new();
    let mut i: usize = 0;
    proof {
        assert(views(names@) =~= Seq::empty());
    }
    while i < m.len()
        invariant
            i <= m@.len(),
            w == weights@,
            w.len() == m@.len(),
            mv == members_view(m@),
            base == kept_upto(mv, w, m@.len() as int),
            members_view(kept@) == marked_upto(mv, w, i as int, base),
            views(names@) == heavy_names(mv, w, i as int),
        decreases m@.len() - i,
    {
        proof {
            assert(mv[i as int].1 == jv(m@[i as int].1));
        }
        match &m[i].1 {
            Json::Arr(a) => {
                if weights[i] > MAX_RESULT_BYTES / 8 {
                    proof {
                        lemma_items_view(*a);
                    }
                    let mut t = "[".to_string();
                    t.append(decimal(a.len() as u64).as_str());
                    t.append(" items omitted: response too large]");
                    obj_insert(&mut kept, m[i].0.clone(), Json::Str(t));
                    let ghost before = views(names@);
                    names.push(m[i].0.clone());
                    proof {
                        assert(views(names@) =~= before.push(m@[i as int].0@));
                    }
                }
            },
            _ => {},
        }
        i = i + 1;
    }
    if names.len() > 0 {
        let mut t = "Omitted large field(s): ".to_string();
        t.append(join(names.as_slice(), ", ").as_str());
        t.append(
            ". Re-call with \"pick\" (dot-paths of just the fields you need) or \"head\" (cap arrays to N items); or narrow with limit/filter, or (for a backtest) pass \"view\":\"summary\" and read the full result from its run_id.",
        );
        obj_insert(&mut kept, "_truncated".to_string(), Json::Str(t));
    }
    kept
}

} // verus!
