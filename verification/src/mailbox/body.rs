//! Bodies cut to a byte budget.

use vstd::prelude::*;

use crate::text::{byte_len, char_width, chars_of, lemma_byte_len_prefix_strict, lemma_byte_len_take_step, string_of, utf8_width};

verus! {

/// Longest body kept, in KiB.
pub const MAX_BODY_KB: usize = 512;
/// Longest attachment kept, in KiB.
pub const MAX_ATTACHMENT_KB: usize = 10_240;
/// Characters in a list snippet.
pub const SNIPPET_CHARS: usize = 220;
/// Mails fetched per poll at most.
pub const MAX_PER_POLL: usize = 40;

/// The longest prefix of `s` that fits in `max` bytes.
pub open spec fn prefix_within(s: Seq<char>, max: nat) -> Seq<char>
    decreases s.len(),
{
    if s.len() == 0 || byte_len(s) <= max {
        s
    } else {
        prefix_within(s.drop_last(), max)
    }
}

/// The body as kept: whole when it fits, else cut at the last character boundary within the
/// budget and marked with a line holding an ellipsis.
pub open spec fn truncate_spec(s: Seq<char>, max: nat) -> Seq<char> {
    if byte_len(s) <= max {
        s
    } else {
        prefix_within(s, max) + seq!['\n', '…']
    }
}

proof fn lemma_prefix_within(s: Seq<char>, max: nat, k: int)
    requires
        0 <= k <= s.len(),
        byte_len(s.take(k)) <= max,
        k == s.len() || byte_len(s.take(k + 1)) > max,
    ensures
        prefix_within(s, max) == s.take(k),
    decreases s.len(),
{
    assert(s.take(s.len() as int) == s);
    if s.len() == 0 {
    } else if byte_len(s) <= max {
        if k < s.len() {
            if k + 1 < s.len() {
                lemma_byte_len_prefix_strict(s, k + 1, s.len() as int);
            }
        }
    } else {
        let d = s.drop_last();
        assert(k < s.len());
        assert(d.take(k) == s.take(k));
        if k + 1 <= d.len() {
            assert(d.take(k + 1) == s.take(k + 1));
        }
        lemma_prefix_within(d, max, k);
    }
}

/// Cut a body to a byte budget without splitting a character.
pub fn truncate(s: String, max_bytes: usize) -> (r: String)
    ensures
        r@ == truncate_spec(s@, max_bytes as nat),
{
    let v = chars_of(s.as_str());
    let mut bytes: usize = 0;
    let mut k: usize = 0;
    assert(v@.take(0) == Seq::<char>::empty());
    while k < v.len()
        invariant_except_break
            k <= v@.len(),
            bytes == byte_len(v@.take(k as int)),
            bytes <= max_bytes,
        ensures
            k <= v@.len(),
            bytes == byte_len(v@.take(k as int)),
            bytes <= max_bytes,
            k == v@.len() || byte_len(v@.take(k + 1)) > max_bytes,
        decreases v@.len() - k,
    {
        let w = char_width(v[k]);
        proof {
            lemma_byte_len_take_step(v@, k as int);
        }
        if w > max_bytes - bytes {
            break;
        }
        bytes = bytes + w;
        k = k + 1;
    }
    proof {
        lemma_prefix_within(v@, max_bytes as nat, k as int);
        assert(v@.take(v@.len() as int) == v@);
    }
    if k == v.len() {
        return s;
    }
    let mut out: Vec<char> = Vec::new();
    let mut i: usize = 0;
    while i < k
        invariant
            i <= k <= v@.len(),
            out@ == v@.take(i as int),
        decreases k - i,
    {
        out.push(v[i]);
        proof {
            assert(v@.take(i + 1) == v@.take(i as int).push(v@[i as int]));
        }
        i = i + 1;
    }
    out.push('\n');
    out.push('…');
    proof {
        assert(byte_len(v@) > max_bytes) by {
            lemma_byte_len_prefix_strict(v@, k as int, v@.len() as int);
            if k + 1 < v@.len() {
                lemma_byte_len_prefix_strict(v@, k + 1, v@.len() as int);
            }
        }
        assert(out@ == v@.take(k as int) + seq!['\n', '…']);
    }
    string_of(out.as_slice())
}

} // verus!
