//! Epoch bucketing of bar open times, in seconds since the Unix epoch.

use vstd::prelude::*;

verus! {

/// Seconds since the epoch of 9999-12-31T23:59:59Z, the last instant a date-time can hold.
pub const MAX_TS: i64 = 253402300799;

/// Seconds since the epoch of -9999-01-01T00:00:00Z, the first instant a date-time can hold.
pub const MIN_TS: i64 = -377705116800;

/// Every timeframe served is far below this (a week is 604 800 seconds).
pub const MAX_TF: i64 = 1_000_000_000;

/// A timestamp a date-time can hold.
pub open spec fn in_range(ts: int) -> bool {
    MIN_TS <= ts <= MAX_TS
}

/// `ts.rem_euclid(tf)` for `tf > 0`.
pub fn rem_euclid(ts: i64, tf: i64) -> (r: i64)
    requires
        tf > 0,
    ensures
        r == ts as int % tf as int,
        0 <= r < tf,
{
    if ts >= 0 {
        ts % tf
    } else {
        let a: i64 = -(ts + 1);
        let m: i64 = a % tf;
        proof {
            lemma_neg_mod(ts as int, tf as int, a as int, m as int);
        }
        tf - 1 - m
    }
}

proof fn lemma_neg_mod(ts: int, tf: int, a: int, m: int)
    requires
        tf > 0,
        ts < 0,
        a == -(ts + 1),
        m == a % tf,
    ensures
        ts % tf == tf - 1 - m,
{
    let q = a / tf;
    assert(a == q * tf + m) by {
        vstd::arithmetic::div_mod::lemma_fundamental_div_mod(a, tf);
    }
    assert(0 <= m < tf) by {
        vstd::arithmetic::div_mod::lemma_mod_pos_bound(a, tf);
    }
    assert(ts == (-(q + 1)) * tf + (tf - 1 - m)) by (nonlinear_arith)
        requires
            a == q * tf + m,
            a == -(ts + 1),
    ;
    vstd::arithmetic::div_mod::lemma_fundamental_div_mod_converse(ts, tf, -(q + 1), tf - 1 - m);
}


/// Start (open time) of the bar containing `ts`, for a `tf`-second timeframe on the epoch.
pub open spec fn bar_start_of(ts: int, tf: int) -> int {
    ts - ts % tf
}

/// Start (open time) of the bar containing `ts`, for a `tf_secs`-second timeframe. Bars are
/// bucketed on the UTC epoch, matching every exchange's candle alignment.
pub fn bar_start(ts: i64, tf_secs: i64) -> (s: i64)
    requires
        0 < tf_secs,
        in_range(bar_start_of(ts as int, tf_secs as int)),
    ensures
        s == bar_start_of(ts as int, tf_secs as int),
        s <= ts < s + tf_secs,
        s % tf_secs == 0,
        bar_start_of(s as int, tf_secs as int) == s,
{
    proof {
        lemma_bar_start(ts as int, tf_secs as int);
    }
    ts - rem_euclid(ts, tf_secs)
}

/// A bar start is the largest multiple of the timeframe at or before the timestamp.
pub proof fn lemma_bar_start(ts: int, tf: int)
    requires
        tf > 0,
    ensures
        bar_start_of(ts, tf) <= ts < bar_start_of(ts, tf) + tf,
        bar_start_of(ts, tf) % tf == 0,
        bar_start_of(bar_start_of(ts, tf), tf) == bar_start_of(ts, tf),
{
    vstd::arithmetic::div_mod::lemma_fundamental_div_mod(ts, tf);
    let q = ts / tf;
    assert(bar_start_of(ts, tf) == tf * q);
    vstd::arithmetic::mul::lemma_mul_is_commutative(tf, q);
    vstd::arithmetic::div_mod::lemma_mod_multiples_basic(q, tf);
    assert(bar_start_of(ts, tf) % tf == 0);
}

/// Given the last closed bar's open time and a newly closed bar's open time, the open times
/// of any bars missing strictly between them (a gap to backfill). Empty when the new bar is
/// the immediate successor, a duplicate, or older.
pub fn missing_buckets(last_closed: i64, new_closed: i64, tf_secs: i64) -> (out: Vec<i64>)
    requires
        0 < tf_secs <= MAX_TF,
        in_range(last_closed as int),
        in_range(new_closed as int),
    ensures
        forall|k: int| 0 <= k < out@.len() ==> #[trigger] out@[k] == last_closed + (k + 1) * tf_secs,
        forall|k: int| 0 <= k < out@.len() ==> #[trigger] out@[k] < new_closed,
        last_closed + (out@.len() + 1) * tf_secs >= new_closed,
{
    let mut out: Vec<i64> = Vec::new();
    let mut t: i64 = last_closed + tf_secs;
    assert(out@.len() == 0);
    assert(t == last_closed + (out@.len() + 1) * tf_secs) by (nonlinear_arith)
        requires
            out@.len() == 0,
            t == last_closed + tf_secs,
    ;
    while t < new_closed
        invariant
            0 < tf_secs <= MAX_TF,
            in_range(last_closed as int),
            in_range(new_closed as int),
            t == last_closed + (out@.len() + 1) * tf_secs,
            out@.len() == 0 || t <= new_closed + tf_secs,
            forall|k: int| 0 <= k < out@.len() ==> #[trigger] out@[k] == last_closed + (k + 1) * tf_secs,
            forall|k: int| 0 <= k < out@.len() ==> #[trigger] out@[k] < new_closed,
        decreases new_closed as int + tf_secs as int - t as int,
    {
        let ghost n = out@.len();
        out.push(t);
        proof {
            assert((n + 2) * tf_secs == (n + 1) * tf_secs + tf_secs) by (nonlinear_arith);
        }
        t = t + tf_secs;
        assert(out@.len() == n + 1);
    }
    out
}

/// The gap between two closed bars is exactly the run of bar starts strictly between them.
pub proof fn lemma_missing_buckets_are_the_gap(last: int, new: int, tf: int, out: Seq<i64>)
    requires
        tf > 0,
        forall|k: int| 0 <= k < out.len() ==> #[trigger] out[k] == last + (k + 1) * tf,
        forall|k: int| 0 <= k < out.len() ==> #[trigger] out[k] < new,
        last + (out.len() + 1) * tf >= new,
    ensures
        new <= last + tf ==> out.len() == 0,
        forall|k: int| 0 <= k < out.len() ==> last < #[trigger] out[k] < new,
        forall|i: int, j: int| 0 <= i < j < out.len() ==> out[j] - out[i] == (j - i) * tf,
{
    if new <= last + tf && out.len() > 0 {
        assert(out[0] == last + tf);
    }
    assert forall|k: int| 0 <= k < out.len() implies last < #[trigger] out[k] < new by {
        assert((k + 1) * tf > 0) by (nonlinear_arith)
            requires
                k >= 0,
                tf > 0,
        ;
    }
    assert forall|i: int, j: int| 0 <= i < j < out.len() implies out[j] - out[i] == (j - i) * tf by {
        assert((j + 1) * tf - (i + 1) * tf == (j - i) * tf) by (nonlinear_arith);
    }
}

} // verus!
