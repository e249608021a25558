//! Bucketing source updates into bars of the timeframe the user is looking at: the clock
//! half of the fold.
//!
//! Two rules make the result match what the REST history would have stored:
//!
//! - **A bucket is `floor((ts - offset) / tf)` on the UTC epoch**, shifted by an offset the
//!   provider's own bars dictate (a session daily bar starts at the exchange's midnight);
//!   the offset is zero for every intraday feed.
//! - **A bucket closes on evidence whenever there is evidence**: the source update that
//!   completes it, or one that belongs to a later bucket. The timer ([`Bucketer::tick`]) is
//!   the fallback for a market that went quiet.
//!
//! Every decision is made here on timestamps; the caller carries the prices and applies
//! the [`FoldStep`] each update returns (open a bucket, extend it, close it).

use vstd::prelude::*;

use crate::live::bars::{in_range, rem_euclid, MAX_TF, MAX_TS, MIN_TS};

verus! {

/// Default grace after a bucket's end before the close timer fires.
pub const DEFAULT_GRACE: i64 = 2;

/// How far a bucket start can sit from a representable timestamp.
pub open spec fn near_range(t: int) -> bool {
    MIN_TS - 2 * MAX_TF <= t <= MAX_TS + 2 * MAX_TF
}

/// The timeline of one fold: which bucket is forming and which one closed last.
pub struct Bucketer {
    tf_secs: i64,
    /// Seconds after a bucket's end before the timer closes it.
    grace: i64,
    /// Where inside the period a bucket starts, as seconds into the epoch cycle.
    offset: i64,
    /// Start of the forming bucket, if any.
    cur: Option<i64>,
    /// Newest bucket already emitted closed, so a late update cannot resurrect it.
    last_closed: Option<i64>,
}

/// What one source update did to the fold.
#[derive(Debug, Clone, Copy, PartialEq, Eq, Structural)]
pub struct FoldStep {
    /// The update belonged to a bucket already closed: nothing changes, nothing is emitted.
    pub straggler: bool,
    /// The forming bucket this update closed first, because it belongs to a later one.
    pub closed_before: Option<i64>,
    /// The update starts a new forming bucket (rather than extending the one in hand).
    pub opened: bool,
    /// Start of the forming bucket the update landed in.
    pub current: i64,
    /// The update completed its bucket, which is emitted closed.
    pub completes: bool,
}

impl FoldStep {
    /// The bars this step emits, oldest first, as (bucket start, closed): the forming bucket
    /// it closed first, if any, then its own bucket, closed when the update completes it.
    /// A straggler emits nothing.
    pub open spec fn emitted(self) -> Seq<(int, bool)> {
        if self.straggler {
            Seq::empty()
        } else {
            let first: Seq<(int, bool)> = match self.closed_before {
                Some(c) => seq![(c as int, true)],
                None => Seq::empty(),
            };
            first.push((self.current as int, self.completes))
        }
    }

    /// [`FoldStep::emitted`], as values.
    pub fn events(&self) -> (r: Vec<(i64, bool)>)
        ensures
            r@.map_values(|e: (i64, bool)| (e.0 as int, e.1)) == self.emitted(),
    {
        let mut r: Vec<(i64, bool)> = Vec::new();
        if !self.straggler {
            if let Some(c) = self.closed_before {
                r.push((c, true));
            }
            r.push((self.current, self.completes));
        }
        proof {
            assert(r@.map_values(|e: (i64, bool)| (e.0 as int, e.1)) =~= self.emitted());
        }
        r
    }
}

/// What a fold may emit after `last_closed`: at most two bars, each newer than the last one
/// closed, every one but the last closed, and the closed ones in increasing order.
pub open spec fn emits_in_order(last_closed: Option<int>, out: Seq<(int, bool)>) -> bool {
    &&& out.len() <= 2
    &&& forall|i: int| 0 <= i < out.len() ==> (last_closed matches Some(l) ==> l < #[trigger] out[i].0)
    &&& forall|i: int| 0 <= i < out.len() - 1 ==> #[trigger] out[i].1
    &&& forall|i: int, j: int|
        0 <= i < j < out.len() && #[trigger] out[i].1 && #[trigger] out[j].1 ==> out[i].0 < out[j].0
}

impl Bucketer {
    #[verifier::type_invariant]
    spec fn inv(self) -> bool {
        self.wf()
    }

    /// The timeline's own consistency: a positive timeframe, an offset inside it, and the
    /// forming bucket strictly after the last closed one.
    pub closed spec fn wf(self) -> bool {
        &&& 0 < self.tf_secs <= MAX_TF
        &&& 0 <= self.grace <= MAX_TF
        &&& 0 <= self.offset < self.tf_secs
        &&& (self.cur matches Some(c) ==> near_range(c as int))
        &&& (self.last_closed matches Some(l) ==> near_range(l as int))
        &&& (self.cur matches Some(c) ==> (self.last_closed matches Some(l) ==> l < c))
    }

    pub closed spec fn tf(self) -> int {
        self.tf_secs as int
    }

    pub closed spec fn grace_secs(self) -> int {
        self.grace as int
    }

    pub closed spec fn offset_spec(self) -> int {
        self.offset as int
    }

    /// Start of the forming bucket.
    pub closed spec fn current(self) -> Option<int> {
        match self.cur {
            Some(c) => Some(c as int),
            None => None,
        }
    }

    /// Newest bucket emitted closed.
    pub closed spec fn closed_last(self) -> Option<int> {
        match self.last_closed {
            Some(l) => Some(l as int),
            None => None,
        }
    }

    /// Start of the bucket `ts` belongs to, on this bucketer's alignment.
    pub open spec fn bucket_of(self, ts: int) -> int {
        ts - (ts - self.offset_spec()) % self.tf()
    }

    /// The timeline after folding an update for `bucket`.
    pub open spec fn after_fold(self, bucket: int, completes: bool) -> (Option<int>, Option<int>) {
        match self.closed_last() {
            Some(l) if bucket <= l => (self.current(), self.closed_last()),
            _ => {
                let (cur, last) = match self.current() {
                    Some(c) if bucket > c => (None, Some(c)),
                    _ => (self.current(), self.closed_last()),
                };
                let forming = match cur {
                    Some(c) => c,
                    None => bucket,
                };
                if completes {
                    (None, Some(forming))
                } else {
                    (Some(forming), last)
                }
            },
        }
    }

    /// What folding an update for `bucket` reports.
    pub open spec fn fold_step(self, bucket: int, completes: bool) -> FoldStep {
        match self.closed_last() {
            Some(l) if bucket <= l => FoldStep {
                straggler: true,
                closed_before: None,
                opened: false,
                current: 0,
                completes: false,
            },
            _ => {
                let closed_before = match self.current() {
                    Some(c) if bucket > c => Some(c as i64),
                    _ => None,
                };
                let still = match self.current() {
                    Some(c) if bucket <= c => Some(c),
                    _ => None,
                };
                FoldStep {
                    straggler: false,
                    closed_before,
                    opened: still is None,
                    current: (match still {
                        Some(c) => c,
                        None => bucket,
                    }) as i64,
                    completes,
                }
            },
        }
    }

    /// Same tf, grace and alignment.
    pub open spec fn same_config(self, other: Bucketer) -> bool {
        self.tf() == other.tf() && self.grace_secs() == other.grace_secs()
            && self.offset_spec() == other.offset_spec()
    }

    /// A bucketer for `tf_secs`-second bars with the default grace.
    pub fn new(tf_secs: i64) -> (b: Bucketer)
        requires
            0 < tf_secs <= MAX_TF,
        ensures
            b.tf() == tf_secs,
            b.grace_secs() == DEFAULT_GRACE,
            b.offset_spec() == 0,
            b.current() is None,
            b.closed_last() is None,
            b.wf(),
    {
        Bucketer { tf_secs, grace: DEFAULT_GRACE, offset: 0, cur: None, last_closed: None }
    }

    /// Same, with a longer wait before the timer closes a bucket, for a feed that publishes
    /// its source bar after the period it covers has ended.
    pub fn with_grace(tf_secs: i64, grace: i64) -> (b: Bucketer)
        requires
            0 < tf_secs <= MAX_TF,
            0 <= grace <= MAX_TF,
        ensures
            b.tf() == tf_secs,
            b.grace_secs() == grace,
            b.offset_spec() == 0,
            b.current() is None,
            b.closed_last() is None,
            b.wf(),
    {
        Bucketer { tf_secs, grace, offset: 0, cur: None, last_closed: None }
    }

    /// Align every future bucket on `ts`, a bar timestamp the provider itself produced.
    pub fn anchor(&mut self, ts: i64)
        ensures
            final(self).wf(),
            final(self).offset_spec() == ts as int % old(self).tf(),
            final(self).tf() == old(self).tf(),
            final(self).grace_secs() == old(self).grace_secs(),
            final(self).current() == old(self).current(),
            final(self).closed_last() == old(self).closed_last(),
    {
        proof {
            use_type_invariant(&*self);
        }
        let offset = rem_euclid(ts, self.tf_secs);
        *self = Bucketer { offset, ..*self };
    }

    /// Same alignment, taken from a remembered offset instead of a bar.
    pub fn anchor_at(&mut self, offset: i64)
        ensures
            final(self).wf(),
            final(self).offset_spec() == offset as int % old(self).tf(),
            final(self).tf() == old(self).tf(),
            final(self).grace_secs() == old(self).grace_secs(),
            final(self).current() == old(self).current(),
            final(self).closed_last() == old(self).closed_last(),
    {
        proof {
            use_type_invariant(&*self);
        }
        let offset = rem_euclid(offset, self.tf_secs);
        *self = Bucketer { offset, ..*self };
    }

    /// Where this bucketer thinks the period starts, as seconds into the timeframe cycle.
    pub fn offset(&self) -> (o: i64)
        ensures
            o == self.offset_spec(),
            0 <= o < self.tf(),
    {
        proof {
            use_type_invariant(self);
        }
        self.offset
    }

    /// Adopt the provider's own bar at `bar_ts` as the bucket in progress: its alignment
    /// becomes the bucketer's, and the bucket before it counts as closed.
    pub fn prime(&mut self, bar_ts: i64)
        requires
            in_range(bar_ts as int),
        ensures
            final(self).wf(),
            final(self).offset_spec() == bar_ts as int % old(self).tf(),
            final(self).current() == Some(bar_ts as int),
            final(self).closed_last() == Some(bar_ts - old(self).tf()),
            final(self).tf() == old(self).tf(),
            final(self).grace_secs() == old(self).grace_secs(),
    {
        proof {
            use_type_invariant(&*self);
        }
        let offset = rem_euclid(bar_ts, self.tf_secs);
        *self = Bucketer {
            offset,
            cur: Some(bar_ts),
            last_closed: Some(bar_ts - self.tf_secs),
            ..*self
        };
    }

    /// Start of the bucket `ts` belongs to, on this bucketer's alignment.
    pub fn bucket(&self, ts: i64) -> (b: i64)
        requires
            in_range(ts as int),
        ensures
            b == self.bucket_of(ts as int),
            b <= ts < b + self.tf(),
            near_range(b as int),
    {
        proof {
            use_type_invariant(self);
        }
        let r = rem_euclid(ts - self.offset, self.tf_secs);
        ts - r
    }

    /// Fold one update that lands in `bucket`, closing it right after when `completes`.
    ///
    /// An update for a bucket at or before the last one closed is a straggler: nothing
    /// changes and nothing is emitted. Otherwise the step emits at most two bars, each newer
    /// than anything closed before, only the last possibly still forming, the closed ones in
    /// order, and the timeline stays consistent.
    pub fn fold(&mut self, bucket: i64, completes: bool) -> (step: FoldStep)
        requires
            near_range(bucket as int),
        ensures
            final(self).wf(),
            (old(self).closed_last() matches Some(l) && bucket <= l) ==> step.emitted().len() == 0
                && *final(self) == *old(self),
            emits_in_order(old(self).closed_last(), step.emitted()),
            step == old(self).fold_step(bucket as int, completes),
            (final(self).current(), final(self).closed_last()) == old(self).after_fold(
                bucket as int,
                completes,
            ),
            final(self).same_config(*old(self)),
    {
        proof {
            use_type_invariant(&*self);
            lemma_fold_step_law(*self, bucket as int, completes);
        }
        if let Some(lc) = self.last_closed {
            if bucket <= lc {
                return FoldStep {
                    straggler: true,
                    closed_before: None,
                    opened: false,
                    current: 0,
                    completes: false,
                };
            }
        }
        let mut cur = self.cur;
        let mut last = self.last_closed;
        let mut closed_before: Option<i64> = None;
        if let Some(c) = cur {
            if bucket > c {
                closed_before = Some(c);
                last = Some(c);
                cur = None;
            }
        }
        let opened = cur.is_none();
        let forming = match cur {
            Some(c) => c,
            None => bucket,
        };
        if completes {
            *self = Bucketer { cur: None, last_closed: Some(forming), ..*self };
        } else {
            *self = Bucketer { cur: Some(forming), last_closed: last, ..*self };
        }
        FoldStep { straggler: false, closed_before, opened, current: forming, completes }
    }

    /// Fold one trade stamped `ts`. Only a later bucket closes the one in hand.
    pub fn trade(&mut self, ts: i64) -> (step: FoldStep)
        requires
            in_range(ts as int),
        ensures
            final(self).wf(),
            step == old(self).fold_step(old(self).bucket_of(ts as int), false),
            (final(self).current(), final(self).closed_last()) == old(self).after_fold(
                old(self).bucket_of(ts as int),
                false,
            ),
            final(self).same_config(*old(self)),
    {
        let b = self.bucket(ts);
        self.fold(b, false)
    }

    /// Whether a source bar from `src_ts` covering `src_secs` reaches the end of `bucket`.
    pub open spec fn completes_spec(self, src_ts: int, src_secs: int, src_closed: bool) -> bool {
        src_closed && src_ts + src_secs >= self.bucket_of(src_ts) + self.tf()
    }

    /// Fold one source bar covering `src_secs` from `src_ts`. The bucket closes when a final
    /// source bar reaches the bucket's end, so only the last one of the period closes it.
    pub fn bar(&mut self, src_ts: i64, src_secs: i64, src_closed: bool) -> (step: FoldStep)
        requires
            in_range(src_ts as int),
            0 < src_secs <= MAX_TF,
        ensures
            final(self).wf(),
            step == old(self).fold_step(
                old(self).bucket_of(src_ts as int),
                old(self).completes_spec(src_ts as int, src_secs as int, src_closed),
            ),
            (final(self).current(), final(self).closed_last()) == old(self).after_fold(
                old(self).bucket_of(src_ts as int),
                old(self).completes_spec(src_ts as int, src_secs as int, src_closed),
            ),
            final(self).same_config(*old(self)),
    {
        proof {
            use_type_invariant(&*self);
        }
        let b = self.bucket(src_ts);
        let completes = src_closed && src_ts + src_secs >= b + self.tf_secs;
        self.fold(b, completes)
    }

    /// What the close timer does at `now`: the bucket it closes, if its period and grace
    /// have elapsed.
    pub open spec fn tick_spec(self, now: int) -> Option<int> {
        match self.current() {
            Some(c) if now >= c + self.tf() + self.grace_secs() => Some(c),
            _ => None,
        }
    }

    /// Close the forming bucket once its period plus the grace has elapsed, for a feed that
    /// publishes nothing while the market is quiet. Returns the bucket closed.
    pub fn tick(&mut self, now: i64) -> (closed: Option<i64>)
        requires
            in_range(now as int),
        ensures
            final(self).wf(),
            match closed {
                Some(c) => old(self).tick_spec(now as int) == Some(c as int),
                None => old(self).tick_spec(now as int) is None,
            },
            match old(self).tick_spec(now as int) {
                Some(c) => final(self).current() is None && final(self).closed_last() == Some(c),
                None => final(self).current() == old(self).current() && final(self).closed_last()
                    == old(self).closed_last(),
            },
            final(self).same_config(*old(self)),
    {
        proof {
            use_type_invariant(&*self);
        }
        match self.cur {
            None => None,
            Some(c) => {
                if now < c + self.tf_secs + self.grace {
                    None
                } else {
                    *self = Bucketer { cur: None, last_closed: Some(c), ..*self };
                    Some(c)
                }
            },
        }
    }
}

/// A bucket start is aligned on the offset and holds the timestamp it was computed from.
pub proof fn lemma_bucket_holds_ts(b: Bucketer, ts: int)
    requires
        b.wf(),
    ensures
        b.bucket_of(ts) <= ts < b.bucket_of(ts) + b.tf(),
        (b.bucket_of(ts) - b.offset_spec()) % b.tf() == 0,
{
    let x = ts - b.offset_spec();
    let tf = b.tf();
    vstd::arithmetic::div_mod::lemma_fundamental_div_mod(x, tf);
    assert(b.bucket_of(ts) - b.offset_spec() == tf * (x / tf));
    vstd::arithmetic::mul::lemma_mul_is_commutative(tf, x / tf);
    vstd::arithmetic::div_mod::lemma_mod_multiples_basic(x / tf, tf);
}

/// A remembered offset aligns like the bar it came from: after anchoring on a provider
/// bar, that bar's own timestamp is a bucket start.
pub proof fn lemma_anchor_aligns(b: Bucketer, ts: int)
    requires
        b.wf(),
        b.offset_spec() == ts % b.tf(),
    ensures
        b.bucket_of(ts) == ts,
{
    let tf = b.tf();
    vstd::arithmetic::div_mod::lemma_fundamental_div_mod(ts, tf);
    let q = ts / tf;
    assert(ts - b.offset_spec() == tf * q);
    vstd::arithmetic::mul::lemma_mul_is_commutative(tf, q);
    vstd::arithmetic::div_mod::lemma_mod_multiples_basic(q, tf);
}

/// A straggler cannot reopen a closed bucket: an update for a bucket at or before the last
/// one closed changes nothing and emits nothing.
pub proof fn lemma_straggler_is_dropped(b: Bucketer, bucket: int, completes: bool)
    requires
        b.closed_last() matches Some(l) && bucket <= l,
    ensures
        b.fold_step(bucket, completes).straggler,
        b.after_fold(bucket, completes) == (b.current(), b.closed_last()),
{
}

/// Closed buckets only move forward: whatever an update or the timer closes is newer than
/// everything closed before it, and when one update closes two buckets the earlier comes
/// first.
pub proof fn lemma_closing_moves_forward(b: Bucketer, bucket: int, completes: bool, now: int)
    requires
        b.wf(),
        near_range(bucket),
    ensures
        ({
            let step = b.fold_step(bucket, completes);
            let (_, last) = b.after_fold(bucket, completes);
            &&& (step.closed_before matches Some(c) ==> (b.closed_last() matches Some(l) ==> l
                < c))
            &&& (step.completes ==> (b.closed_last() matches Some(l) ==> l < step.current))
            &&& (step.completes ==> (step.closed_before matches Some(c) ==> c < step.current))
            &&& (!step.straggler && (step.completes || step.closed_before is Some) ==> (last
                matches Some(n) && (b.closed_last() matches Some(l) ==> l < n)))
        }),
        b.tick_spec(now) matches Some(c) ==> (b.closed_last() matches Some(l) ==> l < c),
{
}


/// One fold step, as one statement: a straggler (a bucket at or before the last closed one)
/// changes nothing and emits nothing; otherwise at most two buckets are emitted — the forming
/// one it closes first, then its own — every closed one is newer than anything closed
/// before and the two come in order, only its own bucket may be left open, and the timeline
/// stays consistent (the forming bucket after the last closed one).
pub proof fn lemma_fold_step_law(b: Bucketer, bucket: int, completes: bool)
    requires
        b.wf(),
        near_range(bucket),
    ensures
        ({
            let step = b.fold_step(bucket, completes);
            let (cur, last) = b.after_fold(bucket, completes);
            let lc0 = b.closed_last();
            &&& (lc0 matches Some(l) && bucket <= l) ==> step.straggler && cur == b.current() && last == lc0
            &&& !step.straggler ==> {
                &&& (step.closed_before matches Some(c) ==> (lc0 matches Some(l) ==> l < c))
                &&& (lc0 matches Some(l) ==> l < step.current)
                &&& (step.closed_before matches Some(c) ==> c < step.current)
                &&& (step.completes ==> cur is None && last == Some(step.current as int))
                &&& (!step.completes ==> cur == Some(step.current as int))
            }
            &&& (cur matches Some(c) ==> (last matches Some(l) ==> l < c))
            &&& ((lc0 matches Some(l) && bucket <= l) ==> step.emitted().len() == 0)
            &&& emits_in_order(lc0, step.emitted())
        }),
{
    lemma_closing_moves_forward(b, bucket, completes, 0);
    let step = b.fold_step(bucket, completes);
    let out = step.emitted();
    if !step.straggler {
        match step.closed_before {
            Some(c) => {
                assert(out =~= seq![(c as int, true), (step.current as int, step.completes)]);
            },
            None => {
                assert(out =~= seq![(step.current as int, step.completes)]);
            },
        }
    }
}
} // verus!
