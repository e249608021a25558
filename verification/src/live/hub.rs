//! The live hub's decisions: what a viewer is told, which socket and cache entry an
//! instrument belongs to, how a subscription gets into sync, and what a closed bar or a
//! failed session leads to.
//!
//! The hub itself (tasks, channels, the store) runs these; every choice it makes on the way
//! is one of the functions below.

use vstd::prelude::*;

use crate::live::bars::{bar_start, bar_start_of, in_range, rem_euclid, MAX_TF, MAX_TS};
use crate::live::fault::LiveFault;
use crate::live::instrument::{instrument_key, Instrument, SourceGrain};
use crate::text::{dedup, lemma_dedup, no_dups, str_eq, views};

verus! {

/// Trailing bars fetched to seed a subscription with no stored history.
pub const SEED_BARS: i64 = 300;
/// Seconds to wait after a session-shaped bar closes before re-reading it from REST.
pub const SETTLE_DELAY_SECS: u64 = 90;
/// Seconds a remembered session anchor stays usable.
pub const ANCHOR_TTL_SECS: u64 = 21_600;
/// How recent, in seconds, the remembered bar must be for a joining pane to adopt it.
pub const ANCHOR_PRIME_FRESH_SECS: u64 = 120;
/// Broadcast backlog per subscription.
pub const CHANNEL_CAP: usize = 1024;
/// Seconds a subscription stays live after its last viewer leaves.
pub const TEARDOWN_GRACE_SECS: u64 = 20;
/// Reconnect backoff bounds, in seconds.
pub const BACKOFF_MIN_SECS: u64 = 1;
pub const BACKOFF_MAX_SECS: u64 = 30;

/// The feed's current condition, sent on connect and on every change.
#[derive(Debug, Clone, PartialEq, Eq)]
pub struct LiveStatus {
    /// `connecting` | `live` | `retrying` | `stopped`.
    pub state: &'static str,
    /// The [`LiveFault`] code when there is one, for styling and translation.
    pub code: Option<&'static str>,
    /// The sentence to show, already naming the connector and the fix.
    pub message: Option<String>,
}

impl LiveStatus {
    pub fn connecting() -> (s: LiveStatus)
        ensures
            s.state@ == "connecting"@,
            s.code is None,
            s.message is None,
    {
        LiveStatus { state: "connecting", code: None, message: None }
    }

    pub fn live() -> (s: LiveStatus)
        ensures
            s.state@ == "live"@,
            s.code is None,
            s.message is None,
    {
        LiveStatus { state: "live", code: None, message: None }
    }

    /// A fault a human must fix stops the feed; any other is retried.
    pub fn from_fault(fault: LiveFault, message: String) -> (s: LiveStatus)
        ensures
            s.state@ == (if fault.is_terminal() { "stopped"@ } else { "retrying"@ }),
            s.code matches Some(c) && c@ == fault.code_of(),
            s.message matches Some(m) && m@ == message@,
    {
        LiveStatus {
            state: if fault.terminal() { "stopped" } else { "retrying" },
            code: Some(fault.code()),
            message: Some(message),
        }
    }
}

/// Trailing bars to seed for a provider, kept strictly under its per-request cap so a
/// boundary-exact request (e.g. Coinbase's 300-candle limit) never fails.
pub open spec fn seed_bar_count_of(max_bars_per_req: nat) -> int {
    let cap: int = if max_bars_per_req >= 1 { max_bars_per_req - 1 } else { 0 };
    let floor: int = if cap >= 1 { cap } else { 1 };
    if SEED_BARS <= floor { SEED_BARS as int } else { floor }
}

pub fn seed_bar_count(max_bars_per_req: u32) -> (n: i64)
    ensures
        n == seed_bar_count_of(max_bars_per_req as nat),
        1 <= n <= SEED_BARS,
{
    let cap = max_bars_per_req.saturating_sub(1) as i64;
    let floor = if cap >= 1 { cap } else { 1 };
    if SEED_BARS <= floor { SEED_BARS } else { floor }
}

/// Whether this timeframe's bars are periods the provider delimits (a session, a week)
/// rather than epoch buckets: everything from a day up.
pub fn anchored(tf: i64) -> (b: bool)
    ensures
        b == (tf >= 86_400),
{
    tf >= 86_400
}

/// The seed window's start: `count` bars back from the current bar's open.
pub open spec fn seed_from_of(now: int, tf: int, count: int) -> int {
    bar_start_of(now, tf) - tf * (if count - 1 >= 0 { count - 1 } else { 0 })
}

pub fn seed_from(now: i64, tf: i64, count: i64) -> (t: i64)
    requires
        0 < tf <= MAX_TF,
        0 <= now <= MAX_TS,
        count <= SEED_BARS,
    ensures
        t == seed_from_of(now as int, tf as int, count as int),
{
    proof {
        crate::live::bars::lemma_bar_start(now as int, tf as int);
    }
    let start = bar_start(now, tf);
    let back = if count >= 1 { count - 1 } else { 0 };
    assert(tf * back <= MAX_TF * SEED_BARS) by (nonlinear_arith)
        requires
            0 < tf <= MAX_TF,
            0 <= back <= SEED_BARS,
    ;
    start - tf * back
}

// ── Identity: the target, the socket, the remembered anchor ──────────────────

/// The coordinates a supervisor needs to run one instrument's live feed. Identifiers are
/// the 128-bit values of the connector's and the dataset's UUIDs.
#[derive(Clone, Debug)]
pub struct LiveTarget {
    /// Dataset to record closed bars into; `None` is broadcast-only.
    pub dataset_id: Option<u128>,
    /// Which of the user's connectors for this provider to spend.
    pub connector_id: u128,
    /// The connector's name, carried so a refusal can say which key was refused.
    pub connector: String,
    pub provider: String,
    pub asset_type: String,
    pub ticker: String,
    pub timeframe: String,
}

impl LiveTarget {
    /// The instrument, as the transport layer addresses it.
    pub fn instrument(&self) -> (i: Instrument)
        ensures
            i.symbol@ == self.ticker@,
            i.asset_type@ == self.asset_type@,
            i.timeframe@ == self.timeframe@,
    {
        Instrument::new(self.ticker.as_str(), self.asset_type.as_str(), self.timeframe.as_str())
    }

    /// Identity of the subscription: an instrument at a timeframe.
    pub fn key(&self) -> (k: String)
        ensures
            k@ == instrument_key(self.ticker@, self.asset_type@, self.timeframe@),
    {
        self.instrument().key()
    }
}

/// `provider|asset_type|ticker|timeframe`: the venue's coordinates, not the connector's.
pub open spec fn anchor_key_of(t: LiveTarget) -> Seq<char> {
    t.provider@ + "|"@ + t.asset_type@ + "|"@ + t.ticker@ + "|"@ + t.timeframe@
}

/// Cache identity of a remembered anchor: two keys on one provider see the same exchange
/// calendar, and the anchor is a property of the venue.
pub fn anchor_key(t: &LiveTarget) -> (k: String)
    ensures
        k@ == anchor_key_of(*t),
{
    let mut k = t.provider.clone();
    k.append("|");
    k.append(t.asset_type.as_str());
    k.append("|");
    k.append(t.ticker.as_str());
    k.append("|");
    k.append(t.timeframe.as_str());
    k
}

/// The anchor is shared by every connector on the same coordinates, and a second timeframe
/// of the same instrument is a different anchor.
pub proof fn lemma_anchor_is_the_venues(a: LiveTarget, b: LiveTarget)
    requires
        a.provider@ == b.provider@,
        a.asset_type@ == b.asset_type@,
        a.ticker@ == b.ticker@,
    ensures
        a.timeframe@ == b.timeframe@ ==> anchor_key_of(a) == anchor_key_of(b),
        a.timeframe@ != b.timeframe@ ==> anchor_key_of(a) != anchor_key_of(b),
{
    let p = a.provider@ + "|"@ + a.asset_type@ + "|"@ + a.ticker@ + "|"@;
    assert(anchor_key_of(a) == p + a.timeframe@);
    assert(anchor_key_of(b) == p + b.timeframe@);
    if anchor_key_of(a) == anchor_key_of(b) {
        assert(a.timeframe@ == (p + a.timeframe@).subrange(p.len() as int, (p + a.timeframe@).len() as int));
        assert(b.timeframe@ == (p + b.timeframe@).subrange(p.len() as int, (p + b.timeframe@).len() as int));
    }
}

// ── UUID text ─────────────────────────────────────────────────────────────────

/// A lowercase hexadecimal digit.
pub open spec fn hex_char(d: nat) -> char {
    if d < 10 {
        (('0' as u32) + d) as char
    } else {
        (('a' as u32) + (d - 10)) as char
    }
}

/// The last `k` hexadecimal digits of `n`, most significant first.
pub open spec fn hex_digits(n: nat, k: nat) -> Seq<char>
    decreases k,
{
    if k == 0 {
        Seq::empty()
    } else {
        hex_digits(n / 16, (k - 1) as nat).push(hex_char(n % 16))
    }
}

/// `Uuid::from_u128(n)` as `Display` writes it: 32 lowercase hex digits in the groups
/// 8-4-4-4-12, joined by hyphens.
pub open spec fn uuid_text_of(n: u128) -> Seq<char> {
    let h = hex_digits(n as nat, 32);
    h.subrange(0, 8) + "-"@ + h.subrange(8, 12) + "-"@ + h.subrange(12, 16) + "-"@ + h.subrange(16, 20)
        + "-"@ + h.subrange(20, 32)
}

/// The hyphenated text of the UUID whose 128-bit value is `id`, through `uuid`'s `Display`.
#[verifier::external_body]
pub(crate) fn uuid_text(id: u128) -> (r: String)
    ensures
        r@ == uuid_text_of(id),
{
    uuid::Uuid::from_u128(id).to_string()
}

pub open spec fn pow16(k: nat) -> nat
    decreases k,
{
    if k == 0 { 1 } else { 16 * pow16((k - 1) as nat) }
}

proof fn lemma_hex_digits_len(n: nat, k: nat)
    ensures
        hex_digits(n, k).len() == k,
    decreases k,
{
    if k > 0 {
        lemma_hex_digits_len(n / 16, (k - 1) as nat);
    }
}

proof fn lemma_hex_digits_injective(a: nat, b: nat, k: nat)
    requires
        a < pow16(k),
        b < pow16(k),
        hex_digits(a, k) == hex_digits(b, k),
    ensures
        a == b,
    decreases k,
{
    if k > 0 {
        let k1 = (k - 1) as nat;
        let ha = hex_digits(a / 16, k1);
        let hb = hex_digits(b / 16, k1);
        lemma_hex_digits_len(a / 16, k1);
        lemma_hex_digits_len(b / 16, k1);
        assert(hex_digits(a, k).last() == hex_char(a % 16));
        assert(hex_digits(b, k).last() == hex_char(b % 16));
        assert(hex_digits(a, k).drop_last() == ha);
        assert(hex_digits(b, k).drop_last() == hb);
        assert(a % 16 == b % 16);
        let p = pow16(k1);
        assert(a / 16 < p && b / 16 < p) by (nonlinear_arith)
            requires
                a < 16 * p,
                b < 16 * p,
        ;
        lemma_hex_digits_injective(a / 16, b / 16, k1);
    }
}

/// Two connectors never render to the same identifier.
pub proof fn lemma_uuid_text_injective(a: u128, b: u128)
    ensures
        uuid_text_of(a) == uuid_text_of(b) ==> a == b,
        uuid_text_of(a).len() == 36,
{
    lemma_hex_digits_len(a as nat, 32);
    lemma_hex_digits_len(b as nat, 32);
    reveal_strlit("-");
    if uuid_text_of(a) == uuid_text_of(b) {
        let ha = hex_digits(a as nat, 32);
        let hb = hex_digits(b as nat, 32);
        let ta = uuid_text_of(a);
        let tb = uuid_text_of(b);
        assert forall|i: int| 0 <= i < 32 implies ha[i] == hb[i] by {
            let j: int = if i < 8 { i } else if i < 12 { i + 1 } else if i < 16 { i + 2 } else if i < 20 { i + 3 } else { i + 4 };
            assert(ta[j] == ha[i]);
            assert(tb[j] == hb[i]);
        }
        assert(ha == hb);
        assert(pow16(32) == 0x1_0000_0000_0000_0000_0000_0000_0000_0000nat) by {
            reveal_with_fuel(pow16, 33);
        }
        lemma_hex_digits_injective(a as nat, b as nat, 32);
    }
}

/// `connector|class`: the connector plus whatever the provider cannot multiplex over.
pub open spec fn session_key_of(connector_id: u128, class: Seq<char>) -> Seq<char> {
    uuid_text_of(connector_id) + "|"@ + class
}

/// Identity of the socket. Two connectors are two entitlements and two seats, so they never
/// share one.
pub fn session_key(connector_id: u128, class: &str) -> (k: String)
    ensures
        k@ == session_key_of(connector_id, class@),
{
    let mut k = uuid_text(connector_id);
    k.append("|");
    k.append(class);
    k
}

/// Sockets are per connector and per class: two connectors never share one, and one
/// connector shares one exactly when the classes agree.
pub proof fn lemma_sockets_are_per_connector(a: u128, b: u128, ca: Seq<char>, cb: Seq<char>)
    ensures
        a != b ==> session_key_of(a, ca) != session_key_of(b, cb),
        a == b ==> (session_key_of(a, ca) == session_key_of(b, cb) <==> ca == cb),
{
    lemma_uuid_text_injective(a, b);
    lemma_uuid_text_injective(b, a);
    let ka = session_key_of(a, ca);
    let kb = session_key_of(b, cb);
    if ka == kb {
        assert(uuid_text_of(a) == ka.subrange(0, 36));
        assert(uuid_text_of(b) == kb.subrange(0, 36));
        let p = uuid_text_of(a) + "|"@;
        assert(ca == ka.subrange(p.len() as int, ka.len() as int));
        assert(cb == kb.subrange(p.len() as int, kb.len() as int));
    }
}

// ── Market-data lines ─────────────────────────────────────────────────────────

/// The tickers of the targets on this connector, in order.
pub open spec fn tickers_on(targets: Seq<LiveTarget>, connector_id: u128) -> Seq<Seq<char>>
    decreases targets.len(),
{
    if targets.len() == 0 {
        Seq::empty()
    } else {
        let r = tickers_on(targets.drop_last(), connector_id);
        if targets.last().connector_id == connector_id {
            r.push(targets.last().ticker@)
        } else {
            r
        }
    }
}

/// How many distinct instruments one connector is streaming: the same ticker at three
/// timeframes is one line, and two connectors are two separate tallies.
pub fn lines_of(targets: &[LiveTarget], connector_id: u128) -> (n: usize)
    ensures
        n == tickers_on(targets@, connector_id).to_set().len(),
{
    let mut seen: Vec<String> = Vec::new();
    let mut i: usize = 0;
    while i < targets.len()
        invariant
            i <= targets@.len(),
            views(seen@) == dedup(tickers_on(targets@.take(i as int), connector_id)),
        decreases targets@.len() - i,
    {
        let ghost prev = tickers_on(targets@.take(i as int), connector_id);
        proof {
            assert(targets@.take(i + 1).drop_last() == targets@.take(i as int));
            assert(targets@.take(i + 1).last() == targets@[i as int]);
            if targets@[i as int].connector_id == connector_id {
                assert(tickers_on(targets@.take(i + 1), connector_id) == prev.push(targets@[i as int].ticker@));
                assert(prev.push(targets@[i as int].ticker@).drop_last() == prev);
                assert(prev.push(targets@[i as int].ticker@).last() == targets@[i as int].ticker@);
            } else {
                assert(tickers_on(targets@.take(i + 1), connector_id) == prev);
            }
        }
        if targets[i].connector_id == connector_id {
            if !crate::text::contains_string(&seen, targets[i].ticker.as_str()) {
                let ghost before = views(seen@);
                seen.push(targets[i].ticker.clone());
                proof {
                    assert(views(seen@) == before.push(targets@[i as int].ticker@));
                }
            }
        }
        i = i + 1;
    }
    proof {
        assert(targets@.take(targets@.len() as int) == targets@);
        let t = tickers_on(targets@, connector_id);
        let d = dedup(t);
        lemma_dedup(t);
        assert(d.to_set() =~= t.to_set());
        assert(d.no_duplicates());
        d.unique_seq_to_set();
        assert(views(seen@).len() == seen@.len());
    }
    seen.len()
}

// ── Getting a subscription into sync ──────────────────────────────────────────

/// How a subscription learns where it stands at the start of a session.
#[derive(Debug, Clone, Copy, PartialEq, Eq, Structural)]
pub enum SyncPlan {
    /// A stopped subscription does nothing.
    Idle,
    /// Session-shaped, recording nothing, and the hub still remembers the alignment.
    AdoptAnchor,
    /// Epoch-bucketed and recording nothing: the series is whole up to `last_closed`.
    AssumeWhole { last_closed: i64 },
    /// Anything else: the REST seed.
    Seed,
}

pub open spec fn sync_plan_of(stopped: bool, records: bool, tf: int, warm_anchor: bool, now: int) -> SyncPlan {
    if stopped {
        SyncPlan::Idle
    } else if tf >= 86_400 {
        if !records && warm_anchor { SyncPlan::AdoptAnchor } else { SyncPlan::Seed }
    } else if !records {
        SyncPlan::AssumeWhole { last_closed: (bar_start_of(now, tf) - tf) as i64 }
    } else {
        SyncPlan::Seed
    }
}

/// The cheapest way into sync: no request when nothing is recorded and the boundary is
/// known (an epoch bucket, or a remembered session anchor), else the seed.
pub fn sync_plan(stopped: bool, records: bool, tf: i64, warm_anchor: bool, now: i64) -> (p: SyncPlan)
    requires
        0 < tf <= MAX_TF,
        0 <= now <= MAX_TS,
    ensures
        p == sync_plan_of(stopped, records, tf as int, warm_anchor, now as int),
{
    if stopped {
        SyncPlan::Idle
    } else if anchored(tf) {
        if !records && warm_anchor { SyncPlan::AdoptAnchor } else { SyncPlan::Seed }
    } else if !records {
        proof {
            crate::live::bars::lemma_bar_start(now as int, tf as int);
        }
        let s = bar_start(now, tf);
        SyncPlan::AssumeWhole { last_closed: s - tf }
    } else {
        SyncPlan::Seed
    }
}

/// Whether a remembered bar is adopted as the period in progress: still current, and read
/// less than [`ANCHOR_PRIME_FRESH_SECS`] ago.
pub fn adopt_in_progress(last_ts: i64, tf: i64, now: i64, age_secs: u64) -> (b: bool)
    requires
        in_range(last_ts as int),
        0 < tf <= MAX_TF,
    ensures
        b == (last_ts + tf > now && age_secs < ANCHOR_PRIME_FRESH_SECS),
{
    last_ts + tf > now && age_secs < ANCHOR_PRIME_FRESH_SECS
}

/// Where a fold of period `tf` starts in its cycle, read off one of the provider's bars.
pub fn anchor_offset(bar_ts: i64, tf: i64) -> (o: i64)
    requires
        tf > 0,
    ensures
        o == bar_ts as int % tf as int,
        0 <= o < tf,
{
    rem_euclid(bar_ts, tf)
}

/// What a landed seed leaves behind.
#[derive(Debug, Clone, Copy, PartialEq, Eq, Structural)]
pub struct SeedLanding {
    /// The bar the fold re-anchors on, when the timeframe is session-shaped.
    pub anchor_on: Option<i64>,
    /// The index of the seed bar primed as the period in progress, if any.
    pub primed: Option<usize>,
    /// The newest closed bar the seed brought.
    pub seed_last: Option<i64>,
    /// The subscription's newest closed bar from here on.
    pub last_closed: Option<i64>,
}

pub open spec fn or_else(a: Option<i64>, b: Option<i64>) -> Option<i64> {
    if a is Some { a } else { b }
}

/// The fallback boundary for an epoch-bucketed series: the bucket before the current one.
pub open spec fn fallback_of(tf: int, now: int) -> Option<i64> {
    if tf >= 86_400 { None } else { Some((bar_start_of(now, tf) - tf) as i64) }
}

pub open spec fn seed_landing_of(seed: Seq<i64>, stored: Option<i64>, tf: int, now: int, folds: bool) -> SeedLanding {
    let last = if seed.len() > 0 { Some(seed.last()) } else { None };
    let anchor_on = if tf >= 86_400 && folds { last } else { None };
    let primes = tf >= 86_400 && folds && seed.len() > 0 && seed.last() + tf > now;
    let seed_last = if primes {
        if seed.len() >= 2 { Some(seed[seed.len() - 2]) } else { None }
    } else {
        last
    };
    SeedLanding {
        anchor_on,
        primed: if primes { Some((seed.len() - 1) as usize) } else { None },
        seed_last,
        last_closed: or_else(or_else(seed_last, stored), fallback_of(tf, now)),
    }
}

/// Apply a landed seed's bar times: a session-shaped fold anchors on the newest bar and, when
/// that bar is still current, adopts it as the period in progress, so the newest closed bar
/// is the one before it.
pub fn seed_landing(seed: &[i64], stored: Option<i64>, tf: i64, now: i64, folds: bool) -> (l: SeedLanding)
    requires
        0 < tf <= MAX_TF,
        0 <= now <= MAX_TS,
        forall|i: int| 0 <= i < seed@.len() ==> in_range(#[trigger] seed@[i] as int),
    ensures
        l == seed_landing_of(seed@, stored, tf as int, now as int, folds),
{
    proof {
        crate::live::bars::lemma_bar_start(now as int, tf as int);
    }
    let n = seed.len();
    let last = if n > 0 { Some(seed[n - 1]) } else { None };
    let session = anchored(tf);
    let anchor_on = if session && folds { last } else { None };
    let primes = session && folds && n > 0 && seed[n - 1] + tf > now;
    let seed_last = if primes {
        if n >= 2 { Some(seed[n - 2]) } else { None }
    } else {
        last
    };
    let fallback = if session { None } else { Some(bar_start(now, tf) - tf) };
    let last_closed = match seed_last {
        Some(t) => Some(t),
        None => match stored {
            Some(t) => Some(t),
            None => fallback,
        },
    };
    SeedLanding { anchor_on, primed: if primes { Some(n - 1) } else { None }, seed_last, last_closed }
}

/// After a failed seed the socket is still fine: the newest closed bar is the stored one,
/// or the epoch fallback.
pub fn seed_failed(stored: Option<i64>, tf: i64, now: i64) -> (last_closed: Option<i64>)
    requires
        0 < tf <= MAX_TF,
        0 <= now <= MAX_TS,
    ensures
        last_closed == or_else(stored, fallback_of(tf as int, now as int)),
{
    match stored {
        Some(t) => Some(t),
        None => if anchored(tf) {
            None
        } else {
            proof {
                crate::live::bars::lemma_bar_start(now as int, tf as int);
            }
            Some(bar_start(now, tf) - tf)
        },
    }
}

/// The overlap merge: an event buffered while the seed was in flight is dropped when the
/// seed already covers it.
pub fn covered_by_seed(bar_ts: i64, seed_last: Option<i64>) -> (b: bool)
    ensures
        b == (seed_last matches Some(s) && bar_ts < s),
{
    match seed_last {
        Some(s) => bar_ts < s,
        None => false,
    }
}

// ── A closed bar ──────────────────────────────────────────────────────────────

/// A half-open span of bar times, `[from, to)`.
#[derive(Debug, Clone, Copy, PartialEq, Eq, Structural)]
pub struct Span {
    pub from: i64,
    pub to: i64,
}

/// What a closed bar sets off besides being recorded and broadcast.
#[derive(Debug, Clone, Copy, PartialEq, Eq, Structural)]
pub struct OnClose {
    /// A gap `[from, to)` to backfill from REST.
    pub backfill: Option<Span>,
    /// A settle re-read of `[from, to)` once the provider has finalized the period.
    pub settle: Option<Span>,
}

pub open spec fn on_close_of(tf: int, last_closed: Option<i64>, bar_ts: int) -> OnClose {
    OnClose {
        backfill: if tf < 86_400 && last_closed is Some && last_closed->0 + tf < bar_ts {
            Some(Span { from: (last_closed->0 + tf) as i64, to: bar_ts as i64 })
        } else {
            None
        },
        settle: if tf >= 86_400 { Some(Span { from: bar_ts as i64, to: (bar_ts + tf) as i64 }) } else { None },
    }
}

/// Gap detection on epoch-bucketed timeframes only (a weekend is not a dropped daily bar),
/// and a settle re-read on session-shaped ones (the fold cannot know the closing print).
pub fn on_close(tf: i64, last_closed: Option<i64>, bar_ts: i64) -> (c: OnClose)
    requires
        0 < tf <= MAX_TF,
        in_range(bar_ts as int),
        last_closed matches Some(p) ==> in_range(p as int),
    ensures
        c == on_close_of(tf as int, last_closed, bar_ts as int),
{
    let backfill = if !anchored(tf) {
        match last_closed {
            Some(prev) => {
                let gap = crate::live::bars::missing_buckets(prev, bar_ts, tf);
                proof {
                    crate::live::bars::lemma_missing_buckets_are_the_gap(prev as int, bar_ts as int, tf as int, gap@);
                    if gap@.len() == 0 {
                        assert(prev + tf >= bar_ts) by (nonlinear_arith)
                            requires
                                gap@.len() == 0,
                                prev + (gap@.len() + 1) * tf >= bar_ts,
                        ;
                    }
                }
                if gap.len() > 0 { Some(Span { from: prev + tf, to: bar_ts }) } else { None }
            },
            None => None,
        }
    } else {
        None
    };
    let settle = if anchored(tf) { Some(Span { from: bar_ts, to: bar_ts + tf }) } else { None };
    OnClose { backfill, settle }
}

/// A re-read keeps only the bars inside the span it asked for.
pub fn in_span(ts: i64, from: i64, to: i64) -> (b: bool)
    ensures
        b == (from <= ts && ts < to),
{
    from <= ts && ts < to
}

// ── Who folds the timeframe ───────────────────────────────────────────────────

/// The fold a subscription needs: none when the provider publishes the timeframe itself.
#[derive(Debug, Clone, Copy, PartialEq, Eq, Structural)]
pub enum FoldPlan {
    /// The provider's bars are the chart's.
    Native,
    /// A bucketer of `tf` seconds over trades.
    Trades { tf: i64 },
    /// A bucketer of `tf` seconds over source bars, closing `grace` seconds late.
    Bars { tf: i64, grace: i64 },
}

/// The fold and the grain it folds (seconds per source bar; zero for trades), from the
/// timeframe's length (`None` when it has none) and what the connector says it publishes
/// (`None` when it refuses the instrument).
pub open spec fn fold_plan_of(tf: Option<i64>, grain: Option<SourceGrain>) -> (FoldPlan, i64) {
    match tf {
        None => (FoldPlan::Native, 0),
        Some(t) => match grain {
            Some(SourceGrain::Trades) => (FoldPlan::Trades { tf: t }, 0),
            Some(SourceGrain::Bars { secs, grace }) => (FoldPlan::Bars { tf: t, grace }, secs),
            _ => (FoldPlan::Native, t),
        },
    }
}

pub fn fold_plan(tf: Option<i64>, grain: Option<SourceGrain>) -> (r: (FoldPlan, i64))
    ensures
        r == fold_plan_of(tf, grain),
{
    match tf {
        None => (FoldPlan::Native, 0),
        Some(t) => match grain {
            Some(SourceGrain::Trades) => (FoldPlan::Trades { tf: t }, 0),
            Some(SourceGrain::Bars { secs, grace }) => (FoldPlan::Bars { tf: t, grace }, secs),
            _ => (FoldPlan::Native, t),
        },
    }
}

// ── The supervisor ────────────────────────────────────────────────────────────

/// What a supervisor does after a session ends: stop for good, or wait `backoff` seconds
/// and reconnect.
#[derive(Debug, Clone, Copy, PartialEq, Eq, Structural)]
pub enum AfterSession {
    Stop,
    Retry { wait_secs: u64 },
}

pub open spec fn after_session_of(ended_by: Option<LiveFault>, backoff: u64) -> AfterSession {
    match ended_by {
        None => AfterSession::Retry { wait_secs: BACKOFF_MIN_SECS },
        Some(f) => if f.is_terminal() {
            AfterSession::Stop
        } else if f == LiveFault::Conflict {
            AfterSession::Retry { wait_secs: BACKOFF_MAX_SECS }
        } else {
            AfterSession::Retry { wait_secs: backoff }
        },
    }
}

/// What the supervisor holds of one subscription across sessions: whether a refusal stopped
/// it, the last status it published, and whether it holds a forming bar.
pub struct SubState {
    pub stopped: bool,
    pub status: LiveStatus,
    pub has_current: bool,
}

fn copy_status(s: &LiveStatus) -> (r: LiveStatus)
    ensures
        r == *s,
{
    LiveStatus {
        state: s.state,
        code: s.code,
        message: match &s.message {
            Some(m) => Some(m.clone()),
            None => None,
        },
    }
}

/// A session is about to open: every subscription still running says it is connecting.
pub fn begin_session(subs: &mut Vec<SubState>)
    ensures
        final(subs)@.len() == old(subs)@.len(),
        forall|i: int| 0 <= i < old(subs)@.len() ==> {
            let (a, b) = (#[trigger] final(subs)@[i], old(subs)@[i]);
            &&& a.stopped == b.stopped
            &&& a.has_current == b.has_current
            &&& if b.stopped {
                a.status == b.status
            } else {
                a.status.state@ == "connecting"@ && a.status.code is None && a.status.message is None
            }
        },
{
    let mut i: usize = 0;
    while i < subs.len()
        invariant
            i <= subs@.len(),
            subs@.len() == old(subs)@.len(),
            forall|j: int| i <= j < subs@.len() ==> #[trigger] subs@[j] == old(subs)@[j],
            forall|j: int| 0 <= j < i ==> {
                let (a, b) = (#[trigger] subs@[j], old(subs)@[j]);
                &&& a.stopped == b.stopped
                &&& a.has_current == b.has_current
                &&& if b.stopped {
                    a.status == b.status
                } else {
                    a.status.state@ == "connecting"@ && a.status.code is None && a.status.message is None
                }
            },
        decreases subs@.len() - i,
    {
        if !subs[i].stopped {
            let st = LiveStatus::connecting();
            let has = subs[i].has_current;
            subs.set(i, SubState { stopped: false, status: st, has_current: has });
        }
        i = i + 1;
    }
}

/// A session ended, cleanly or with a failure. A failure is published to every subscription
/// still running (stopped when a human must act, retrying otherwise); a subscription a
/// refusal already stopped keeps its own status. Every forming bar is dropped: the next
/// session seeds afresh.
pub fn end_session(subs: &mut Vec<SubState>, ended_by: &Option<(LiveFault, String)>)
    ensures
        final(subs)@.len() == old(subs)@.len(),
        forall|i: int| 0 <= i < old(subs)@.len() ==> {
            let (a, b) = (#[trigger] final(subs)@[i], old(subs)@[i]);
            &&& a.stopped == b.stopped
            &&& !a.has_current
            &&& match ended_by {
                Some((f, m)) => if b.stopped {
                    a.status == b.status
                } else {
                    &&& a.status.state@ == (if f.is_terminal() { "stopped"@ } else { "retrying"@ })
                    &&& a.status.code matches Some(c) && c@ == f.code_of()
                    &&& a.status.message matches Some(x) && x@ == m@
                },
                None => a.status == b.status,
            }
        },
{
    let mut i: usize = 0;
    while i < subs.len()
        invariant
            i <= subs@.len(),
            subs@.len() == old(subs)@.len(),
            forall|j: int| i <= j < subs@.len() ==> #[trigger] subs@[j] == old(subs)@[j],
            forall|j: int| 0 <= j < i ==> {
                let (a, b) = (#[trigger] subs@[j], old(subs)@[j]);
                &&& a.stopped == b.stopped
                &&& !a.has_current
                &&& match ended_by {
                    Some((f, m)) => if b.stopped {
                        a.status == b.status
                    } else {
                        &&& a.status.state@ == (if f.is_terminal() { "stopped"@ } else { "retrying"@ })
                        &&& a.status.code matches Some(c) && c@ == f.code_of()
                        &&& a.status.message matches Some(x) && x@ == m@
                    },
                    None => a.status == b.status,
                }
            },
        decreases subs@.len() - i,
    {
        let stopped = subs[i].stopped;
        let status = match ended_by {
            Some((f, m)) => if stopped {
                copy_status(&subs[i].status)
            } else {
                LiveStatus::from_fault(*f, m.clone())
            },
            None => copy_status(&subs[i].status),
        };
        subs.set(i, SubState { stopped, status, has_current: false });
        i = i + 1;
    }
}

/// A clean close reconnects promptly; a fault a human must fix ends the loop; a seat someone
/// else holds is retried at the slowest pace; anything else at the current backoff.
pub fn after_session(ended_by: Option<LiveFault>, backoff: u64) -> (a: AfterSession)
    ensures
        a == after_session_of(ended_by, backoff),
{
    match ended_by {
        None => AfterSession::Retry { wait_secs: BACKOFF_MIN_SECS },
        Some(f) => if f.terminal() {
            AfterSession::Stop
        } else if f == LiveFault::Conflict {
            AfterSession::Retry { wait_secs: BACKOFF_MAX_SECS }
        } else {
            AfterSession::Retry { wait_secs: backoff }
        },
    }
}

/// The backoff after a wait: doubled, up to the maximum.
pub fn next_backoff(backoff: u64) -> (b: u64)
    requires
        backoff <= BACKOFF_MAX_SECS,
    ensures
        b == (if 2 * backoff <= BACKOFF_MAX_SECS { 2 * backoff } else { BACKOFF_MAX_SECS as int }),
        b <= BACKOFF_MAX_SECS,
{
    if 2 * backoff <= BACKOFF_MAX_SECS { 2 * backoff } else { BACKOFF_MAX_SECS }
}

/// A refusal naming one instrument stops that subscription only when a human must act.
pub fn stops_subscription(fault: LiveFault) -> (b: bool)
    ensures
        b == fault.is_terminal(),
{
    fault.terminal()
}

/// Whether anything still reads a channel; when nothing does, the socket drops it.
pub fn channel_still_read(channels: &[String], stopped: &[bool], channel: &str) -> (b: bool)
    requires
        channels@.len() == stopped@.len(),
    ensures
        b == exists|i: int| 0 <= i < channels@.len() && !stopped@[i] && #[trigger] channels@[i]@ == channel@,
{
    let mut i: usize = 0;
    while i < channels.len()
        invariant
            i <= channels@.len(),
            channels@.len() == stopped@.len(),
            forall|j: int| 0 <= j < i ==> stopped@[j] || #[trigger] channels@[j]@ != channel@,
        decreases channels@.len() - i,
    {
        if !stopped[i] && crate::text::str_eq(channels[i].as_str(), channel) {
            return true;
        }
        i = i + 1;
    }
    false
}


// ── Joining and leaving a subscription ───────────────────────────────────────

/// What a new viewer's subscribe does to the hub.
#[derive(Debug, Clone, Copy, PartialEq, Eq, Structural)]
pub enum JoinPlan {
    /// The subscription is running and records where this viewer wants: one more viewer.
    Share,
    /// The instrument was saved (or its dataset deleted) while live: the subscription restarts
    /// on the running socket so it records, or stops recording, from here on.
    Restart,
    /// The socket is running without this subscription: it joins for the cost of a frame.
    Add,
    /// The socket's supervisor stopped (a terminal fault): a fresh one starts, bringing back
    /// every other subscription that still has viewers.
    Revive,
    /// First viewer on this socket.
    Spawn,
}

pub open spec fn join_plan_of(session: Option<bool>, existing: Option<Option<u128>>, dataset: Option<u128>) -> JoinPlan {
    match session {
        None => JoinPlan::Spawn,
        Some(finished) => if finished {
            JoinPlan::Revive
        } else {
            match existing {
                Some(d) => if d == dataset { JoinPlan::Share } else { JoinPlan::Restart },
                None => JoinPlan::Add,
            }
        },
    }
}

/// The plan for a subscribe, from whether the socket has a session (and whether its
/// supervisor has finished) and, on a running one, the dataset the subscription already
/// records into. Joining a finished supervisor would be joining a corpse.
pub fn join_plan(session: Option<bool>, existing: Option<Option<u128>>, dataset: Option<u128>) -> (p: JoinPlan)
    ensures
        p == join_plan_of(session, existing, dataset),
{
    match session {
        None => JoinPlan::Spawn,
        Some(finished) => if finished {
            JoinPlan::Revive
        } else {
            match existing {
                Some(d) => if d == dataset { JoinPlan::Share } else { JoinPlan::Restart },
                None => JoinPlan::Add,
            }
        },
    }
}

/// Only a running subscription that records where the viewer wants is shared; anything
/// else gets a subscription of its own.
pub proof fn lemma_share_only_what_matches(session: Option<bool>, existing: Option<Option<u128>>, dataset: Option<u128>)
    ensures
        join_plan_of(session, existing, dataset) == JoinPlan::Share <==> (session == Some(false) && existing
            == Some(dataset)),
{
}

/// The subscriptions a revived session brings back: those that still have viewers, other
/// than the one being subscribed anew.
pub open spec fn carried_of(subs: Seq<(Seq<char>, usize)>, sub_key: Seq<char>) -> Seq<int>
    decreases subs.len(),
{
    if subs.len() == 0 {
        Seq::empty()
    } else {
        let r = carried_of(subs.drop_last(), sub_key);
        let (k, viewers) = subs.last();
        if viewers > 0 && k != sub_key { r.push(subs.len() - 1) } else { r }
    }
}

/// Indices, into the dead session's subscriptions, of those carried over.
pub fn carried(subs: &[(String, usize)], sub_key: &str) -> (r: Vec<usize>)
    ensures
        r@.map_values(|i: usize| i as int) == carried_of(subs@.map_values(|p: (String, usize)| (p.0@, p.1)), sub_key@),
{
    let ghost view = subs@.map_values(|p: (String, usize)| (p.0@, p.1));
    let mut out: Vec<usize> = Vec::new();
    let mut i: usize = 0;
    while i < subs.len()
        invariant
            i <= subs@.len(),
            view == subs@.map_values(|p: (String, usize)| (p.0@, p.1)),
            out@.map_values(|i: usize| i as int) == carried_of(view.take(i as int), sub_key@),
        decreases subs@.len() - i,
    {
        proof {
            assert(view.take(i + 1).drop_last() == view.take(i as int));
            assert(view.take(i + 1).last() == view[i as int]);
            assert(view.take(i + 1).len() == i + 1);
        }
        let ghost before = out@.map_values(|i: usize| i as int);
        if subs[i].1 > 0 && !str_eq(subs[i].0.as_str(), sub_key) {
            out.push(i);
            proof {
                assert(out@.map_values(|i: usize| i as int) == before.push(i as int));
            }
        }
        i = i + 1;
    }
    proof {
        assert(view.take(view.len() as int) == view);
    }
    out
}

/// One viewer leaves: the count drops (never below zero) when the handle belongs to the
/// subscription's current generation, and the graced teardown is scheduled when it reaches
/// zero. A handle from a resurrected subscription's past life changes nothing.
pub fn release_step(viewers: usize, same_gen: bool) -> (r: (usize, bool))
    ensures
        r.0 == (if same_gen { if viewers > 0 { viewers - 1 } else { 0 } } else { viewers as int }),
        r.1 == (same_gen && r.0 == 0),
{
    if same_gen {
        let v = if viewers > 0 { viewers - 1 } else { 0 };
        (v, v == 0)
    } else {
        (viewers, false)
    }
}

/// After the grace, a subscription is torn down only if it is still the same one and still
/// has nobody watching; the socket closes with its last subscription.
pub fn teardown_step(present: bool, same_gen: bool, viewers: usize, others: usize) -> (r: (bool, bool))
    ensures
        r.0 == (present && same_gen && viewers == 0),
        r.1 == (r.0 && others == 0),
{
    let remove = present && same_gen && viewers == 0;
    (remove, remove && others == 0)
}

/// A viewer who joins and then leaves puts the count back where it was.
pub proof fn lemma_join_then_leave(viewers: usize)
    requires
        viewers < usize::MAX,
    ensures
        ({
            let after_join = viewers + 1;
            (if after_join > 0 { after_join - 1 } else { 0 }) == viewers
        }),
{
}

} // verus!
