//! What each provider can stream, and what its socket publishes.
//!
//! Live is not a provider-wide yes/no: a provider needs both a transport (one of the live
//! connectors) and a declared live reach in its download capability, and the reach is per
//! asset type and per timeframe. The capability is the provider's download declaration,
//! handed in by whoever looked the provider up.

use vstd::prelude::*;

use crate::live::alpaca::{feed_of, feed_setting, Entitlement};
use crate::live::fault::{fail2, Failure, LiveFault};
use crate::live::instrument::{Instrument, SourceGrain};
use crate::settings::Settings;
use crate::text::{
    contains_string, decimal_of, join, join_with, signed_decimal, signed_decimal_of, str_eq,
    to_lowercase, lowercase_of, views,
};

verus! {

/// The part of a provider's download capability that speaks about live.
pub struct Capability {
    /// The provider's name as the user sees it.
    pub label: String,
    /// Timeframes it downloads.
    pub timeframes: Vec<String>,
    /// Asset types it streams (empty: no live reach).
    pub stream_asset_types: Vec<String>,
    /// Timeframes it streams.
    pub stream_timeframes: Vec<String>,
    /// What live costs with this provider.
    pub stream_note: String,
    /// The most bars one REST request returns.
    pub max_bars_per_req: u32,
}

/// The providers with a live transport.
pub open spec fn has_transport(provider: Seq<char>) -> bool {
    provider == "binance"@ || provider == "kraken"@ || provider == "coinbase"@ || provider == "alpaca"@
        || provider == "massive"@ || provider == "ibkr"@
}

/// Whether a provider has a live connector at all (the REST-only providers have none).
pub fn stream_transport(provider: &str) -> (b: bool)
    ensures
        b == has_transport(provider@),
{
    str_eq(provider, "binance") || str_eq(provider, "kraken") || str_eq(provider, "coinbase")
        || str_eq(provider, "alpaca") || str_eq(provider, "massive") || str_eq(provider, "ibkr")
}

/// The capability counts as a live reach when the provider has a transport and the
/// capability names at least one asset type to stream.
pub open spec fn streams(provider: Seq<char>, cap: Option<&Capability>) -> bool {
    has_transport(provider) && cap is Some && cap->0.stream_asset_types@.len() > 0
}

/// The provider's declared live reach, or `None` when it has no live transport.
pub fn stream_cap<'a>(provider: &str, cap: Option<&'a Capability>) -> (r: Option<&'a Capability>)
    ensures
        r == (if streams(provider@, cap) { cap } else { None }),
{
    if !stream_transport(provider) {
        return None;
    }
    match cap {
        Some(c) => if c.stream_asset_types.len() > 0 { Some(c) } else { None },
        None => None,
    }
}

/// Asset types this provider can stream (empty = no live feed).
pub fn stream_asset_types(provider: &str, cap: Option<&Capability>) -> (r: Vec<String>)
    ensures
        views(r@) == (if streams(provider@, cap) { views(cap->0.stream_asset_types@) } else { Seq::empty() }),
{
    match stream_cap(provider, cap) {
        Some(c) => clone_strings(&c.stream_asset_types),
        None => Vec::new(),
    }
}

/// Timeframes this provider can stream (empty = no live feed).
pub fn stream_timeframes(provider: &str, cap: Option<&Capability>) -> (r: Vec<String>)
    ensures
        views(r@) == (if streams(provider@, cap) { views(cap->0.stream_timeframes@) } else { Seq::empty() }),
{
    match stream_cap(provider, cap) {
        Some(c) => clone_strings(&c.stream_timeframes),
        None => Vec::new(),
    }
}

fn clone_strings(v: &Vec<String>) -> (r: Vec<String>)
    ensures
        views(r@) == views(v@),
{
    let mut r: Vec<String> = Vec::new();
    let mut i: usize = 0;
    while i < v.len()
        invariant
            i <= v@.len(),
            views(r@) == views(v@.take(i as int)),
        decreases v@.len() - i,
    {
        let ghost before = views(r@);
        let s = v[i].as_str().to_string();
        r.push(s);
        proof {
            assert(views(r@) == before.push(v@[i as int]@));
            assert(views(v@.take(i + 1)) == views(v@.take(i as int)).push(v@[i as int]@));
        }
        i = i + 1;
    }
    proof {
        assert(v@.take(v@.len() as int) == v@);
    }
    r
}

/// One line on what live costs with this provider; empty without a live feed.
pub fn stream_note(provider: &str, cap: Option<&Capability>) -> (r: String)
    ensures
        r@ == (if streams(provider@, cap) { cap->0.stream_note@ } else { Seq::empty() }),
{
    match stream_cap(provider, cap) {
        Some(c) => c.stream_note.as_str().to_string(),
        None => String::new(),
    }
}

/// Whether a provider exposes a live feed at all (drives the "Live" affordance).
pub fn stream_capable(provider: &str, cap: Option<&Capability>) -> (b: bool)
    ensures
        b == streams(provider@, cap),
{
    stream_cap(provider, cap).is_some()
}

/// Whether a provider can stream this asset type at all.
pub fn streams_asset(provider: &str, cap: Option<&Capability>, asset_type: &str) -> (b: bool)
    ensures
        b == (streams(provider@, cap) && views(cap->0.stream_asset_types@).contains(asset_type@)),
{
    match stream_cap(provider, cap) {
        Some(c) => contains_string(&c.stream_asset_types, asset_type),
        None => false,
    }
}

/// Whether a provider can stream this instrument: the asset type and the timeframe both in
/// its declared reach.
pub open spec fn capable_for(provider: Seq<char>, cap: Option<&Capability>, asset_type: Seq<char>, timeframe: Seq<char>) -> bool {
    streams(provider, cap) && views(cap->0.stream_asset_types@).contains(asset_type)
        && views(cap->0.stream_timeframes@).contains(timeframe)
}

pub fn stream_capable_for(provider: &str, cap: Option<&Capability>, asset_type: &str, timeframe: &str) -> (b: bool)
    ensures
        b == capable_for(provider@, cap, asset_type@, timeframe@),
{
    match stream_cap(provider, cap) {
        Some(c) => contains_string(&c.stream_asset_types, asset_type) && contains_string(
            &c.stream_timeframes,
            timeframe,
        ),
        None => false,
    }
}

/// Why this instrument cannot go live, as the sentence to show; `None` when it can.
pub open spec fn refusal_of(provider: Seq<char>, cap: Option<&Capability>, asset_type: Seq<char>, timeframe: Seq<char>) -> Option<Seq<char>> {
    if !streams(provider, cap) {
        Some(provider + " has no live feed"@)
    } else if !views(cap->0.stream_asset_types@).contains(asset_type) {
        Some(cap->0.label@ + " streams "@ + join_with(views(cap->0.stream_asset_types@), ", "@) + " — not "@
            + asset_type)
    } else if !views(cap->0.stream_timeframes@).contains(timeframe) {
        Some(cap->0.label@ + " streams "@ + join_with(views(cap->0.stream_timeframes@), ", "@)
            + " live — not "@ + timeframe)
    } else {
        None
    }
}

pub fn stream_refusal(provider: &str, cap: Option<&Capability>, asset_type: &str, timeframe: &str) -> (r: Option<String>)
    ensures
        match r {
            Some(m) => refusal_of(provider@, cap, asset_type@, timeframe@) == Some(m@),
            None => refusal_of(provider@, cap, asset_type@, timeframe@) is None,
        },
{
    match stream_cap(provider, cap) {
        None => {
            let mut m = provider.to_string();
            m.append(" has no live feed");
            Some(m)
        },
        Some(c) => {
            if !contains_string(&c.stream_asset_types, asset_type) {
                let mut m = c.label.clone();
                m.append(" streams ");
                m.append(join(c.stream_asset_types.as_slice(), ", ").as_str());
                m.append(" — not ");
                m.append(asset_type);
                Some(m)
            } else if !contains_string(&c.stream_timeframes, timeframe) {
                let mut m = c.label.clone();
                m.append(" streams ");
                m.append(join(c.stream_timeframes.as_slice(), ", ").as_str());
                m.append(" live — not ");
                m.append(timeframe);
                Some(m)
            } else {
                None
            }
        },
    }
}

/// A refusal exists exactly when the instrument cannot stream.
pub proof fn lemma_refused_exactly_when_not_capable(
    provider: Seq<char>,
    cap: Option<&Capability>,
    asset_type: Seq<char>,
    timeframe: Seq<char>,
)
    ensures
        refusal_of(provider, cap, asset_type, timeframe) is None <==> capable_for(provider, cap, asset_type, timeframe),
{
}

/// Validate an Alpaca connector's `feed` setting: absent, `iex` or `sip`.
pub fn alpaca_feed(config: &Settings) -> (r: Result<(), Failure>)
    ensures
        ({
            let f = feed_setting(*config);
            r is Ok <==> (f.len() == 0 || f == "iex"@ || f == "sip"@)
        }),
        r matches Err(e) ==> e.fault_spec() == LiveFault::Transport,
{
    match feed_of(config) {
        Ok(_) => Ok(()),
        Err(e) => Err(e),
    }
}

// ── What each socket publishes ────────────────────────────────────────────────

/// The Binance live connector: klines at the asked interval, with a closed flag.
pub struct BinanceLive;

/// Canonical timeframe → Binance interval token. `1s` is accepted for fast tests; anything
/// else unknown is the weekly interval.
pub open spec fn interval_of(tf: Seq<char>) -> Seq<char> {
    if tf == "1s"@ {
        "1s"@
    } else if tf == "1m"@ {
        "1m"@
    } else if tf == "5m"@ {
        "5m"@
    } else if tf == "15m"@ {
        "15m"@
    } else if tf == "1h"@ {
        "1h"@
    } else if tf == "4h"@ {
        "4h"@
    } else if tf == "1d"@ {
        "1d"@
    } else {
        "1w"@
    }
}

pub fn interval(tf: &str) -> (r: &'static str)
    ensures
        r@ == interval_of(tf@),
{
    if str_eq(tf, "1s") {
        "1s"
    } else if str_eq(tf, "1m") {
        "1m"
    } else if str_eq(tf, "5m") {
        "5m"
    } else if str_eq(tf, "15m") {
        "15m"
    } else if str_eq(tf, "1h") {
        "1h"
    } else if str_eq(tf, "4h") {
        "4h"
    } else if str_eq(tf, "1d") {
        "1d"
    } else {
        "1w"
    }
}

impl BinanceLive {
    /// Binance publishes the candle at the asked interval itself.
    pub fn grain(&self, inst: &Instrument) -> (g: SourceGrain)
        ensures
            g == SourceGrain::Native,
    {
        SourceGrain::Native
    }

    /// The stream name, `<symbol>@kline_<interval>`: one channel per symbol and interval.
    pub fn channel_of(&self, inst: &Instrument) -> (c: String)
        ensures
            c@ == lowercase_of(inst.symbol@) + "@kline_"@ + interval_of(inst.timeframe@),
    {
        let mut c = to_lowercase(inst.symbol.as_str());
        c.append("@kline_");
        c.append(interval(inst.timeframe.as_str()));
        c
    }
}

/// What Interactive Brokers streams for an asset type.
#[derive(Debug, Clone, Copy, PartialEq, Eq, Structural)]
pub enum LiveSource {
    /// Tick-by-tick trades.
    LastTick,
    /// Tick-by-tick midpoints: cash forex and crypto have no usable tape at IB.
    MidPointTick,
    /// Five-second bars, where IB serves no tick-by-tick stream.
    Bars5s,
}

pub open spec fn live_source_of(asset_type: Seq<char>) -> LiveSource {
    if asset_type == "fx"@ || asset_type == "crypto"@ {
        LiveSource::MidPointTick
    } else if asset_type == "option"@ || asset_type == "index"@ {
        LiveSource::Bars5s
    } else {
        LiveSource::LastTick
    }
}

/// Prints where IB serves them, midpoints for forex and crypto, five-second bars for options
/// and indices.
pub fn live_source(asset_type: &str) -> (s: LiveSource)
    ensures
        s == live_source_of(asset_type@),
{
    if str_eq(asset_type, "fx") || str_eq(asset_type, "crypto") {
        LiveSource::MidPointTick
    } else if str_eq(asset_type, "option") || str_eq(asset_type, "index") {
        LiveSource::Bars5s
    } else {
        LiveSource::LastTick
    }
}

/// IB's five-second bars, closed three seconds late at most.
pub const IB_SOURCE_SECS: i64 = 5;
pub const IB_GRACE: i64 = 3;

/// What a provider's socket publishes for an instrument; `None` without a transport.
pub open spec fn grain_of(provider: Seq<char>, asset_type: Seq<char>) -> Option<SourceGrain> {
    if provider == "binance"@ || provider == "kraken"@ {
        Some(SourceGrain::Native)
    } else if provider == "coinbase"@ {
        Some(SourceGrain::Trades)
    } else if provider == "alpaca"@ {
        Some(SourceGrain::Bars { secs: crate::live::alpaca::SOURCE_SECS, grace: crate::live::alpaca::GRACE })
    } else if provider == "massive"@ {
        Some(SourceGrain::Bars { secs: crate::live::massive::SOURCE_SECS, grace: crate::live::massive::GRACE })
    } else if provider == "ibkr"@ {
        Some(if live_source_of(asset_type) == LiveSource::Bars5s {
            SourceGrain::Bars { secs: IB_SOURCE_SECS, grace: IB_GRACE }
        } else {
            SourceGrain::Trades
        })
    } else {
        None
    }
}

pub fn grain_for(provider: &str, asset_type: &str) -> (g: Option<SourceGrain>)
    ensures
        g == grain_of(provider@, asset_type@),
{
    if str_eq(provider, "binance") || str_eq(provider, "kraken") {
        Some(SourceGrain::Native)
    } else if str_eq(provider, "coinbase") {
        Some(SourceGrain::Trades)
    } else if str_eq(provider, "alpaca") {
        Some(SourceGrain::Bars { secs: crate::live::alpaca::SOURCE_SECS, grace: crate::live::alpaca::GRACE })
    } else if str_eq(provider, "massive") {
        Some(SourceGrain::Bars { secs: crate::live::massive::SOURCE_SECS, grace: crate::live::massive::GRACE })
    } else if str_eq(provider, "ibkr") {
        Some(if live_source(asset_type) == LiveSource::Bars5s {
            SourceGrain::Bars { secs: IB_SOURCE_SECS, grace: IB_GRACE }
        } else {
            SourceGrain::Trades
        })
    } else {
        None
    }
}

/// The grain as a token for the pane: `native`, `trades`, or the source bar's length.
pub open spec fn grain_label_of(g: SourceGrain) -> Seq<char> {
    match g {
        SourceGrain::Native => "native"@,
        SourceGrain::Trades => "trades"@,
        SourceGrain::Bars { secs, .. } => if secs % 3600 == 0 {
            signed_decimal_of(secs / 3600) + "h"@
        } else if secs % 60 == 0 {
            signed_decimal_of(secs / 60) + "m"@
        } else {
            signed_decimal_of(secs as int) + "s"@
        },
    }
}

pub fn grain_label(g: SourceGrain) -> (r: String)
    ensures
        r@ == grain_label_of(g),
{
    match g {
        SourceGrain::Native => "native".to_string(),
        SourceGrain::Trades => "trades".to_string(),
        SourceGrain::Bars { secs, .. } => {
            let r = crate::live::bars::rem_euclid(secs, 3600);
            if r == 0 {
                let q = exact_quotient(secs, 3600);
                let mut s = signed_decimal(q);
                s.append("h");
                s
            } else if crate::live::bars::rem_euclid(secs, 60) == 0 {
                let q = exact_quotient(secs, 60);
                let mut s = signed_decimal(q);
                s.append("m");
                s
            } else {
                let mut s = signed_decimal(secs);
                s.append("s");
                s
            }
        },
    }
}

/// `a / d` for a positive `d` that divides `a`.
fn exact_quotient(a: i64, d: i64) -> (q: i64)
    requires
        0 < d <= 3600,
        a as int % d as int == 0,
    ensures
        q == a as int / d as int,
{
    let r = crate::live::bars::rem_euclid(a, d);
    if a >= 0 {
        a / d
    } else {
        let m = -(a + d) / d;
        proof {
            assert(a as int == d * (a as int / d as int)) by (nonlinear_arith)
                requires
                    a as int % d as int == 0,
                    d > 0,
            ;
            assert(-(a as int + d as int) == d * (-(a as int / d as int) - 1)) by (nonlinear_arith)
                requires
                    a as int == d * (a as int / d as int),
            ;
            assert((d * (-(a as int / d as int) - 1)) / (d as int) == -(a as int / d as int) - 1) by (nonlinear_arith)
                requires
                    d > 0,
            ;
        }
        -m - 1
    }
}

/// What the socket publishes for this instrument, as a token for the pane; `None` when the
/// provider has no live feed.
pub fn source_grain_label(provider: &str, asset_type: &str, symbol: &str, timeframe: &str) -> (r: Option<String>)
    ensures
        match r {
            Some(l) => grain_of(provider@, asset_type@) is Some && l@ == grain_label_of(grain_of(provider@, asset_type@)->0),
            None => grain_of(provider@, asset_type@) is None,
        },
{
    match grain_for(provider, asset_type) {
        Some(g) => Some(grain_label(g)),
        None => None,
    }
}

} // verus!
