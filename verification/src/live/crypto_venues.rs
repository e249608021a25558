//! The keyless crypto venues: Binance futures, Bitget, Coinbase, Kraken and OKX.
//!
//! What each of them calls a channel, which timeframes it serves natively, and how a
//! refusal names the pane it belongs to. Each message on these sockets names its own
//! channel, so the key built here is exactly the one the hub routes on.

use vstd::prelude::*;

use crate::json::{str_get, str_member, jv, Json, JsonV};
use crate::live::candle_feeds::{rfc3339_secs, rfc3339_secs_of};
use crate::live::fault::{fail2, Cause, Failure, LiveError, LiveFault};
use crate::live::frame::Update;
use crate::live::instrument::{Instrument, SourceGrain};
use crate::text::{
    chars_of, decimal, decimal_of, find_from, first_at, is_whitespace, is_ws, lowercase_of,
    occurs_at, slice_chars, str_eq, string_of, to_lowercase, to_uppercase, uppercase_of,
};

verus! {

// ── Binance USDⓈ-M futures ─────────────────────────────────────────────────────

/// The Binance futures live connector: every kline channel names its own symbol and
/// interval, so one socket carries every pane.
pub struct BinanceFuturesLive;

/// The kline interval token Binance futures publishes for a canonical timeframe.
pub open spec fn futures_interval_of(tf: Seq<char>) -> Option<Seq<char>> {
    if tf == "1m"@ || tf == "5m"@ || tf == "15m"@ || tf == "1h"@ || tf == "4h"@ || tf == "1d"@
        || tf == "1w"@ {
        Some(tf)
    } else {
        None
    }
}

/// `btcusdt@kline_1m`: what a subscribe frame names and what every message identifies itself
/// with. A timeframe without a kline channel is refused rather than approximated.
pub fn binance_futures_channel(inst: &Instrument) -> (r: Result<String, Failure>)
    ensures
        match r {
            Ok(c) => futures_interval_of(inst.timeframe@) is Some && c@ == lowercase_of(
                inst.symbol@,
            ) + "@kline_"@ + inst.timeframe@,
            Err(f) => futures_interval_of(inst.timeframe@) is None && f.is(
                LiveFault::Unsupported,
                "Binance futures has no live kline channel for "@ + inst.timeframe@,
            ),
        },
{
    let tf = inst.timeframe.as_str();
    if str_eq(tf, "1m") || str_eq(tf, "5m") || str_eq(tf, "15m") || str_eq(tf, "1h") || str_eq(
        tf,
        "4h",
    ) || str_eq(tf, "1d") || str_eq(tf, "1w") {
        let mut c = to_lowercase(inst.symbol.as_str());
        c.append("@kline_");
        c.append(tf);
        Ok(c)
    } else {
        Err(fail2(LiveFault::Unsupported, "Binance futures has no live kline channel for ", tf))
    }
}

impl BinanceFuturesLive {
    /// Binance publishes the candle itself: nothing is folded.
    pub fn grain(&self, inst: &Instrument) -> (g: SourceGrain)
        ensures
            g == SourceGrain::Native,
    {
        SourceGrain::Native
    }

    pub fn channel_of(&self, inst: &Instrument) -> (r: Result<String, Failure>)
        ensures
            match r {
                Ok(c) => futures_interval_of(inst.timeframe@) is Some && c@ == lowercase_of(
                    inst.symbol@,
                ) + "@kline_"@ + inst.timeframe@,
                Err(f) => futures_interval_of(inst.timeframe@) is None && f.is(
                    LiveFault::Unsupported,
                    "Binance futures has no live kline channel for "@ + inst.timeframe@,
                ),
            },
    {
        binance_futures_channel(inst)
    }
}

// ── Bitget ────────────────────────────────────────────────────────────────────

/// The Bitget live connector.
pub struct BitgetLive;

/// Which book a Bitget connector reads: its own setting, not the instrument's.
#[derive(Debug, Clone, Copy, PartialEq, Eq, Structural)]
pub enum Market {
    Spot,
    Futures,
}

/// The `instType` a market trades under on the socket.
pub fn inst_type(m: Market) -> (t: &'static str)
    ensures
        t@ == (match m {
            Market::Spot => "SPOT"@,
            Market::Futures => "USDT-FUTURES"@,
        }),
{
    match m {
        Market::Spot => "SPOT",
        Market::Futures => "USDT-FUTURES",
    }
}

/// Canonical timeframe → Bitget candle channel. The daily and weekly ones are the
/// UTC-anchored variants, matching what the download stores.
pub open spec fn bitget_channel_of(tf: Seq<char>) -> Option<Seq<char>> {
    if tf == "1m"@ {
        Some("candle1m"@)
    } else if tf == "5m"@ {
        Some("candle5m"@)
    } else if tf == "15m"@ {
        Some("candle15m"@)
    } else if tf == "1h"@ {
        Some("candle1H"@)
    } else if tf == "4h"@ {
        Some("candle4H"@)
    } else if tf == "1d"@ {
        Some("candle1Dutc"@)
    } else if tf == "1w"@ {
        Some("candle1Wutc"@)
    } else {
        None
    }
}

/// The Bitget candle channel for a timeframe, refused as `Unsupported` when there is none.
pub fn bitget_channel(tf: &str) -> (r: Result<&'static str, Failure>)
    ensures
        match r {
            Ok(c) => bitget_channel_of(tf@) == Some(c@),
            Err(f) => bitget_channel_of(tf@) is None && f.is(
                LiveFault::Unsupported,
                "Bitget has no live candle channel for "@ + tf@,
            ),
        },
{
    if str_eq(tf, "1m") {
        Ok("candle1m")
    } else if str_eq(tf, "5m") {
        Ok("candle5m")
    } else if str_eq(tf, "15m") {
        Ok("candle15m")
    } else if str_eq(tf, "1h") {
        Ok("candle1H")
    } else if str_eq(tf, "4h") {
        Ok("candle4H")
    } else if str_eq(tf, "1d") {
        Ok("candle1Dutc")
    } else if str_eq(tf, "1w") {
        Ok("candle1Wutc")
    } else {
        Err(fail2(LiveFault::Unsupported, "Bitget has no live candle channel for ", tf))
    }
}

/// `channel|INSTID`: the key the hub routes on for the channel-named venues.
pub open spec fn routing_key(channel: Seq<char>, inst_id: Seq<char>) -> Seq<char> {
    channel + "|"@ + uppercase_of(inst_id)
}

/// The routing key for a channel and an instrument id.
pub fn key(channel: &str, inst_id: &str) -> (k: String)
    ensures
        k@ == routing_key(channel@, inst_id@),
{
    let mut k = channel.to_string();
    k.append("|");
    k.append(to_uppercase(inst_id).as_str());
    k
}

impl BitgetLive {
    pub fn grain(&self, inst: &Instrument) -> (g: SourceGrain)
        ensures
            g == SourceGrain::Native,
    {
        SourceGrain::Native
    }

    /// The channel token and the upper-cased instrument: the key every Bitget message
    /// for this instrument carries.
    pub fn channel_of(&self, inst: &Instrument) -> (r: Result<String, Failure>)
        ensures
            match r {
                Ok(c) => bitget_channel_of(inst.timeframe@) is Some && c@ == routing_key(
                    bitget_channel_of(inst.timeframe@)->0,
                    inst.symbol@,
                ),
                Err(f) => bitget_channel_of(inst.timeframe@) is None && f.is(
                    LiveFault::Unsupported,
                    "Bitget has no live candle channel for "@ + inst.timeframe@,
                ),
            },
    {
        match bitget_channel(inst.timeframe.as_str()) {
            Ok(c) => Ok(key(c, inst.symbol.as_str())),
            Err(e) => Err(e),
        }
    }
}

// ── Coinbase ──────────────────────────────────────────────────────────────────

/// The Coinbase live connector: trades only, folded into candles by the hub.
pub struct CoinbaseLive;

impl CoinbaseLive {
    pub fn grain(&self, inst: &Instrument) -> (g: SourceGrain)
        ensures
            g == SourceGrain::Trades,
    {
        SourceGrain::Trades
    }

    /// The product, upper-cased, as every match message names it.
    pub fn channel_of(&self, inst: &Instrument) -> (c: String)
        ensures
            c@ == uppercase_of(inst.symbol@),
    {
        to_uppercase(inst.symbol.as_str())
    }
}

/// What a Coinbase message says. A `match` or `last_match` is a trade: its product
/// upper-cased, its price text, its size text (`"0"` when absent) and its time when that
/// reads as RFC 3339; a match without a product or a price does not read. Anything else
/// (subscription acks, heartbeats, errors) says nothing.
pub open spec fn coinbase_trade(f: JsonV) -> Result<
    Option<(Seq<char>, Seq<char>, Seq<char>, Option<i64>)>,
    Seq<char>,
> {
    match str_member(f, "type"@) {
        Some(t) if t == "match"@ || t == "last_match"@ => match str_member(f, "product_id"@) {
            None => Err("coinbase match product_id"@),
            Some(p) => match str_member(f, "price"@) {
                None => Err("coinbase match price"@),
                Some(price) => Ok(
                    Some(
                        (
                            uppercase_of(p),
                            price,
                            match str_member(f, "size"@) {
                                Some(z) => z,
                                None => "0"@,
                            },
                            match str_member(f, "time"@) {
                                Some(t) => rfc3339_secs_of(t),
                                None => None,
                            },
                        ),
                    ),
                ),
            },
        },
        _ => Ok(None),
    }
}

/// The Coinbase `matches` socket: every message names its own product.
pub struct CoinbaseFeed;

impl CoinbaseFeed {
    pub fn new() -> (f: CoinbaseFeed) {
        CoinbaseFeed
    }

    /// One message: a trade for the product it names, nothing, or why it does not read.
    pub fn on_message(&mut self, frame: &Json) -> (r: Result<Vec<Update>, Failure>)
        ensures
            match coinbase_trade(jv(*frame)) {
                Ok(None) => r matches Ok(u) && u@.len() == 0,
                Ok(Some((p, price, size, ts))) => r matches Ok(u) && (u@.len() == 1
                    && (u@[0] matches Update::Trade { channel: c, price: pr, size: z, ts: t }
                    && c@ == p && pr@ == price && z@ == size && t == ts)),
                Err(m) => r matches Err(e) && e.cause matches Cause::Plain(t) && t@ == m
                    && e.context@.len() == 0,
            },
    {
        let is_match = match str_get(frame, "type") {
            Some(t) => str_eq(t, "match") || str_eq(t, "last_match"),
            None => false,
        };
        if !is_match {
            return Ok(Vec::new());
        }
        let product = match str_get(frame, "product_id") {
            Some(p) => to_uppercase(p),
            None => return Err(Failure::msg("coinbase match product_id")),
        };
        let price = match str_get(frame, "price") {
            Some(p) => p.to_string(),
            None => return Err(Failure::msg("coinbase match price")),
        };
        let size = match str_get(frame, "size") {
            Some(z) => z.to_string(),
            None => "0".to_string(),
        };
        let ts = match str_get(frame, "time") {
            Some(t) => rfc3339_secs(t),
            None => None,
        };
        let mut out: Vec<Update> = Vec::new();
        out.push(Update::Trade { channel: product, price, size, ts });
        Ok(out)
    }
}

// ── Kraken ────────────────────────────────────────────────────────────────────

/// The Kraken live connector: one socket per interval, because an OHLC row names its
/// symbol but not its interval.
pub struct KrakenLive;

/// Canonical timeframe → Kraken interval in minutes (its accepted set).
pub open spec fn interval_min_of(tf: Seq<char>) -> u32 {
    if tf == "1m"@ {
        1
    } else if tf == "5m"@ {
        5
    } else if tf == "15m"@ {
        15
    } else if tf == "1h"@ {
        60
    } else if tf == "4h"@ {
        240
    } else if tf == "1d"@ {
        1440
    } else {
        10080
    }
}

pub fn interval_min(tf: &str) -> (m: u32)
    ensures
        m == interval_min_of(tf@),
{
    if str_eq(tf, "1m") {
        1
    } else if str_eq(tf, "5m") {
        5
    } else if str_eq(tf, "15m") {
        15
    } else if str_eq(tf, "1h") {
        60
    } else if str_eq(tf, "4h") {
        240
    } else if str_eq(tf, "1d") {
        1440
    } else {
        10080
    }
}

impl KrakenLive {
    /// The interval in minutes, as text: two timeframes are two sockets.
    pub fn socket_class(&self, inst: &Instrument) -> (c: String)
        ensures
            c@ == decimal_of(interval_min_of(inst.timeframe@) as nat),
    {
        decimal(interval_min(inst.timeframe.as_str()) as u64)
    }

    pub fn grain(&self, inst: &Instrument) -> (g: SourceGrain)
        ensures
            g == SourceGrain::Native,
    {
        SourceGrain::Native
    }

    /// The symbol, upper-cased, as every OHLC row names it.
    pub fn channel_of(&self, inst: &Instrument) -> (c: String)
        ensures
            c@ == uppercase_of(inst.symbol@),
    {
        to_uppercase(inst.symbol.as_str())
    }
}

// ── OKX ───────────────────────────────────────────────────────────────────────

/// The OKX live connector (candles on the business socket, with an explicit closed flag).
pub struct OkxLive;

/// Canonical timeframe → OKX candle channel; daily and weekly are the UTC-anchored ones.
pub open spec fn okx_channel_of(tf: Seq<char>) -> Option<Seq<char>> {
    if tf == "1m"@ {
        Some("candle1m"@)
    } else if tf == "5m"@ {
        Some("candle5m"@)
    } else if tf == "15m"@ {
        Some("candle15m"@)
    } else if tf == "1h"@ {
        Some("candle1H"@)
    } else if tf == "4h"@ {
        Some("candle4H"@)
    } else if tf == "1d"@ {
        Some("candle1Dutc"@)
    } else if tf == "1w"@ {
        Some("candle1Wutc"@)
    } else {
        None
    }
}

/// The OKX candle channel for a timeframe, refused as `Unsupported` when there is none.
pub fn okx_channel(tf: &str) -> (r: Result<&'static str, Failure>)
    ensures
        match r {
            Ok(c) => okx_channel_of(tf@) == Some(c@),
            Err(f) => okx_channel_of(tf@) is None && f.is(
                LiveFault::Unsupported,
                "OKX has no live candle channel for "@ + tf@,
            ),
        },
{
    if str_eq(tf, "1m") {
        Ok("candle1m")
    } else if str_eq(tf, "5m") {
        Ok("candle5m")
    } else if str_eq(tf, "15m") {
        Ok("candle15m")
    } else if str_eq(tf, "1h") {
        Ok("candle1H")
    } else if str_eq(tf, "4h") {
        Ok("candle4H")
    } else if str_eq(tf, "1d") {
        Ok("candle1Dutc")
    } else if str_eq(tf, "1w") {
        Ok("candle1Wutc")
    } else {
        Err(fail2(LiveFault::Unsupported, "OKX has no live candle channel for ", tf))
    }
}

impl OkxLive {
    pub fn grain(&self, inst: &Instrument) -> (g: SourceGrain)
        ensures
            g == SourceGrain::Native,
    {
        SourceGrain::Native
    }

    pub fn channel_of(&self, inst: &Instrument) -> (r: Result<String, Failure>)
        ensures
            match r {
                Ok(c) => okx_channel_of(inst.timeframe@) is Some && c@ == routing_key(
                    okx_channel_of(inst.timeframe@)->0,
                    inst.symbol@,
                ),
                Err(f) => okx_channel_of(inst.timeframe@) is None && f.is(
                    LiveFault::Unsupported,
                    "OKX has no live candle channel for "@ + inst.timeframe@,
                ),
            },
    {
        match okx_channel(inst.timeframe.as_str()) {
            Ok(c) => Ok(key(c, inst.symbol.as_str())),
            Err(e) => Err(e),
        }
    }
}

/// A character that ends a token inside a refusal sentence.
pub open spec fn is_stop(c: char) -> bool {
    c == ',' || is_ws(c) || c == '.'
}

/// The characters of `s` up to the first stop character.
pub open spec fn token_of(s: Seq<char>) -> Seq<char>
    decreases s.len(),
{
    if s.len() == 0 || is_stop(s[0]) {
        Seq::empty()
    } else {
        seq![s[0]] + token_of(s.drop_first())
    }
}

/// The token right after the first `tag` in `msg`, if there is a tag and the token is not
/// empty.
pub open spec fn after_tag(msg: Seq<char>, tag: Seq<char>) -> Option<Seq<char>> {
    if exists|i: int| first_at(msg, tag, 0, i) {
        let i = choose|i: int| first_at(msg, tag, 0, i);
        let t = token_of(msg.skip(i + tag.len()));
        if t.len() > 0 {
            Some(t)
        } else {
            None
        }
    } else {
        None
    }
}

/// The routing key a refusal sentence names, e.g. `…channel:candle1m,instId:FOO-BAR
/// doesn't exist…`; `None` when it names neither.
pub open spec fn refused_channel_of(msg: Seq<char>) -> Option<Seq<char>> {
    match (after_tag(msg, "channel:"@), after_tag(msg, "instId:"@)) {
        (Some(c), Some(i)) => Some(routing_key(c, i)),
        _ => None,
    }
}

proof fn lemma_first_at_unique(s: Seq<char>, p: Seq<char>, from: int, i: int, j: int)
    requires
        first_at(s, p, from, i),
        first_at(s, p, from, j),
    ensures
        i == j,
{
}

proof fn lemma_token_take(s: Seq<char>, k: int)
    requires
        0 <= k <= s.len(),
        forall|j: int| 0 <= j < k ==> !is_stop(#[trigger] s[j]),
        k == s.len() || is_stop(s[k]),
    ensures
        token_of(s) == s.take(k),
    decreases k,
{
    if k == 0 {
    } else {
        let t = s.drop_first();
        assert forall|j: int| 0 <= j < k - 1 implies !is_stop(#[trigger] t[j]) by {
            assert(t[j] == s[j + 1]);
        }
        if k < s.len() {
            assert(t[k - 1] == s[k]);
        }
        lemma_token_take(t, k - 1);
        assert(seq![s[0]] + t.take(k - 1) == s.take(k));
    }
}

/// The token after the first `tag`.
fn after(msg: &Vec<char>, tag: &str) -> (r: Option<String>)
    ensures
        match r {
            Some(t) => after_tag(msg@, tag@) == Some(t@),
            None => after_tag(msg@, tag@) is None,
        },
{
    let tv = chars_of(tag);
    match find_from(msg, &tv, 0) {
        None => {
            assert(!exists|i: int| first_at(msg@, tag@, 0, i));
            None
        },
        Some(i) => {
            proof {
                let c = choose|c: int| first_at(msg@, tag@, 0, c);
                lemma_first_at_unique(msg@, tag@, 0, i as int, c);
            }
            assert(occurs_at(msg@, tv@, i as int));
            assert(i + tv@.len() <= msg@.len());
            assert(tv@.len() == tv.len() && msg@.len() == msg.len());
            let start = i + tv.len();
            let mut end = start;
            while end < msg.len() && !(msg[end] == ',' || is_whitespace(msg[end]) || msg[end] == '.')
                invariant
                    start <= end <= msg@.len(),
                    forall|j: int| start <= j < end ==> !is_stop(#[trigger] msg@[j]),
                decreases msg@.len() - end,
            {
                end = end + 1;
            }
            proof {
                let rest = msg@.skip(start as int);
                assert forall|j: int| 0 <= j < end - start implies !is_stop(#[trigger] rest[j]) by {
                    assert(rest[j] == msg@[start + j]);
                }
                if end < msg@.len() {
                    assert(rest[end - start] == msg@[end as int]);
                }
                lemma_token_take(rest, end - start);
                assert(rest.take(end - start) == msg@.subrange(start as int, end as int));
            }
            if end == start {
                None
            } else {
                Some(string_of(slice_chars(msg, start, end).as_slice()))
            }
        },
    }
}

/// The routing key inside an OKX refusal's sentence; `None` when it names neither a
/// channel nor an instrument, which makes it the session's problem rather than one pane's.
pub fn refused_channel(msg: &str) -> (r: Option<String>)
    ensures
        match r {
            Some(k) => refused_channel_of(msg@) == Some(k@),
            None => refused_channel_of(msg@) is None,
        },
{
    let v = chars_of(msg);
    let channel = match after(&v, "channel:") {
        Some(c) => c,
        None => return None,
    };
    let inst = match after(&v, "instId:") {
        Some(i) => i,
        None => return None,
    };
    Some(key(channel.as_str(), inst.as_str()))
}


/// The text of a refusal, or what a refusal without one is called.
pub open spec fn refusal_text(msg: Option<Seq<char>>) -> Seq<char> {
    match msg {
        Some(m) => m,
        None => "subscription refused"@,
    }
}

fn refusal_str(msg: Option<&str>) -> (r: &str)
    ensures
        r@ == refusal_text(match msg { Some(m) => Some(m@), None => None }),
{
    match msg {
        Some(m) => m,
        None => "subscription refused",
    }
}

/// What an OKX `error` event ends. A refusal names its channel and instrument inside its
/// sentence and nowhere else: when it does, only that pane stops (`Ok`, with the pane's
/// routing key and its fault); otherwise the session ends.
pub fn okx_refusal(msg: Option<&str>) -> (r: Result<(String, Failure), Failure>)
    ensures
        ({
            let m = refusal_text(match msg { Some(t) => Some(t@), None => None });
            match refused_channel_of(m) {
                Some(k) => r matches Ok((key, f)) && key@ == k
                    && f.is(LiveFault::Symbol, "OKX refused this instrument: "@ + m),
                None => r matches Err(f) && f.is(LiveFault::Transport, "OKX: "@ + m),
            }
        }),
{
    let m = refusal_str(msg);
    match refused_channel(m) {
        Some(k) => Ok((k, fail2(LiveFault::Symbol, "OKX refused this instrument: ", m))),
        None => Err(fail2(LiveFault::Transport, "OKX: ", m)),
    }
}

/// What a Bitget `error` event ends. The event carries the channel and instrument it refers
/// to: when it names both, only that pane stops (`Ok`, with the pane's routing key and its
/// fault); otherwise the session ends.
pub fn bitget_refusal(channel: &str, inst_id: &str, msg: Option<&str>) -> (r: Result<(String, Failure), Failure>)
    ensures
        ({
            let m = refusal_text(match msg { Some(t) => Some(t@), None => None });
            if channel@.len() == 0 || inst_id@.len() == 0 {
                r matches Err(f) && f.is(LiveFault::Transport, "Bitget: "@ + m)
            } else {
                r matches Ok((key, f)) && key@ == routing_key(channel@, inst_id@)
                    && f.is(LiveFault::Symbol, "Bitget does not list "@ + inst_id@ + " on this market: "@ + m)
            }
        }),
{
    let m = refusal_str(msg);
    if channel.is_empty() || inst_id.is_empty() {
        return Err(fail2(LiveFault::Transport, "Bitget: ", m));
    }
    let mut text = "Bitget does not list ".to_string();
    text.append(inst_id);
    text.append(" on this market: ");
    text.append(m);
    Ok((key(channel, inst_id), LiveError::err(LiveFault::Symbol, text.as_str())))
}

} // verus!
