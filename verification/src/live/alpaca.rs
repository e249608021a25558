//! Alpaca live market data: which socket an asset type streams on, which entitlement the
//! connector is on, and what each numbered refusal means.
//!
//! Alpaca publishes one-minute bars, not a channel per interval, so every timeframe on the
//! chart is folded from them by the hub. The feed the connector is entitled to is a
//! setting (`feed`), not a guess: free keys get IEX and the indicative options feed, paid
//! ones SIP and OPRA.

use vstd::prelude::*;

use crate::json::{get, items_view, jv, lemma_items_view, str_get, str_member, Json, JsonV};
use crate::live::candle_feeds::{rfc3339_secs, rfc3339_secs_of};
use crate::live::fault::{fail2, fail3, Cause, Failure, LiveError, LiveFault};
use crate::live::frame::{int_get, int_member, num_get, num_member, row_view, Quote, Row, RowV, Update};
use crate::live::handshake::{accepted, greeted, lemma_accepted, lemma_greeted, subscribed, Frame, Handshake, HsV};
use crate::live::instrument::{Instrument, SourceGrain};
use crate::settings::Settings;
use crate::text::{
    contains_string, debug_str, debug_str_of, dedup, lowercase_of, str_eq, to_lowercase,
    trim, trim_str, views,
};

verus! {

/// Alpaca streams one-minute bars; everything coarser is folded from them.
pub const SOURCE_SECS: i64 = 60;

/// How long past a minute's end the close timer waits for its bar.
pub const GRACE: i64 = 4;

/// The Alpaca live connector.
pub struct AlpacaLive;

/// The market an asset type streams on (this connector's socket class).
pub open spec fn market_spec(asset_type: Seq<char>) -> Option<Seq<char>> {
    if asset_type == "crypto"@ {
        Some("crypto"@)
    } else if asset_type == "option"@ {
        Some("options"@)
    } else if asset_type == "equity"@ || asset_type == "etf"@ {
        Some("stocks"@)
    } else {
        None
    }
}

/// The refusal for an asset type Alpaca does not stream.
pub open spec fn no_feed_for(asset_type: Seq<char>) -> Seq<char> {
    "Alpaca has no live feed for "@ + asset_type
}

/// The market an asset type streams on, which is also this connector's socket class.
pub fn market_of(asset_type: &str) -> (r: Result<&'static str, Failure>)
    ensures
        match r {
            Ok(m) => market_spec(asset_type@) == Some(m@),
            Err(f) => market_spec(asset_type@) is None && f.is(
                LiveFault::Unsupported,
                no_feed_for(asset_type@),
            ),
        },
{
    if str_eq(asset_type, "crypto") {
        Ok("crypto")
    } else if str_eq(asset_type, "option") {
        Ok("options")
    } else if str_eq(asset_type, "equity") || str_eq(asset_type, "etf") {
        Ok("stocks")
    } else {
        Err(fail2(LiveFault::Unsupported, "Alpaca has no live feed for ", asset_type))
    }
}

/// Which entitlement this connector is on: one dial, because Alpaca sells the equity and
/// the options entitlement together.
#[derive(Debug, Clone, Copy, PartialEq, Eq, Structural)]
pub enum Entitlement {
    /// Free plan: IEX equities, indicative options.
    Iex,
    /// Paid plan: full SIP tape, OPRA options.
    Sip,
}

impl Entitlement {
    pub open spec fn label_of(self) -> Seq<char> {
        match self {
            Entitlement::Iex => "IEX"@,
            Entitlement::Sip => "SIP"@,
        }
    }

    pub fn label(self) -> (l: &'static str)
        ensures
            l@ == self.label_of(),
    {
        match self {
            Entitlement::Iex => "IEX",
            Entitlement::Sip => "SIP",
        }
    }
}

/// The `feed` setting, trimmed and lower-cased; empty when absent.
pub open spec fn feed_setting(settings: Settings) -> Seq<char> {
    match settings.value_of("feed"@) {
        Some(v) => lowercase_of(trim(v)),
        None => Seq::empty(),
    }
}

/// Parse the connector's `feed` setting. Absent means the free entitlement, which is what a
/// key created today has.
pub fn feed_of(settings: &Settings) -> (r: Result<Entitlement, Failure>)
    ensures
        ({
            let f = feed_setting(*settings);
            match r {
                Ok(e) => (e == Entitlement::Iex && (f.len() == 0 || f == "iex"@)) || (e
                    == Entitlement::Sip && f == "sip"@),
                Err(err) => f.len() != 0 && f != "iex"@ && f != "sip"@ && err.is(
                    LiveFault::Transport,
                    debug_str_of(f) + " is not an Alpaca feed. Use iex (free plan) or sip (paid plan)"@,
                ) && err.fault_spec() == LiveFault::Transport,
            }
        }),
{
    let f = match settings.get("feed") {
        Some(v) => to_lowercase(trim_str(v.as_str()).as_str()),
        None => String::new(),
    };
    if f.as_str().is_empty() || str_eq(f.as_str(), "iex") {
        Ok(Entitlement::Iex)
    } else if str_eq(f.as_str(), "sip") {
        Ok(Entitlement::Sip)
    } else {
        let q = debug_str(f.as_str());
        Err(fail2(
            LiveFault::Transport,
            q.as_str(),
            " is not an Alpaca feed. Use iex (free plan) or sip (paid plan)",
        ))
    }
}

/// The socket URL for an asset type on an entitlement.
pub open spec fn url_spec(asset_type: Seq<char>, feed: Entitlement) -> Option<Seq<char>> {
    let base = "wss://stream.data.alpaca.markets"@;
    if asset_type == "crypto"@ {
        Some(base + "/v1beta3/crypto/us"@)
    } else if asset_type == "option"@ {
        Some(
            base + match feed {
                Entitlement::Iex => "/v1beta1/indicative"@,
                Entitlement::Sip => "/v1beta1/opra"@,
            },
        )
    } else if asset_type == "equity"@ || asset_type == "etf"@ {
        Some(
            base + match feed {
                Entitlement::Iex => "/v2/iex"@,
                Entitlement::Sip => "/v2/sip"@,
            },
        )
    } else {
        None
    }
}

/// The WebSocket URL that serves this asset type on this entitlement. Crypto has no tiers.
pub fn url_for(asset_type: &str, feed: Entitlement) -> (r: Result<String, Failure>)
    ensures
        match r {
            Ok(u) => url_spec(asset_type@, feed) == Some(u@),
            Err(f) => url_spec(asset_type@, feed) is None && f.is(
                LiveFault::Unsupported,
                no_feed_for(asset_type@),
            ),
        },
{
    let mut u = "wss://stream.data.alpaca.markets".to_string();
    if str_eq(asset_type, "crypto") {
        u.append("/v1beta3/crypto/us");
    } else if str_eq(asset_type, "option") {
        match feed {
            Entitlement::Iex => u.append("/v1beta1/indicative"),
            Entitlement::Sip => u.append("/v1beta1/opra"),
        }
    } else if str_eq(asset_type, "equity") || str_eq(asset_type, "etf") {
        match feed {
            Entitlement::Iex => u.append("/v2/iex"),
            Entitlement::Sip => u.append("/v2/sip"),
        }
    } else {
        return Err(fail2(LiveFault::Unsupported, "Alpaca has no live feed for ", asset_type));
    }
    Ok(u)
}

/// A required credential, trimmed; refused as an `Auth` fault when absent or blank.
pub fn need(secrets: &Settings, name: &str, connector: &str) -> (r: Result<String, Failure>)
    ensures
        ({
            let v = secrets.value_of(name@);
            match r {
                Ok(s) => v is Some && s@ == trim(v->0) && s@.len() > 0,
                Err(f) => (v is None || trim(v->0).len() == 0) && f.is(
                    LiveFault::Auth,
                    "connector "@ + connector@ + " has no Alpaca "@ + name@
                        + " — add it on the connector"@,
                ),
            }
        }),
{
    if let Some(v) = secrets.get(name) {
        let t = trim_str(v.as_str());
        if !t.as_str().is_empty() {
            return Ok(t);
        }
    }
    let mut m = "connector ".to_string();
    m.append(connector);
    m.append(" has no Alpaca ");
    m.append(name);
    m.append(" — add it on the connector");
    Err(Failure { cause: crate::live::fault::Cause::Live(LiveError { fault: LiveFault::Auth, message: m }), context: Vec::new() })
}

/// The channel names of these instruments, deduplicated: two timeframes on one symbol are
/// one subscription on the wire. Option contracts are expected in OCC form already.
pub fn symbols(instruments: &[Instrument]) -> (r: Vec<String>)
    ensures
        views(r@) == dedup(instruments@.map_values(|i: Instrument| i.symbol@)),
{
    let ghost syms = instruments@.map_values(|i: Instrument| i.symbol@);
    let mut out: Vec<String> = Vec::new();
    let mut k: usize = 0;
    while k < instruments.len()
        invariant
            k <= instruments@.len(),
            syms == instruments@.map_values(|i: Instrument| i.symbol@),
            views(out@) == dedup(syms.take(k as int)),
        decreases instruments@.len() - k,
    {
        proof {
            assert(syms.take(k + 1).drop_last() == syms.take(k as int));
            assert(syms.take(k + 1).last() == instruments@[k as int].symbol@);
        }
        if !contains_string(&out, instruments[k].symbol.as_str()) {
            out.push(instruments[k].symbol.clone());
            proof {
                assert(views(out@) == views(out@.drop_last()).push(instruments@[k as int].symbol@));
            }
        }
        k = k + 1;
    }
    proof {
        assert(syms.take(instruments@.len() as int) == syms);
    }
    out
}

/// Turn Alpaca's numbered refusal into the sentence that names the fix: 402 is a key to
/// correct, 409 a plan to upgrade, 406 another program holding the only connection.
pub open spec fn explain_spec(code: i64, msg: Seq<char>, c: Seq<char>, feed: Entitlement) -> (LiveFault, Seq<char>) {
    if code == 401 || code == 404 {
        (LiveFault::Auth, "Alpaca did not accept the login on connector "@ + c + " ("@ + msg + ")"@)
    } else if code == 402 {
        (LiveFault::Auth, "Alpaca rejected the API key on connector "@ + c
            + ". Check the key and secret, and that they are live keys rather than paper ones"@)
    } else if code == 403 {
        (LiveFault::Transport, "Alpaca: "@ + msg)
    } else if code == 405 {
        (LiveFault::Unsupported, "Alpaca refused the subscription: "@ + msg)
    } else if code == 406 {
        (LiveFault::Conflict, "Alpaca allows one live connection per account and it is already in use. Close the other program (or browser tab) using connector "@
            + c + "'s key, and this reconnects on its own"@)
    } else if code == 408 {
        (LiveFault::Plan, "connector "@ + c + "'s Alpaca account has no market-data streaming enabled"@)
    } else if code == 409 {
        (LiveFault::Plan, "connector "@ + c + "'s Alpaca plan does not include the "@ + feed.label_of()
            + " feed. Set the connector's Feed setting to iex, or upgrade the plan"@)
    } else if code == 410 {
        (LiveFault::Unsupported, "Alpaca's "@ + feed.label_of() + " feed does not carry this instrument"@)
    } else {
        (LiveFault::Transport, "Alpaca error "@ + crate::text::signed_decimal_of(code as int) + ": "@ + msg)
    }
}

/// The classified failure for an Alpaca `error` frame with this code and message.
pub fn explain(code: i64, msg: &str, connector: &str, feed: Entitlement) -> (f: Failure)
    ensures
        f.is(explain_spec(code, msg@, connector@, feed).0, explain_spec(code, msg@, connector@, feed).1),
{
    let c = connector;
    let (fault, m) = if code == 401 || code == 404 {
        let mut m = "Alpaca did not accept the login on connector ".to_string();
        m.append(c);
        m.append(" (");
        m.append(msg);
        m.append(")");
        (LiveFault::Auth, m)
    } else if code == 402 {
        let mut m = "Alpaca rejected the API key on connector ".to_string();
        m.append(c);
        m.append(". Check the key and secret, and that they are live keys rather than paper ones");
        (LiveFault::Auth, m)
    } else if code == 403 {
        let mut m = "Alpaca: ".to_string();
        m.append(msg);
        (LiveFault::Transport, m)
    } else if code == 405 {
        let mut m = "Alpaca refused the subscription: ".to_string();
        m.append(msg);
        (LiveFault::Unsupported, m)
    } else if code == 406 {
        let mut m = "Alpaca allows one live connection per account and it is already in use. Close the other program (or browser tab) using connector ".to_string();
        m.append(c);
        m.append("'s key, and this reconnects on its own");
        (LiveFault::Conflict, m)
    } else if code == 408 {
        let mut m = "connector ".to_string();
        m.append(c);
        m.append("'s Alpaca account has no market-data streaming enabled");
        (LiveFault::Plan, m)
    } else if code == 409 {
        let mut m = "connector ".to_string();
        m.append(c);
        m.append("'s Alpaca plan does not include the ");
        m.append(feed.label());
        m.append(" feed. Set the connector's Feed setting to iex, or upgrade the plan");
        (LiveFault::Plan, m)
    } else if code == 410 {
        let mut m = "Alpaca's ".to_string();
        m.append(feed.label());
        m.append(" feed does not carry this instrument");
        (LiveFault::Unsupported, m)
    } else {
        let mut m = "Alpaca error ".to_string();
        m.append(crate::text::signed_decimal(code).as_str());
        m.append(": ");
        m.append(msg);
        (LiveFault::Transport, m)
    };
    Failure { cause: crate::live::fault::Cause::Live(LiveError { fault, message: m }), context: Vec::new() }
}

impl AlpacaLive {
    /// One socket per market: equities, crypto and options are three connections however
    /// many symbols ride each.
    pub fn socket_class(&self, inst: &Instrument) -> (r: Result<String, Failure>)
        ensures
            match r {
                Ok(c) => market_spec(inst.asset_type@) == Some(c@),
                Err(f) => market_spec(inst.asset_type@) is None && f.is(
                    LiveFault::Unsupported,
                    no_feed_for(inst.asset_type@),
                ),
            },
    {
        match market_of(inst.asset_type.as_str()) {
            Ok(m) => Ok(m.to_string()),
            Err(e) => Err(e),
        }
    }

    /// Alpaca publishes one-minute bars; the hub folds them up to each pane's timeframe.
    pub fn grain(&self, inst: &Instrument) -> (g: SourceGrain)
        ensures
            g == (SourceGrain::Bars { secs: SOURCE_SECS, grace: GRACE }),
    {
        SourceGrain::Bars { secs: SOURCE_SECS, grace: GRACE }
    }

    /// The symbol itself: every timeframe of a symbol rides one channel.
    pub fn channel_of(&self, inst: &Instrument) -> (c: String)
        ensures
            c@ == inst.symbol@,
    {
        inst.symbol.clone()
    }
}


/// Advance the handshake on an Alpaca `success` message: `connected` makes `auth` due,
/// `authenticated` lets the waiting channels out, and any other text changes nothing.
pub fn on_success(h: &mut Handshake, msg: &str)
    ensures
        msg@ == "connected"@ ==> final(h).is_authed() == old(h).is_authed()
            && final(h).waiting() == old(h).waiting()
            && final(h).queued() == old(h).queued().push(Frame::Auth),
        msg@ == "authenticated"@ ==> final(h).is_authed() && final(h).waiting().len() == 0
            && (old(h).waiting().len() == 0 ==> final(h).queued() == old(h).queued())
            && (old(h).waiting().len() > 0 ==> final(h).queued().len() == old(h).queued().len() + 1
                && final(h).queued().drop_last() == old(h).queued()
                && subscribed(final(h).queued().last()) == Some(old(h).waiting())),
        msg@ != "connected"@ && msg@ != "authenticated"@ ==> *final(h) == *old(h),
{
    proof {
        reveal_strlit("connected");
        reveal_strlit("authenticated");
        assert("connected"@.len() != "authenticated"@.len());
    }
    if str_eq(msg, "connected") {
        h.on_connected();
    } else if str_eq(msg, "authenticated") {
        h.on_authenticated();
    }
}


// ── Reading a frame ───────────────────────────────────────────────────────────

/// What one item of an Alpaca frame is.
pub enum AlpacaItem {
    /// A `success` control message, with its text.
    Success(Seq<char>),
    /// An `error`: the socket's refusal, classified.
    Refused(LiveFault, Seq<char>),
    /// A minute bar (`b`), final as published.
    Bar(RowV),
    /// A bar that does not read, and why.
    Broken(Seq<char>),
    /// Anything else: corrections (`u`) and daily bars (`d`) cannot move a candle the chart has
    /// already closed, and the seed reconciles a bar that was wrong.
    Ignored,
}

/// A bar's price, or zero when the bar does not give it.
pub open spec fn price_or_zero(item: JsonV, k: Seq<char>) -> Seq<char> {
    match num_member(item, k) {
        Some(t) => t,
        None => "0"@,
    }
}

pub open spec fn alpaca_item(item: JsonV, c: Seq<char>, feed: Entitlement) -> AlpacaItem {
    match str_member(item, "T"@) {
        Some(t) => if t == "success"@ {
            AlpacaItem::Success(match str_member(item, "msg"@) {
                Some(m) => m,
                None => Seq::empty(),
            })
        } else if t == "error"@ {
            let code: i64 = match int_member(item, "code"@) {
                Some(n) => n,
                None => 0,
            };
            let msg = match str_member(item, "msg"@) {
                Some(m) => m,
                None => Seq::empty(),
            };
            AlpacaItem::Refused(explain_spec(code, msg, c, feed).0, explain_spec(code, msg, c, feed).1)
        } else if t == "b"@ {
            match str_member(item, "S"@) {
                None => AlpacaItem::Broken("alpaca bar symbol"@),
                Some(sym) => match str_member(item, "t"@) {
                    None => AlpacaItem::Broken("alpaca bar time"@),
                    Some(ts) => match rfc3339_secs_of(ts) {
                        None => AlpacaItem::Broken("alpaca bar time"@),
                        Some(secs) => AlpacaItem::Bar(RowV {
                            channel: sym,
                            bar_ts: secs as int,
                            quote: (
                                price_or_zero(item, "o"@),
                                price_or_zero(item, "h"@),
                                price_or_zero(item, "l"@),
                                price_or_zero(item, "c"@),
                            ),
                            volume: price_or_zero(item, "v"@),
                            closed: true,
                        }),
                    },
                },
            }
        } else {
            AlpacaItem::Ignored
        },
        None => AlpacaItem::Ignored,
    }
}

/// The items of a frame: every Alpaca frame is an array, control messages included; a lone
/// object is read as one item.
pub open spec fn items_of(f: JsonV) -> Seq<JsonV> {
    match f {
        JsonV::Arr(a) => a,
        _ => seq![f],
    }
}

/// What a run of items hands the hub: its bars in order, or the first refusal or broken bar.
pub open spec fn alpaca_run(items: Seq<AlpacaItem>) -> Result<Seq<RowV>, (Option<LiveFault>, Seq<char>)>
    decreases items.len(),
{
    if items.len() == 0 {
        Ok(Seq::empty())
    } else {
        match items[0] {
            AlpacaItem::Refused(f, m) => Err((Some(f), m)),
            AlpacaItem::Broken(m) => Err((None, m)),
            AlpacaItem::Bar(r) => match alpaca_run(items.drop_first()) {
                Ok(rest) => Ok(seq![r] + rest),
                Err(e) => Err(e),
            },
            _ => alpaca_run(items.drop_first()),
        }
    }
}

pub open spec fn is_success(i: AlpacaItem) -> bool {
    i is Success
}

/// What a `success` message does to the handshake, as values: `connected` makes `auth` due,
/// `authenticated` lets the waiting channels out, anything else changes nothing.
pub open spec fn success_step(v: HsV, m: Seq<char>) -> HsV {
    if m == "connected"@ {
        greeted(v)
    } else if m == "authenticated"@ {
        accepted(v)
    } else {
        v
    }
}

/// The handshake after a run of items: each `success` moves it in order, and reading stops
/// at the first refusal or unreadable bar.
pub open spec fn alpaca_handshake(v: HsV, items: Seq<AlpacaItem>) -> HsV
    decreases items.len(),
{
    if items.len() == 0 {
        v
    } else {
        match items[0] {
            AlpacaItem::Success(m) => alpaca_handshake(success_step(v, m), items.drop_first()),
            AlpacaItem::Refused(_, _) => v,
            AlpacaItem::Broken(_) => v,
            _ => alpaca_handshake(v, items.drop_first()),
        }
    }
}

/// [`success_moves`] as a step on values.
pub proof fn lemma_success_step(b: Handshake, a: Handshake, m: Seq<char>)
    requires
        success_moves(b, a, m),
    ensures
        a.view_v() == success_step(b.view_v(), m),
{
    if m == "connected"@ {
        lemma_greeted(b, a);
    } else if m == "authenticated"@ {
        lemma_accepted(b, a);
    }
}

/// An Alpaca socket: its handshake, and the connector and entitlement a refusal is explained
/// against.
pub struct AlpacaFeed {
    handshake: Handshake,
    connector: String,
    feed: Entitlement,
}

impl AlpacaFeed {
    pub closed spec fn hs(&self) -> Handshake {
        self.handshake
    }

    pub closed spec fn connector_of(&self) -> Seq<char> {
        self.connector@
    }

    pub closed spec fn feed_of(&self) -> Entitlement {
        self.feed
    }

    pub fn new(connector: &str, feed: Entitlement) -> (f: AlpacaFeed)
        ensures
            !f.hs().is_authed(),
            f.hs().waiting().len() == 0,
            f.hs().queued().len() == 0,
            f.connector_of() == connector@,
            f.feed_of() == feed,
    {
        AlpacaFeed { handshake: Handshake::new(), connector: connector.to_string(), feed }
    }

    /// Channels to add: they wait for the handshake, or go straight out after it.
    pub fn subscribe(&mut self, channels: Vec<String>) -> (out: Vec<Frame>)
        ensures
            final(self).connector_of() == old(self).connector_of(),
            final(self).feed_of() == old(self).feed_of(),
            final(self).hs().is_authed() == old(self).hs().is_authed(),
            final(self).hs().queued() == old(self).hs().queued(),
            channels@.len() == 0 ==> out@.len() == 0 && final(self).hs().waiting() == old(self).hs().waiting(),
            channels@.len() > 0 && !old(self).hs().is_authed() ==> out@.len() == 0
                && final(self).hs().waiting() == old(self).hs().waiting() + views(channels@),
            channels@.len() > 0 && old(self).hs().is_authed() ==> out@.len() == 1
                && subscribed(out@[0]) == Some(views(channels@)) && final(self).hs().waiting() == old(self).hs().waiting(),
    {
        self.handshake.subscribe(channels)
    }

    /// Frames the handshake has made due, in order.
    pub fn drain_sends(&mut self) -> (out: Vec<Frame>)
        ensures
            out@ == old(self).hs().queued(),
            final(self).hs().queued().len() == 0,
            final(self).hs().is_authed() == old(self).hs().is_authed(),
            final(self).hs().waiting() == old(self).hs().waiting(),
            final(self).connector_of() == old(self).connector_of(),
            final(self).feed_of() == old(self).feed_of(),
    {
        self.handshake.drain_sends()
    }

    /// Read one item.
    pub fn on_item(&mut self, item: &Json) -> (r: Result<Option<Update>, Failure>)
        ensures
            final(self).connector_of() == old(self).connector_of(),
            final(self).feed_of() == old(self).feed_of(),
            match alpaca_item(jv(*item), old(self).connector_of(), old(self).feed_of()) {
                AlpacaItem::Success(m) => r matches Ok(None) && success_moves(old(self).hs(), final(self).hs(), m),
                AlpacaItem::Refused(f, m) => final(self).hs() == old(self).hs() && (r matches Err(e) && e.is(f, m)),
                AlpacaItem::Broken(m) => final(self).hs() == old(self).hs() && (r matches Err(e)
                    && e.cause matches Cause::Plain(t) && t@ == m && e.context@.len() == 0),
                AlpacaItem::Bar(b) => final(self).hs() == old(self).hs() && (r matches Ok(Some(u))
                    && crate::live::frame::update_view(u) == crate::live::frame::bar_of(b)),
                AlpacaItem::Ignored => final(self).hs() == old(self).hs() && r matches Ok(None),
            },
    {
        proof {
            reveal_strlit("success");
            reveal_strlit("error");
            reveal_strlit("b");
            assert("success"@.len() == 7 && "error"@.len() == 5 && "b"@.len() == 1);
            reveal_strlit("");
            assert(""@ =~= Seq::<char>::empty());
        }
        let t = match str_get(item, "T") {
            Some(t) => t,
            None => {
                return Ok(None);
            },
        };
        if str_eq(t, "success") {
            let m = match str_get(item, "msg") {
                Some(m) => m,
                None => "",
            };
            on_success(&mut self.handshake, m);
            return Ok(None);
        }
        if str_eq(t, "error") {
            let code: i64 = match int_get(item, "code") {
                Some(n) => n,
                None => 0,
            };
            let m = match str_get(item, "msg") {
                Some(m) => m,
                None => "",
            };
            return Err(explain(code, m, self.connector.as_str(), self.feed));
        }
        if !str_eq(t, "b") {
            return Ok(None);
        }
        let sym = match str_get(item, "S") {
            Some(s) => s,
            None => {
                return Err(Failure::msg("alpaca bar symbol"));
            },
        };
        let ts = match str_get(item, "t") {
            Some(s) => s,
            None => {
                return Err(Failure::msg("alpaca bar time"));
            },
        };
        let secs = match rfc3339_secs(ts) {
            Some(x) => x,
            None => {
                return Err(Failure::msg("alpaca bar time"));
            },
        };
        let quote = Quote { open: price(item, "o"), high: price(item, "h"), low: price(item, "l"), close: price(item, "c") };
        Ok(Some(Update::Bar { channel: sym.to_string(), bar_ts: secs, quote, volume: price(item, "v"), closed: true }))
    }

    /// Read one frame: its bars, tagged with their own symbol, in order; the first refusal
    /// or unreadable bar fails the frame. `success` messages move the handshake as
    /// [`on_item`](Self::on_item) says, in order; a frame without one leaves it as it was.
    pub fn on_message(&mut self, frame: &Json) -> (r: Result<Vec<Update>, Failure>)
        ensures
            final(self).connector_of() == old(self).connector_of(),
            final(self).feed_of() == old(self).feed_of(),
            ({
                let its = items_of(jv(*frame)).map_values(|i: JsonV| alpaca_item(i, old(self).connector_of(), old(self).feed_of()));
                &&& match alpaca_run(its) {
                    Ok(bars) => r matches Ok(u) && crate::live::frame::updates_view(u@)
                        == bars.map_values(|b: RowV| crate::live::frame::bar_of(b)),
                    Err((Some(f), m)) => r matches Err(e) && e.is(f, m),
                    Err((None, m)) => r matches Err(e) && e.cause matches Cause::Plain(t) && t@ == m
                        && e.context@.len() == 0,
                }
                &&& (forall|i: int| 0 <= i < its.len() ==> !is_success(#[trigger] its[i])) ==> final(self).hs() == old(self).hs()
                &&& final(self).hs().view_v() == alpaca_handshake(old(self).hs().view_v(), its)
            }),
    {
        let one: Vec<Json>;
        let items: &Vec<Json> = match frame {
            Json::Arr(a) => a,
            _ => {
                one = vec![frame.copy()];
                &one
            },
        };
        proof {
            match frame {
                Json::Arr(a) => {
                    lemma_items_view(*a);
                },
                _ => {
                    lemma_items_view(*items);
                    assert(items_view(items@) =~= seq![jv(*frame)]);
                },
            }
        }
        let ghost c = self.connector@;
        let ghost fd = self.feed;
        let ghost iv = items_view(items@);
        let ghost its = iv.map_values(|i: JsonV| alpaca_item(i, c, fd));
        let ghost hs0 = self.handshake;
        let mut out: Vec<Update> = Vec::new();
        let mut i: usize = 0;
        let mut failed: Option<Failure> = None;
        proof {
            assert(its.skip(0) =~= its);
            assert(crate::live::frame::updates_view(out@) =~= Seq::<crate::live::frame::UpdateV>::empty());
        }
        while failed.is_none() && i < items.len()
            invariant
                i <= items@.len(),
                iv == items_view(items@),
                its == iv.map_values(|i: JsonV| alpaca_item(i, c, fd)),
                self.connector@ == c,
                self.feed == fd,
                failed is None ==> match alpaca_run(its) {
                    Ok(all) => alpaca_run(its.skip(i as int)) matches Ok(rest) && all.map_values(|b: RowV| crate::live::frame::bar_of(b))
                        == crate::live::frame::updates_view(out@) + rest.map_values(|b: RowV| crate::live::frame::bar_of(b)),
                    Err(e) => alpaca_run(its.skip(i as int)) == Err::<Seq<RowV>, (Option<LiveFault>, Seq<char>)>(e),
                },
                failed matches Some(e) ==> match alpaca_run(its) {
                    Ok(_) => false,
                    Err((Some(f), m)) => e.is(f, m),
                    Err((None, m)) => e.cause matches Cause::Plain(t) && t@ == m && e.context@.len() == 0,
                },
                (forall|j: int| 0 <= j < i ==> !is_success(#[trigger] its[j])) ==> self.handshake == hs0,
                failed is None ==> alpaca_handshake(hs0.view_v(), its) == alpaca_handshake(self.handshake.view_v(), its.skip(i as int)),
                failed is Some ==> self.handshake.view_v() == alpaca_handshake(hs0.view_v(), its),
            decreases items@.len() - i,
        {
            proof {
                assert(iv[i as int] == jv(items@[i as int]));
                assert(its.skip(i as int)[0] == its[i as int]);
                assert(its.skip(i as int).drop_first() =~= its.skip(i + 1));
            }
            let ghost before = crate::live::frame::updates_view(out@);
            let ghost hsb = self.handshake;
            let r = self.on_item(&items[i]);
            proof {
                if let AlpacaItem::Success(m) = its[i as int] {
                    lemma_success_step(hsb, self.handshake, m);
                }
            }
            match r {
                Ok(Some(u)) => {
                    out.push(u);
                    proof {
                        assert(crate::live::frame::updates_view(out@) =~= before.push(crate::live::frame::update_view(u)));
                        match alpaca_run(its) {
                            Ok(all) => {
                                let rest2 = alpaca_run(its.skip(i + 1))->Ok_0;
                                let b = its[i as int]->Bar_0;
                                assert(alpaca_run(its.skip(i as int))->Ok_0 == seq![b] + rest2);
                                assert((seq![b] + rest2).map_values(|b: RowV| crate::live::frame::bar_of(b))
                                    =~= seq![crate::live::frame::bar_of(b)] + rest2.map_values(|b: RowV| crate::live::frame::bar_of(b)));
                                assert(before + (seq![crate::live::frame::bar_of(b)] + rest2.map_values(|b: RowV| crate::live::frame::bar_of(b)))
                                    =~= before.push(crate::live::frame::bar_of(b)) + rest2.map_values(|b: RowV| crate::live::frame::bar_of(b)));
                            },
                            Err(_) => {},
                        }
                    }
                },
                Ok(None) => {},
                Err(e) => {
                    failed = Some(e);
                },
            }
            i = i + 1;
        }
        match failed {
            Some(e) => Err(e),
            None => {
                proof {
                    assert(its.skip(i as int) =~= Seq::<AlpacaItem>::empty());
                    match alpaca_run(its) {
                        Ok(all) => {
                            assert(Seq::<RowV>::empty().map_values(|b: RowV| crate::live::frame::bar_of(b)) =~= Seq::<crate::live::frame::UpdateV>::empty());
                            assert(crate::live::frame::updates_view(out@) + Seq::<crate::live::frame::UpdateV>::empty()
                                =~= crate::live::frame::updates_view(out@));
                        },
                        Err(_) => {},
                    }
                }
                Ok(out)
            },
        }
    }
}

/// How a `success` message moves the handshake: `connected` makes `auth` due,
/// `authenticated` lets the waiting channels out, anything else changes nothing.
pub open spec fn success_moves(before: Handshake, after: Handshake, m: Seq<char>) -> bool {
    if m == "connected"@ {
        after.is_authed() == before.is_authed() && after.waiting() == before.waiting()
            && after.queued() == before.queued().push(Frame::Auth)
    } else if m == "authenticated"@ {
        after.is_authed() && after.waiting().len() == 0
            && (before.waiting().len() == 0 ==> after.queued() == before.queued())
            && (before.waiting().len() > 0 ==> after.queued().len() == before.queued().len() + 1
                && after.queued().drop_last() == before.queued()
                && subscribed(after.queued().last()) == Some(before.waiting()))
    } else {
        after == before
    }
}

/// A bar's price text, or zero.
pub(crate) fn price(item: &Json, k: &str) -> (t: String)
    ensures
        t@ == price_or_zero(jv(*item), k@),
{
    match num_get(item, k) {
        Some(x) => x,
        None => {
            proof {
                reveal_strlit("0");
            }
            "0".to_string()
        },
    }
}

} // verus!
