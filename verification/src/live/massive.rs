//! Massive (Polygon.io) live aggregates: one socket per market cluster, and the one place
//! where a REST-style ticker becomes the name the socket knows it by.
//!
//! The aggregate channels are `AM.` (stocks, options, indices, futures), `XA.` (crypto)
//! and `CA.` (forex), and a crypto or forex pair is written with a separator on the socket
//! (`BTC-USD`, `EUR/USD`) where the REST ticker glues it (`X:BTCUSD`, `C:EURUSD`).

use vstd::prelude::*;

use crate::live::fault::{fail2, fail3, Cause, Failure, LiveError, LiveFault};
use crate::json::{get, items_view, jv, lemma_items_view, member, str_get, str_member, Json, JsonV};
use crate::live::alpaca::{items_of, price, price_or_zero};
use crate::live::frame::{bar_of, int_get, int_member, ms_to_secs, secs_of_ms, update_view, updates_view, Quote, RowV, Update, UpdateV};
use crate::live::handshake::{accepted, greeted, lemma_accepted, lemma_greeted, subscribed, Frame, Handshake, HsV};
use crate::mailbox::message::{timestamp_error, timestamp_ok_of, unix_timestamp};
use crate::live::instrument::{Instrument, SourceGrain};
use crate::text::{
    ascii_lower, ascii_upper, byte_len, char_width, chars_of, contains, ends_with,
    has_char, lemma_byte_len_prefix_strict, lower_vec, matches_at, replace_char,
    replace_char_vec, slice_chars, str_contains, str_eq, string_of, strip_all,
    strip_all_vec, trim, trim_vec, upper_vec, utf8_width, contains_string, dedup, views,
};

verus! {

/// Aggregate channels publish one bar a minute; anything coarser is folded from them.
pub const SOURCE_SECS: i64 = 60;

/// A minute aggregate is published a few seconds after the minute it covers.
pub const GRACE: i64 = 8;

/// The Massive live connector.
pub struct MassiveLive;

/// Quote currencies a glued crypto pair can end in, longest first so `BTCUSDT` splits at
/// `USDT` rather than `USD`.
pub open spec fn quote_at(i: int) -> Seq<char> {
    if i == 0 {
        "USDT"@
    } else if i == 1 {
        "USDC"@
    } else if i == 2 {
        "TUSD"@
    } else if i == 3 {
        "BUSD"@
    } else if i == 4 {
        "USD"@
    } else if i == 5 {
        "EUR"@
    } else if i == 6 {
        "GBP"@
    } else if i == 7 {
        "JPY"@
    } else if i == 8 {
        "BTC"@
    } else {
        "ETH"@
    }
}

pub const QUOTE_COUNT: usize = 10;

fn quote(i: usize) -> (q: &'static str)
    requires
        i < QUOTE_COUNT,
    ensures
        q@ == quote_at(i as int),
{
    if i == 0 {
        "USDT"
    } else if i == 1 {
        "USDC"
    } else if i == 2 {
        "TUSD"
    } else if i == 3 {
        "BUSD"
    } else if i == 4 {
        "USD"
    } else if i == 5 {
        "EUR"
    } else if i == 6 {
        "GBP"
    } else if i == 7 {
        "JPY"
    } else if i == 8 {
        "BTC"
    } else {
        "ETH"
    }
}

/// Split `raw` before the first quote (from index `i` on) it ends in, when something is
/// left in front of it.
pub open spec fn split_quote(raw: Seq<char>, i: int) -> Seq<char>
    decreases QUOTE_COUNT - i,
{
    if i < 0 || i >= QUOTE_COUNT {
        raw
    } else {
        let q = quote_at(i);
        if raw.len() > q.len() && ends_with(raw, q) {
            raw.take(raw.len() - q.len()) + seq!['-'] + q
        } else {
            split_quote(raw, i + 1)
        }
    }
}

/// `BTCUSD` → `BTC-USD`; a pair already carrying a separator keeps it (as `-`).
pub open spec fn crypto_pair_of(t: Seq<char>) -> Seq<char> {
    let raw = ascii_upper(strip_all(t, "X:"@));
    if raw.contains('-') || raw.contains('/') {
        replace_char(raw, '/', '-')
    } else {
        split_quote(raw, 0)
    }
}

/// `BTCUSD` → `BTC-USD`; a pair already carrying a separator keeps it.
pub fn crypto_pair(t: &str) -> (r: String)
    ensures
        r@ == crypto_pair_of(t@),
{
    let raw = upper_vec(&strip_all_vec(&chars_of(t), "X:"));
    if has_char(&raw, '-') || has_char(&raw, '/') {
        return string_of(replace_char_vec(&raw, '/', '-').as_slice());
    }
    let mut i: usize = 0;
    assert(crypto_pair_of(t@) == split_quote(raw@, 0));
    while i < QUOTE_COUNT
        invariant
            i <= QUOTE_COUNT,
            crypto_pair_of(t@) == split_quote(raw@, 0),
            split_quote(raw@, 0) == split_quote(raw@, i as int),
        decreases QUOTE_COUNT - i,
    {
        let q = quote(i);
        let qv = chars_of(q);
        if raw.len() > qv.len() && matches_at(&raw, &qv, raw.len() - qv.len()) {
            assert(ends_with(raw@, quote_at(i as int)));
            assert(split_quote(raw@, i as int) == raw@.take(raw@.len() - qv@.len()) + seq!['-'] + qv@);
            assert(crypto_pair_of(t@) == split_quote(raw@, 0));
            let mut out = slice_chars(&raw, 0, raw.len() - qv.len());
            out.push('-');
            let mut k: usize = 0;
            while k < qv.len()
                invariant
                    k <= qv@.len(),
                    out@ == raw@.take(raw@.len() - qv@.len()) + seq!['-'] + qv@.take(k as int),
                    crypto_pair_of(t@) == raw@.take(raw@.len() - qv@.len()) + seq!['-'] + qv@,
                decreases qv@.len() - k,
            {
                out.push(qv[k]);
                assert(qv@.take(k + 1) == qv@.take(k as int).push(qv@[k as int]));
                k = k + 1;
            }
            assert(qv@.take(qv@.len() as int) == qv@);
            return string_of(out.as_slice());
        }
        i = i + 1;
    }
    string_of(raw.as_slice())
}

/// Where the upper-cased forex ticker splits into base and quote.
pub open spec fn fx_raw(t: Seq<char>) -> Seq<char> {
    ascii_upper(strip_all(t, "C:"@))
}

/// A six-byte glued forex ticker splits at its third byte, which must fall between two
/// characters: splitting a string inside a character is refused, so such a ticker is not accepted.
pub open spec fn fx_split_ok(t: Seq<char>) -> bool {
    let raw = fx_raw(t);
    raw.contains('/') || raw.contains('-') || byte_len(raw) != 6 || exists|k: int|
        0 <= k <= raw.len() && byte_len(#[trigger] raw.take(k)) == 3
}

/// `EURUSD` → `EUR/USD`; a pair already carrying a separator keeps it (as `/`).
pub open spec fn fx_pair_of(t: Seq<char>) -> Seq<char> {
    let raw = fx_raw(t);
    if raw.contains('/') || raw.contains('-') {
        replace_char(raw, '-', '/')
    } else if byte_len(raw) == 6 {
        let k = choose|k: int| 0 <= k <= raw.len() && byte_len(#[trigger] raw.take(k)) == 3;
        raw.take(k) + seq!['/'] + raw.skip(k)
    } else {
        raw
    }
}

/// `EURUSD` → `EUR/USD`; a pair already carrying a separator keeps it.
pub fn fx_pair(t: &str) -> (r: String)
    requires
        fx_split_ok(t@),
    ensures
        r@ == fx_pair_of(t@),
{
    let raw = upper_vec(&strip_all_vec(&chars_of(t), "C:"));
    if has_char(&raw, '/') || has_char(&raw, '-') {
        return string_of(replace_char_vec(&raw, '-', '/').as_slice());
    }
    // Byte length, and the character index where the third byte ends.
    let mut bytes: usize = 0;
    let mut k: usize = 0;
    let mut cut: Option<usize> = None;
    while k < raw.len() && bytes <= 6
        invariant
            k <= raw@.len(),
            bytes == byte_len(raw@.take(k as int)),
            bytes <= 10,
            cut matches Some(c) ==> c <= k && byte_len(raw@.take(c as int)) == 3,
            cut is None ==> forall|j: int| 0 <= j <= k ==> byte_len(#[trigger] raw@.take(j)) != 3,
        decreases raw@.len() - k,
    {
        proof {
            assert(raw@.take(k + 1).drop_last() == raw@.take(k as int));
        }
        bytes = bytes + char_width(raw[k]);
        k = k + 1;
        if bytes == 3 && cut.is_none() {
            cut = Some(k);
        }
    }
    proof {
        assert(raw@.take(raw@.len() as int) == raw@);
        assert(raw@.take(0) == Seq::<char>::empty());
        if k < raw@.len() {
            lemma_byte_len_prefix_strict(raw@, k as int, raw@.len() as int);
        }
    }
    if bytes == 6 && k == raw.len() {
        match cut {
            Some(c) => {
                proof {
                    let r = raw@;
                    let ch = choose|j: int| 0 <= j <= r.len() && byte_len(#[trigger] r.take(j)) == 3;
                    if ch < c {
                        lemma_byte_len_prefix_strict(r, ch, c as int);
                    } else if c < ch {
                        lemma_byte_len_prefix_strict(r, c as int, ch);
                    }
                }
                let mut out = slice_chars(&raw, 0, c);
                out.push('/');
                let tail = slice_chars(&raw, c, raw.len());
                let mut s = string_of(out.as_slice());
                s.append(string_of(tail.as_slice()).as_str());
                return s;
            },
            None => {
                assert(false);
                return string_of(raw.as_slice());
            },
        }
    }
    string_of(raw.as_slice())
}

/// The cluster socket and channel string for one instrument, or `None` for a market the
/// vendor has no cluster for. Option contracts are expected in OCC form already.
pub open spec fn channel_for_spec(asset_type: Seq<char>, ticker: Seq<char>) -> Option<(Seq<char>, Seq<char>)> {
    let t = trim(ticker);
    if asset_type == "equity"@ || asset_type == "etf"@ {
        Some(("stocks"@, "AM."@ + ascii_upper(t)))
    } else if asset_type == "option"@ {
        Some(("options"@, "AM.O:"@ + t))
    } else if asset_type == "index"@ {
        Some(("indices"@, "AM.I:"@ + ascii_upper(strip_all(t, "I:"@))))
    } else if asset_type == "crypto"@ {
        Some(("crypto"@, "XA."@ + crypto_pair_of(t)))
    } else if asset_type == "fx"@ {
        Some(("forex"@, "CA."@ + fx_pair_of(t)))
    } else if asset_type == "future"@ {
        Some(("futures"@, "AM."@ + ascii_upper(t)))
    } else {
        None
    }
}

/// What a forex ticker must satisfy to be channelled (see [`fx_split_ok`]).
pub open spec fn channel_ok(asset_type: Seq<char>, ticker: Seq<char>) -> bool {
    asset_type == "fx"@ ==> fx_split_ok(trim(ticker))
}

/// The cluster socket and the channel string for one instrument.
pub fn channel_for(asset_type: &str, ticker: &str) -> (r: Result<(&'static str, String), Failure>)
    requires
        channel_ok(asset_type@, ticker@),
    ensures
        match r {
            Ok((cluster, ch)) => channel_for_spec(asset_type@, ticker@) == Some((cluster@, ch@)),
            Err(f) => channel_for_spec(asset_type@, ticker@) is None && f.is(
                LiveFault::Unsupported,
                "Massive has no live feed for "@ + asset_type@,
            ),
        },
{
    let tv = trim_vec(&chars_of(ticker));
    let t = string_of(tv.as_slice());
    if str_eq(asset_type, "equity") || str_eq(asset_type, "etf") {
        let mut c = "AM.".to_string();
        c.append(string_of(upper_vec(&tv).as_slice()).as_str());
        Ok(("stocks", c))
    } else if str_eq(asset_type, "option") {
        let mut c = "AM.O:".to_string();
        c.append(t.as_str());
        Ok(("options", c))
    } else if str_eq(asset_type, "index") {
        let mut c = "AM.I:".to_string();
        c.append(string_of(upper_vec(&strip_all_vec(&tv, "I:")).as_slice()).as_str());
        Ok(("indices", c))
    } else if str_eq(asset_type, "crypto") {
        let mut c = "XA.".to_string();
        c.append(crypto_pair(t.as_str()).as_str());
        Ok(("crypto", c))
    } else if str_eq(asset_type, "fx") {
        let mut c = "CA.".to_string();
        c.append(fx_pair(t.as_str()).as_str());
        Ok(("forex", c))
    } else if str_eq(asset_type, "future") {
        let mut c = "AM.".to_string();
        c.append(string_of(upper_vec(&tv).as_slice()).as_str());
        Ok(("futures", c))
    } else {
        Err(fail2(LiveFault::Unsupported, "Massive has no live feed for ", asset_type))
    }
}

/// How a Massive `error` status reads: a seat someone else holds, a plan that does not
/// cover the feed, a symbol the vendor does not know, or anything else.
pub open spec fn explain_error_spec(msg: Seq<char>, c: Seq<char>) -> (LiveFault, Seq<char>) {
    let low = ascii_lower(msg);
    if contains(low, "maximum number of websocket connections"@) || contains(low, "max connection"@) {
        (LiveFault::Conflict, "Massive allows one live connection per cluster and connector "@ + c
            + "'s key is already using it. Close the other program on this key and this reconnects on its own"@)
    } else if contains(low, "not authorized"@) || contains(low, "insufficient"@) || contains(low, "upgrade"@) {
        (LiveFault::Plan, "connector "@ + c + "'s Massive plan does not cover this live feed ("@ + msg + ")"@)
    } else if contains(low, "unknown ticker"@) || contains(low, "invalid ticker"@) {
        (LiveFault::Symbol, "Massive does not know one of the subscribed symbols ("@ + msg + ")"@)
    } else {
        (LiveFault::Transport, "Massive: "@ + msg)
    }
}

/// The classified failure for a Massive `error` status message.
pub fn explain_error(msg: &str, connector: &str) -> (f: Failure)
    ensures
        f.is(explain_error_spec(msg@, connector@).0, explain_error_spec(msg@, connector@).1),
{
    let low = string_of(lower_vec(&chars_of(msg)).as_slice());
    let l = low.as_str();
    let c = connector;
    let (fault, m) = if str_contains(l, "maximum number of websocket connections") || str_contains(l, "max connection") {
        let mut m = "Massive allows one live connection per cluster and connector ".to_string();
        m.append(c);
        m.append("'s key is already using it. Close the other program on this key and this reconnects on its own");
        (LiveFault::Conflict, m)
    } else if str_contains(l, "not authorized") || str_contains(l, "insufficient") || str_contains(l, "upgrade") {
        let mut m = "connector ".to_string();
        m.append(c);
        m.append("'s Massive plan does not cover this live feed (");
        m.append(msg);
        m.append(")");
        (LiveFault::Plan, m)
    } else if str_contains(l, "unknown ticker") || str_contains(l, "invalid ticker") {
        let mut m = "Massive does not know one of the subscribed symbols (".to_string();
        m.append(msg);
        m.append(")");
        (LiveFault::Symbol, m)
    } else {
        let mut m = "Massive: ".to_string();
        m.append(msg);
        (LiveFault::Transport, m)
    };
    Failure { cause: Cause::Live(LiveError { fault, message: m }), context: Vec::new() }
}

impl MassiveLive {
    /// One socket per market cluster.
    pub fn socket_class(&self, inst: &Instrument) -> (r: Result<String, Failure>)
        requires
            channel_ok(inst.asset_type@, inst.symbol@),
        ensures
            match r {
                Ok(c) => channel_for_spec(inst.asset_type@, inst.symbol@) matches Some(p) && c@ == p.0,
                Err(f) => channel_for_spec(inst.asset_type@, inst.symbol@) is None,
            },
    {
        match channel_for(inst.asset_type.as_str(), inst.symbol.as_str()) {
            Ok((cluster, _)) => Ok(cluster.to_string()),
            Err(e) => Err(e),
        }
    }

    /// Minute aggregates, folded by the hub.
    pub fn grain(&self, inst: &Instrument) -> (g: SourceGrain)
        ensures
            g == (SourceGrain::Bars { secs: SOURCE_SECS, grace: GRACE }),
    {
        SourceGrain::Bars { secs: SOURCE_SECS, grace: GRACE }
    }

    /// The channel string the instrument's aggregates carry.
    pub fn channel_of(&self, inst: &Instrument) -> (r: Result<String, Failure>)
        requires
            channel_ok(inst.asset_type@, inst.symbol@),
        ensures
            match r {
                Ok(c) => channel_for_spec(inst.asset_type@, inst.symbol@) matches Some(p) && c@ == p.1,
                Err(f) => channel_for_spec(inst.asset_type@, inst.symbol@) is None,
            },
    {
        match channel_for(inst.asset_type.as_str(), inst.symbol.as_str()) {
            Ok((_, ch)) => Ok(ch),
            Err(e) => Err(e),
        }
    }
}


/// The channel strings of the instruments Massive can channel, in order, repeats kept.
pub open spec fn channel_list(insts: Seq<Instrument>) -> Seq<Seq<char>>
    decreases insts.len(),
{
    if insts.len() == 0 {
        Seq::empty()
    } else {
        let r = channel_list(insts.drop_last());
        match channel_for_spec(insts.last().asset_type@, insts.last().symbol@) {
            Some(p) => r.push(p.1),
            None => r,
        }
    }
}

/// The channel names of these instruments, each once: two timeframes on one symbol are one
/// subscription on the wire, and a symbol the cluster cannot express is left to the
/// subscription that asked for it.
pub fn channels(instruments: &[Instrument]) -> (r: Vec<String>)
    requires
        forall|i: int| 0 <= i < instruments@.len() ==> channel_ok(
            (#[trigger] instruments@[i]).asset_type@,
            instruments@[i].symbol@,
        ),
    ensures
        views(r@) == dedup(channel_list(instruments@)),
{
    let mut out: Vec<String> = Vec::new();
    let mut i: usize = 0;
    while i < instruments.len()
        invariant
            i <= instruments@.len(),
            forall|j: int| 0 <= j < instruments@.len() ==> channel_ok(
                (#[trigger] instruments@[j]).asset_type@,
                instruments@[j].symbol@,
            ),
            views(out@) == dedup(channel_list(instruments@.take(i as int))),
        decreases instruments@.len() - i,
    {
        let ghost prev = channel_list(instruments@.take(i as int));
        proof {
            assert(instruments@.take(i + 1).drop_last() == instruments@.take(i as int));
            assert(instruments@.take(i + 1).last() == instruments@[i as int]);
        }
        let inst = &instruments[i];
        match channel_for(inst.asset_type.as_str(), inst.symbol.as_str()) {
            Ok((_, ch)) => {
                proof {
                    assert(channel_list(instruments@.take(i + 1)) == prev.push(ch@));
                    assert(prev.push(ch@).drop_last() == prev);
                    assert(prev.push(ch@).last() == ch@);
                }
                if !contains_string(&out, ch.as_str()) {
                    let ghost before = views(out@);
                    out.push(ch);
                    proof {
                        assert(views(out@) == before.push(out@[out@.len() - 1]@));
                    }
                }
            },
            Err(_) => {
                proof {
                    assert(channel_list(instruments@.take(i + 1)) == prev);
                }
            },
        }
        i = i + 1;
    }
    proof {
        assert(instruments@.take(instruments@.len() as int) == instruments@);
    }
    out
}


/// The failure a Massive `status` event ends the session with, if it ends it: the key is
/// refused (live streaming is a paid feature), the login timed out, or the server reported an
/// error.
pub open spec fn status_failure(status: Seq<char>, msg: Seq<char>, c: Seq<char>) -> Option<(LiveFault, Seq<char>)> {
    if status == "auth_failed"@ {
        Some((LiveFault::Plan, "Massive refused the live connection for connector "@ + c
            + ". Live streaming is a paid Massive feature and is not part of the free (end-of-day) plan; the same key still downloads history ("@
            + msg + ")"@))
    } else if status == "auth_timeout"@ {
        Some((LiveFault::Auth, "Massive did not accept the login for connector "@ + c + " in time ("@ + msg + ")"@))
    } else if status == "error"@ {
        Some(explain_error_spec(msg, c))
    } else {
        None
    }
}

/// Advance the handshake on a Massive `status` event, or return the failure to end the
/// session with. `connected` makes `auth` due; `auth_success` lets the waiting channels out.
pub fn on_status(h: &mut Handshake, status: &str, msg: &str, connector: &str) -> (r: Option<Failure>)
    ensures
        match status_failure(status@, msg@, connector@) {
            Some(p) => r matches Some(f) && f.is(p.0, p.1),
            None => r is None,
        },
        status@ == "connected"@ ==> final(h).is_authed() == old(h).is_authed()
            && final(h).waiting() == old(h).waiting()
            && final(h).queued() == old(h).queued().push(Frame::Auth),
        status@ == "auth_success"@ ==> final(h).is_authed() && final(h).waiting().len() == 0
            && (old(h).waiting().len() == 0 ==> final(h).queued() == old(h).queued())
            && (old(h).waiting().len() > 0 ==> final(h).queued().len() == old(h).queued().len() + 1
                && final(h).queued().drop_last() == old(h).queued()
                && subscribed(final(h).queued().last()) == Some(old(h).waiting())),
        status@ != "connected"@ && status@ != "auth_success"@ ==> *final(h) == *old(h),
{
    proof {
        reveal_strlit("connected");
        reveal_strlit("auth_success");
        reveal_strlit("auth_failed");
        reveal_strlit("auth_timeout");
        reveal_strlit("error");
        assert("connected"@.len() == 9 && "auth_success"@.len() == 12 && "auth_failed"@.len() == 11);
        assert("auth_timeout"@.len() == 12 && "error"@.len() == 5);
        assert("auth_success"@[5] != "auth_timeout"@[5]);
        assert("connected"@ != "auth_success"@ && "connected"@ != "auth_failed"@);
        assert("connected"@ != "auth_timeout"@ && "connected"@ != "error"@);
        assert("auth_success"@ != "auth_failed"@ && "auth_success"@ != "auth_timeout"@);
        assert("auth_success"@ != "error"@);
    }
    if str_eq(status, "connected") {
        h.on_connected();
        None
    } else if str_eq(status, "auth_success") {
        h.on_authenticated();
        None
    } else if str_eq(status, "auth_failed") {
        let mut m = "Massive refused the live connection for connector ".to_string();
        m.append(connector);
        m.append(". Live streaming is a paid Massive feature and is not part of the free (end-of-day) plan; the same key still downloads history (");
        m.append(msg);
        m.append(")");
        Some(Failure { cause: Cause::Live(LiveError { fault: LiveFault::Plan, message: m }), context: Vec::new() })
    } else if str_eq(status, "auth_timeout") {
        let mut m = "Massive did not accept the login for connector ".to_string();
        m.append(connector);
        m.append(" in time (");
        m.append(msg);
        m.append(")");
        Some(Failure { cause: Cause::Live(LiveError { fault: LiveFault::Auth, message: m }), context: Vec::new() })
    } else if str_eq(status, "error") {
        Some(explain_error(msg, connector))
    } else {
        None
    }
}


/// The channel an aggregate is routed on: its event (`AM`, `XA`, `CA`) and the instrument the
/// payload names — `sym` for stocks, options and indices, `pair` for crypto and forex — so
/// that several instruments can share one socket.
pub fn aggregate_channel(ev: &str, sym: Option<&str>, pair: Option<&str>) -> (r: Result<String, Failure>)
    ensures
        match (sym, pair) {
            (Some(n), _) => r matches Ok(c) && c@ == ev@ + "."@ + n@,
            (None, Some(n)) => r matches Ok(c) && c@ == ev@ + "."@ + n@,
            (None, None) => r matches Err(f) && f.cause matches Cause::Plain(t) && t@ == "massive aggregate symbol"@,
        },
{
    let name = match sym {
        Some(n) => n,
        None => match pair {
            Some(n) => n,
            None => {
                return Err(Failure::msg("massive aggregate symbol"));
            },
        },
    };
    let mut c = ev.to_string();
    c.append(".");
    c.append(name);
    Ok(c)
}


// ── Reading a frame ───────────────────────────────────────────────────────────

/// What one item of a Massive frame is.
pub enum MassiveItem {
    /// A `status` event: its status and message (empty when absent).
    Status(Seq<char>, Seq<char>),
    /// An aggregate (`AM`, `XA`, `CA`), final as published.
    Agg(RowV),
    /// An aggregate that does not read, and why.
    Broken(Seq<char>),
    /// Anything else.
    Ignored,
}

/// The instrument an aggregate names: `sym`, or `pair` when there is no `sym`.
pub open spec fn agg_name(item: JsonV) -> Option<Seq<char>> {
    match member(item, "sym"@) {
        Some(JsonV::Str(s)) => Some(s),
        Some(_) => None,
        None => str_member(item, "pair"@),
    }
}

pub open spec fn or_empty_text(o: Option<Seq<char>>) -> Seq<char> {
    match o {
        Some(s) => s,
        None => Seq::empty(),
    }
}

pub open spec fn massive_item(item: JsonV) -> MassiveItem {
    match str_member(item, "ev"@) {
        Some(ev) => if ev == "status"@ {
            MassiveItem::Status(or_empty_text(str_member(item, "status"@)), or_empty_text(str_member(item, "message"@)))
        } else if ev == "AM"@ || ev == "XA"@ || ev == "CA"@ {
            match agg_name(item) {
                None => MassiveItem::Broken("massive aggregate symbol"@),
                Some(n) => match int_member(item, "s"@) {
                    None => MassiveItem::Broken("massive aggregate start"@),
                    Some(ms) => if !timestamp_ok_of(secs_of_ms(ms) as i64) {
                        MassiveItem::Broken(timestamp_error())
                    } else {
                        MassiveItem::Agg(RowV {
                            channel: ev + "."@ + n,
                            bar_ts: secs_of_ms(ms),
                            quote: (
                                price_or_zero(item, "o"@),
                                price_or_zero(item, "h"@),
                                price_or_zero(item, "l"@),
                                price_or_zero(item, "c"@),
                            ),
                            volume: price_or_zero(item, "v"@),
                            closed: true,
                        })
                    },
                },
            }
        } else {
            MassiveItem::Ignored
        },
        None => MassiveItem::Ignored,
    }
}

/// What a run of items hands the hub: its aggregates in order, or the first failure (a
/// classified one from a status, or an unreadable aggregate).
pub open spec fn massive_run(items: Seq<MassiveItem>, c: Seq<char>) -> Result<Seq<RowV>, (Option<LiveFault>, Seq<char>)>
    decreases items.len(),
{
    if items.len() == 0 {
        Ok(Seq::empty())
    } else {
        match items[0] {
            MassiveItem::Status(st, m) => match status_failure(st, m, c) {
                Some((f, t)) => Err((Some(f), t)),
                None => massive_run(items.drop_first(), c),
            },
            MassiveItem::Broken(m) => Err((None, m)),
            MassiveItem::Agg(r) => match massive_run(items.drop_first(), c) {
                Ok(rest) => Ok(seq![r] + rest),
                Err(e) => Err(e),
            },
            MassiveItem::Ignored => massive_run(items.drop_first(), c),
        }
    }
}

pub open spec fn is_status(i: MassiveItem) -> bool {
    i is Status
}

/// What a `status` event does to the handshake, as values: `connected` makes `auth` due,
/// `auth_success` lets the waiting channels out, anything else changes nothing.
pub open spec fn status_step(v: HsV, st: Seq<char>) -> HsV {
    if st == "connected"@ {
        greeted(v)
    } else if st == "auth_success"@ {
        accepted(v)
    } else {
        v
    }
}

/// The handshake after a run of items: each `status` moves it in order, and reading stops
/// after the first refusing status or at the first unreadable aggregate.
pub open spec fn massive_handshake(v: HsV, items: Seq<MassiveItem>, c: Seq<char>) -> HsV
    decreases items.len(),
{
    if items.len() == 0 {
        v
    } else {
        match items[0] {
            MassiveItem::Status(st, m) => match status_failure(st, m, c) {
                Some(_) => status_step(v, st),
                None => massive_handshake(status_step(v, st), items.drop_first(), c),
            },
            MassiveItem::Broken(_) => v,
            _ => massive_handshake(v, items.drop_first(), c),
        }
    }
}

/// A Massive socket: its handshake, and the connector a refusal names.
pub struct MassiveFeed {
    handshake: Handshake,
    connector: String,
}

impl MassiveFeed {
    pub closed spec fn hs(&self) -> Handshake {
        self.handshake
    }

    pub closed spec fn connector_of(&self) -> Seq<char> {
        self.connector@
    }

    pub fn new(connector: &str) -> (f: MassiveFeed)
        ensures
            !f.hs().is_authed(),
            f.hs().waiting().len() == 0,
            f.hs().queued().len() == 0,
            f.connector_of() == connector@,
    {
        MassiveFeed { handshake: Handshake::new(), connector: connector.to_string() }
    }

    /// Channels to add: they wait for `auth_success`, or go straight out after it.
    pub fn subscribe(&mut self, channels: Vec<String>) -> (out: Vec<Frame>)
        ensures
            final(self).connector_of() == old(self).connector_of(),
            final(self).hs().is_authed() == old(self).hs().is_authed(),
            final(self).hs().queued() == old(self).hs().queued(),
            channels@.len() == 0 ==> out@.len() == 0 && final(self).hs().waiting() == old(self).hs().waiting(),
            channels@.len() > 0 && !old(self).hs().is_authed() ==> out@.len() == 0
                && final(self).hs().waiting() == old(self).hs().waiting() + crate::text::views(channels@),
            channels@.len() > 0 && old(self).hs().is_authed() ==> out@.len() == 1
                && subscribed(out@[0]) == Some(crate::text::views(channels@)) && final(self).hs().waiting() == old(self).hs().waiting(),
    {
        self.handshake.subscribe(channels)
    }

    /// Frames the handshake has made due, in order.
    pub fn drain_sends(&mut self) -> (out: Vec<Frame>)
        ensures
            out@ == old(self).hs().queued(),
            final(self).hs().queued().len() == 0,
            final(self).hs().is_authed() == old(self).hs().is_authed(),
            final(self).hs().waiting() == old(self).hs().waiting(),
            final(self).connector_of() == old(self).connector_of(),
    {
        self.handshake.drain_sends()
    }

    /// Read one item: a status moves the handshake or ends the session (as [`on_status`]
    /// says); an aggregate is a final bar tagged with the channel it came from.
    pub fn on_item(&mut self, item: &Json) -> (r: Result<Option<Update>, Failure>)
        ensures
            final(self).connector_of() == old(self).connector_of(),
            match massive_item(jv(*item)) {
                MassiveItem::Status(st, m) => {
                    &&& match status_failure(st, m, old(self).connector_of()) {
                        Some(p) => r matches Err(e) && e.is(p.0, p.1),
                        None => r matches Ok(None),
                    }
                    &&& (st == "connected"@ ==> final(self).hs().is_authed() == old(self).hs().is_authed()
                        && final(self).hs().waiting() == old(self).hs().waiting()
                        && final(self).hs().queued() == old(self).hs().queued().push(Frame::Auth))
                    &&& (st == "auth_success"@ ==> final(self).hs().is_authed() && final(self).hs().waiting().len() == 0
                        && (old(self).hs().waiting().len() == 0 ==> final(self).hs().queued() == old(self).hs().queued())
                        && (old(self).hs().waiting().len() > 0 ==> final(self).hs().queued().len() == old(self).hs().queued().len() + 1
                            && final(self).hs().queued().drop_last() == old(self).hs().queued()
                            && subscribed(final(self).hs().queued().last()) == Some(old(self).hs().waiting())))
                    &&& (st != "connected"@ && st != "auth_success"@ ==> final(self).hs() == old(self).hs())
                },
                MassiveItem::Broken(m) => final(self).hs() == old(self).hs() && (r matches Err(e)
                    && e.cause matches Cause::Plain(t) && t@ == m && e.context@.len() == 0),
                MassiveItem::Agg(b) => final(self).hs() == old(self).hs() && (r matches Ok(Some(u))
                    && update_view(u) == bar_of(b)),
                MassiveItem::Ignored => final(self).hs() == old(self).hs() && r matches Ok(None),
            },
    {
        proof {
            reveal_strlit("status");
            reveal_strlit("AM");
            reveal_strlit("XA");
            reveal_strlit("CA");
            reveal_strlit("");
            reveal_strlit(".");
            assert(""@ =~= Seq::<char>::empty());
            assert("status"@.len() == 6 && "AM"@.len() == 2);
        }
        let ev = match str_get(item, "ev") {
            Some(e) => e,
            None => {
                return Ok(None);
            },
        };
        if str_eq(ev, "status") {
            let st = match str_get(item, "status") {
                Some(x) => x,
                None => "",
            };
            let m = match str_get(item, "message") {
                Some(x) => x,
                None => "",
            };
            return match on_status(&mut self.handshake, st, m, self.connector.as_str()) {
                Some(f) => Err(f),
                None => Ok(None),
            };
        }
        if !(str_eq(ev, "AM") || str_eq(ev, "XA") || str_eq(ev, "CA")) {
            return Ok(None);
        }
        let name = match get(item, "sym") {
            Some(Json::Str(s)) => s.as_str(),
            Some(_) => {
                return Err(Failure::msg("massive aggregate symbol"));
            },
            None => match str_get(item, "pair") {
                Some(p) => p,
                None => {
                    return Err(Failure::msg("massive aggregate symbol"));
                },
            },
        };
        let ms = match int_get(item, "s") {
            Some(x) => x,
            None => {
                return Err(Failure::msg("massive aggregate start"));
            },
        };
        let ts = ms_to_secs(ms);
        if let Err(m) = unix_timestamp(ts) {
            return Err(Failure::msg(m.as_str()));
        }
        let mut channel = ev.to_string();
        channel.append(".");
        channel.append(name);
        let quote = Quote { open: price(item, "o"), high: price(item, "h"), low: price(item, "l"), close: price(item, "c") };
        Ok(Some(Update::Bar { channel, bar_ts: ts, quote, volume: price(item, "v"), closed: true }))
    }

    /// Read one frame: its aggregates, tagged with their channels, in order; the first
    /// failing status or unreadable aggregate fails the frame. Statuses move the handshake as
    /// [`on_item`](Self::on_item) says, in order; a frame without one leaves it as it was.
    pub fn on_message(&mut self, frame: &Json) -> (r: Result<Vec<Update>, Failure>)
        ensures
            final(self).connector_of() == old(self).connector_of(),
            ({
                let its = items_of(jv(*frame)).map_values(|i: JsonV| massive_item(i));
                &&& match massive_run(its, old(self).connector_of()) {
                    Ok(bars) => r matches Ok(u) && updates_view(u@) == bars.map_values(|b: RowV| bar_of(b)),
                    Err((Some(f), m)) => r matches Err(e) && e.is(f, m),
                    Err((None, m)) => r matches Err(e) && e.cause matches Cause::Plain(t) && t@ == m
                        && e.context@.len() == 0,
                }
                &&& (forall|i: int| 0 <= i < its.len() ==> !is_status(#[trigger] its[i])) ==> final(self).hs() == old(self).hs()
                &&& final(self).hs().view_v() == massive_handshake(old(self).hs().view_v(), its, old(self).connector_of())
            }),
    {
        let one: Vec<Json>;
        let items: &Vec<Json> = match frame {
            Json::Arr(a) => a,
            _ => {
                one = vec![frame.copy()];
                &one
            },
        };
        proof {
            match frame {
                Json::Arr(a) => {
                    lemma_items_view(*a);
                },
                _ => {
                    lemma_items_view(*items);
                    assert(items_view(items@) =~= seq![jv(*frame)]);
                },
            }
        }
        let ghost c = self.connector@;
        let ghost iv = items_view(items@);
        let ghost its = iv.map_values(|i: JsonV| massive_item(i));
        let ghost hs0 = self.handshake;
        let mut out: Vec<Update> = Vec::new();
        let mut i: usize = 0;
        let mut failed: Option<Failure> = None;
        proof {
            assert(its.skip(0) =~= its);
            assert(updates_view(out@) =~= Seq::<UpdateV>::empty());
        }
        while failed.is_none() && i < items.len()
            invariant
                i <= items@.len(),
                iv == items_view(items@),
                its == iv.map_values(|i: JsonV| massive_item(i)),
                self.connector@ == c,
                failed is None ==> match massive_run(its, c) {
                    Ok(all) => massive_run(its.skip(i as int), c) matches Ok(rest) && all.map_values(|b: RowV| bar_of(b))
                        == updates_view(out@) + rest.map_values(|b: RowV| bar_of(b)),
                    Err(e) => massive_run(its.skip(i as int), c) == Err::<Seq<RowV>, (Option<LiveFault>, Seq<char>)>(e),
                },
                failed matches Some(e) ==> match massive_run(its, c) {
                    Ok(_) => false,
                    Err((Some(f), m)) => e.is(f, m),
                    Err((None, m)) => e.cause matches Cause::Plain(t) && t@ == m && e.context@.len() == 0,
                },
                (forall|j: int| 0 <= j < i ==> !is_status(#[trigger] its[j])) ==> self.handshake == hs0,
                failed is None ==> massive_handshake(hs0.view_v(), its, c) == massive_handshake(
                    self.handshake.view_v(),
                    its.skip(i as int),
                    c,
                ),
                failed is Some ==> self.handshake.view_v() == massive_handshake(hs0.view_v(), its, c),
            decreases items@.len() - i,
        {
            proof {
                assert(iv[i as int] == jv(items@[i as int]));
                assert(its.skip(i as int)[0] == its[i as int]);
                assert(its.skip(i as int).drop_first() =~= its.skip(i + 1));
            }
            let ghost before = updates_view(out@);
            let ghost hsb = self.handshake;
            let r = self.on_item(&items[i]);
            proof {
                if let MassiveItem::Status(st, m) = its[i as int] {
                    if st == "connected"@ {
                        lemma_greeted(hsb, self.handshake);
                    } else if st == "auth_success"@ {
                        lemma_accepted(hsb, self.handshake);
                    }
                }
            }
            match r {
                Ok(Some(u)) => {
                    out.push(u);
                    proof {
                        assert(updates_view(out@) =~= before.push(update_view(u)));
                        match massive_run(its, c) {
                            Ok(all) => {
                                let rest2 = massive_run(its.skip(i + 1), c)->Ok_0;
                                let b = its[i as int]->Agg_0;
                                assert(massive_run(its.skip(i as int), c)->Ok_0 == seq![b] + rest2);
                                assert((seq![b] + rest2).map_values(|b: RowV| bar_of(b))
                                    =~= seq![bar_of(b)] + rest2.map_values(|b: RowV| bar_of(b)));
                                assert(before + (seq![bar_of(b)] + rest2.map_values(|b: RowV| bar_of(b)))
                                    =~= before.push(bar_of(b)) + rest2.map_values(|b: RowV| bar_of(b)));
                            },
                            Err(_) => {},
                        }
                    }
                },
                Ok(None) => {},
                Err(e) => {
                    failed = Some(e);
                },
            }
            i = i + 1;
        }
        match failed {
            Some(e) => Err(e),
            None => {
                proof {
                    assert(its.skip(i as int) =~= Seq::<MassiveItem>::empty());
                    match massive_run(its, c) {
                        Ok(all) => {
                            assert(Seq::<RowV>::empty().map_values(|b: RowV| bar_of(b)) =~= Seq::<UpdateV>::empty());
                            assert(updates_view(out@) + Seq::<UpdateV>::empty() =~= updates_view(out@));
                        },
                        Err(_) => {},
                    }
                }
                Ok(out)
            },
        }
    }
}

} // verus!
