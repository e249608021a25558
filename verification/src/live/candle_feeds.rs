//! The frames of the keyless candle venues — Bitget, OKX and Kraken — read over the
//! library's [`Json`]: which pane a row belongs to, what a refusal ends, and when a candle is
//! final. Bitget and Kraken send no closed flag, so a newer candle on a channel closes the one
//! before it; OKX sends the flag, and replays recent candles on subscribe, which say nothing.
//!
//! Prices stay the frame's texts: they are read as floats where the candle is drawn, and a
//! cell that does not read as a number fails there.

use vstd::prelude::*;

use crate::json::{get, items_view, jv, lemma_items_view, member, str_get, str_member, Json, JsonV};
use crate::live::crypto_venues::{bitget_refusal, key, okx_refusal, refusal_text, refused_channel_of, routing_key};
use crate::live::fault::{Cause, Failure, LiveFault};
use crate::live::frame::{
    i64_of, num_get, num_member, parse_i64, run, run_rows, secs_of_ms, ms_to_secs, updates_view, Quote, Row, RowV,
    Update, UpdateV,
};
use crate::live::rollover::Rollover;
use crate::mailbox::message::{timestamp_error, timestamp_ok_of, unix_timestamp};
use crate::mcp::shape::{parse_u64, u64_of};
use crate::text::{chars_of, str_eq, to_uppercase, uppercase_of};

verus! {

/// What `str::parse::<i64>` reads: an optional sign, then digits that fit.
pub open spec fn i64_text_of(s: Seq<char>) -> Option<i64> {
    if s.len() > 0 && s[0] == '+' {
        match u64_of(s.drop_first()) {
            Some(v) => if v <= i64::MAX { Some(v as i64) } else { None },
            None => None,
        }
    } else {
        i64_of(s)
    }
}

pub fn parse_i64_text(s: &str) -> (r: Option<i64>)
    ensures
        r == i64_text_of(s@),
{
    let v = chars_of(s);
    if v.len() > 0 && v[0] == '+' {
        assert(v@.skip(1) == s@.drop_first());
        match parse_u64(&v, 1) {
            Some(u) => if u <= 0x7fff_ffff_ffff_ffffu64 { Some(u as i64) } else { None },
            None => None,
        }
    } else {
        parse_i64(s)
    }
}

/// A member, or `null`.
pub open spec fn member_or_null(v: JsonV, k: Seq<char>) -> JsonV {
    match member(v, k) {
        Some(x) => x,
        None => JsonV::Null,
    }
}

pub open spec fn text_or_empty(v: JsonV, k: Seq<char>) -> Seq<char> {
    match str_member(v, k) {
        Some(s) => s,
        None => Seq::empty(),
    }
}

/// The `data` rows of a frame, when it has an array of them.
pub open spec fn data_of(f: JsonV) -> Option<Seq<JsonV>> {
    match member(f, "data"@) {
        Some(JsonV::Arr(a)) => Some(a),
        _ => None,
    }
}

/// Cell `i` of an array row, when it is a string.
pub open spec fn cell_text(row: JsonV, i: int) -> Option<Seq<char>> {
    match row {
        JsonV::Arr(a) => if 0 <= i < a.len() {
            match a[i] {
                JsonV::Str(s) => Some(s),
                _ => None,
            }
        } else {
            None
        },
        _ => None,
    }
}

fn cell_get(row: &Json, i: usize) -> (r: Option<&str>)
    ensures
        match r {
            Some(s) => cell_text(jv(*row), i as int) == Some(s@),
            None => cell_text(jv(*row), i as int) is None,
        },
{
    match row {
        Json::Arr(a) => {
            proof {
                lemma_items_view(*a);
            }
            if i < a.len() {
                match &a[i] {
                    Json::Str(s) => Some(s.as_str()),
                    _ => None,
                }
            } else {
                None
            }
        },
        _ => None,
    }
}

/// The digit a cell index is written with.
pub open spec fn index_text(i: int) -> Seq<char> {
    seq![(('0' as int) + i) as char]
}

/// An `[ openTime, open, high, low, close, volume, … ]` row of string cells on channel `k`;
/// `closed` is read from cell 8 (`"1"` once final) when `flag`, and is false otherwise.
/// `venue` names the venue in a failure.
pub open spec fn array_row(k: Seq<char>, row: JsonV, venue: Seq<char>, flag: bool) -> Result<RowV, Seq<char>> {
    match cell_text(row, 0) {
        None => Err(venue + " candle open time"@),
        Some(t) => match i64_text_of(t) {
            None => Err(venue + " candle open time"@),
            Some(ms) => if !timestamp_ok_of(secs_of_ms(ms) as i64) {
                Err(timestamp_error())
            } else if cell_text(row, 1) is None {
                Err(venue + " candle field 1"@)
            } else if cell_text(row, 2) is None {
                Err(venue + " candle field 2"@)
            } else if cell_text(row, 3) is None {
                Err(venue + " candle field 3"@)
            } else if cell_text(row, 4) is None {
                Err(venue + " candle field 4"@)
            } else if cell_text(row, 5) is None {
                Err(venue + " candle field 5"@)
            } else {
                Ok(RowV {
                    channel: k,
                    bar_ts: secs_of_ms(ms),
                    quote: (cell_text(row, 1)->0, cell_text(row, 2)->0, cell_text(row, 3)->0, cell_text(row, 4)->0),
                    volume: cell_text(row, 5)->0,
                    closed: flag && cell_text(row, 8) == Some("1"@),
                })
            },
        },
    }
}

fn field_error(venue: &str, what: &str) -> (e: String)
    ensures
        e@ == venue@ + what@,
{
    let mut e = venue.to_string();
    e.append(what);
    e
}

fn read_array_row(k: &str, row: &Json, venue: &str, flag: bool) -> (r: Result<Row, String>)
    ensures
        match r {
            Ok(x) => array_row(k@, jv(*row), venue@, flag) == Ok::<RowV, Seq<char>>(crate::live::frame::row_view(x)),
            Err(m) => array_row(k@, jv(*row), venue@, flag) == Err::<RowV, Seq<char>>(m@),
        },
{
    let t = match cell_get(row, 0) {
        Some(t) => t,
        None => {
            return Err(field_error(venue, " candle open time"));
        },
    };
    let ms = match parse_i64_text(t) {
        Some(ms) => ms,
        None => {
            return Err(field_error(venue, " candle open time"));
        },
    };
    let ts = ms_to_secs(ms);
    if let Err(m) = unix_timestamp(ts) {
        return Err(m);
    }
    let o = match cell_get(row, 1) {
        Some(x) => x,
        None => {
            return Err(field_error(venue, " candle field 1"));
        },
    };
    let h = match cell_get(row, 2) {
        Some(x) => x,
        None => {
            return Err(field_error(venue, " candle field 2"));
        },
    };
    let l = match cell_get(row, 3) {
        Some(x) => x,
        None => {
            return Err(field_error(venue, " candle field 3"));
        },
    };
    let c = match cell_get(row, 4) {
        Some(x) => x,
        None => {
            return Err(field_error(venue, " candle field 4"));
        },
    };
    let v = match cell_get(row, 5) {
        Some(x) => x,
        None => {
            return Err(field_error(venue, " candle field 5"));
        },
    };
    let closed = flag && match cell_get(row, 8) {
        Some(x) => str_eq(x, "1"),
        None => false,
    };
    Ok(Row {
        channel: k.to_string(),
        bar_ts: ts,
        quote: Quote { open: o.to_string(), high: h.to_string(), low: l.to_string(), close: c.to_string() },
        volume: v.to_string(),
        closed,
    })
}

/// The rows of an array frame on one channel, each read or failed.
fn read_array_rows(k: &str, data: &Vec<Json>, venue: &str, flag: bool) -> (r: Vec<Result<Row, String>>)
    ensures
        r@.map_values(|x: Result<Row, String>| crate::live::frame::row_result_view(x))
            == items_view(data@).map_values(|row: JsonV| array_row(k@, row, venue@, flag)),
{
    let mut out: Vec<Result<Row, String>> = Vec::new();
    let mut i: usize = 0;
    while i < data.len()
        invariant
            i <= data@.len(),
            out@.map_values(|x: Result<Row, String>| crate::live::frame::row_result_view(x))
                == items_view(data@).take(i as int).map_values(|row: JsonV| array_row(k@, row, venue@, flag)),
        decreases data@.len() - i,
    {
        let x = read_array_row(k, &data[i], venue, flag);
        proof {
            assert(items_view(data@)[i as int] == jv(data@[i as int]));
            assert(crate::live::frame::row_result_view(x) == array_row(k@, jv(data@[i as int]), venue@, flag));
        }
        let ghost prev = out@;
        out.push(x);
        proof {
            let lhs = out@.map_values(|x: Result<Row, String>| crate::live::frame::row_result_view(x));
            let rhs = items_view(data@).take(i + 1).map_values(|row: JsonV| array_row(k@, row, venue@, flag));
            let old_l = prev.map_values(|x: Result<Row, String>| crate::live::frame::row_result_view(x));
            let old_r = items_view(data@).take(i as int).map_values(|row: JsonV| array_row(k@, row, venue@, flag));
            assert(out@ == prev.push(x));
            assert(items_view(data@).len() == data@.len());
            assert(old_r.len() == i);
            assert(old_l.len() == prev.len());
            assert(prev.len() == i);
            assert forall|j: int| 0 <= j < i + 1 implies lhs[j] == rhs[j] by {
                if j < i {
                    assert(out@[j] == prev[j]);
                    assert(lhs[j] == old_l[j]);
                    assert(rhs[j] == old_r[j]);
                }
            }
            assert(lhs =~= rhs);
        }
        i = i + 1;
    }
    assert(items_view(data@).take(data@.len() as int) =~= items_view(data@));
    out
}

/// What a frame's rows say, played against the newest open time per channel before it.
pub open spec fn rows_say(
    before: spec_fn(Seq<char>) -> Option<int>,
    rows: Seq<Result<RowV, Seq<char>>>,
    infer: bool,
    after: spec_fn(Seq<char>) -> Option<int>,
    r: Result<Vec<Update>, Failure>,
) -> bool {
    let res = run_rows(before, rows, infer);
    &&& forall|o: Seq<char>| #[trigger] after(o) == (res.1)(o)
    &&& match res.2 {
        Some(m) => r matches Err(e) && e.cause matches Cause::Plain(t) && t@ == m && e.context@.len() == 0,
        None => r matches Ok(u) && updates_view(u@) == res.0,
    }
}

/// A pane refusal as one update.
pub open spec fn refusal_update(r: Result<Vec<Update>, Failure>, k: Seq<char>, fault: LiveFault, m: Seq<char>) -> bool {
    r matches Ok(u) && u@.len() == 1 && (u@[0] matches Update::Fault { channel, failure } && channel@ == k
        && failure.is(fault, m))
}

fn as_updates(x: Result<(String, Failure), Failure>) -> (r: Result<Vec<Update>, Failure>)
    ensures
        match x {
            Ok((k, f)) => r matches Ok(u) && u@.len() == 1 && (u@[0] matches Update::Fault { channel, failure }
                && channel == k && failure == f),
            Err(e) => r == Err::<Vec<Update>, Failure>(e),
        },
{
    match x {
        Ok((k, f)) => {
            let mut u: Vec<Update> = Vec::new();
            u.push(Update::Fault { channel: k, failure: f });
            Ok(u)
        },
        Err(e) => Err(e),
    }
}

// ── Bitget ────────────────────────────────────────────────────────────────────

/// A Bitget socket: the newest candle open time per pane.
pub struct BitgetFeed {
    roll: Rollover,
}

impl BitgetFeed {
    pub closed spec fn latest(&self, k: Seq<char>) -> Option<int> {
        self.roll.latest(k)
    }

    pub fn new() -> (f: BitgetFeed)
        ensures
            forall|k: Seq<char>| #[trigger] f.latest(k) is None,
    {
        BitgetFeed { roll: Rollover::new() }
    }

    /// Read one frame (the plain-text `pong` keepalive is not JSON and never gets here).
    /// An `error` event stops the pane its `arg` names, or the session when it names none; a
    /// data frame's rows are candles on the pane `arg` names, each closing the one before it
    /// on that pane when newer; anything else says nothing.
    pub fn on_message(&mut self, frame: &Json) -> (r: Result<Vec<Update>, Failure>)
        ensures
            ({
                let f = jv(*frame);
                let arg = member_or_null(f, "arg"@);
                let ch = text_or_empty(arg, "channel"@);
                let inst = text_or_empty(arg, "instId"@);
                if str_member(f, "event"@) == Some("error"@) {
                    let m = refusal_text(str_member(f, "msg"@));
                    &&& forall|o: Seq<char>| #[trigger] final(self).latest(o) == old(self).latest(o)
                    &&& if ch.len() == 0 || inst.len() == 0 {
                        r matches Err(e) && e.is(LiveFault::Transport, "Bitget: "@ + m)
                    } else {
                        refusal_update(r, routing_key(ch, inst), LiveFault::Symbol,
                            "Bitget does not list "@ + inst + " on this market: "@ + m)
                    }
                } else if data_of(f) is None || ch.len() == 0 || inst.len() == 0 {
                    (forall|o: Seq<char>| #[trigger] final(self).latest(o) == old(self).latest(o))
                        && (r matches Ok(u) && u@.len() == 0)
                } else {
                    rows_say(
                        |o: Seq<char>| old(self).latest(o),
                        data_of(f)->0.map_values(|row: JsonV| array_row(routing_key(ch, inst), row, "bitget"@, false)),
                        true,
                        |o: Seq<char>| final(self).latest(o),
                        r,
                    )
                }
            }),
    {
        let null = Json::Null;
        let arg = match get(frame, "arg") {
            Some(a) => a,
            None => &null,
        };
        let ch = match str_get(arg, "channel") {
            Some(c) => c,
            None => "",
        };
        let inst = match str_get(arg, "instId") {
            Some(c) => c,
            None => "",
        };
        proof {
            reveal_strlit("");
            assert(""@ =~= Seq::<char>::empty());
        }
        let is_error = match str_get(frame, "event") {
            Some(e) => str_eq(e, "error"),
            None => false,
        };
        if is_error {
            return as_updates(bitget_refusal(ch, inst, str_get(frame, "msg")));
        }
        let data = match get(frame, "data") {
            Some(Json::Arr(a)) => a,
            _ => {
                return Ok(Vec::new());
            },
        };
        proof {
            lemma_items_view(*data);
        }
        if ch.is_empty() || inst.is_empty() {
            return Ok(Vec::new());
        }
        let k = key(ch, inst);
        let rows = read_array_rows(k.as_str(), data, "bitget", false);
        proof {
            reveal_strlit("bitget");
            assert(data_of(jv(*frame)) == Some(items_view(data@)));
        }
        let ghost before = |o: Seq<char>| self.roll.latest(o);
        let r = run(&mut self.roll, rows, true);
        proof {
            assert(before =~= (|o: Seq<char>| old(self).latest(o)));
        }
        r
    }
}

// ── OKX ───────────────────────────────────────────────────────────────────────

/// An OKX socket: the newest candle open time per pane.
pub struct OkxFeed {
    roll: Rollover,
}

impl OkxFeed {
    pub closed spec fn latest(&self, k: Seq<char>) -> Option<int> {
        self.roll.latest(k)
    }

    pub fn new() -> (f: OkxFeed)
        ensures
            forall|k: Seq<char>| #[trigger] f.latest(k) is None,
    {
        OkxFeed { roll: Rollover::new() }
    }

    /// Read one frame (the plain-text `pong` keepalive never gets here). An `error` event
    /// stops the pane its sentence names, or the session when it names none; a data frame's
    /// rows are candles on the pane `arg` names, final when their `confirm` cell is `"1"`;
    /// a row older than one already seen (a subscription replaying history) says nothing.
    pub fn on_message(&mut self, frame: &Json) -> (r: Result<Vec<Update>, Failure>)
        ensures
            ({
                let f = jv(*frame);
                let arg = member_or_null(f, "arg"@);
                let ch = text_or_empty(arg, "channel"@);
                let inst = text_or_empty(arg, "instId"@);
                if str_member(f, "event"@) == Some("error"@) {
                    let m = refusal_text(str_member(f, "msg"@));
                    &&& forall|o: Seq<char>| #[trigger] final(self).latest(o) == old(self).latest(o)
                    &&& match refused_channel_of(m) {
                        Some(k) => refusal_update(r, k, LiveFault::Symbol, "OKX refused this instrument: "@ + m),
                        None => r matches Err(e) && e.is(LiveFault::Transport, "OKX: "@ + m),
                    }
                } else if data_of(f) is None || ch.len() == 0 || inst.len() == 0 {
                    (forall|o: Seq<char>| #[trigger] final(self).latest(o) == old(self).latest(o))
                        && (r matches Ok(u) && u@.len() == 0)
                } else {
                    rows_say(
                        |o: Seq<char>| old(self).latest(o),
                        data_of(f)->0.map_values(|row: JsonV| array_row(routing_key(ch, inst), row, "okx"@, true)),
                        false,
                        |o: Seq<char>| final(self).latest(o),
                        r,
                    )
                }
            }),
    {
        let is_error = match str_get(frame, "event") {
            Some(e) => str_eq(e, "error"),
            None => false,
        };
        if is_error {
            return as_updates(okx_refusal(str_get(frame, "msg")));
        }
        let null = Json::Null;
        let arg = match get(frame, "arg") {
            Some(a) => a,
            None => &null,
        };
        let ch = match str_get(arg, "channel") {
            Some(c) => c,
            None => "",
        };
        let inst = match str_get(arg, "instId") {
            Some(c) => c,
            None => "",
        };
        proof {
            reveal_strlit("");
            assert(""@ =~= Seq::<char>::empty());
        }
        let data = match get(frame, "data") {
            Some(Json::Arr(a)) => a,
            _ => {
                return Ok(Vec::new());
            },
        };
        proof {
            lemma_items_view(*data);
        }
        if ch.is_empty() || inst.is_empty() {
            return Ok(Vec::new());
        }
        let k = key(ch, inst);
        let rows = read_array_rows(k.as_str(), data, "okx", true);
        proof {
            reveal_strlit("okx");
            assert(data_of(jv(*frame)) == Some(items_view(data@)));
        }
        let ghost before = |o: Seq<char>| self.roll.latest(o);
        let r = run(&mut self.roll, rows, false);
        proof {
            assert(before =~= (|o: Seq<char>| old(self).latest(o)));
        }
        r
    }
}

// ── Kraken ────────────────────────────────────────────────────────────────────

/// What `OffsetDateTime::parse(s, &Rfc3339)` reads, as seconds since the epoch.
pub uninterp spec fn rfc3339_secs_of(s: Seq<char>) -> Option<i64>;

/// `OffsetDateTime::parse` with `Rfc3339`, then `unix_timestamp`.
#[verifier::external_body]
pub(crate) fn rfc3339_secs(s: &str) -> (r: Option<i64>)
    ensures
        r == rfc3339_secs_of(s@),
{
    time::OffsetDateTime::parse(s, &time::format_description::well_known::Rfc3339).ok().map(|d| d.unix_timestamp())
}

/// One Kraken OHLC row: its pane is its upper-cased symbol; its open time is
/// `interval_begin`; its prices are the numbers `open` … `volume`.
pub open spec fn kraken_row(row: JsonV) -> Result<RowV, Seq<char>> {
    match str_member(row, "symbol"@) {
        None => Err("kraken ohlc symbol"@),
        Some(sym) => match str_member(row, "interval_begin"@) {
            None => Err("kraken ohlc interval_begin"@),
            Some(b) => match rfc3339_secs_of(b) {
                None => Err("kraken interval_begin parse"@),
                Some(ts) => if num_member(row, "open"@) is None {
                    Err("kraken ohlc field open"@)
                } else if num_member(row, "high"@) is None {
                    Err("kraken ohlc field high"@)
                } else if num_member(row, "low"@) is None {
                    Err("kraken ohlc field low"@)
                } else if num_member(row, "close"@) is None {
                    Err("kraken ohlc field close"@)
                } else if num_member(row, "volume"@) is None {
                    Err("kraken ohlc field volume"@)
                } else {
                    Ok(RowV {
                        channel: uppercase_of(sym),
                        bar_ts: ts as int,
                        quote: (
                            num_member(row, "open"@)->0,
                            num_member(row, "high"@)->0,
                            num_member(row, "low"@)->0,
                            num_member(row, "close"@)->0,
                        ),
                        volume: num_member(row, "volume"@)->0,
                        closed: false,
                    })
                },
            },
        },
    }
}

fn read_kraken_row(row: &Json) -> (r: Result<Row, String>)
    ensures
        match r {
            Ok(x) => kraken_row(jv(*row)) == Ok::<RowV, Seq<char>>(crate::live::frame::row_view(x)),
            Err(m) => kraken_row(jv(*row)) == Err::<RowV, Seq<char>>(m@),
        },
{
    let sym = match str_get(row, "symbol") {
        Some(s) => s,
        None => {
            return Err("kraken ohlc symbol".to_string());
        },
    };
    let b = match str_get(row, "interval_begin") {
        Some(s) => s,
        None => {
            return Err("kraken ohlc interval_begin".to_string());
        },
    };
    let ts = match rfc3339_secs(b) {
        Some(t) => t,
        None => {
            return Err("kraken interval_begin parse".to_string());
        },
    };
    let o = match num_get(row, "open") {
        Some(x) => x,
        None => {
            return Err("kraken ohlc field open".to_string());
        },
    };
    let h = match num_get(row, "high") {
        Some(x) => x,
        None => {
            return Err("kraken ohlc field high".to_string());
        },
    };
    let l = match num_get(row, "low") {
        Some(x) => x,
        None => {
            return Err("kraken ohlc field low".to_string());
        },
    };
    let c = match num_get(row, "close") {
        Some(x) => x,
        None => {
            return Err("kraken ohlc field close".to_string());
        },
    };
    let v = match num_get(row, "volume") {
        Some(x) => x,
        None => {
            return Err("kraken ohlc field volume".to_string());
        },
    };
    Ok(Row {
        channel: to_uppercase(sym),
        bar_ts: ts,
        quote: Quote { open: o, high: h, low: l, close: c },
        volume: v,
        closed: false,
    })
}

/// A Kraken socket: the newest candle open time per symbol.
pub struct KrakenFeed {
    roll: Rollover,
}

impl KrakenFeed {
    pub closed spec fn latest(&self, k: Seq<char>) -> Option<int> {
        self.roll.latest(k)
    }

    pub fn new() -> (f: KrakenFeed)
        ensures
            forall|k: Seq<char>| #[trigger] f.latest(k) is None,
    {
        KrakenFeed { roll: Rollover::new() }
    }

    /// A symbol leaves: its newest candle is forgotten.
    pub fn forget(&mut self, symbol: &str)
        ensures
            final(self).latest(uppercase_of(symbol@)) is None,
            forall|o: Seq<char>| o != uppercase_of(symbol@) ==> #[trigger] final(self).latest(o) == old(self).latest(o),
    {
        let k = to_uppercase(symbol);
        self.roll.forget(k.as_str());
    }

    /// Read one frame. Only OHLC data frames matter (acknowledgements, heartbeats and status
    /// frames say nothing); each row is a candle on its own symbol's pane, and a newer one
    /// closes the one before it on that symbol alone.
    pub fn on_message(&mut self, frame: &Json) -> (r: Result<Vec<Update>, Failure>)
        ensures
            ({
                let f = jv(*frame);
                if str_member(f, "channel"@) != Some("ohlc"@) || data_of(f) is None {
                    (forall|o: Seq<char>| #[trigger] final(self).latest(o) == old(self).latest(o))
                        && (r matches Ok(u) && u@.len() == 0)
                } else {
                    rows_say(
                        |o: Seq<char>| old(self).latest(o),
                        data_of(f)->0.map_values(|row: JsonV| kraken_row(row)),
                        true,
                        |o: Seq<char>| final(self).latest(o),
                        r,
                    )
                }
            }),
    {
        let is_ohlc = match str_get(frame, "channel") {
            Some(c) => str_eq(c, "ohlc"),
            None => false,
        };
        if !is_ohlc {
            return Ok(Vec::new());
        }
        let data = match get(frame, "data") {
            Some(Json::Arr(a)) => a,
            _ => {
                return Ok(Vec::new());
            },
        };
        proof {
            lemma_items_view(*data);
        }
        let mut rows: Vec<Result<Row, String>> = Vec::new();
        let mut i: usize = 0;
        while i < data.len()
            invariant
                i <= data@.len(),
                rows@.map_values(|x: Result<Row, String>| crate::live::frame::row_result_view(x))
                    == items_view(data@).take(i as int).map_values(|row: JsonV| kraken_row(row)),
            decreases data@.len() - i,
        {
            let x = read_kraken_row(&data[i]);
            proof {
                assert(items_view(data@)[i as int] == jv(data@[i as int]));
                assert(crate::live::frame::row_result_view(x) == kraken_row(jv(data@[i as int])));
            }
            let ghost prev = rows@;
            rows.push(x);
            proof {
                let lhs = rows@.map_values(|x: Result<Row, String>| crate::live::frame::row_result_view(x));
                let rhs = items_view(data@).take(i + 1).map_values(|row: JsonV| kraken_row(row));
                let old_l = prev.map_values(|x: Result<Row, String>| crate::live::frame::row_result_view(x));
                let old_r = items_view(data@).take(i as int).map_values(|row: JsonV| kraken_row(row));
                assert(rows@ == prev.push(x));
                assert(items_view(data@).len() == data@.len());
                assert(old_r.len() == i);
                assert(old_l.len() == prev.len());
                assert(prev.len() == i);
                assert forall|j: int| 0 <= j < i + 1 implies lhs[j] == rhs[j] by {
                    if j < i {
                        assert(rows@[j] == prev[j]);
                        assert(lhs[j] == old_l[j]);
                        assert(rhs[j] == old_r[j]);
                    }
                }
                assert(lhs =~= rhs);
            }
            i = i + 1;
        }
        assert(items_view(data@).take(data@.len() as int) =~= items_view(data@));
        proof {
            assert(data_of(jv(*frame)) == Some(items_view(data@)));
        }
        let ghost before = |o: Seq<char>| self.roll.latest(o);
        let r = run(&mut self.roll, rows, true);
        proof {
            assert(before =~= (|o: Seq<char>| old(self).latest(o)));
        }
        r
    }
}

} // verus!
