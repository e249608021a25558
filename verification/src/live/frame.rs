//! What a venue's socket frame hands the hub, read over the library's [`Json`]: candles as
//! the frame writes their prices (the prices stay text, and the arithmetic on them is done
//! where they are floats), closures, and refusals that belong to one pane.

use vstd::prelude::*;

use crate::json::{get, jv, Json, JsonV};
use crate::live::fault::{Cause, Failure};
use crate::live::rollover::{Roll, Rollover};
use crate::mcp::shape::{parse_u64, u64_of};
use crate::text::chars_of;

verus! {

/// Open, high, low and close of a candle (or of one side of it), each the JSON number's text.
#[derive(Debug)]
pub struct Quote {
    pub open: String,
    pub high: String,
    pub low: String,
    pub close: String,
}

impl Quote {
    pub fn dup(&self) -> (r: Quote)
        ensures
            r == *self,
    {
        Quote { open: self.open.clone(), high: self.high.clone(), low: self.low.clone(), close: self.close.clone() }
    }
}

/// One thing a frame tells the hub, tagged with the channel it belongs to.
#[derive(Debug)]
pub enum Update {
    /// A candle opened at `bar_ts` (seconds); `closed` when the venue says it is final.
    Bar { channel: String, bar_ts: i64, quote: Quote, volume: String, closed: bool },
    /// Both sides of a candle opened at `bar_ts`: the chart draws their mid.
    Sides { channel: String, bar_ts: i64, bid: Quote, ask: Quote },
    /// The candle opened at `bar_ts` is final: a newer one has started on the channel.
    Closed { channel: String, bar_ts: i64 },
    /// A refusal of this pane alone; the socket and its other panes carry on.
    Fault { channel: String, failure: Failure },
    /// One trade, for the hub to fold into bars: its price and size as published, and its
    /// time in seconds when the message gives one that reads (else the receiver stamps it).
    Trade { channel: String, price: String, size: String, ts: Option<i64> },
}

/// What a run of text reads as when it is an integer that fits an `i64`: digits, with a minus
/// sign in front for a negative one (`Value::as_i64` on the number).
pub open spec fn i64_of(s: Seq<char>) -> Option<i64> {
    if s.len() > 0 && s[0] == '-' {
        match u64_of(s.drop_first()) {
            Some(v) => if v <= 0x8000_0000_0000_0000u64 { Some((0 - v) as i64) } else { None },
            None => None,
        }
    } else {
        match u64_of(s) {
            Some(v) => if v <= i64::MAX { Some(v as i64) } else { None },
            None => None,
        }
    }
}

pub fn parse_i64(s: &str) -> (r: Option<i64>)
    ensures
        r == i64_of(s@),
{
    let v = chars_of(s);
    if v.len() > 0 && v[0] == '-' {
        assert(v@.skip(1) == s@.drop_first());
        match parse_u64(&v, 1) {
            Some(u) => if u <= 0x8000_0000_0000_0000u64 {
                if u == 0x8000_0000_0000_0000u64 {
                    Some(i64::MIN)
                } else {
                    Some(0 - (u as i64))
                }
            } else {
                None
            },
            None => None,
        }
    } else {
        assert(v@.skip(0) == s@);
        match parse_u64(&v, 0) {
            Some(u) => if u <= 0x7fff_ffff_ffff_ffffu64 { Some(u as i64) } else { None },
            None => None,
        }
    }
}

/// The integer member `k` of `v` (`Value::as_i64`).
pub open spec fn int_member(v: JsonV, k: Seq<char>) -> Option<i64> {
    match crate::json::member(v, k) {
        Some(JsonV::Num(t)) => i64_of(t),
        _ => None,
    }
}

pub fn int_get(v: &Json, k: &str) -> (r: Option<i64>)
    ensures
        r == int_member(jv(*v), k@),
{
    match get(v, k) {
        Some(Json::Num(t)) => parse_i64(t.as_str()),
        _ => None,
    }
}

/// The text of the number member `k` of `v`, when it is a number (`Value::as_f64` succeeds).
pub open spec fn num_member(v: JsonV, k: Seq<char>) -> Option<Seq<char>> {
    match crate::json::member(v, k) {
        Some(JsonV::Num(t)) => Some(t),
        _ => None,
    }
}

pub fn num_get(v: &Json, k: &str) -> (r: Option<String>)
    ensures
        match r {
            Some(t) => num_member(jv(*v), k@) == Some(t@),
            None => num_member(jv(*v), k@) is None,
        },
{
    match get(v, k) {
        Some(Json::Num(t)) => Some(t.clone()),
        _ => None,
    }
}

/// Seconds from milliseconds, rounding toward zero as `i64` division does.
pub open spec fn secs_of_ms(ms: i64) -> int {
    if ms >= 0 { ms / 1000 } else { -((-ms) / 1000) }
}

pub fn ms_to_secs(ms: i64) -> (s: i64)
    ensures
        s == secs_of_ms(ms),
{
    if ms >= 0 {
        ms / 1000
    } else {
        let m: i128 = 0 - (ms as i128);
        (0 - m / 1000) as i64
    }
}


// ── Rows of candles on a rollover venue ──────────────────────────────────────

/// One candle row of a frame, read: its routing key, open time (seconds), prices, volume, and
/// whether the venue marks it final.
pub struct Row {
    pub channel: String,
    pub bar_ts: i64,
    pub quote: Quote,
    pub volume: String,
    pub closed: bool,
}

/// What an update says, as values.
pub enum UpdateV {
    Bar { channel: Seq<char>, bar_ts: int, quote: (Seq<char>, Seq<char>, Seq<char>, Seq<char>), volume: Seq<char>, closed: bool },
    Closed { channel: Seq<char>, bar_ts: int },
    Other,
}

pub open spec fn quote_v(q: Quote) -> (Seq<char>, Seq<char>, Seq<char>, Seq<char>) {
    (q.open@, q.high@, q.low@, q.close@)
}

pub open spec fn update_view(u: Update) -> UpdateV {
    match u {
        Update::Bar { channel, bar_ts, quote, volume, closed } => UpdateV::Bar {
            channel: channel@,
            bar_ts: bar_ts as int,
            quote: quote_v(quote),
            volume: volume@,
            closed,
        },
        Update::Closed { channel, bar_ts } => UpdateV::Closed { channel: channel@, bar_ts: bar_ts as int },
        _ => UpdateV::Other,
    }
}

pub open spec fn updates_view(u: Seq<Update>) -> Seq<UpdateV> {
    u.map_values(|x: Update| update_view(x))
}

/// A row as values.
pub struct RowV {
    pub channel: Seq<char>,
    pub bar_ts: int,
    pub quote: (Seq<char>, Seq<char>, Seq<char>, Seq<char>),
    pub volume: Seq<char>,
    pub closed: bool,
}

pub open spec fn row_view(r: Row) -> RowV {
    RowV { channel: r.channel@, bar_ts: r.bar_ts as int, quote: quote_v(r.quote), volume: r.volume@, closed: r.closed }
}

pub open spec fn bar_of(r: RowV) -> UpdateV {
    UpdateV::Bar { channel: r.channel, bar_ts: r.bar_ts, quote: r.quote, volume: r.volume, closed: r.closed }
}

/// One row against the newest open time `p` seen on its channel. An older row (a snapshot
/// replaying history) says nothing. When `infer` (the venue sends no closed flag) a newer row
/// first closes the candle before it; either way the row is the channel's forming candle.
pub open spec fn row_step(p: Option<int>, r: RowV, infer: bool) -> Seq<UpdateV> {
    match p {
        Some(x) => if r.bar_ts < x {
            Seq::empty()
        } else if r.bar_ts > x && infer {
            seq![UpdateV::Closed { channel: r.channel, bar_ts: x }, bar_of(r)]
        } else {
            seq![bar_of(r)]
        },
        None => seq![bar_of(r)],
    }
}

/// The newest open time per channel after a row.
pub open spec fn after_row(lat: spec_fn(Seq<char>) -> Option<int>, r: RowV) -> spec_fn(Seq<char>) -> Option<int> {
    |o: Seq<char>| if o == r.channel {
        match lat(o) {
            Some(x) => if r.bar_ts < x { Some(x) } else { Some(r.bar_ts) },
            None => Some(r.bar_ts),
        }
    } else {
        lat(o)
    }
}

/// The rows of a frame, in order, until the first that does not read: what they say, the
/// newest open time per channel after them, and the first failure's words.
pub open spec fn run_rows(
    lat: spec_fn(Seq<char>) -> Option<int>,
    rows: Seq<Result<RowV, Seq<char>>>,
    infer: bool,
) -> (Seq<UpdateV>, spec_fn(Seq<char>) -> Option<int>, Option<Seq<char>>)
    decreases rows.len(),
{
    if rows.len() == 0 {
        (Seq::empty(), lat, None)
    } else {
        match rows[0] {
            Err(m) => (Seq::empty(), lat, Some(m)),
            Ok(r) => {
                let rest = run_rows(after_row(lat, r), rows.drop_first(), infer);
                (row_step(lat(r.channel), r, infer) + rest.0, rest.1, rest.2)
            },
        }
    }
}

pub open spec fn row_result_view(r: Result<Row, String>) -> Result<RowV, Seq<char>> {
    match r {
        Ok(x) => Ok(row_view(x)),
        Err(m) => Err(m@),
    }
}

/// Play the rows of one frame against the newest open time per channel. A row that failed
/// to read fails the frame with its words (rows before it have moved their channels on).
pub fn run(roll: &mut Rollover, rows: Vec<Result<Row, String>>, infer: bool) -> (r: Result<Vec<Update>, Failure>)
    ensures
        ({
            let res = run_rows(|o: Seq<char>| old(roll).latest(o), rows@.map_values(|x: Result<Row, String>| row_result_view(x)), infer);
            &&& forall|o: Seq<char>| #[trigger] final(roll).latest(o) == (res.1)(o)
            &&& match res.2 {
                Some(m) => r matches Err(e) && e.cause matches Cause::Plain(t) && t@ == m && e.context@.len() == 0,
                None => r matches Ok(u) && updates_view(u@) == res.0,
            }
        }),
{
    let ghost rv = rows@.map_values(|x: Result<Row, String>| row_result_view(x));
    let ghost lat0 = |o: Seq<char>| roll.latest(o);
    let ghost total = run_rows(lat0, rv, infer);
    proof {
        assert(lat0 =~= (|o: Seq<char>| old(roll).latest(o)));
    }
    let mut out: Vec<Update> = Vec::new();
    let mut rows = rows;
    let ghost n = rv.len();
    // Rows are taken from the front: reverse once, then pop.
    let mut rev: Vec<Result<Row, String>> = Vec::new();
    while rows.len() > 0
        invariant
            rev@.len() + rows@.len() == n,
            n == rv.len(),
            rows@.map_values(|x: Result<Row, String>| row_result_view(x)) == rv.take(rows@.len() as int),
            forall|j: int| 0 <= j < rev@.len() ==> row_result_view(#[trigger] rev@[j]) == rv[n - 1 - j],
        decreases rows@.len(),
    {
        let ghost before = rows@;
        let x = rows.pop().unwrap();
        proof {
            assert(rows@ == before.drop_last());
            assert(x == before.last());
            assert(before.map_values(|x: Result<Row, String>| row_result_view(x))[before.len() - 1] == row_result_view(x));
            assert(rv.take(before.len() as int)[before.len() - 1] == rv[before.len() - 1]);
            assert(row_result_view(x) == rv[rows@.len() as int]);
            assert(rows@.map_values(|x: Result<Row, String>| row_result_view(x)) =~= rv.take(rows@.len() as int)) by {
                assert forall|j: int| 0 <= j < rows@.len() implies rows@.map_values(|x: Result<Row, String>| row_result_view(x))[j] == rv.take(rows@.len() as int)[j] by {
                    assert(rows@[j] == before[j]);
                    assert(before.map_values(|x: Result<Row, String>| row_result_view(x))[j] == rv.take(before.len() as int)[j]);
                }
            }
        }
        rev.push(x);
    }
    proof {
        assert(rv.skip(0) =~= rv);
        assert(updates_view(out@) =~= Seq::<UpdateV>::empty());
        assert(Seq::<UpdateV>::empty() + total.0 =~= total.0);
    }
    let mut failed: Option<String> = None;
    while failed.is_none() && rev.len() > 0
        invariant
            rev@.len() <= n,
            n == rv.len(),
            forall|j: int| 0 <= j < rev@.len() ==> row_result_view(#[trigger] rev@[j]) == rv[n - 1 - j],
            failed is None ==> ({
                let rest = run_rows(|o: Seq<char>| roll.latest(o), rv.skip(n - rev@.len()), infer);
                &&& total.0 == updates_view(out@) + rest.0
                &&& total.2 == rest.2
                &&& forall|o: Seq<char>| #[trigger] (total.1)(o) == (rest.1)(o)
            }),
            failed matches Some(m) ==> total.2 == Some(m@) && forall|o: Seq<char>| #[trigger] (total.1)(o) == roll.latest(o),
        decreases rev@.len(),
    {
        let x = rev.pop().unwrap();
        let ghost at = n - rev@.len() - 1;
        let ghost lat = |o: Seq<char>| roll.latest(o);
        proof {
            assert(row_result_view(x) == rv[at]);
            assert(rv.skip(at)[0] == rv[at]);
            assert(rv.skip(at).drop_first() =~= rv.skip(at + 1));
        }
        match x {
            Err(m) => {
                proof {
                    let rest = run_rows(|o: Seq<char>| roll.latest(o), rv.skip(at), infer);
                    assert(rv.skip(at)[0] == Err::<RowV, Seq<char>>(m@));
                    assert(rest.2 == Some(m@));
                    assert forall|o: Seq<char>| #[trigger] (total.1)(o) == roll.latest(o) by {
                        assert((rest.1)(o) == roll.latest(o));
                    }
                }
                failed = Some(m);
            },
            Ok(row) => {
                let ghost rw = row_view(row);
                let ghost before = updates_view(out@);
                let ghost stepped = row_step(lat(rw.channel), rw, infer);
                proof {
                    roll.lemma_latest_fits(rw.channel);
                }
                let k = row.channel.clone();
                match roll.observe(k.as_str(), row.bar_ts) {
                    Roll::Stale => {
                        proof {
                            assert(updates_view(out@) =~= before + stepped);
                        }
                    },
                    Roll::Newer { closed } => {
                        if infer {
                            out.push(Update::Closed { channel: k, bar_ts: closed });
                        }
                        out.push(Update::Bar { channel: row.channel, bar_ts: row.bar_ts, quote: row.quote, volume: row.volume, closed: row.closed });
                        proof {
                            assert(updates_view(out@) =~= before + stepped);
                        }
                    },
                    _ => {
                        out.push(Update::Bar { channel: row.channel, bar_ts: row.bar_ts, quote: row.quote, volume: row.volume, closed: row.closed });
                        proof {
                            assert(updates_view(out@) =~= before + stepped);
                        }
                    },
                }
                proof {
                    let rest_now = run_rows(|o: Seq<char>| roll.latest(o), rv.skip(at + 1), infer);
                    let rest_then = run_rows(after_row(lat, rw), rv.skip(at + 1), infer);
                    assert((|o: Seq<char>| roll.latest(o)) =~= after_row(lat, rw));
                    assert(rest_now == rest_then);
                    assert(updates_view(out@) + rest_now.0 =~= before + (stepped + rest_now.0));
                }
            },
        }
    }
    if let Some(m) = failed {
        return Err(Failure::msg(m.as_str()));
    }
    proof {
        assert(rv.skip(n as int) =~= Seq::<Result<RowV, Seq<char>>>::empty());
        assert(updates_view(out@) + Seq::<UpdateV>::empty() =~= updates_view(out@));
    }
    Ok(out)
}
} // verus!
