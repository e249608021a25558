//! Capital.com live candles: the routing key, the resolution names, and what the socket's
//! acknowledgements and refusals mean.
//!
//! The socket authenticates on every frame and sends each candle once per side. A candle is
//! drawn only once both sides of it have arrived ([`SideBook`]), and a candle with a newer
//! open time closes the one before it ([`Rollover`]); [`CapitalFeed::on_message`] reads one
//! frame into what it means for the hub. The prices stay the frame's number texts: the mid
//! of the two sides is arithmetic on floats, taken where the candle is drawn.

use vstd::prelude::*;

use crate::live::fault::{fail2, Cause, Failure, LiveError, LiveFault};
use crate::json::{get, jv, lemma_members_view, member, members_view, str_get, str_member, Json, JsonV};
use crate::live::frame::{int_get, int_member, ms_to_secs, num_get, num_member, secs_of_ms, Quote, Update};
use crate::live::rollover::{Roll, Rollover};
use crate::mailbox::message::{timestamp_error, timestamp_ok_of, unix_timestamp};
use crate::live::instrument::{Instrument, SourceGrain};
use crate::text::{
    contains, dedup, dedup_strings, lex_le, sort_strings, sorted_lex, split_chars, split_on,
    opt_str, str_contains,
    str_eq, to_uppercase, uppercase_of, views,
};

verus! {

/// The Capital.com live connector.
pub struct CapitalComLive;

/// The routing key: the upper-cased epic, a bar, and the resolution.
pub open spec fn capital_key(epic: Seq<char>, resolution: Seq<char>) -> Seq<char> {
    uppercase_of(epic) + "|"@ + resolution
}

/// The key the hub routes on: the epic and the resolution.
pub fn key(epic: &str, resolution: &str) -> (k: String)
    ensures
        k@ == capital_key(epic@, resolution@),
        crate::text::all_ascii(epic@) ==> k@ == crate::text::ascii_upper(epic@) + "|"@ + resolution@,
{
    let mut k = to_uppercase(epic);
    k.append("|");
    k.append(resolution);
    k
}

/// Canonical timeframe → Capital.com candle resolution.
pub open spec fn resolution_of(tf: Seq<char>) -> Option<Seq<char>> {
    if tf == "1m"@ {
        Some("MINUTE"@)
    } else if tf == "5m"@ {
        Some("MINUTE_5"@)
    } else if tf == "15m"@ {
        Some("MINUTE_15"@)
    } else if tf == "30m"@ {
        Some("MINUTE_30"@)
    } else if tf == "1h"@ {
        Some("HOUR"@)
    } else if tf == "4h"@ {
        Some("HOUR_4"@)
    } else if tf == "1d"@ {
        Some("DAY"@)
    } else if tf == "1w"@ {
        Some("WEEK"@)
    } else {
        None
    }
}

/// Canonical timeframe → Capital.com resolution, as a live fault when it has none.
pub fn token(tf: &str) -> (r: Result<&'static str, Failure>)
    ensures
        match r {
            Ok(c) => resolution_of(tf@) == Some(c@),
            Err(f) => resolution_of(tf@) is None && f.is(
                LiveFault::Unsupported,
                "Capital.com has no live candle resolution for "@ + tf@,
            ),
        },
{
    if str_eq(tf, "1m") {
        Ok("MINUTE")
    } else if str_eq(tf, "5m") {
        Ok("MINUTE_5")
    } else if str_eq(tf, "15m") {
        Ok("MINUTE_15")
    } else if str_eq(tf, "30m") {
        Ok("MINUTE_30")
    } else if str_eq(tf, "1h") {
        Ok("HOUR")
    } else if str_eq(tf, "4h") {
        Ok("HOUR_4")
    } else if str_eq(tf, "1d") {
        Ok("DAY")
    } else if str_eq(tf, "1w") {
        Ok("WEEK")
    } else {
        Err(fail2(LiveFault::Unsupported, "Capital.com has no live candle resolution for ", tf))
    }
}

impl CapitalComLive {
    /// Capital.com streams the candle at the asked resolution.
    pub fn grain(&self, inst: &Instrument) -> (g: SourceGrain)
        ensures
            g == SourceGrain::Native,
    {
        SourceGrain::Native
    }

    pub fn channel_of(&self, inst: &Instrument) -> (r: Result<String, Failure>)
        ensures
            match r {
                Ok(c) => resolution_of(inst.timeframe@) is Some && c@ == capital_key(
                    inst.symbol@,
                    resolution_of(inst.timeframe@)->0,
                ),
                Err(f) => resolution_of(inst.timeframe@) is None && f.is(
                    LiveFault::Unsupported,
                    "Capital.com has no live candle resolution for "@ + inst.timeframe@,
                ),
            },
    {
        match token(inst.timeframe.as_str()) {
            Ok(r) => Ok(key(inst.symbol.as_str(), r)),
            Err(e) => Err(e),
        }
    }
}

// ── Subscribe frames ──────────────────────────────────────────────────────────

/// The resolutions the instruments ask for, each once, in the order first asked; the
/// instruments without a resolution are left out.
pub open spec fn resolutions_of(insts: Seq<Instrument>) -> Seq<Seq<char>>
    decreases insts.len(),
{
    if insts.len() == 0 {
        Seq::empty()
    } else {
        let r = resolutions_of(insts.drop_last());
        match resolution_of(insts.last().timeframe@) {
            Some(t) => if r.contains(t) { r } else { r.push(t) },
            None => r,
        }
    }
}

/// The upper-cased epics of the instruments at this resolution, in order, repeats kept.
pub open spec fn epics_at(insts: Seq<Instrument>, res: Seq<char>) -> Seq<Seq<char>>
    decreases insts.len(),
{
    if insts.len() == 0 {
        Seq::empty()
    } else {
        let e = epics_at(insts.drop_last(), res);
        if resolution_of(insts.last().timeframe@) == Some(res) {
            e.push(uppercase_of(insts.last().symbol@))
        } else {
            e
        }
    }
}

/// The upper-cased epics at `res`, in `tf`'s resolution order.
fn epics_for(instruments: &[Instrument], res: &str) -> (r: Vec<String>)
    ensures
        views(r@) == epics_at(instruments@, res@),
{
    let mut r: Vec<String> = Vec::new();
    let mut i: usize = 0;
    while i < instruments.len()
        invariant
            i <= instruments@.len(),
            views(r@) == epics_at(instruments@.take(i as int), res@),
        decreases instruments@.len() - i,
    {
        proof {
            assert(instruments@.take(i + 1).drop_last() == instruments@.take(i as int));
        }
        match token(instruments[i].timeframe.as_str()) {
            Ok(t) => {
                if str_eq(t, res) {
                    let ghost before = views(r@);
                    r.push(to_uppercase(instruments[i].symbol.as_str()));
                    proof {
                        assert(views(r@) == before.push(uppercase_of(instruments@[i as int].symbol@)));
                    }
                }
            },
            Err(_) => {},
        }
        i = i + 1;
    }
    proof {
        assert(instruments@.take(instruments@.len() as int) == instruments@);
    }
    r
}

/// One subscribe (or unsubscribe) frame's payload: a resolution and the epics on it.
pub struct FramePlan {
    pub resolution: String,
    pub epics: Vec<String>,
}

/// One frame per resolution, each carrying every epic asked at it once, in ascending order:
/// the payload pairs a list of epics with a list of resolutions, and every pairing is
/// subscribed.
pub fn frame_plans(instruments: &[Instrument]) -> (r: Vec<FramePlan>)
    ensures
        r@.len() == resolutions_of(instruments@).len(),
        forall|k: int| 0 <= k < r@.len() ==> {
            let res = resolutions_of(instruments@)[k];
            &&& (#[trigger] r@[k]).resolution@ == res
            &&& views(r@[k].epics@).to_set() == epics_at(instruments@, res).to_set()
            &&& sorted_lex(views(r@[k].epics@))
            &&& crate::text::no_dups(views(r@[k].epics@))
        },
{
    let mut seen: Vec<String> = Vec::new();
    let mut i: usize = 0;
    while i < instruments.len()
        invariant
            i <= instruments@.len(),
            views(seen@) == resolutions_of(instruments@.take(i as int)),
        decreases instruments@.len() - i,
    {
        proof {
            assert(instruments@.take(i + 1).drop_last() == instruments@.take(i as int));
        }
        match token(instruments[i].timeframe.as_str()) {
            Ok(t) => {
                if !crate::text::contains_string(&seen, t) {
                    let ghost before = views(seen@);
                    seen.push(t.to_string());
                    proof {
                        assert(views(seen@) == before.push(t@));
                    }
                }
            },
            Err(_) => {},
        }
        i = i + 1;
    }
    proof {
        assert(instruments@.take(instruments@.len() as int) == instruments@);
    }
    let mut out: Vec<FramePlan> = Vec::new();
    let mut k: usize = 0;
    while k < seen.len()
        invariant
            k <= seen@.len(),
            views(seen@) == resolutions_of(instruments@),
            out@.len() == k,
            forall|j: int| 0 <= j < k ==> {
                let res = resolutions_of(instruments@)[j];
                &&& (#[trigger] out@[j]).resolution@ == res
                &&& views(out@[j].epics@).to_set() == epics_at(instruments@, res).to_set()
                &&& sorted_lex(views(out@[j].epics@))
                &&& crate::text::no_dups(views(out@[j].epics@))
            },
        decreases seen@.len() - k,
    {
        let res = seen[k].as_str();
        let mut epics = epics_for(instruments, res);
        let ghost asked = views(epics@);
        sort_strings(&mut epics);
        let ghost sorted = views(epics@);
        let unique = dedup_strings(&epics);
        proof {
            assert(views(seen@)[k as int] == seen@[k as int]@);
            crate::text::lemma_dedup(sorted);
            lemma_same_multiset_same_set(sorted, asked);
            lemma_dedup_keeps_order(sorted);
        }
        out.push(FramePlan { resolution: seen[k].clone(), epics: unique });
        k = k + 1;
    }
    out
}

/// Two sequences holding the same elements as often hold the same elements.
proof fn lemma_same_multiset_same_set(a: Seq<Seq<char>>, b: Seq<Seq<char>>)
    requires
        a.to_multiset() == b.to_multiset(),
    ensures
        a.to_set() == b.to_set(),
{
    assert forall|x: Seq<char>| a.to_set().contains(x) <==> b.to_set().contains(x) by {
        vstd::seq_lib::to_multiset_contains(a, x);
        vstd::seq_lib::to_multiset_contains(b, x);
    }
    assert(a.to_set() =~= b.to_set());
}

/// Dropping repeats from a sorted sequence leaves it sorted.
proof fn lemma_dedup_keeps_order(s: Seq<Seq<char>>)
    requires
        sorted_lex(s),
    ensures
        sorted_lex(dedup(s)),
    decreases s.len(),
{
    if s.len() > 0 {
        let p = s.drop_last();
        lemma_dedup_keeps_order(p);
        crate::text::lemma_dedup(p);
        let d = dedup(p);
        if !d.contains(s.last()) {
            assert forall|i: int, j: int| 0 <= i < j < d.push(s.last()).len() implies lex_le(
                d.push(s.last())[i],
                d.push(s.last())[j],
            ) by {
                if j == d.len() {
                    assert(d.contains(d[i]));
                    assert(p.contains(d[i]));
                    let k = choose|k: int| 0 <= k < p.len() && p[k] == d[i];
                    assert(s[k] == d[i]);
                    assert(s[s.len() - 1] == s.last());
                }
            }
        }
    }
}

// ── What the socket answers ───────────────────────────────────────────────────

/// An acknowledged subscription `EPIC:RESOLUTION:type` in a state other than `PROCESSED`:
/// the pane's key and the sentence, or nothing when it took or the name has no resolution.
pub open spec fn refusal_of(name: Seq<char>, state: Option<Seq<char>>) -> Option<(Seq<char>, Seq<char>)> {
    let parts = split_on(name, ':');
    if state == Some("PROCESSED"@) || parts.len() < 2 {
        None
    } else {
        let said = match state {
            Some(s) => s,
            None => "not processed"@,
        };
        Some((
            capital_key(parts[0], parts[1]),
            "Capital.com refused "@ + parts[0] + " at "@ + parts[1] + ": "@ + said,
        ))
    }
}

/// One entry of a subscribe acknowledgement: a refusal belongs to that pane alone, as a
/// `Symbol` fault, not to the socket.
pub fn ack_refusal(name: &str, state: Option<&str>) -> (r: Option<(String, Failure)>)
    ensures
        match r {
            Some((k, f)) => refusal_of(name@, opt_str(state)) == Some((k@, f.message_spec()))
                && f.is(LiveFault::Symbol, f.message_spec()),
            None => refusal_of(name@, opt_str(state)) is None,
        },
{
    let processed = match state {
        Some(s) => str_eq(s, "PROCESSED"),
        None => false,
    };
    let parts = split_chars(name, ':');
    proof {
        reveal_strlit("PROCESSED");
        assert(views(parts@)[0] == parts@[0]@);
        if parts@.len() >= 2 {
            assert(views(parts@)[1] == parts@[1]@);
        }
    }
    if processed || parts.len() < 2 {
        return None;
    }
    let epic = parts[0].as_str();
    let res = parts[1].as_str();
    let mut m = "Capital.com refused ".to_string();
    m.append(epic);
    m.append(" at ");
    m.append(res);
    m.append(": ");
    match state {
        Some(s) => m.append(s),
        None => m.append("not processed"),
    }
    Some((key(epic, res), Failure { cause: Cause::Live(LiveError { fault: LiveFault::Symbol, message: m }), context: Vec::new() }))
}

/// Whether a frame is a refusal of the socket itself: a status other than `OK` on anything
/// but a candle.
pub fn is_socket_refusal(status: Option<&str>, destination: &str) -> (b: bool)
    ensures
        b == (status matches Some(s) && s@ != "OK"@ && destination@ != "ohlc.event"@),
{
    match status {
        Some(s) => !str_eq(s, "OK") && !str_eq(destination, "ohlc.event"),
        None => false,
    }
}

/// The failure a socket refusal stands for. A rejected token is terminal: retrying it burns
/// the sign-in allowance.
pub open spec fn socket_refusal_spec(error_code: Option<Seq<char>>) -> (LiveFault, Seq<char>) {
    let msg = match error_code {
        Some(c) => c,
        None => "refused"@,
    };
    (
        if contains(msg, "token"@) || contains(msg, "unauthor"@) {
            LiveFault::Auth
        } else {
            LiveFault::Transport
        },
        "Capital.com: "@ + msg,
    )
}

pub fn socket_refusal(error_code: Option<&str>) -> (f: Failure)
    ensures
        f.is(
            socket_refusal_spec(opt_str(error_code)).0,
            socket_refusal_spec(opt_str(error_code)).1,
        ),
{
    let msg = match error_code {
        Some(c) => c,
        None => "refused",
    };
    let fault = if str_contains(msg, "token") || str_contains(msg, "unauthor") {
        LiveFault::Auth
    } else {
        LiveFault::Transport
    };
    fail2(fault, "Capital.com: ", msg)
}


// ── The two sides of a candle ─────────────────────────────────────────────────

/// The sides collected so far, per routing key and candle open time (milliseconds): the bid
/// and the ask, each as the caller's price tuple.
pub struct SideBook<S> {
    entries: Vec<(String, i64, Option<S>, Option<S>)>,
}

pub open spec fn side_view<S>(e: Seq<(String, i64, Option<S>, Option<S>)>) -> Seq<(Seq<char>, i64, Option<S>, Option<S>)> {
    Seq::new(e.len(), |i: int| (e[i].0@, e[i].1, e[i].2, e[i].3))
}

/// Where the sides of candle `(k, at)` are kept, or -1.
pub open spec fn side_index<S>(e: Seq<(Seq<char>, i64, Option<S>, Option<S>)>, k: Seq<char>, at: i64) -> int
    decreases e.len(),
{
    if e.len() == 0 {
        -1
    } else if e.last().0 == k && e.last().1 == at {
        e.len() - 1
    } else {
        side_index(e.drop_last(), k, at)
    }
}

/// The book after recording one side of candle `(k, at)`.
pub open spec fn recorded<S>(e: Seq<(Seq<char>, i64, Option<S>, Option<S>)>, k: Seq<char>, at: i64, is_ask: bool, side: S) -> Seq<(Seq<char>, i64, Option<S>, Option<S>)> {
    let i = side_index(e, k, at);
    if i >= 0 {
        let x = e[i];
        e.update(i, if is_ask { (x.0, x.1, x.2, Some(side)) } else { (x.0, x.1, Some(side), x.3) })
    } else {
        e.push(if is_ask { (k, at, None, Some(side)) } else { (k, at, Some(side), None) })
    }
}

/// Both sides of candle `(k, at)`, when both have arrived.
pub open spec fn both_sides<S>(e: Seq<(Seq<char>, i64, Option<S>, Option<S>)>, k: Seq<char>, at: i64) -> Option<(S, S)> {
    let i = side_index(e, k, at);
    if i >= 0 {
        match (e[i].2, e[i].3) {
            (Some(b), Some(a)) => Some((b, a)),
            _ => None,
        }
    } else {
        None
    }
}

proof fn lemma_side_index<S>(e: Seq<(Seq<char>, i64, Option<S>, Option<S>)>, k: Seq<char>, at: i64)
    ensures
        -1 <= side_index(e, k, at) < e.len(),
        side_index(e, k, at) >= 0 ==> e[side_index(e, k, at)].0 == k && e[side_index(e, k, at)].1 == at,
        forall|j: int| side_index(e, k, at) < j < e.len() ==> !(e[j].0 == k && e[j].1 == at),
    decreases e.len(),
{
    if e.len() > 0 && !(e.last().0 == k && e.last().1 == at) {
        lemma_side_index(e.drop_last(), k, at);
        assert forall|j: int| side_index(e, k, at) < j < e.len() implies !(e[j].0 == k && e[j].1 == at) by {
            if j < e.len() - 1 {
                assert(e.drop_last()[j] == e[j]);
            }
        }
    }
}

/// The candles whose sides are still to be collected once `k` has moved to `from`.
pub open spec fn pruned<S>(e: Seq<(Seq<char>, i64, Option<S>, Option<S>)>, k: Seq<char>, from: i64) -> Seq<(Seq<char>, i64, Option<S>, Option<S>)>
    decreases e.len(),
{
    if e.len() == 0 {
        e
    } else if e.last().0 != k || e.last().1 >= from {
        pruned(e.drop_last(), k, from).push(e.last())
    } else {
        pruned(e.drop_last(), k, from)
    }
}

/// The candles of every key but `k`.
pub open spec fn without_key<S>(e: Seq<(Seq<char>, i64, Option<S>, Option<S>)>, k: Seq<char>) -> Seq<(Seq<char>, i64, Option<S>, Option<S>)>
    decreases e.len(),
{
    if e.len() == 0 {
        e
    } else if e.last().0 != k {
        without_key(e.drop_last(), k).push(e.last())
    } else {
        without_key(e.drop_last(), k)
    }
}

fn dup_side(q: &Option<Quote>) -> (r: Option<Quote>)
    ensures
        r == *q,
{
    match q {
        Some(x) => Some(x.dup()),
        None => None,
    }
}

impl SideBook<Quote> {
    pub closed spec fn view_of(&self) -> Seq<(Seq<char>, i64, Option<Quote>, Option<Quote>)> {
        side_view(self.entries@)
    }

    pub fn new() -> (b: SideBook<Quote>)
        ensures
            b.view_of().len() == 0,
    {
        SideBook { entries: Vec::new() }
    }

    /// Candles with sides still held.
    pub fn len(&self) -> (n: usize)
        ensures
            n == self.view_of().len(),
    {
        self.entries.len()
    }

    /// Record one side of candle `(k, at)`: the ask when `is_ask`, the bid otherwise (the side
    /// the platform streams by default). Both sides come back once both have arrived: the
    /// chart shows the mid, so a candle waits for the pair rather than being drawn half a
    /// spread away from the history it continues.
    pub fn record(&mut self, k: &str, at: i64, is_ask: bool, side: Quote) -> (r: Option<(Quote, Quote)>)
        ensures
            final(self).view_of() == recorded(old(self).view_of(), k@, at, is_ask, side),
            r == both_sides(final(self).view_of(), k@, at),
    {
        let ghost e = self.view_of();
        proof {
            lemma_side_index(e, k@, at);
        }
        let mut j: usize = self.entries.len();
        while j > 0 && !(self.entries[j - 1].1 == at && str_eq(self.entries[j - 1].0.as_str(), k))
            invariant
                j <= self.entries@.len(),
                e == side_view(self.entries@),
                side_index(e, k@, at) < j,
                forall|m: int| j <= m < e.len() ==> !(e[m].0 == k@ && e[m].1 == at),
            decreases j,
        {
            proof {
                lemma_side_index(e, k@, at);
                assert(e[j - 1] == (self.entries@[j - 1].0@, self.entries@[j - 1].1, self.entries@[j - 1].2, self.entries@[j - 1].3));
            }
            j = j - 1;
        }
        if j > 0 {
            proof {
                assert(e[j - 1] == (self.entries@[j - 1].0@, self.entries@[j - 1].1, self.entries@[j - 1].2, self.entries@[j - 1].3));
                assert(side_index(e, k@, at) == j - 1) by {
                    lemma_side_index(e, k@, at);
                }
            }
            let (key, t, bid, ask) = self.entries.remove(j - 1);
            let entry = if is_ask { (key, t, bid, Some(side)) } else { (key, t, Some(side), ask) };
            self.entries.insert(j - 1, entry);
            proof {
                assert(side_view(self.entries@) =~= recorded(e, k@, at, is_ask, side));
                lemma_side_index(side_view(self.entries@), k@, at);
                assert(side_index(side_view(self.entries@), k@, at) == j - 1) by {
                    let f = side_view(self.entries@);
                    lemma_side_index(f, k@, at);
                    lemma_side_index(e, k@, at);
                    assert(f[j - 1].0 == k@ && f[j - 1].1 == at);
                    if side_index(f, k@, at) > j - 1 {
                        assert(f[side_index(f, k@, at)] == e[side_index(f, k@, at)]);
                    }
                }
            }
            let (_, _, b, a) = &self.entries[j - 1];
            match (b, a) {
                (Some(b), Some(a)) => Some((b.dup(), a.dup())),
                _ => None,
            }
        } else {
            proof {
                assert(side_index(e, k@, at) < 0);
            }
            let entry = if is_ask { (k.to_string(), at, None, Some(side)) } else { (k.to_string(), at, Some(side), None) };
            self.entries.push(entry);
            proof {
                assert(side_view(self.entries@) =~= recorded(e, k@, at, is_ask, side));
                let f = side_view(self.entries@);
                assert(f.drop_last() =~= e);
                assert(side_index(f, k@, at) == e.len());
            }
            None
        }
    }

    /// Drop the sides of every candle on `k` that opened before `from`: the bar that just
    /// ended has no more sides to collect, and neither has anything older.
    pub fn prune(&mut self, k: &str, from: i64)
        ensures
            final(self).view_of() == pruned(old(self).view_of(), k@, from),
    {
        let ghost e = self.view_of();
        let mut kept: Vec<(String, i64, Option<Quote>, Option<Quote>)> = Vec::new();
        let mut i: usize = 0;
        while i < self.entries.len()
            invariant
                i <= self.entries@.len(),
                e == side_view(self.entries@),
                side_view(kept@) == pruned(e.take(i as int), k@, from),
            decreases self.entries@.len() - i,
        {
            proof {
                assert(e.take(i + 1).drop_last() == e.take(i as int));
                assert(e.take(i + 1).last() == e[i as int]);
            }
            let (key, t, b, a) = &self.entries[i];
            proof {
                assert(e[i as int] == (key@, *t, *b, *a));
            }
            if *t >= from || !str_eq(key.as_str(), k) {
                let ghost before = side_view(kept@);
                kept.push((key.clone(), *t, dup_side(b), dup_side(a)));
                proof {
                    assert(side_view(kept@) =~= before.push(e[i as int]));
                }
            }
            i = i + 1;
        }
        proof {
            assert(e.take(e.len() as int) == e);
        }
        self.entries = kept;
    }

    /// Drop every side held for `k`: its pane has gone.
    pub fn forget(&mut self, k: &str)
        ensures
            final(self).view_of() == without_key(old(self).view_of(), k@),
    {
        let ghost e = self.view_of();
        let mut kept: Vec<(String, i64, Option<Quote>, Option<Quote>)> = Vec::new();
        let mut i: usize = 0;
        while i < self.entries.len()
            invariant
                i <= self.entries@.len(),
                e == side_view(self.entries@),
                side_view(kept@) == without_key(e.take(i as int), k@),
            decreases self.entries@.len() - i,
        {
            proof {
                assert(e.take(i + 1).drop_last() == e.take(i as int));
                assert(e.take(i + 1).last() == e[i as int]);
            }
            let (key, t, b, a) = &self.entries[i];
            proof {
                assert(e[i as int] == (key@, *t, *b, *a));
            }
            if !str_eq(key.as_str(), k) {
                let ghost before = side_view(kept@);
                kept.push((key.clone(), *t, dup_side(b), dup_side(a)));
                proof {
                    assert(side_view(kept@) =~= before.push(e[i as int]));
                }
            }
            i = i + 1;
        }
        proof {
            assert(e.take(e.len() as int) == e);
        }
        self.entries = kept;
    }
}


// ── Reading a frame ───────────────────────────────────────────────────────────

/// A frame's `destination`, empty when it names none.
pub open spec fn dest_of(f: JsonV) -> Seq<char> {
    match str_member(f, "destination"@) {
        Some(d) => d,
        None => Seq::empty(),
    }
}

/// A frame's `payload`, `null` when it carries none.
pub open spec fn payload_of(f: JsonV) -> JsonV {
    match member(f, "payload"@) {
        Some(p) => p,
        None => JsonV::Null,
    }
}

pub open spec fn text_or_empty(v: JsonV, k: Seq<char>) -> Seq<char> {
    match str_member(v, k) {
        Some(s) => s,
        None => Seq::empty(),
    }
}

/// The entries of a subscribe acknowledgement: subscription name and state.
pub open spec fn subs_of(p: JsonV) -> Seq<(Seq<char>, JsonV)> {
    match member(p, "subscriptions"@) {
        Some(JsonV::Obj(m)) => m,
        _ => Seq::empty(),
    }
}

pub open spec fn text_value(v: JsonV) -> Option<Seq<char>> {
    match v {
        JsonV::Str(s) => Some(s),
        _ => None,
    }
}

/// The panes an acknowledgement refuses, in order: routing key and sentence.
pub open spec fn ack_faults(m: Seq<(Seq<char>, JsonV)>) -> Seq<(Seq<char>, Seq<char>)>
    decreases m.len(),
{
    if m.len() == 0 {
        Seq::empty()
    } else {
        let r = ack_faults(m.drop_last());
        match refusal_of(m.last().0, text_value(m.last().1)) {
            Some(x) => r.push(x),
            None => r,
        }
    }
}

/// `u` is exactly these pane refusals, each a `Symbol` fault.
pub open spec fn faults_are(u: Seq<Update>, f: Seq<(Seq<char>, Seq<char>)>) -> bool {
    u.len() == f.len() && forall|i: int| 0 <= i < u.len() ==> (#[trigger] u[i] matches Update::Fault { channel, failure }
        && channel@ == f[i].0 && failure.is(LiveFault::Symbol, f[i].1))
}

/// Whether the frame is the socket's own refusal: a status other than `OK` on anything but
/// a candle.
pub open spec fn refused_frame(f: JsonV) -> bool {
    str_member(f, "status"@) matches Some(s) && s != "OK"@ && dest_of(f) != "ohlc.event"@
}

/// The first of a candle's prices the payload does not give as a number.
pub open spec fn missing_price(p: JsonV) -> Option<Seq<char>> {
    if num_member(p, "o"@) is None {
        Some("o"@)
    } else if num_member(p, "h"@) is None {
        Some("h"@)
    } else if num_member(p, "l"@) is None {
        Some("l"@)
    } else if num_member(p, "c"@) is None {
        Some("c"@)
    } else {
        None
    }
}

pub open spec fn quote_view(q: Quote) -> (Seq<char>, Seq<char>, Seq<char>, Seq<char>) {
    (q.open@, q.high@, q.low@, q.close@)
}

/// The prices of a candle side, when all four are numbers.
pub open spec fn prices_of(p: JsonV) -> (Seq<char>, Seq<char>, Seq<char>, Seq<char>) {
    (num_member(p, "o"@)->0, num_member(p, "h"@)->0, num_member(p, "l"@)->0, num_member(p, "c"@)->0)
}

/// Whether the side is the ask (`ask` or `offer`); anything else is the bid, the side the
/// platform streams by default.
pub open spec fn is_ask_side(p: JsonV) -> bool {
    str_member(p, "priceType"@) == Some("ask"@) || str_member(p, "priceType"@) == Some("offer"@)
}

pub open spec fn plain_error(e: Failure, text: Seq<char>) -> bool {
    e.cause matches Cause::Plain(t) && t@ == text && e.context@.len() == 0
}

/// A Capital.com socket: the sides collected per candle, and the newest candle per pane.
pub struct CapitalFeed {
    sides: SideBook<Quote>,
    roll: Rollover,
}

impl CapitalFeed {
    pub closed spec fn held(&self) -> Seq<(Seq<char>, i64, Option<Quote>, Option<Quote>)> {
        self.sides.view_of()
    }

    pub closed spec fn latest(&self, k: Seq<char>) -> Option<int> {
        self.roll.latest(k)
    }

    pub open spec fn same(&self, other: &CapitalFeed) -> bool {
        self.held() == other.held() && forall|k: Seq<char>| #[trigger] self.latest(k) == other.latest(k)
    }

    pub fn new() -> (f: CapitalFeed)
        ensures
            f.held().len() == 0,
            forall|k: Seq<char>| #[trigger] f.latest(k) is None,
    {
        CapitalFeed { sides: SideBook::new(), roll: Rollover::new() }
    }

    /// Candles whose sides are still held.
    pub fn held_count(&self) -> (n: usize)
        ensures
            n == self.held().len(),
    {
        self.sides.len()
    }

    /// A pane leaves: its sides and its newest candle are forgotten.
    pub fn forget(&mut self, k: &str)
        ensures
            final(self).held() == without_key(old(self).held(), k@),
            final(self).latest(k@) is None,
            forall|o: Seq<char>| o != k@ ==> #[trigger] final(self).latest(o) == old(self).latest(o),
    {
        self.sides.forget(k);
        self.roll.forget(k);
    }

    /// Read one frame.
    ///
    /// A subscribe acknowledgement refuses panes one by one (a `Symbol` fault each); a
    /// non-`OK` status on anything else refuses the socket; a candle side (`ohlc.event`) is
    /// recorded, and once both sides of its candle are in, the pair is drawn — after a
    /// closure of the pane's previous candle when this one is newer, and not at all when it
    /// is older than one already drawn. Every other frame says nothing.
    pub fn on_message(&mut self, frame: &Json) -> (r: Result<Vec<Update>, Failure>)
        ensures
            ({
                let f = jv(*frame);
                let d = dest_of(f);
                let p = payload_of(f);
                let k = capital_key(text_or_empty(p, "epic"@), text_or_empty(p, "resolution"@));
                if d == "OHLCMarketData.subscribe"@ {
                    final(self).same(old(self)) && (r matches Ok(u) && faults_are(u@, ack_faults(subs_of(p))))
                } else if refused_frame(f) {
                    final(self).same(old(self)) && (r matches Err(e) && e.is(
                        socket_refusal_spec(str_member(p, "errorCode"@)).0,
                        socket_refusal_spec(str_member(p, "errorCode"@)).1,
                    ))
                } else if d != "ohlc.event"@ || text_or_empty(p, "epic"@).len() == 0
                    || text_or_empty(p, "resolution"@).len() == 0 {
                    final(self).same(old(self)) && (r matches Ok(u) && u@.len() == 0)
                } else if int_member(p, "t"@) is None {
                    final(self).same(old(self)) && (r matches Err(e) && plain_error(e, "capital.com ohlc t"@))
                } else if missing_price(p) is Some {
                    final(self).same(old(self)) && (r matches Err(e)
                        && plain_error(e, "capital.com ohlc field "@ + missing_price(p)->0))
                } else {
                    let t = int_member(p, "t"@)->0;
                    let ts = secs_of_ms(t);
                    exists|q: Quote| #![trigger quote_view(q)] quote_view(q) == prices_of(p) && {
                        let s1 = recorded(old(self).held(), k, t, is_ask_side(p), q);
                        match both_sides(s1, k, t) {
                            None => final(self).held() == s1
                                && (forall|o: Seq<char>| #[trigger] final(self).latest(o) == old(self).latest(o))
                                && (r matches Ok(u) && u@.len() == 0),
                            Some((bid, ask)) => if !timestamp_ok_of(ts as i64) {
                                final(self).held() == s1
                                    && (forall|o: Seq<char>| #[trigger] final(self).latest(o) == old(self).latest(o))
                                    && (r matches Err(e) && plain_error(e, timestamp_error()))
                            } else {
                                let pl = old(self).latest(k);
                                &&& forall|o: Seq<char>| o != k ==> #[trigger] final(self).latest(o) == old(self).latest(o)
                                &&& if pl matches Some(x) && ts < x {
                                    final(self).held() == s1 && final(self).latest(k) == pl
                                        && (r matches Ok(u) && u@.len() == 0)
                                } else if pl matches Some(x) && ts > x {
                                    final(self).held() == pruned(s1, k, t) && final(self).latest(k) == Some(ts)
                                        && (r matches Ok(u) && u@.len() == 2
                                        && (u@[0] matches Update::Closed { channel, bar_ts } && channel@ == k && bar_ts == pl->0)
                                        && (u@[1] matches Update::Sides { channel, bar_ts, bid: b, ask: a }
                                            && channel@ == k && bar_ts == ts && b == bid && a == ask))
                                } else {
                                    final(self).held() == s1 && final(self).latest(k) == Some(ts)
                                        && (r matches Ok(u) && u@.len() == 1
                                        && (u@[0] matches Update::Sides { channel, bar_ts, bid: b, ask: a }
                                            && channel@ == k && bar_ts == ts && b == bid && a == ask))
                                }
                            },
                        }
                    }
                }
            }),
    {
        let dest = match str_get(frame, "destination") {
            Some(d) => d,
            None => "",
        };
        proof {
            reveal_strlit("");
            assert(""@ =~= Seq::<char>::empty());
        }
        let null = Json::Null;
        let payload = match get(frame, "payload") {
            Some(p) => p,
            None => &null,
        };
        assert(dest@ == dest_of(jv(*frame)));
        assert(jv(*payload) == payload_of(jv(*frame)));
        if str_eq(dest, "OHLCMarketData.subscribe") {
            let u = ack_updates(payload);
            assert(final(self).same(old(self)));
            return Ok(u);
        }
        proof {
            reveal_strlit("OHLCMarketData.subscribe");
            reveal_strlit("ohlc.event");
            assert("OHLCMarketData.subscribe"@.len() != "ohlc.event"@.len());
        }
        if is_socket_refusal(str_get(frame, "status"), dest) {
            return Err(socket_refusal(str_get(payload, "errorCode")));
        }
        if !str_eq(dest, "ohlc.event") {
            return Ok(Vec::new());
        }
        let epic = match str_get(payload, "epic") {
            Some(e) => e,
            None => "",
        };
        let res = match str_get(payload, "resolution") {
            Some(e) => e,
            None => "",
        };
        if epic.is_empty() || res.is_empty() {
            return Ok(Vec::new());
        }
        let k = key(epic, res);
        let t = match int_get(payload, "t") {
            Some(t) => t,
            None => {
                return Err(Failure::msg("capital.com ohlc t"));
            },
        };
        let o = match num_get(payload, "o") {
            Some(x) => x,
            None => {
                proof {
                    reveal_strlit("capital.com ohlc field o");
                    reveal_strlit("capital.com ohlc field ");
                    reveal_strlit("o");
                    assert("capital.com ohlc field "@ + "o"@ =~= "capital.com ohlc field o"@);
                }
                return Err(Failure::msg("capital.com ohlc field o"));
            },
        };
        let h = match num_get(payload, "h") {
            Some(x) => x,
            None => {
                proof {
                    reveal_strlit("capital.com ohlc field h");
                    reveal_strlit("capital.com ohlc field ");
                    reveal_strlit("h");
                    assert("capital.com ohlc field "@ + "h"@ =~= "capital.com ohlc field h"@);
                }
                return Err(Failure::msg("capital.com ohlc field h"));
            },
        };
        let l = match num_get(payload, "l") {
            Some(x) => x,
            None => {
                proof {
                    reveal_strlit("capital.com ohlc field l");
                    reveal_strlit("capital.com ohlc field ");
                    reveal_strlit("l");
                    assert("capital.com ohlc field "@ + "l"@ =~= "capital.com ohlc field l"@);
                }
                return Err(Failure::msg("capital.com ohlc field l"));
            },
        };
        let c = match num_get(payload, "c") {
            Some(x) => x,
            None => {
                proof {
                    reveal_strlit("capital.com ohlc field c");
                    reveal_strlit("capital.com ohlc field ");
                    reveal_strlit("c");
                    assert("capital.com ohlc field "@ + "c"@ =~= "capital.com ohlc field c"@);
                }
                return Err(Failure::msg("capital.com ohlc field c"));
            },
        };
        proof {
            reveal_strlit("capital.com ohlc field o");
            reveal_strlit("capital.com ohlc field h");
            reveal_strlit("capital.com ohlc field l");
            reveal_strlit("capital.com ohlc field c");
            reveal_strlit("capital.com ohlc field ");
            reveal_strlit("o");
            reveal_strlit("h");
            reveal_strlit("l");
            reveal_strlit("c");
        }
        let q = Quote { open: o, high: h, low: l, close: c };
        let ghost qq = q;
        let is_ask = match str_get(payload, "priceType") {
            Some(pt) => str_eq(pt, "ask") || str_eq(pt, "offer"),
            None => false,
        };
        let ghost held0 = self.sides.view_of();
        let pair = self.sides.record(k.as_str(), t, is_ask, q);
        let (bid, ask) = match pair {
            Some(x) => x,
            None => {
                assert(quote_view(qq) == prices_of(jv(*payload)));
                return Ok(Vec::new());
            },
        };
        let ts = ms_to_secs(t);
        if let Err(m) = unix_timestamp(ts) {
            assert(quote_view(qq) == prices_of(jv(*payload)));
            return Err(Failure::msg(m.as_str()));
        }
        let mut out: Vec<Update> = Vec::new();
        proof {
            self.roll.lemma_latest_fits(k@);
        }
        match self.roll.observe(k.as_str(), ts) {
            Roll::Stale => {
                assert(quote_view(qq) == prices_of(jv(*payload)));
                return Ok(out);
            },
            Roll::Newer { closed } => {
                self.sides.prune(k.as_str(), t);
                out.push(Update::Closed { channel: k.clone(), bar_ts: closed });
            },
            _ => {},
        }
        out.push(Update::Sides { channel: k, bar_ts: ts, bid, ask });
        assert(quote_view(qq) == prices_of(jv(*payload)));
        Ok(out)
    }
}

/// The pane refusals of a subscribe acknowledgement's payload.
fn ack_updates(p: &Json) -> (u: Vec<Update>)
    ensures
        faults_are(u@, ack_faults(subs_of(jv(*p)))),
{
    let mut u: Vec<Update> = Vec::new();
    match get(p, "subscriptions") {
        Some(Json::Obj(m)) => {
            proof {
                lemma_members_view(*m);
            }
            let ghost mv = members_view(m@);
            let mut i: usize = 0;
            while i < m.len()
                invariant
                    i <= m@.len(),
                    mv == members_view(m@),
                    subs_of(jv(*p)) == mv,
                    faults_are(u@, ack_faults(mv.take(i as int))),
                decreases m@.len() - i,
            {
                let (name, state) = &m[i];
                proof {
                    assert(mv.take(i + 1).drop_last() == mv.take(i as int));
                    assert(mv.take(i + 1).last() == (name@, jv(*state)));
                }
                let st = match state {
                    Json::Str(s) => Some(s.as_str()),
                    _ => None,
                };
                assert(crate::text::opt_str(st) == text_value(jv(*state)));
                match ack_refusal(name.as_str(), st) {
                    Some((k, f)) => {
                        let ghost before = u@;
                        u.push(Update::Fault { channel: k, failure: f });
                        proof {
                            assert(u@ == before.push(u@.last()));
                        }
                    },
                    None => {},
                }
                i = i + 1;
            }
            assert(mv.take(mv.len() as int) == mv);
        },
        _ => {
            assert(ack_faults(Seq::<(Seq<char>, JsonV)>::empty()) == Seq::<(Seq<char>, Seq<char>)>::empty());
        },
    }
    u
}

} // verus!
