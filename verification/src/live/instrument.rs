//! One instrument on a socket, and what a socket publishes for it.

use vstd::prelude::*;

verus! {

/// One instrument on a socket: what a provider needs in order to subscribe, and what the hub
/// routes updates back to.
#[derive(Clone, Debug, PartialEq, Eq, Hash)]
pub struct Instrument {
    pub symbol: String,
    pub asset_type: String,
    pub timeframe: String,
}

/// `symbol|asset_type|timeframe`.
pub open spec fn instrument_key(symbol: Seq<char>, asset_type: Seq<char>, timeframe: Seq<char>) -> Seq<char> {
    symbol + "|"@ + asset_type + "|"@ + timeframe
}

impl Instrument {
    pub fn new(symbol: &str, asset_type: &str, timeframe: &str) -> (i: Instrument)
        ensures
            i.symbol@ == symbol@,
            i.asset_type@ == asset_type@,
            i.timeframe@ == timeframe@,
    {
        Instrument {
            symbol: symbol.to_string(),
            asset_type: asset_type.to_string(),
            timeframe: timeframe.to_string(),
        }
    }

    /// Identity inside one socket: an instrument at a timeframe. Two panes on the same
    /// symbol at two timeframes are two subscriptions sharing one channel.
    pub fn key(&self) -> (k: String)
        ensures
            k@ == instrument_key(self.symbol@, self.asset_type@, self.timeframe@),
    {
        let mut k = self.symbol.clone();
        k.append("|");
        k.append(self.asset_type.as_str());
        k.append("|");
        k.append(self.timeframe.as_str());
        k
    }
}

/// What a socket publishes for an instrument, and therefore who folds the timeframe.
#[derive(Debug, Clone, Copy, PartialEq, Eq, Structural)]
pub enum SourceGrain {
    /// Bars already at the asked timeframe: nothing is folded.
    Native,
    /// Individual trades: every bar is built from them.
    Trades,
    /// Bars of a fixed grain, folded up to the timeframe; `grace` is how long to wait past a
    /// bucket's end before the timer closes it.
    Bars { secs: i64, grace: i64 },
}

/// What the hub asks a running socket to do between reconnects.
pub enum FeedCmd {
    Add(Vec<Instrument>),
    Remove(Vec<Instrument>),
}


/// `s` holds no `|`.
pub open spec fn no_bar(s: Seq<char>) -> bool {
    !s.contains('|')
}

/// A part without `|`, a bar, and a rest: the part is told apart from the rest.
proof fn lemma_split_at_bar(a: Seq<char>, x: Seq<char>, b: Seq<char>, y: Seq<char>)
    requires
        no_bar(a),
        no_bar(b),
        a + "|"@ + x == b + "|"@ + y,
    ensures
        a == b,
        x == y,
{
    reveal_strlit("|");
    let l = a + "|"@ + x;
    let m = b + "|"@ + y;
    assert(l[a.len() as int] == '|');
    assert(m[b.len() as int] == '|');
    if a.len() < b.len() {
        assert(m[a.len() as int] == b[a.len() as int]);
        assert(b.contains('|'));
    } else if b.len() < a.len() {
        assert(l[b.len() as int] == a[b.len() as int]);
        assert(a.contains('|'));
    }
    assert(a =~= l.take(a.len() as int));
    assert(b =~= m.take(b.len() as int));
    assert(x =~= l.skip(a.len() as int + 1));
    assert(y =~= m.skip(b.len() as int + 1));
}

/// An instrument's key names it: for fields without `|`, two keys are equal exactly when the
/// symbols, asset types and timeframes are (one symbol at two timeframes is two keys).
pub proof fn lemma_key_names_the_instrument(
    s1: Seq<char>, a1: Seq<char>, t1: Seq<char>,
    s2: Seq<char>, a2: Seq<char>, t2: Seq<char>,
)
    requires
        no_bar(s1), no_bar(a1), no_bar(t1),
        no_bar(s2), no_bar(a2), no_bar(t2),
    ensures
        instrument_key(s1, a1, t1) == instrument_key(s2, a2, t2) <==> (s1 == s2 && a1 == a2 && t1 == t2),
{
    if instrument_key(s1, a1, t1) == instrument_key(s2, a2, t2) {
        assert(s1 + "|"@ + (a1 + "|"@ + t1) == instrument_key(s1, a1, t1));
        assert(s2 + "|"@ + (a2 + "|"@ + t2) == instrument_key(s2, a2, t2));
        lemma_split_at_bar(s1, a1 + "|"@ + t1, s2, a2 + "|"@ + t2);
        lemma_split_at_bar(a1, t1, a2, t2);
    }
}

} // verus!
