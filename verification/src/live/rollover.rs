//! Closure on rollover, per channel.
//!
//! Kraken, Bitget and Capital.com send no closed flag: a candle is final once one with a
//! newer open time arrives on the same channel. OKX sends the flag but replays recent
//! candles on subscribe. Either way the decision is the same comparison against the newest
//! open time seen on that channel, kept here per routing key so that two panes on one
//! socket keep their own forming candle.

use vstd::prelude::*;

use crate::text::str_eq;

verus! {

/// What one incoming candle is, against the newest open time seen on its channel.
#[derive(Debug, Clone, Copy, PartialEq, Eq, Structural)]
pub enum Roll {
    /// The first candle seen on this channel: it becomes the forming one.
    First,
    /// An update of the forming candle.
    Same,
    /// A newer candle started, so the one opened at `closed` is final.
    Newer { closed: i64 },
    /// An older candle (a snapshot replaying history): nothing to update.
    Stale,
}

/// The newest candle open time seen per channel.
pub struct Rollover {
    entries: Vec<(String, i64)>,
}

/// Entry `i` is the one for channel `k`.
pub open spec fn has_at(e: Seq<(String, i64)>, k: Seq<char>, i: int) -> bool {
    0 <= i < e.len() && e[i].0@ == k
}

/// Channels appear at most once.
pub open spec fn distinct_keys(e: Seq<(String, i64)>) -> bool {
    forall|i: int, j: int| 0 <= i < j < e.len() ==> e[i].0@ != e[j].0@
}

/// The newest open time recorded for `k`.
pub open spec fn latest_in(e: Seq<(String, i64)>, k: Seq<char>) -> Option<int> {
    if exists|i: int| has_at(e, k, i) {
        Some(e[choose|i: int| has_at(e, k, i)].1 as int)
    } else {
        None
    }
}

proof fn lemma_unique(e: Seq<(String, i64)>, k: Seq<char>, i: int, j: int)
    requires
        distinct_keys(e),
        has_at(e, k, i),
        has_at(e, k, j),
    ensures
        i == j,
{
    if i < j {
        assert(e[i].0@ != e[j].0@);
    } else if j < i {
        assert(e[j].0@ != e[i].0@);
    }
}

proof fn lemma_latest_at(e: Seq<(String, i64)>, k: Seq<char>, i: int)
    requires
        distinct_keys(e),
        has_at(e, k, i),
    ensures
        latest_in(e, k) == Some(e[i].1 as int),
{
    let c = choose|c: int| has_at(e, k, c);
    lemma_unique(e, k, i, c);
}

impl Rollover {
    #[verifier::type_invariant]
    spec fn inv(self) -> bool {
        distinct_keys(self.entries@)
    }

    /// The newest open time seen on channel `k`.
    pub closed spec fn latest(self, k: Seq<char>) -> Option<int> {
        latest_in(self.entries@, k)
    }

    /// A recorded open time is an `i64`.
    pub proof fn lemma_latest_fits(self, k: Seq<char>)
        ensures
            self.latest(k) matches Some(p) ==> i64::MIN <= p <= i64::MAX,
    {
    }

    /// Nothing seen yet.
    pub fn new() -> (r: Rollover)
        ensures
            forall|k: Seq<char>| r.latest(k) is None,
    {
        Rollover { entries: Vec::new() }
    }

    /// Index of channel `k`, if recorded.
    fn position(&self, k: &str) -> (r: Option<usize>)
        ensures
            match r {
                Some(i) => has_at(self.entries@, k@, i as int),
                None => forall|i: int| !has_at(self.entries@, k@, i),
            },
    {
        let mut i: usize = 0;
        while i < self.entries.len()
            invariant
                i <= self.entries@.len(),
                forall|j: int| 0 <= j < i ==> !has_at(self.entries@, k@, j),
            decreases self.entries@.len() - i,
        {
            if str_eq(self.entries[i].0.as_str(), k) {
                return Some(i);
            }
            i = i + 1;
        }
        None
    }

    /// Record a candle opened at `ts` on channel `k`, and say what it is.
    pub fn observe(&mut self, k: &str, ts: i64) -> (r: Roll)
        ensures
            match old(self).latest(k@) {
                None => r == Roll::First && final(self).latest(k@) == Some(ts as int),
                Some(p) => if ts < p {
                    r == Roll::Stale && final(self).latest(k@) == Some(p)
                } else if ts == p {
                    r == Roll::Same && final(self).latest(k@) == Some(p)
                } else {
                    r == (Roll::Newer { closed: p as i64 }) && final(self).latest(k@) == Some(
                        ts as int,
                    )
                },
            },
            forall|o: Seq<char>| o != k@ ==> final(self).latest(o) == old(self).latest(o),
    {
        proof {
            use_type_invariant(&*self);
        }
        match self.position(k) {
            None => {
                let ghost before = self.entries@;
                let mut entries: Vec<(String, i64)> = Vec::new();
                std::mem::swap(&mut entries, &mut self.entries);
                entries.push((k.to_string(), ts));
                proof {
                    let e = entries@;
                    assert(e.len() == before.len() + 1);
                    assert forall|i: int, j: int| 0 <= i < j < e.len() implies e[i].0@ != e[j].0@ by {
                        if j == before.len() {
                            assert(!has_at(before, k@, i));
                        } else {
                            assert(e[i] == before[i] && e[j] == before[j]);
                        }
                    }
                    lemma_latest_at(e, k@, before.len() as int);
                    assert forall|o: Seq<char>| o != k@ implies latest_in(e, o) == latest_in(before, o) by {
                        if exists|i: int| has_at(before, o, i) {
                            let i = choose|i: int| has_at(before, o, i);
                            assert(has_at(e, o, i));
                            lemma_latest_at(before, o, i);
                            lemma_latest_at(e, o, i);
                        } else {
                            assert forall|i: int| !has_at(e, o, i) by {
                                if 0 <= i < before.len() {
                                    assert(e[i] == before[i]);
                                    assert(!has_at(before, o, i));
                                }
                            }
                        }
                    }
                }
                self.entries = entries;
                Roll::First
            },
            Some(i) => {
                let p = self.entries[i].1;
                proof {
                    lemma_latest_at(self.entries@, k@, i as int);
                }
                if ts < p {
                    Roll::Stale
                } else if ts == p {
                    Roll::Same
                } else {
                    let ghost before = self.entries@;
                    let mut entries: Vec<(String, i64)> = Vec::new();
                std::mem::swap(&mut entries, &mut self.entries);
                    entries.set(i, (k.to_string(), ts));
                    proof {
                        let e = entries@;
                        assert forall|a: int, b: int| 0 <= a < b < e.len() implies e[a].0@ != e[b].0@ by {
                            assert(e[a].0@ == before[a].0@ && e[b].0@ == before[b].0@);
                        }
                        lemma_latest_at(e, k@, i as int);
                        assert forall|o: Seq<char>| o != k@ implies latest_in(e, o) == latest_in(before, o) by {
                            assert forall|j: int| has_at(e, o, j) <==> has_at(before, o, j) by {
                                if 0 <= j < e.len() && j != i {
                                    assert(e[j] == before[j]);
                                }
                            }
                            if exists|j: int| has_at(before, o, j) {
                                let j = choose|j: int| has_at(before, o, j);
                                lemma_latest_at(before, o, j);
                                lemma_latest_at(e, o, j);
                                assert(e[j] == before[j]);
                            }
                        }
                    }
                    self.entries = entries;
                    Roll::Newer { closed: p }
                }
            },
        }
    }

    /// Drop channel `k` (its pane left the socket).
    pub fn forget(&mut self, k: &str)
        ensures
            final(self).latest(k@) is None,
            forall|o: Seq<char>| o != k@ ==> final(self).latest(o) == old(self).latest(o),
    {
        proof {
            use_type_invariant(&*self);
        }
        if let Some(i) = self.position(k) {
            let ghost before = self.entries@;
            let mut entries: Vec<(String, i64)> = Vec::new();
                std::mem::swap(&mut entries, &mut self.entries);
            entries.remove(i);
            proof {
                let e = entries@;
                assert(e == before.remove(i as int));
                assert forall|a: int, b: int| 0 <= a < b < e.len() implies e[a].0@ != e[b].0@ by {
                    let a2 = if a < i { a } else { a + 1 };
                    let b2 = if b < i { b } else { b + 1 };
                    assert(e[a] == before[a2] && e[b] == before[b2]);
                }
                assert forall|j: int| !has_at(e, k@, j) by {
                    if 0 <= j < e.len() {
                        let j2 = if j < i { j } else { j + 1 };
                        assert(e[j] == before[j2]);
                        if e[j].0@ == k@ {
                            lemma_unique(before, k@, i as int, j2);
                        }
                    }
                }
                assert forall|o: Seq<char>| o != k@ implies latest_in(e, o) == latest_in(before, o) by {
                    if exists|j: int| has_at(before, o, j) {
                        let j = choose|j: int| has_at(before, o, j);
                        assert(j != i);
                        let j2 = if j < i { j } else { j - 1 };
                        assert(e[j2] == before[j]);
                        lemma_latest_at(before, o, j);
                        lemma_latest_at(e, o, j2);
                    } else {
                        assert forall|j: int| !has_at(e, o, j) by {
                            if 0 <= j < e.len() {
                                let j2 = if j < i { j } else { j + 1 };
                                assert(e[j] == before[j2]);
                                assert(!has_at(before, o, j2));
                            }
                        }
                    }
                }
            }
            self.entries = entries;
        }
    }
}

} // verus!
