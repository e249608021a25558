//! What an IMAP poll decides: which UIDs are new, which of them this poll fetches, which are
//! too big to download, and what it reports.
//!
//! The session itself (TLS, LOGIN or XOAUTH2, EXAMINE, UID SEARCH, UID FETCH) runs outside;
//! each of its answers comes back through one of the functions below.

use vstd::prelude::*;

use crate::text::{decimal, decimal_of, join_with};

verus! {

/// Seconds a single TCP connect may take.
pub const CONNECT_TIMEOUT_SECS: u64 = 20;
/// UIDs fetched in one round trip. Small: each mail is held in memory until it is stored,
/// and a broker statement can be megabytes.
pub const FETCH_CHUNK: usize = 5;

/// How to prove who we are. Both variants hold a live secret.
pub enum Auth {
    /// LOGIN with an app password.
    Password(String),
    /// SASL XOAUTH2 with a short-lived access token (Microsoft).
    XOAuth2(String),
}

/// Everything needed to open one session.
pub struct ImapConfig {
    pub host: String,
    pub port: u16,
    pub security: String,
    pub username: String,
    pub auth: Auth,
}

/// What one poll did, whatever the store made of it.
#[derive(Debug)]
pub struct PollReport {
    pub uid_validity: u32,
    /// Highest UID considered, including mails skipped for size, so an oversized mail is not
    /// re-downloaded on every poll.
    pub highest_uid: u32,
    pub fetched: usize,
    pub skipped_too_big: usize,
    /// New UIDs left for the next poll (the per-poll batch is capped).
    pub remaining: usize,
}

impl Default for PollReport {
    fn default() -> (r: PollReport)
        ensures
            r.uid_validity == 0 && r.highest_uid == 0 && r.fetched == 0 && r.skipped_too_big == 0
                && r.remaining == 0,
    {
        PollReport { uid_validity: 0, highest_uid: 0, fetched: 0, skipped_too_big: 0, remaining: 0 }
    }
}

/// What a connection test reports back: messages in the folder, proof the credential opened
/// a real mailbox.
pub struct ProbeReport {
    pub exists: u32,
}

/// An IMAP UID set: the UIDs in decimal, comma separated.
pub open spec fn uid_set_of(uids: Seq<u32>) -> Seq<char> {
    join_with(uids.map_values(|u: u32| decimal_of(u as nat)), ","@)
}

/// IMAP UID set, e.g. `12,17,18`.
pub fn uid_set(uids: &[u32]) -> (r: String)
    ensures
        r@ == uid_set_of(uids@),
{
    let mut r = String::new();
    let mut i: usize = 0;
    while i < uids.len()
        invariant
            i <= uids@.len(),
            r@ == uid_set_of(uids@.take(i as int)),
        decreases uids@.len() - i,
    {
        let ghost m = uids@.take(i + 1).map_values(|u: u32| decimal_of(u as nat));
        proof {
            reveal_strlit(",");
            assert(m.drop_last() == uids@.take(i as int).map_values(|u: u32| decimal_of(u as nat)));
            assert(m.last() == decimal_of(uids@[i as int] as nat));
            if i == 0 {
                assert(m.len() == 1);
            }
        }
        if i > 0 {
            r.append(",");
        }
        let d = decimal(uids[i] as u64);
        r.append(d.as_str());
        i = i + 1;
    }
    proof {
        assert(uids@.take(uids@.len() as int) == uids@);
    }
    r
}

/// The UID below which everything has been seen. A mailbox recreated server-side gets a new
/// UIDVALIDITY, and the old watermark is void.
pub fn watermark(stored_validity: u32, folder_validity: u32, last_uid: u32) -> (w: u32)
    ensures
        w == (if stored_validity != 0 && folder_validity != stored_validity { 0 } else { last_uid }),
{
    if stored_validity != 0 && folder_validity != stored_validity { 0 } else { last_uid }
}

pub open spec fn sorted(s: Seq<u32>) -> bool {
    forall|i: int, j: int| 0 <= i < j < s.len() ==> s[i] <= s[j]
}

/// The UIDs above the watermark, ascending. `UID n:*` always matches the highest UID even
/// when it is below n, so the search's answer is filtered rather than trusted.
pub fn new_uids(found: &[u32], last_uid: u32) -> (r: Vec<u32>)
    ensures
        sorted(r@),
        r@.to_multiset() == found@.filter(|u: u32| u > last_uid).to_multiset(),
{
    let mut r: Vec<u32> = Vec::new();
    let mut i: usize = 0;
    proof {
        assert(found@.take(0) =~= Seq::<u32>::empty());
        reveal(Seq::filter);
        assert(Seq::<u32>::empty().filter(|u: u32| u > last_uid) =~= Seq::<u32>::empty());
        assert(r@ =~= Seq::<u32>::empty());
    }
    while i < found.len()
        invariant
            i <= found@.len(),
            sorted(r@),
            r@.to_multiset() == found@.take(i as int).filter(|u: u32| u > last_uid).to_multiset(),
        decreases found@.len() - i,
    {
        let x = found[i];
        proof {
            assert(found@.take(i + 1).drop_last() == found@.take(i as int));
            assert(found@.take(i + 1).last() == x);
            found@.take(i as int).lemma_filter_push(x, |u: u32| u > last_uid);
            assert(found@.take(i as int).push(x) == found@.take(i + 1));
        }
        if x > last_uid {
            let mut j: usize = 0;
            while j < r.len() && r[j] <= x
                invariant
                    j <= r@.len(),
                    forall|k: int| 0 <= k < j ==> r@[k] <= x,
                decreases r@.len() - j,
            {
                j = j + 1;
            }
            let ghost before = r@;
            r.insert(j, x);
            proof {
                vstd::seq_lib::to_multiset_insert(before, j as int, x);
                let f = found@.take(i as int).filter(|u: u32| u > last_uid);
                f.to_multiset_ensures();
                assert forall|a: int, b: int| 0 <= a < b < r@.len() implies r@[a] <= r@[b] by {
                    if b < j {
                        assert(r@[a] == before[a] && r@[b] == before[b]);
                    } else if b == j {
                        assert(r@[a] == before[a]);
                    } else if a < j {
                        assert(r@[a] == before[a]);
                        assert(r@[b] == before[b - 1]);
                        if j < before.len() {
                            assert(before[j as int] > x);
                            assert(before[j as int] <= before[b - 1]);
                        }
                    } else if a == j {
                        assert(r@[b] == before[b - 1]);
                        assert(before[j as int] > x);
                        assert(before[j as int] <= before[b - 1]);
                    } else {
                        assert(r@[a] == before[a - 1] && r@[b] == before[b - 1]);
                    }
                }
            }
        }
        i = i + 1;
    }
    proof {
        assert(found@.take(found@.len() as int) == found@);
    }
    r
}

/// This poll's share of the new UIDs: all of them when they fit, else the newest on a first
/// sync (the recent mail is what the user wants to see) and the oldest afterwards (the
/// backlog drains in order).
pub open spec fn batch_of(uids: Seq<u32>, max_msgs: nat, last_uid: u32) -> Seq<u32> {
    if uids.len() <= max_msgs {
        uids
    } else if last_uid == 0 {
        uids.skip(uids.len() - max_msgs)
    } else {
        uids.take(max_msgs as int)
    }
}

/// UIDs in strictly increasing order, as a mailbox's search answer lists them.
pub open spec fn ascending(uids: Seq<u32>) -> bool {
    forall|i: int, j: int| 0 <= i < j < uids.len() ==> uids[i] < uids[j]
}

/// Which new mail a poll takes: everything when it fits the cap; otherwise exactly `max_msgs`
/// of them, all drawn from the new UIDs, and on a first sync (`last_uid == 0`) the newest —
/// every UID left for later is older than every UID taken — while later polls take the
/// oldest, so the backlog drains in order.
pub proof fn lemma_batch_takes_newest_first(uids: Seq<u32>, max_msgs: nat, last_uid: u32)
    requires
        ascending(uids),
    ensures
        uids.len() <= max_msgs ==> batch_of(uids, max_msgs, last_uid) == uids,
        uids.len() > max_msgs ==> batch_of(uids, max_msgs, last_uid).len() == max_msgs,
        forall|b: u32| #[trigger] batch_of(uids, max_msgs, last_uid).contains(b) ==> uids.contains(b),
        uids.len() > max_msgs && last_uid == 0 ==> forall|i: int, b: u32|
            0 <= i < uids.len() && !batch_of(uids, max_msgs, last_uid).contains(#[trigger] uids[i])
                && #[trigger] batch_of(uids, max_msgs, last_uid).contains(b) ==> uids[i] < b,
        uids.len() > max_msgs && last_uid != 0 ==> forall|i: int, b: u32|
            0 <= i < uids.len() && !batch_of(uids, max_msgs, last_uid).contains(#[trigger] uids[i])
                && #[trigger] batch_of(uids, max_msgs, last_uid).contains(b) ==> uids[i] > b,
{
    let bt = batch_of(uids, max_msgs, last_uid);
    let n = uids.len();
    if n <= max_msgs {
        return;
    }
    if last_uid == 0 {
        let off = n - max_msgs;
        assert(forall|k: int| 0 <= k < bt.len() ==> #[trigger] bt[k] == uids[k + off]);
        assert forall|b: u32| #[trigger] bt.contains(b) implies uids.contains(b) by {
            let k = choose|k: int| 0 <= k < bt.len() && bt[k] == b;
            assert(uids[k + off] == b);
        }
        assert forall|i: int, b: u32|
            0 <= i < n && !bt.contains(#[trigger] uids[i]) && #[trigger] bt.contains(b) implies uids[i] < b by {
            let k = choose|k: int| 0 <= k < bt.len() && bt[k] == b;
            if i >= off {
                assert(bt[i - off] == uids[i]);
                assert(bt.contains(uids[i]));
            }
            assert(uids[k + off] == b);
        }
    } else {
        assert(forall|k: int| 0 <= k < bt.len() ==> #[trigger] bt[k] == uids[k]);
        assert forall|b: u32| #[trigger] bt.contains(b) implies uids.contains(b) by {
            let k = choose|k: int| 0 <= k < bt.len() && bt[k] == b;
            assert(uids[k] == b);
        }
        assert forall|i: int, b: u32|
            0 <= i < n && !bt.contains(#[trigger] uids[i]) && #[trigger] bt.contains(b) implies uids[i] > b by {
            let k = choose|k: int| 0 <= k < bt.len() && bt[k] == b;
            if i < max_msgs {
                assert(bt[i] == uids[i]);
                assert(bt.contains(uids[i]));
            }
            assert(uids[k] == b);
        }
    }
}

/// The batch, and how many new UIDs are left for the next poll.
pub fn plan_batch(uids: &[u32], max_msgs: usize, last_uid: u32) -> (r: (Vec<u32>, usize))
    ensures
        r.0@ == batch_of(uids@, max_msgs as nat, last_uid),
        r.1 == uids@.len() - batch_of(uids@, max_msgs as nat, last_uid).len(),
        ascending(uids@) && uids@.len() > max_msgs ==> r.0@.len() == max_msgs && r.1 == uids@.len() - max_msgs,
        ascending(uids@) && uids@.len() > max_msgs && last_uid == 0 ==> forall|i: int, b: u32|
            0 <= i < uids@.len() && !r.0@.contains(#[trigger] uids@[i]) && #[trigger] r.0@.contains(b)
                ==> uids@[i] < b,
        ascending(uids@) && uids@.len() > max_msgs && last_uid != 0 ==> forall|i: int, b: u32|
            0 <= i < uids@.len() && !r.0@.contains(#[trigger] uids@[i]) && #[trigger] r.0@.contains(b)
                ==> uids@[i] > b,
        uids@.len() <= max_msgs ==> r.0@ == uids@ && r.1 == 0,
{
    proof {
        if ascending(uids@) {
            lemma_batch_takes_newest_first(uids@, max_msgs as nat, last_uid);
        }
    }
    let n = uids.len();
    let (from, to) = if n <= max_msgs {
        (0, n)
    } else if last_uid == 0 {
        (n - max_msgs, n)
    } else {
        (0, max_msgs)
    };
    let mut b: Vec<u32> = Vec::new();
    let mut k: usize = from;
    while k < to
        invariant
            from <= k <= to <= uids@.len(),
            b@ == uids@.subrange(from as int, k as int),
        decreases to - k,
    {
        b.push(uids[k]);
        proof {
            assert(uids@.subrange(from as int, k + 1) == uids@.subrange(from as int, k as int).push(uids@[k as int]));
        }
        k = k + 1;
    }
    proof {
        assert(uids@.subrange(0, n as int) == uids@);
        assert(uids@.subrange((n - max_msgs) as int, n as int) == uids@.skip(n - max_msgs));
        assert(uids@.subrange(0, max_msgs as int) == uids@.take(max_msgs as int));
    }
    let left = n - b.len();
    (b, left)
}

/// What the sizes answer leaves to fetch: the UIDs within the size limit, the highest UID
/// seen, and how many were skipped as too big.
pub open spec fn size_scan(sizes: Seq<(u32, u32)>, max_bytes: u32) -> (Seq<u32>, u32, nat)
    decreases sizes.len(),
{
    if sizes.len() == 0 {
        (Seq::empty(), 0, 0)
    } else {
        let (w, h, k) = size_scan(sizes.drop_last(), max_bytes);
        let (uid, size) = sizes.last();
        let h2 = if uid > h { uid } else { h };
        if size > max_bytes {
            (w, h2, k + 1)
        } else {
            (w.push(uid), h2, k)
        }
    }
}

/// The largest UID of a list, zero when it is empty.
pub open spec fn max_uid(s: Seq<u32>) -> u32
    decreases s.len(),
{
    if s.len() == 0 {
        0
    } else {
        let m = max_uid(s.drop_last());
        if s.last() > m { s.last() } else { m }
    }
}

/// The fetch plan after the sizes came back.
pub struct SizePlan {
    pub wanted: Vec<u32>,
    pub highest_uid: u32,
    pub skipped_too_big: usize,
}

/// Sizes first: an oversized mail is skipped without ever crossing the wire. A server that
/// answered no size at all (rare, but legal) must not stall the sync, so then the whole
/// batch is wanted.
pub fn size_plan(sizes: &[(u32, u32)], batch: &[u32], max_bytes: u32) -> (p: SizePlan)
    ensures
        sizes@.len() > 0 ==> (p.wanted@, p.highest_uid, p.skipped_too_big as nat) == size_scan(sizes@, max_bytes),
        sizes@.len() == 0 ==> p.wanted@ == batch@ && p.highest_uid == max_uid(batch@) && p.skipped_too_big == 0,
{
    if sizes.len() == 0 {
        let mut wanted: Vec<u32> = Vec::new();
        let mut high: u32 = 0;
        let mut i: usize = 0;
        while i < batch.len()
            invariant
                i <= batch@.len(),
                wanted@ == batch@.take(i as int),
                high == max_uid(batch@.take(i as int)),
            decreases batch@.len() - i,
        {
            proof {
                assert(batch@.take(i + 1).drop_last() == batch@.take(i as int));
            }
            if batch[i] > high {
                high = batch[i];
            }
            wanted.push(batch[i]);
            i = i + 1;
        }
        proof {
            assert(batch@.take(batch@.len() as int) == batch@);
        }
        return SizePlan { wanted, highest_uid: high, skipped_too_big: 0 };
    }
    let mut wanted: Vec<u32> = Vec::new();
    let mut high: u32 = 0;
    let mut skipped: usize = 0;
    let mut i: usize = 0;
    while i < sizes.len()
        invariant
            i <= sizes@.len(),
            (wanted@, high, skipped as nat) == size_scan(sizes@.take(i as int), max_bytes),
            skipped <= i,
        decreases sizes@.len() - i,
    {
        proof {
            assert(sizes@.take(i + 1).drop_last() == sizes@.take(i as int));
        }
        let (uid, size) = sizes[i];
        if uid > high {
            high = uid;
        }
        if size > max_bytes {
            skipped = skipped + 1;
        } else {
            wanted.push(uid);
        }
        i = i + 1;
    }
    proof {
        assert(sizes@.take(sizes@.len() as int) == sizes@);
    }
    SizePlan { wanted, highest_uid: high, skipped_too_big: skipped }
}

impl PollReport {
    /// Account for one fetched chunk: its mails count as fetched, and their UIDs raise the
    /// highest one considered.
    pub fn record_chunk(&mut self, uids: &[u32])
        requires
            old(self).fetched + uids@.len() <= usize::MAX,
        ensures
            final(self).fetched == old(self).fetched + uids@.len(),
            final(self).highest_uid == (if max_uid(uids@) > old(self).highest_uid {
                max_uid(uids@)
            } else {
                old(self).highest_uid
            }),
            final(self).uid_validity == old(self).uid_validity,
            final(self).skipped_too_big == old(self).skipped_too_big,
            final(self).remaining == old(self).remaining,
    {
        let mut high = self.highest_uid;
        let mut m: u32 = 0;
        let mut i: usize = 0;
        while i < uids.len()
            invariant
                i <= uids@.len(),
                m == max_uid(uids@.take(i as int)),
            decreases uids@.len() - i,
        {
            proof {
                assert(uids@.take(i + 1).drop_last() == uids@.take(i as int));
            }
            if uids[i] > m {
                m = uids[i];
            }
            i = i + 1;
        }
        proof {
            assert(uids@.take(uids@.len() as int) == uids@);
        }
        if m > high {
            high = m;
        }
        self.highest_uid = high;
        self.fetched = self.fetched + uids.len();
    }
}

} // verus!
