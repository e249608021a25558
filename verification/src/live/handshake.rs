//! The staged handshake Alpaca and Massive both demand: the server greets, `auth` is
//! accepted only then, and `subscribe` only once the server has answered it.
//!
//! Sending all three up front works by accident on a good day and fails on a slow one, so
//! channels that join before the answer wait here and go out together with it. What is
//! decided here is *which* frames are due; the caller renders them as the provider's JSON.

use vstd::prelude::*;

use crate::text::{contains_string, views};

verus! {

/// One frame the socket is due to send.
#[derive(Debug, Clone)]
pub enum Frame {
    /// The credentials, answered by the server's greeting.
    Auth,
    /// Add these channels.
    Subscribe(Vec<String>),
    /// Drop these channels.
    Unsubscribe(Vec<String>),
}

/// The channels of a `Subscribe` frame.
pub open spec fn subscribed(f: Frame) -> Option<Seq<Seq<char>>> {
    match f {
        Frame::Subscribe(v) => Some(views(v@)),
        _ => None,
    }
}

/// The channels of an `Unsubscribe` frame.
pub open spec fn unsubscribed(f: Frame) -> Option<Seq<Seq<char>>> {
    match f {
        Frame::Unsubscribe(v) => Some(views(v@)),
        _ => None,
    }
}

/// `p` without the elements of `c`, order kept.
pub open spec fn without(p: Seq<Seq<char>>, c: Seq<Seq<char>>) -> Seq<Seq<char>>
    decreases p.len(),
{
    if p.len() == 0 {
        p
    } else if c.contains(p.last()) {
        without(p.drop_last(), c)
    } else {
        without(p.drop_last(), c).push(p.last())
    }
}

/// A frame as values.
pub enum FrameV {
    Auth,
    Subscribe(Seq<Seq<char>>),
    Unsubscribe(Seq<Seq<char>>),
}

pub open spec fn frame_view(f: Frame) -> FrameV {
    match f {
        Frame::Auth => FrameV::Auth,
        Frame::Subscribe(v) => FrameV::Subscribe(views(v@)),
        Frame::Unsubscribe(v) => FrameV::Unsubscribe(views(v@)),
    }
}

/// Where a handshake stands, as values: signed in or not, the channels waiting for it, and
/// the frames due.
pub struct HsV {
    pub authed: bool,
    pub waiting: Seq<Seq<char>>,
    pub queued: Seq<FrameV>,
}

/// The server greeted: `auth` is due.
pub open spec fn greeted(v: HsV) -> HsV {
    HsV { authed: v.authed, waiting: v.waiting, queued: v.queued.push(FrameV::Auth) }
}

/// The server accepted `auth`: whatever waited goes out in one `subscribe`.
pub open spec fn accepted(v: HsV) -> HsV {
    HsV {
        authed: true,
        waiting: Seq::empty(),
        queued: if v.waiting.len() == 0 {
            v.queued
        } else {
            v.queued.push(FrameV::Subscribe(v.waiting))
        },
    }
}

/// [`Handshake::on_connected`]'s effect, as values.
pub proof fn lemma_greeted(b: Handshake, a: Handshake)
    requires
        a.is_authed() == b.is_authed(),
        a.waiting() == b.waiting(),
        a.queued() == b.queued().push(Frame::Auth),
    ensures
        a.view_v() == greeted(b.view_v()),
{
    assert(a.view_v().queued =~= greeted(b.view_v()).queued);
}

/// [`Handshake::on_authenticated`]'s effect, as values.
pub proof fn lemma_accepted(b: Handshake, a: Handshake)
    requires
        a.is_authed(),
        a.waiting().len() == 0,
        b.waiting().len() == 0 ==> a.queued() == b.queued(),
        b.waiting().len() > 0 ==> a.queued().len() == b.queued().len() + 1
            && a.queued().drop_last() == b.queued()
            && subscribed(a.queued().last()) == Some(b.waiting()),
    ensures
        a.view_v() == accepted(b.view_v()),
{
    assert(a.view_v().waiting =~= Seq::<Seq<char>>::empty());
    if b.waiting().len() > 0 {
        assert(a.queued() =~= a.queued().drop_last().push(a.queued().last()));
        assert(frame_view(a.queued().last()) == FrameV::Subscribe(b.waiting()));
        assert(a.view_v().queued =~= accepted(b.view_v()).queued);
    }
}

/// Where a staged handshake stands.
pub struct Handshake {
    authed: bool,
    /// Channels that joined before the server answered `auth`.
    pending: Vec<String>,
    /// Frames queued by the handshake, drained by the driver.
    sends: Vec<Frame>,
}

impl Handshake {
    pub closed spec fn is_authed(self) -> bool {
        self.authed
    }

    pub closed spec fn waiting(self) -> Seq<Seq<char>> {
        views(self.pending@)
    }

    pub closed spec fn queued(self) -> Seq<Frame> {
        self.sends@
    }

    /// The handshake as values.
    pub open spec fn view_v(self) -> HsV {
        HsV {
            authed: self.is_authed(),
            waiting: self.waiting(),
            queued: self.queued().map_values(|f: Frame| frame_view(f)),
        }
    }

    /// A socket that has not been greeted yet.
    pub fn new() -> (h: Handshake)
        ensures
            !h.is_authed(),
            h.waiting().len() == 0,
            h.queued().len() == 0,
    {
        Handshake { authed: false, pending: Vec::new(), sends: Vec::new() }
    }

    /// Frames that add these channels. Before the server has answered `auth` they wait and
    /// nothing goes out; afterwards they go straight out.
    pub fn subscribe(&mut self, channels: Vec<String>) -> (out: Vec<Frame>)
        ensures
            final(self).is_authed() == old(self).is_authed(),
            final(self).queued() == old(self).queued(),
            channels@.len() == 0 ==> out@.len() == 0 && final(self).waiting() == old(self).waiting(),
            channels@.len() > 0 && !old(self).is_authed() ==> out@.len() == 0
                && final(self).waiting() == old(self).waiting() + views(channels@),
            channels@.len() > 0 && old(self).is_authed() ==> out@.len() == 1 && subscribed(
                out@[0],
            ) == Some(views(channels@)) && final(self).waiting() == old(self).waiting(),
    {
        if channels.len() == 0 {
            return Vec::new();
        }
        if !self.authed {
            let ghost before = self.pending@;
            let ghost sends = self.sends@;
            let mut k: usize = 0;
            while k < channels.len()
                invariant
                    k <= channels@.len(),
                    !self.authed,
                    self.sends@ == sends,
                    views(self.pending@) == views(before) + views(channels@.take(k as int)),
                decreases channels@.len() - k,
            {
                let ghost p0 = self.pending@;
                self.pending.push(channels[k].clone());
                proof {
                    assert(views(self.pending@) == views(p0).push(channels@[k as int]@));
                    assert(views(channels@.take(k + 1)) == views(channels@.take(k as int)).push(channels@[k as int]@));
                    assert(views(before) + views(channels@.take(k + 1)) == (views(before) + views(channels@.take(k as int))).push(channels@[k as int]@));
                }
                k = k + 1;
            }
            assert(channels@.take(channels@.len() as int) == channels@);
            return Vec::new();
        }
        let mut out: Vec<Frame> = Vec::new();
        out.push(Frame::Subscribe(channels));
        out
    }

    /// Frames that drop these channels; the ones still waiting are forgotten.
    pub fn unsubscribe(&mut self, channels: Vec<String>) -> (out: Vec<Frame>)
        ensures
            final(self).is_authed() == old(self).is_authed(),
            final(self).queued() == old(self).queued(),
            channels@.len() == 0 ==> out@.len() == 0 && final(self).waiting() == old(self).waiting(),
            channels@.len() > 0 ==> final(self).waiting() == without(old(self).waiting(), views(channels@)),
            channels@.len() > 0 && !old(self).is_authed() ==> out@.len() == 0,
            channels@.len() > 0 && old(self).is_authed() ==> out@.len() == 1 && unsubscribed(
                out@[0],
            ) == Some(views(channels@)),
    {
        if channels.len() == 0 {
            return Vec::new();
        }
        let ghost before = views(self.pending@);
        let mut kept: Vec<String> = Vec::new();
        let mut k: usize = 0;
        while k < self.pending.len()
            invariant
                k <= self.pending@.len(),
                before == views(self.pending@),
                views(kept@) == without(before.take(k as int), views(channels@)),
            decreases self.pending@.len() - k,
        {
            proof {
                assert(before.take(k + 1).drop_last() == before.take(k as int));
                assert(before.take(k + 1).last() == self.pending@[k as int]@);
            }
            if !contains_string(&channels, self.pending[k].as_str()) {
                kept.push(self.pending[k].clone());
                assert(views(kept@) == views(kept@.drop_last()).push(self.pending@[k as int]@));
            }
            k = k + 1;
        }
        assert(before.take(before.len() as int) == before);
        self.pending = kept;
        if !self.authed {
            return Vec::new();
        }
        let mut out: Vec<Frame> = Vec::new();
        out.push(Frame::Unsubscribe(channels));
        out
    }

    /// The server greeted the socket: `auth` is due.
    pub fn on_connected(&mut self)
        ensures
            final(self).is_authed() == old(self).is_authed(),
            final(self).waiting() == old(self).waiting(),
            final(self).queued() == old(self).queued().push(Frame::Auth),
    {
        self.sends.push(Frame::Auth);
    }

    /// The server accepted `auth`: whatever waited is subscribed in one frame.
    pub fn on_authenticated(&mut self)
        ensures
            final(self).is_authed(),
            final(self).waiting().len() == 0,
            old(self).waiting().len() == 0 ==> final(self).queued() == old(self).queued(),
            old(self).waiting().len() > 0 ==> final(self).queued().len() == old(self).queued().len() + 1
                && final(self).queued().drop_last() == old(self).queued()
                && subscribed(final(self).queued().last()) == Some(old(self).waiting()),
    {
        self.authed = true;
        let mut waiting: Vec<String> = Vec::new();
        std::mem::swap(&mut waiting, &mut self.pending);
        if waiting.len() > 0 {
            self.sends.push(Frame::Subscribe(waiting));
        }
    }

    /// Frames to write now, in order; the queue is left empty.
    pub fn drain_sends(&mut self) -> (out: Vec<Frame>)
        ensures
            out@ == old(self).queued(),
            final(self).queued().len() == 0,
            final(self).is_authed() == old(self).is_authed(),
            final(self).waiting() == old(self).waiting(),
    {
        let mut out: Vec<Frame> = Vec::new();
        std::mem::swap(&mut out, &mut self.sends);
        out
    }
}

/// A channel that joins before the handshake waits for it and goes out with the answer to
/// `auth`; one that joins afterwards goes straight out.
pub proof fn lemma_joining_before_auth_waits(h: Handshake, after_join: Handshake, after_auth: Handshake, channels: Seq<Seq<char>>)
    requires
        !h.is_authed(),
        h.waiting().len() == 0,
        channels.len() > 0,
        after_join.waiting() == h.waiting() + channels,
        after_join.queued() == h.queued(),
        after_auth.is_authed(),
        after_join.waiting().len() > 0 ==> subscribed(after_auth.queued().last()) == Some(after_join.waiting()),
    ensures
        subscribed(after_auth.queued().last()) == Some(channels),
{
    assert(h.waiting() + channels == channels);
}

} // verus!
