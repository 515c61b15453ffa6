//! The local broadcast bus.
//!
//! An in-process fan-out channel: whoever owns the transport
//! subscription publishes each received text here, and any number of
//! independent subscribers read every published text, in publish
//! order, exactly once each. This decouples transport ownership from
//! the synchronization engine, and lets tests inject synthetic event
//! streams.
//!
//! The bus keeps the session's publish log; a [`Subscription`] is a
//! cursor into it. [`EventBus::poll`] hands a subscriber exactly the
//! texts published since it subscribed or last polled. Dropping the
//! `Subscription` ends the subscription: nothing is ever delivered
//! into torn-down state.

use vstd::prelude::*;
use crate::text::copy_bytes;

verus! {

/// The fan-out channel: the log of every text published so far, in
/// publish order. Its spec value is that log.
pub struct EventBus {
    log: Vec<Vec<u8>>,
}

impl View for EventBus {
    type V = Seq<Seq<u8>>;

    closed spec fn view(&self) -> Seq<Seq<u8>> {
        self.log.deep_view()
    }
}

/// One subscriber's place in the publish log: every text before the
/// cursor has been delivered to it exactly once, nothing after.
pub struct Subscription {
    cursor: usize,
}

impl View for Subscription {
    type V = int;

    closed spec fn view(&self) -> int {
        self.cursor as int
    }
}

impl EventBus {
    /// A bus with nothing published yet.
    pub fn new() -> (b: EventBus)
        ensures
            b@ == Seq::<Seq<u8>>::empty(),
    {
        let b = EventBus { log: Vec::new() };
        proof {
            assert(b@ =~~= Seq::<Seq<u8>>::empty());
        }
        b
    }

    /// Publishes one text: appended to the log, delivered to every
    /// subscriber on its next poll. Never blocks the publisher.
    pub fn publish(&mut self, text: Vec<u8>)
        ensures
            final(self)@ == old(self)@.push(text@),
    {
        let ghost t = text@;
        self.log.push(text);
        proof {
            assert(self@ =~~= old(self)@.push(t));
        }
    }

    /// Registers a subscriber from this point on: it will be handed
    /// exactly the texts published after this call, in publish order.
    pub fn subscribe(&self) -> (s: Subscription)
        ensures
            s@ == self@.len(),
    {
        Subscription { cursor: self.log.len() }
    }

    /// Hands a subscriber every text published since it subscribed or
    /// last polled — each exactly once, in publish order — and moves
    /// its cursor to the end of the log.
    ///
    /// A subscription is only meaningful on the bus it was created on;
    /// its cursor never runs past that bus's log.
    pub fn poll(&self, sub: &mut Subscription) -> (r: Vec<Vec<u8>>)
        requires
            old(sub)@ <= self@.len(),
        ensures
            r.deep_view() == self@.subrange(old(sub)@, self@.len() as int),
            final(sub)@ == self@.len(),
    {
        let start = sub.cursor;
        let mut out: Vec<Vec<u8>> = Vec::new();
        let mut i: usize = start;
        while i < self.log.len()
            invariant
                start <= i <= self.log.len(),
                out.deep_view() == self@.subrange(start as int, i as int),
            decreases self.log.len() - i,
        {
            out.push(copy_bytes(&self.log[i]));
            proof {
                assert(self@.subrange(start as int, i as int + 1) =~= self@.subrange(
                    start as int,
                    i as int,
                ).push(self@[i as int]));
                assert(out.deep_view() =~~= self@.subrange(start as int, i as int + 1));
            }
            i += 1;
        }
        sub.cursor = self.log.len();
        out
    }
}

/// Law: consecutive polls chain — what a subscriber is handed across
/// two polls is exactly the log segment from its first cursor to its
/// last, each published text once and in order.
pub proof fn lemma_consecutive_polls_cover(log: Seq<Seq<u8>>, c0: int, c1: int, c2: int)
    requires
        0 <= c0 <= c1 <= c2 <= log.len(),
    ensures
        log.subrange(c0, c1) + log.subrange(c1, c2) == log.subrange(c0, c2),
{
    assert(log.subrange(c0, c1) + log.subrange(c1, c2) =~= log.subrange(c0, c2));
}

} // verus!
