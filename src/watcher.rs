//! The event watcher: buffers events that arrive out of order and hands them
//! on one at a time, strictly in nonce order, with no gap and no repeat.
use vstd::prelude::*;
use crate::confirmation::{ConfirmationPolicy, ConfirmationStatus, status_spec};
use crate::events::ChainEvent;
use crate::keyed::{keyed_map, lemma_keyed_at, lemma_keyed_len, lemma_keyed_push, lemma_keyed_remove, unique_keys};

verus! {

/// An event held back until its turn, with the time it was first seen.
#[derive(Clone, Debug, PartialEq, Eq)]
pub struct PendingEvent {
    pub event: ChainEvent,
    pub first_seen_secs: u64,
}

/// What the watcher knows: the last nonce handed on and acknowledged, and
/// the events buffered by nonce.
pub struct WatcherView {
    pub last_seen: u64,
    pub pending: Map<u64, PendingEvent>,
}

/// The key of a buffered event: its nonce.
pub open spec fn pending_key() -> spec_fn(PendingEvent) -> u64 {
    |p: PendingEvent| p.event.nonce()
}

/// The events of a buffer, keyed by nonce.
pub open spec fn pending_map(s: Seq<PendingEvent>) -> Map<u64, PendingEvent> {
    keyed_map(s, pending_key())
}

pub open spec fn unique_nonces(s: Seq<PendingEvent>) -> bool {
    unique_keys(s, pending_key())
}

/// The nonce due next, if the buffer holds it.
pub open spec fn has_next(w: WatcherView) -> bool {
    w.last_seen < u64::MAX && w.pending.contains_key((w.last_seen + 1) as u64)
}

pub open spec fn next_of(w: WatcherView) -> PendingEvent {
    w.pending[(w.last_seen + 1) as u64]
}

/// What happens to an event that is delivered.
#[derive(Clone, Copy, Debug, PartialEq, Eq, Structural)]
pub enum ObserveOutcome {
    /// Buffered until its turn.
    Buffered,
    /// At or below the last nonce handed on: already delivered.
    Stale,
    /// A second copy of a buffered nonce.
    Duplicate,
}

pub open spec fn observe_spec(w: WatcherView, p: PendingEvent) -> (WatcherView, ObserveOutcome) {
    let n = p.event.nonce();
    if n <= w.last_seen {
        (w, ObserveOutcome::Stale)
    } else if w.pending.contains_key(n) {
        (w, ObserveOutcome::Duplicate)
    } else {
        (WatcherView { last_seen: w.last_seen, pending: w.pending.insert(n, p) }, ObserveOutcome::Buffered)
    }
}

/// Acknowledges the next event: the watcher moves past it.
pub open spec fn advance_spec(w: WatcherView) -> WatcherView {
    if has_next(w) {
        WatcherView {
            last_seen: (w.last_seen + 1) as u64,
            pending: w.pending.remove((w.last_seen + 1) as u64),
        }
    } else {
        w
    }
}

pub open spec fn resync_spec(w: WatcherView, hub_last: u64) -> WatcherView {
    WatcherView {
        last_seen: hub_last,
        pending: w.pending.restrict(w.pending.dom().filter(|n: u64| n > hub_last)),
    }
}

pub open spec fn view_wf(w: WatcherView) -> bool {
    &&& w.pending.dom().finite()
    &&& forall|n: u64| #[trigger] w.pending.contains_key(n) ==> n > w.last_seen
}

/// One thing that can happen to a watcher.
pub enum WatcherOp {
    /// An event arrives from the chain.
    Deliver(PendingEvent),
    /// The next event in order, if buffered, is submitted and acknowledged.
    SubmitNext,
}

pub open spec fn op_spec(w: WatcherView, op: WatcherOp) -> (WatcherView, Option<u64>) {
    match op {
        WatcherOp::Deliver(p) => (observe_spec(w, p).0, None),
        WatcherOp::SubmitNext => if has_next(w) {
            (advance_spec(w), Some((w.last_seen + 1) as u64))
        } else {
            (w, None)
        },
    }
}

/// The watcher after a run of operations, and the nonces submitted in it.
pub open spec fn run_spec(w: WatcherView, ops: Seq<WatcherOp>) -> (WatcherView, Seq<u64>)
    decreases ops.len(),
{
    if ops.len() == 0 {
        (w, Seq::empty())
    } else {
        let (w1, out1) = run_spec(w, ops.drop_last());
        let (w2, o) = op_spec(w1, ops.last());
        match o {
            Some(n) => (w2, out1.push(n)),
            None => (w2, out1),
        }
    }
}

/// Whatever the order in which events are delivered, and however often,
/// the watcher submits nonces one by one from the one after its start:
/// strictly increasing, without gap and without repeat.
pub proof fn lemma_submissions_in_nonce_order(w: WatcherView, ops: Seq<WatcherOp>)
    requires
        view_wf(w),
    ensures
        run_spec(w, ops).0.last_seen == w.last_seen + run_spec(w, ops).1.len(),
        view_wf(run_spec(w, ops).0),
        forall|i: int|
            0 <= i < run_spec(w, ops).1.len() ==> #[trigger] run_spec(w, ops).1[i] == w.last_seen
                + 1 + i,
    decreases ops.len(),
{
    if ops.len() > 0 {
        lemma_submissions_in_nonce_order(w, ops.drop_last());
        let (w1, out1) = run_spec(w, ops.drop_last());
        match ops.last() {
            WatcherOp::Deliver(p) => {
                let w2 = observe_spec(w1, p).0;
                assert(w2.pending.dom().finite());
                assert forall|n: u64| #[trigger] w2.pending.contains_key(n) implies n
                    > w2.last_seen by {
                    if n != p.event.nonce() {
                        assert(w1.pending.contains_key(n));
                    }
                }
            },
            WatcherOp::SubmitNext => {
                if has_next(w1) {
                    let w2 = advance_spec(w1);
                    assert forall|n: u64| #[trigger] w2.pending.contains_key(n) implies n
                        > w2.last_seen by {
                        assert(w1.pending.contains_key(n));
                    }
                }
            },
        }
    }
}

/// Buffers out-of-order events and releases them in nonce order.
pub struct EventWatcher {
    last_seen: u64,
    buffer: Vec<PendingEvent>,
}

impl EventWatcher {
    pub closed spec fn view(&self) -> WatcherView {
        WatcherView { last_seen: self.last_seen, pending: pending_map(self.buffer@) }
    }

    pub closed spec fn wf(&self) -> bool {
        &&& unique_nonces(self.buffer@)
        &&& forall|i: int|
            0 <= i < self.buffer@.len() ==> #[trigger] self.buffer@[i].event.nonce()
                > self.last_seen
    }

    /// A well-formed watcher has a well-formed view, so the ordering law
    /// applies to it.
    pub proof fn lemma_view_wf(&self)
        requires
            self.wf(),
        ensures
            view_wf(self.view()),
    {
        lemma_keyed_len(self.buffer@, pending_key());
        assert forall|n: u64| #[trigger] self.view().pending.contains_key(n) implies n > self.last_seen by {
            let k = choose|k: int| 0 <= k < self.buffer@.len() && pending_key()(self.buffer@[k]) == n;
            assert(self.buffer@[k].event.nonce() > self.last_seen);
        }
    }

    /// A watcher that resumes after `last_seen`, with nothing buffered.
    pub fn new(last_seen: u64) -> (r: EventWatcher)
        ensures
            r.wf(),
            r.view().last_seen == last_seen,
            r.view().pending == Map::<u64, PendingEvent>::empty(),
    {
        let r = EventWatcher { last_seen, buffer: Vec::new() };
        assert(r.view().pending =~= Map::<u64, PendingEvent>::empty());
        r
    }

    pub fn last_seen(&self) -> (r: u64)
        ensures
            r == self.view().last_seen,
    {
        self.last_seen
    }

    pub fn buffered(&self) -> (r: usize)
        requires
            self.wf(),
        ensures
            r == self.view().pending.len(),
    {
        proof {
            lemma_keyed_len(self.buffer@, pending_key());
        }
        self.buffer.len()
    }

    /// Delivers one event seen at `now_secs`.
    pub fn observe(&mut self, event: ChainEvent, now_secs: u64) -> (r: ObserveOutcome)
        requires
            old(self).wf(),
        ensures
            final(self).wf(),
            (final(self).view(), r) == observe_spec(
                old(self).view(),
                PendingEvent { event, first_seen_secs: now_secs },
            ),
    {
        let n = event.event_nonce();
        if n <= self.last_seen {
            return ObserveOutcome::Stale;
        }
        match self.find(n) {
            Some(_) => ObserveOutcome::Duplicate,
            None => {
                let p = PendingEvent { event, first_seen_secs: now_secs };
                let ghost old_buf = self.buffer@;
                self.buffer.push(p);
                proof {
                    lemma_keyed_push(old_buf, pending_key(), p);
                }
                ObserveOutcome::Buffered
            },
        }
    }

    /// The index of the buffered event with nonce `n`.
    fn find(&self, n: u64) -> (r: Option<usize>)
        requires
            self.wf(),
        ensures
            r.is_none() <==> !self.view().pending.contains_key(n),
            r matches Some(i) ==> i < self.buffer@.len() && self.buffer@[i as int].event.nonce()
                == n && self.view().pending[n] == self.buffer@[i as int],
    {
        let mut i: usize = 0;
        while i < self.buffer.len()
            invariant
                unique_nonces(self.buffer@),
                i <= self.buffer@.len(),
                forall|j: int| 0 <= j < i ==> #[trigger] self.buffer@[j].event.nonce() != n,
            decreases self.buffer@.len() - i,
        {
            if self.buffer[i].event.event_nonce() == n {
                proof {
                    lemma_pending_at(self.buffer@, i as int);
                }
                return Some(i);
            }
            i = i + 1;
        }
        None
    }

    /// The next event in nonce order, if it has arrived.
    pub fn next_event(&self) -> (r: Option<&PendingEvent>)
        requires
            self.wf(),
        ensures
            r.is_some() == has_next(self.view()),
            r matches Some(p) ==> *p == next_of(self.view()),
    {
        if self.last_seen == u64::MAX {
            return None;
        }
        match self.find(self.last_seen + 1) {
            Some(i) => Some(&self.buffer[i]),
            None => None,
        }
    }

    /// The next event in nonce order, only once the confirmation rule lets
    /// it through: none while it is missing, too shallow and too young, or
    /// while the chain head is unknown.
    pub fn next_confirmed(&self, policy: &ConfirmationPolicy, head: Option<u64>, now_secs: u64) -> (r:
        Option<ChainEvent>)
        requires
            self.wf(),
        ensures
            r.is_some() <==> has_next(self.view()) && status_spec(
                *policy,
                next_of(self.view()).event.height(),
                head,
                elapsed_since(next_of(self.view()).first_seen_secs, now_secs),
            ) == ConfirmationStatus::Confirmed,
            r matches Some(e) ==> e.same_as(&next_of(self.view()).event),
    {
        match self.next_event() {
            None => None,
            Some(p) => {
                let elapsed: u64 = if now_secs >= p.first_seen_secs {
                    now_secs - p.first_seen_secs
                } else {
                    0
                };
                match policy.check(p.event.block_height(), head, elapsed) {
                    ConfirmationStatus::Confirmed => Some(p.event.copy()),
                    _ => None,
                }
            },
        }
    }

    /// Records that the next event was accepted by the hub (or found to be
    /// there already). Returns whether there was one to acknowledge.
    pub fn mark_submitted(&mut self) -> (r: bool)
        requires
            old(self).wf(),
        ensures
            final(self).wf(),
            r == has_next(old(self).view()),
            final(self).view() == advance_spec(old(self).view()),
    {
        if self.last_seen == u64::MAX {
            return false;
        }
        let n = self.last_seen + 1;
        match self.find(n) {
            None => false,
            Some(i) => {
                let ghost old_buf = self.buffer@;
                self.buffer.remove(i);
                self.last_seen = n;
                proof {
                    lemma_keyed_remove(old_buf, pending_key(), i as int);
                }
                true
            },
        }
    }

    /// Takes the hub's last accepted nonce as authoritative: resumes after
    /// it and drops what is buffered at or below it.
    pub fn resync(&mut self, hub_last: u64)
        requires
            old(self).wf(),
        ensures
            final(self).wf(),
            final(self).view() == resync_spec(old(self).view(), hub_last),
    {
        let ghost m_old = pending_map(self.buffer@);
        let mut kept: Vec<PendingEvent> = Vec::new();
        proof {
            assert(pending_map(kept@) =~= kept_target(m_old, pending_map(self.buffer@), hub_last));
        }
        while self.buffer.len() > 0
            invariant
                unique_nonces(self.buffer@),
                unique_nonces(kept@),
                pending_map(self.buffer@).submap_of(m_old),
                pending_map(kept@) == kept_target(m_old, pending_map(self.buffer@), hub_last),
            decreases self.buffer@.len(),
        {
            let ghost buf = self.buffer@;
            let p = self.buffer.pop().unwrap();
            proof {
                assert(buf.remove(buf.len() - 1) =~= self.buffer@);
                lemma_keyed_remove(buf, pending_key(), buf.len() - 1);
                lemma_pending_at(buf, buf.len() - 1);
            }
            if p.event.event_nonce() > hub_last {
                proof {
                    lemma_keyed_push(kept@, pending_key(), p);
                }
                kept.push(p);
            }
            proof {
                assert(pending_map(kept@) =~= kept_target(m_old, pending_map(self.buffer@), hub_last));
            }
        }
        proof {
            assert(pending_map(self.buffer@) =~= Map::<u64, PendingEvent>::empty());
            assert forall|j: int| 0 <= j < kept@.len() implies #[trigger] kept@[j].event.nonce()
                > hub_last by {
                lemma_pending_at(kept@, j);
            }
            assert(pending_map(kept@) =~= m_old.restrict(m_old.dom().filter(|n: u64| n > hub_last)));
        }
        self.buffer = kept;
        self.last_seen = hub_last;
    }
}

/// The buffered events above `hub_last` that have been moved out of `rest`.
pub open spec fn kept_target(
    m_old: Map<u64, PendingEvent>,
    rest: Map<u64, PendingEvent>,
    hub_last: u64,
) -> Map<u64, PendingEvent> {
    Map::new(|n: u64| m_old.contains_key(n) && n > hub_last && !rest.contains_key(n), |n: u64| m_old[n])
}

/// The seconds from `first_seen` to `now`; none if the clock went back.
pub open spec fn elapsed_since(first_seen: u64, now: u64) -> u64 {
    if now >= first_seen {
        (now - first_seen) as u64
    } else {
        0
    }
}

proof fn lemma_pending_at(s: Seq<PendingEvent>, i: int)
    requires
        unique_nonces(s),
        0 <= i < s.len(),
    ensures
        pending_map(s).contains_key(s[i].event.nonce()),
        pending_map(s)[s[i].event.nonce()] == s[i],
{
    lemma_keyed_at(s, pending_key(), i);
}

} // verus!
