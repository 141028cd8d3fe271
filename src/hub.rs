//! The hub's rules that the orchestrator relies on for retries: claims
//! accepted strictly in nonce order per orchestrator, and aggregated by
//! event nonce into attestations.
use vstd::prelude::*;
use crate::attestation::{
    Attestation, AttestationView, PowerTable, VoteOutcome, VotingMember, fresh_view, table_wf,
    vote_spec,
};
use crate::events::{ChainEvent, Claim};
use crate::keyed::{keyed_map, lemma_keyed_at, lemma_keyed_push, lemma_keyed_remove, unique_keys};

verus! {

/// Where a claim's nonce stands against the last one accepted from the same
/// orchestrator.
#[derive(Clone, Copy, Debug, PartialEq, Eq, Structural)]
pub enum NonceCheck {
    /// Exactly one above: it is the next claim.
    Next,
    /// At or below: already delivered.
    AlreadyAccepted,
    /// More than one above: a gap, with the nonce that is due.
    Gap { expected: u64 },
}

pub open spec fn nonce_check_spec(last: u64, nonce: u64) -> NonceCheck {
    if nonce <= last {
        NonceCheck::AlreadyAccepted
    } else if nonce == last + 1 {
        NonceCheck::Next
    } else {
        NonceCheck::Gap { expected: (last + 1) as u64 }
    }
}

/// Classifies `nonce` against the last accepted one; the submitter runs the
/// same test before it sends.
pub fn check_nonce(last: u64, nonce: u64) -> (r: NonceCheck)
    ensures
        r == nonce_check_spec(last, nonce),
{
    if nonce <= last {
        NonceCheck::AlreadyAccepted
    } else if nonce == last + 1 {
        NonceCheck::Next
    } else {
        NonceCheck::Gap { expected: last + 1 }
    }
}

/// The hub's answer to a submitted claim.
#[derive(Clone, Copy, Debug, PartialEq, Eq, Structural)]
pub enum ClaimResult {
    /// Accepted and counted toward its attestation.
    Accepted,
    /// Accepted, and its vote made the attestation observed.
    Observed,
    /// Its nonce was accepted before: nothing changes.
    Duplicate,
    /// Its nonce skips ahead: nothing changes.
    NonceGap { expected: u64 },
    /// The claimant holds no voting power: nothing changes.
    UnknownOrchestrator,
    /// Same nonce as an attestation with other content: nothing changes.
    Conflict,
}

/// The hub's state as the orchestrator models it.
pub struct HubView {
    /// Last accepted event nonce, by orchestrator.
    pub last_nonces: Map<Seq<char>, u64>,
    /// Attestations, by event nonce.
    pub attestations: Map<u64, AttestationView>,
}

pub open spec fn last_nonce_of(h: HubView, o: Seq<char>) -> u64 {
    if h.last_nonces.contains_key(o) {
        h.last_nonces[o]
    } else {
        0
    }
}

/// The attestation that a claim for `e` is counted in.
pub open spec fn target_of(h: HubView, m: Seq<VotingMember>, e: ChainEvent, height: u64) -> AttestationView {
    if h.attestations.contains_key(e.nonce()) {
        h.attestations[e.nonce()]
    } else {
        fresh_view(e, m, height)
    }
}

/// One claim of orchestrator `o` reporting `e`, at hub height `height`.
pub open spec fn submit_spec(
    h: HubView,
    m: Seq<VotingMember>,
    o: Seq<char>,
    e: ChainEvent,
    height: u64,
) -> (HubView, ClaimResult) {
    match nonce_check_spec(last_nonce_of(h, o), e.nonce()) {
        NonceCheck::AlreadyAccepted => (h, ClaimResult::Duplicate),
        NonceCheck::Gap { expected } => (h, ClaimResult::NonceGap { expected }),
        NonceCheck::Next => {
            let (a, v) = vote_spec(target_of(h, m, e, height), m, o, e, height);
            match v {
                VoteOutcome::UnknownVoter => (h, ClaimResult::UnknownOrchestrator),
                VoteOutcome::Conflict => (h, ClaimResult::Conflict),
                _ => (
                    HubView {
                        last_nonces: h.last_nonces.insert(o, e.nonce()),
                        attestations: h.attestations.insert(e.nonce(), a),
                    },
                    if v == VoteOutcome::Observed {
                        ClaimResult::Observed
                    } else {
                        ClaimResult::Accepted
                    },
                ),
            }
        },
    }
}

/// Submitting a claim a second time leaves the hub as one submission left
/// it, and is answered as a duplicate whenever the first was taken.
pub proof fn lemma_resubmission_idempotent(
    h: HubView,
    m: Seq<VotingMember>,
    o: Seq<char>,
    e: ChainEvent,
    height1: u64,
    height2: u64,
)
    ensures
        submit_spec(submit_spec(h, m, o, e, height1).0, m, o, e, height2).0 == submit_spec(
            h,
            m,
            o,
            e,
            height1,
        ).0,
        (submit_spec(h, m, o, e, height1).1 == ClaimResult::Accepted || submit_spec(
            h,
            m,
            o,
            e,
            height1,
        ).1 == ClaimResult::Observed || submit_spec(h, m, o, e, height1).1
            == ClaimResult::Duplicate) ==> submit_spec(
            submit_spec(h, m, o, e, height1).0,
            m,
            o,
            e,
            height2,
        ).1 == ClaimResult::Duplicate,
{
    let h1 = submit_spec(h, m, o, e, height1).0;
    if h1 != h {
        assert(h1.last_nonces.contains_key(o));
        assert(last_nonce_of(h1, o) == e.nonce());
    }
}

/// One entry of the nonce ledger.
#[derive(Clone, Debug, PartialEq, Eq)]
pub struct LedgerEntry {
    pub orchestrator: String,
    pub last_nonce: u64,
}

pub open spec fn entry_key() -> spec_fn(LedgerEntry) -> Seq<char> {
    |e: LedgerEntry| e.orchestrator@
}

pub open spec fn attestation_key() -> spec_fn(Attestation) -> u64 {
    |a: Attestation| a.view().event.nonce()
}

pub open spec fn ledger_view(s: Seq<LedgerEntry>) -> Map<Seq<char>, u64> {
    let km = keyed_map(s, entry_key());
    Map::new(|o: Seq<char>| km.contains_key(o), |o: Seq<char>| km[o].last_nonce)
}

pub open spec fn book_view(s: Seq<Attestation>) -> Map<u64, AttestationView> {
    let km = keyed_map(s, attestation_key());
    Map::new(|n: u64| km.contains_key(n), |n: u64| km[n].view())
}

/// The hub-side state: each orchestrator's last accepted nonce and the
/// attestations by nonce, over a fixed power table.
pub struct Hub {
    table: PowerTable,
    ledger: Vec<LedgerEntry>,
    book: Vec<Attestation>,
}

impl Hub {
    pub closed spec fn view(&self) -> HubView {
        HubView { last_nonces: ledger_view(self.ledger@), attestations: book_view(self.book@) }
    }

    pub closed spec fn members(&self) -> Seq<VotingMember> {
        self.table.members@
    }

    pub closed spec fn wf(&self) -> bool {
        &&& table_wf(self.table.members@)
        &&& unique_keys(self.ledger@, entry_key())
        &&& unique_keys(self.book@, attestation_key())
        &&& forall|i: int| 0 <= i < self.book@.len() ==> (#[trigger] self.book@[i]).wf(self.table.members@)
    }

    /// Every attestation of a well-formed hub is well formed.
    pub proof fn lemma_attestations_wf(&self, n: u64)
        requires
            self.wf(),
            self.view().attestations.contains_key(n),
        ensures
            crate::attestation::view_wf(self.view().attestations[n], self.members()),
    {
        let k = choose|k: int| 0 <= k < self.book@.len() && attestation_key()(self.book@[k]) == n;
        lemma_keyed_at(self.book@, attestation_key(), k);
        assert(self.book@[k].wf(self.table.members@));
        self.book@[k].lemma_view_wf(self.table.members@);
    }

    /// A hub with no claims yet. Returns `None` when the table has a
    /// repeated id or a total power that does not fit in a `u64`.
    pub fn new(table: PowerTable) -> (r: Option<Hub>)
        ensures
            r.is_some() == table_wf(table.members@),
            r matches Some(h) ==> h.wf() && h.members() == table.members@
                && h.view().last_nonces == Map::<Seq<char>, u64>::empty()
                && h.view().attestations == Map::<u64, AttestationView>::empty(),
    {
        if !table.is_valid() {
            return None;
        }
        let h = Hub { table, ledger: Vec::new(), book: Vec::new() };
        assert(h.view().last_nonces =~= Map::<Seq<char>, u64>::empty());
        assert(h.view().attestations =~= Map::<u64, AttestationView>::empty());
        Some(h)
    }

    fn ledger_index(&self, o: &String) -> (r: Option<usize>)
        requires
            unique_keys(self.ledger@, entry_key()),
        ensures
            r.is_none() <==> !self.view().last_nonces.contains_key(o@),
            r matches Some(i) ==> i < self.ledger@.len() && self.ledger@[i as int].orchestrator@ == o@
                && self.view().last_nonces[o@] == self.ledger@[i as int].last_nonce,
    {
        let mut i: usize = 0;
        while i < self.ledger.len()
            invariant
                unique_keys(self.ledger@, entry_key()),
                i <= self.ledger@.len(),
                forall|j: int| 0 <= j < i ==> (#[trigger] self.ledger@[j]).orchestrator@ != o@,
            decreases self.ledger@.len() - i,
        {
            if self.ledger[i].orchestrator == *o {
                proof {
                    lemma_keyed_at(self.ledger@, entry_key(), i as int);
                }
                return Some(i);
            }
            i = i + 1;
        }
        proof {
            if keyed_map(self.ledger@, entry_key()).contains_key(o@) {
                let k = choose|k: int| 0 <= k < self.ledger@.len() && entry_key()(self.ledger@[k]) == o@;
                assert(self.ledger@[k].orchestrator@ != o@);
            }
        }
        None
    }

    fn book_index(&self, n: u64) -> (r: Option<usize>)
        requires
            unique_keys(self.book@, attestation_key()),
        ensures
            r.is_none() <==> !self.view().attestations.contains_key(n),
            r matches Some(i) ==> i < self.book@.len() && self.book@[i as int].view().event.nonce() == n
                && self.view().attestations[n] == self.book@[i as int].view(),
    {
        let mut i: usize = 0;
        while i < self.book.len()
            invariant
                unique_keys(self.book@, attestation_key()),
                i <= self.book@.len(),
                forall|j: int| 0 <= j < i ==> (#[trigger] self.book@[j]).view().event.nonce() != n,
            decreases self.book@.len() - i,
        {
            if self.book[i].event().event_nonce() == n {
                proof {
                    lemma_keyed_at(self.book@, attestation_key(), i as int);
                }
                return Some(i);
            }
            i = i + 1;
        }
        proof {
            if keyed_map(self.book@, attestation_key()).contains_key(n) {
                let k = choose|k: int| 0 <= k < self.book@.len() && attestation_key()(self.book@[k]) == n;
                assert(self.book@[k].view().event.nonce() != n);
            }
        }
        None
    }

    /// The last nonce accepted from `o`; 0 before any.
    pub fn last_nonce(&self, o: &String) -> (r: u64)
        requires
            self.wf(),
        ensures
            r == last_nonce_of(self.view(), o@),
    {
        match self.ledger_index(o) {
            Some(i) => self.ledger[i].last_nonce,
            None => 0,
        }
    }

    /// The attestation for event nonce `n`, if any claim opened one.
    pub fn attestation(&self, n: u64) -> (r: Option<&Attestation>)
        requires
            self.wf(),
        ensures
            r.is_some() == self.view().attestations.contains_key(n),
            r matches Some(a) ==> a.view() == self.view().attestations[n],
    {
        match self.book_index(n) {
            Some(i) => Some(&self.book[i]),
            None => None,
        }
    }

    /// Handles one claim arriving at hub height `height`.
    pub fn submit(&mut self, claim: Claim, height: u64) -> (r: ClaimResult)
        requires
            old(self).wf(),
        ensures
            final(self).wf(),
            final(self).members() == old(self).members(),
            (final(self).view(), r) == submit_spec(
                old(self).view(),
                old(self).members(),
                claim.claimant(),
                claim.event_of(),
                height,
            ),
    {
        let (event, orchestrator) = claim.into_parts();
        let o = &orchestrator;
        let n = event.event_nonce();
        let last = self.last_nonce(o);
        match check_nonce(last, n) {
            NonceCheck::AlreadyAccepted => return ClaimResult::Duplicate,
            NonceCheck::Gap { expected } => return ClaimResult::NonceGap { expected },
            NonceCheck::Next => {},
        }
        let ghost h = self.view();
        let ghost m = self.table.members@;
        if self.table.position(o).is_none() {
            return ClaimResult::UnknownOrchestrator;
        }
        let outcome = match self.book_index(n) {
            Some(i) => {
                if !event.matches(self.book[i].event()) {
                    return ClaimResult::Conflict;
                }
                let ghost old_book = self.book@;
                let mut a = self.book.remove(i);
                proof {
                    lemma_keyed_remove(old_book, attestation_key(), i as int);
                    assert(a == old_book[i as int]);
                    assert(a.wf(m));
                }
                let v = a.add_vote(&self.table, o, &event, height);
                let ghost mid = self.book@;
                proof {
                    assert(!keyed_map(mid, attestation_key()).contains_key(attestation_key()(a)));
                    lemma_keyed_push(mid, attestation_key(), a);
                }
                self.book.push(a);
                proof {
                    assert(book_view(self.book@) =~= h.attestations.insert(n, a.view()));
                }
                v
            },
            None => {
                let (a, v) = Attestation::open(&self.table, o, event, height);
                let ghost mid = self.book@;
                proof {
                    lemma_keyed_push(mid, attestation_key(), a);
                }
                self.book.push(a);
                proof {
                    assert(book_view(self.book@) =~= h.attestations.insert(n, a.view()));
                }
                v
            },
        };
        self.set_last_nonce(o, n);
        if outcome == VoteOutcome::Observed {
            ClaimResult::Observed
        } else {
            ClaimResult::Accepted
        }
    }

    fn set_last_nonce(&mut self, o: &String, n: u64)
        requires
            old(self).wf(),
        ensures
            final(self).wf(),
            final(self).table == old(self).table,
            final(self).book == old(self).book,
            final(self).view().last_nonces == old(self).view().last_nonces.insert(o@, n),
    {
        let ghost before = self.ledger@;
        let entry = LedgerEntry { orchestrator: o.clone(), last_nonce: n };
        match self.ledger_index(o) {
            Some(i) => {
                self.ledger.remove(i);
                proof {
                    lemma_keyed_remove(before, entry_key(), i as int);
                }
            },
            None => {},
        }
        let ghost mid = self.ledger@;
        proof {
            lemma_keyed_push(mid, entry_key(), entry);
        }
        self.ledger.push(entry);
        proof {
            assert(ledger_view(self.ledger@) =~= ledger_view(before).insert(o@, n));
        }
    }
}

} // verus!
