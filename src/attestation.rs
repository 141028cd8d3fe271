//! Hub-side aggregation of claims into attestations, weighted by voting
//! power: a claim counts once per orchestrator, and an attestation is
//! observed once its orchestrators hold at least two thirds of the power.
use vstd::prelude::*;
use crate::events::ChainEvent;
use crate::keyed::{keyed_map, lemma_keyed_at, lemma_keyed_push, lemma_keyed_remove, unique_keys};
use crate::types::Valset;

verus! {

/// One voter and its power.
#[derive(Clone, Debug, PartialEq, Eq)]
pub struct VotingMember {
    pub id: String,
    pub power: u64,
}

/// The voters whose claims or signatures count, with their power.
#[derive(Clone, Debug, PartialEq, Eq)]
pub struct PowerTable {
    pub members: Vec<VotingMember>,
}

pub open spec fn sum_power(m: Seq<VotingMember>) -> int
    decreases m.len(),
{
    if m.len() == 0 {
        0
    } else {
        sum_power(m.drop_last()) + m.last().power
    }
}

/// The power of the members of `m` whose id is in `voters`.
pub open spec fn tally(m: Seq<VotingMember>, voters: Set<Seq<char>>) -> int
    decreases m.len(),
{
    if m.len() == 0 {
        0
    } else {
        tally(m.drop_last(), voters) + if voters.contains(m.last().id@) {
            m.last().power as int
        } else {
            0
        }
    }
}

pub open spec fn is_member(m: Seq<VotingMember>, v: Seq<char>) -> bool {
    exists|i: int| 0 <= i < m.len() && m[i].id@ == v
}

pub open spec fn unique_ids(m: Seq<VotingMember>) -> bool {
    forall|i: int, j: int| 0 <= i < m.len() && 0 <= j < m.len() && i != j ==> (#[trigger] m[i]).id@ != (#[trigger] m[j]).id@
}

/// Distinct ids, and a total power that fits in a `u64`.
pub open spec fn table_wf(m: Seq<VotingMember>) -> bool {
    unique_ids(m) && sum_power(m) <= u64::MAX
}

/// At least two thirds of the total.
pub open spec fn reaches_threshold(power: int, total: int) -> bool {
    3 * power >= 2 * total
}

pub proof fn lemma_tally_bounds(m: Seq<VotingMember>, voters: Set<Seq<char>>)
    ensures
        0 <= tally(m, voters) <= sum_power(m),
    decreases m.len(),
{
    if m.len() > 0 {
        lemma_tally_bounds(m.drop_last(), voters);
    }
}

proof fn lemma_tally_non_member(m: Seq<VotingMember>, voters: Set<Seq<char>>, v: Seq<char>)
    requires
        !is_member(m, v),
    ensures
        tally(m, voters.insert(v)) == tally(m, voters),
    decreases m.len(),
{
    if m.len() > 0 {
        let r = m.drop_last();
        assert(!is_member(r, v)) by {
            if is_member(r, v) {
                let i = choose|i: int| 0 <= i < r.len() && r[i].id@ == v;
                assert(m[i].id@ == v);
            }
        }
        lemma_tally_non_member(r, voters, v);
        assert(m.last().id@ != v) by {
            assert(m[m.len() - 1].id@ == m.last().id@);
        }
    }
}

/// Adding a member that had not voted adds exactly its power.
pub proof fn lemma_tally_insert(m: Seq<VotingMember>, voters: Set<Seq<char>>, k: int)
    requires
        unique_ids(m),
        0 <= k < m.len(),
        !voters.contains(m[k].id@),
    ensures
        tally(m, voters.insert(m[k].id@)) == tally(m, voters) + m[k].power,
    decreases m.len(),
{
    let v = m[k].id@;
    let r = m.drop_last();
    assert(unique_ids(r)) by {
        assert forall|i: int, j: int| 0 <= i < r.len() && 0 <= j < r.len() && i != j implies (#[trigger] r[i]).id@ != (#[trigger] r[j]).id@ by {
            assert(r[i] == m[i] && r[j] == m[j]);
        }
    }
    if k == m.len() - 1 {
        assert(!is_member(r, v)) by {
            if is_member(r, v) {
                let i = choose|i: int| 0 <= i < r.len() && r[i].id@ == v;
                assert(m[i].id@ == m[k].id@);
            }
        }
        lemma_tally_non_member(r, voters, v);
    } else {
        assert(r[k] == m[k]);
        lemma_tally_insert(r, voters, k);
        assert(m.last().id@ != v) by {
            assert(m[m.len() - 1].id@ == m.last().id@);
        }
    }
}

impl PowerTable {
    /// The table of a signer set: each member counts under its external
    /// address.
    pub fn from_valset(v: &Valset) -> (r: PowerTable)
        ensures
            r.members@.len() == v.members@.len(),
            forall|i: int|
                #![trigger r.members@[i]]
                0 <= i < v.members@.len() ==> r.members@[i].id@ == v.members@[i].eth_address@
                    && r.members@[i].power == v.members@[i].power,
    {
        let mut out: Vec<VotingMember> = Vec::new();
        let mut i: usize = 0;
        while i < v.members.len()
            invariant
                i <= v.members@.len(),
                out@.len() == i,
                forall|j: int|
                    #![trigger out@[j]]
                    0 <= j < i ==> out@[j].id@ == v.members@[j].eth_address@ && out@[j].power
                        == v.members@[j].power,
            decreases v.members@.len() - i,
        {
            out.push(
                VotingMember { id: v.members[i].eth_address.clone(), power: v.members[i].power },
            );
            i = i + 1;
        }
        PowerTable { members: out }
    }

    /// Checks that ids are distinct and that the total power fits.
    pub fn is_valid(&self) -> (r: bool)
        ensures
            r == table_wf(self.members@),
    {
        let n = self.members.len();
        let mut total: u64 = 0;
        let mut i: usize = 0;
        while i < n
            invariant
                n == self.members@.len(),
                i <= n,
                total == sum_power(self.members@.subrange(0, i as int)),
                forall|a: int, b: int| 0 <= a < i && 0 <= b < n && a != b ==> (#[trigger] self.members@[a]).id@ != (#[trigger] self.members@[b]).id@,
            decreases n - i,
        {
            assert(self.members@.subrange(0, i + 1).drop_last() =~= self.members@.subrange(0, i as int));
            if total > u64::MAX - self.members[i].power {
                proof {
                    lemma_sum_prefix(self.members@, i + 1);
                }
                return false;
            }
            total = total + self.members[i].power;
            let mut j: usize = 0;
            while j < n
                invariant
                    n == self.members@.len(),
                    i < n,
                    j <= n,
                    forall|b: int| 0 <= b < j && b != i ==> self.members@[i as int].id@ != (#[trigger] self.members@[b]).id@,
                decreases n - j,
            {
                if j != i && self.members[i].id == self.members[j].id {
                    return false;
                }
                j = j + 1;
            }
            i = i + 1;
        }
        assert(self.members@.subrange(0, n as int) =~= self.members@);
        true
    }

    /// The total power. Requires a valid table.
    pub fn total_power(&self) -> (r: u64)
        requires
            table_wf(self.members@),
        ensures
            r == sum_power(self.members@),
    {
        let mut total: u64 = 0;
        let mut i: usize = 0;
        while i < self.members.len()
            invariant
                table_wf(self.members@),
                i <= self.members@.len(),
                total == sum_power(self.members@.subrange(0, i as int)),
            decreases self.members@.len() - i,
        {
            assert(self.members@.subrange(0, i + 1).drop_last() =~= self.members@.subrange(0, i as int));
            proof {
                lemma_sum_prefix(self.members@, i + 1);
            }
            total = total + self.members[i].power;
            i = i + 1;
        }
        assert(self.members@.subrange(0, i as int) =~= self.members@);
        total
    }

    /// The position of the member with this id.
    pub fn position(&self, id: &String) -> (r: Option<usize>)
        ensures
            r.is_none() <==> !is_member(self.members@, id@),
            r matches Some(k) ==> k < self.members@.len() && self.members@[k as int].id@ == id@,
    {
        let mut i: usize = 0;
        while i < self.members.len()
            invariant
                i <= self.members@.len(),
                forall|j: int| 0 <= j < i ==> (#[trigger] self.members@[j]).id@ != id@,
            decreases self.members@.len() - i,
        {
            if self.members[i].id == *id {
                return Some(i);
            }
            i = i + 1;
        }
        None
    }
}

/// A prefix never weighs more than the whole.
pub proof fn lemma_sum_prefix(m: Seq<VotingMember>, k: int)
    requires
        0 <= k <= m.len(),
    ensures
        sum_power(m.subrange(0, k)) <= sum_power(m),
    decreases m.len() - k,
{
    if k < m.len() {
        lemma_sum_prefix(m, k + 1);
        assert(m.subrange(0, k + 1).drop_last() =~= m.subrange(0, k));
    } else {
        assert(m.subrange(0, k) =~= m);
    }
}

/// What the aggregator knows of one attestation.
pub struct AttestationView {
    pub observed: bool,
    pub voters: Set<Seq<char>>,
    pub power: int,
    pub height: u64,
    pub event: ChainEvent,
}

/// The outcome of one claim handed to the aggregator.
#[derive(Clone, Copy, Debug, PartialEq, Eq, Structural)]
pub enum VoteOutcome {
    /// Counted; the attestation was already observed or is still short.
    Counted,
    /// Counted, and this vote made the attestation observed.
    Observed,
    /// This orchestrator's vote was already counted: nothing changes.
    AlreadyVoted,
    /// The claimant holds no power in the table: nothing changes.
    UnknownVoter,
    /// Same nonce, different content: rejected and surfaced.
    Conflict,
}

/// An attestation that no one has voted for yet.
pub open spec fn fresh_view(event: ChainEvent, m: Seq<VotingMember>, height: u64) -> AttestationView {
    AttestationView {
        observed: reaches_threshold(0, sum_power(m)),
        voters: Set::empty(),
        power: 0,
        height,
        event,
    }
}

/// One claim, by `voter`, for `event`, arriving at hub height `height`.
pub open spec fn vote_spec(
    a: AttestationView,
    m: Seq<VotingMember>,
    voter: Seq<char>,
    event: ChainEvent,
    height: u64,
) -> (AttestationView, VoteOutcome) {
    if !is_member(m, voter) {
        (a, VoteOutcome::UnknownVoter)
    } else if !event.same_as(&a.event) {
        (a, VoteOutcome::Conflict)
    } else if a.voters.contains(voter) {
        (a, VoteOutcome::AlreadyVoted)
    } else {
        let voters = a.voters.insert(voter);
        let power = tally(m, voters);
        let observed = reaches_threshold(power, sum_power(m));
        let crossed = observed && !a.observed;
        (
            AttestationView {
                observed,
                voters,
                power,
                height: if crossed {
                    height
                } else {
                    a.height
                },
                event: a.event,
            },
            if crossed {
                VoteOutcome::Observed
            } else {
                VoteOutcome::Counted
            },
        )
    }
}

/// Power is the tally of the distinct voters, and `observed` holds exactly
/// when that reaches two thirds of the total.
pub open spec fn view_wf(a: AttestationView, m: Seq<VotingMember>) -> bool {
    &&& a.voters.finite()
    &&& a.power == tally(m, a.voters)
    &&& a.observed == reaches_threshold(a.power, sum_power(m))
}

/// An aggregate of matching claims for one event nonce.
pub struct Attestation {
    observed: bool,
    votes: Vec<String>,
    height: u64,
    event: ChainEvent,
    power: u64,
}

pub open spec fn voter_set(votes: Seq<String>) -> Set<Seq<char>> {
    Set::new(|v: Seq<char>| exists|i: int| 0 <= i < votes.len() && votes[i]@ == v)
}

/// Whether `s` is in the list, compared by characters.
pub fn listed(list: &Vec<String>, s: &String) -> (r: bool)
    ensures
        r == voter_set(list@).contains(s@),
{
    let mut i: usize = 0;
    while i < list.len()
        invariant
            i <= list@.len(),
            forall|j: int| 0 <= j < i ==> (#[trigger] list@[j])@ != s@,
        decreases list@.len() - i,
    {
        if list[i] == *s {
            assert(voter_set(list@).contains(s@));
            return true;
        }
        i = i + 1;
    }
    false
}

impl Attestation {
    pub closed spec fn view(&self) -> AttestationView {
        AttestationView {
            observed: self.observed,
            voters: voter_set(self.votes@),
            power: self.power as int,
            height: self.height,
            event: self.event,
        }
    }

    pub closed spec fn wf(&self, m: Seq<VotingMember>) -> bool {
        view_wf(self.view(), m)
    }

    pub proof fn lemma_view_wf(&self, m: Seq<VotingMember>)
        requires
            self.wf(m),
        ensures
            view_wf(self.view(), m),
    {
    }

    /// The attestation that the first vote, of `voter` for `event`, opens.
    pub fn open(table: &PowerTable, voter: &String, event: ChainEvent, height: u64) -> (r: (
        Attestation,
        VoteOutcome,
    ))
        requires
            table_wf(table.members@),
            is_member(table.members@, voter@),
        ensures
            r.0.wf(table.members@),
            (r.0.view(), r.1) == vote_spec(
                fresh_view(event, table.members@, height),
                table.members@,
                voter@,
                event,
                height,
            ),
    {
        let total = table.total_power();
        let k = table.position(voter).unwrap();
        let power = table.members[k].power;
        let ghost m = table.members@;
        proof {
            lemma_tally_insert(m, Set::empty(), k as int);
            assert(Set::<Seq<char>>::empty().insert(voter@) == Set::<Seq<char>>::empty().insert(m[k as int].id@));
            assert(tally(m, Set::empty()) == 0) by {
                lemma_tally_bounds(m, Set::empty());
                lemma_tally_empty(m);
            }
        }
        let observed = 3 * (power as u128) >= 2 * (total as u128);
        let was = total == 0;
        let votes = vec![voter.clone()];
        let a = Attestation { observed, votes, height, event, power };
        proof {
            assert(voter_set(a.votes@) =~= Set::<Seq<char>>::empty().insert(voter@)) by {
                assert(a.votes@[0]@ == voter@);
            }
            assert(is_member(m, voter@));
            assert(a.event.same_as(&a.event));
        }
        let outcome = if observed && !was {
            VoteOutcome::Observed
        } else {
            VoteOutcome::Counted
        };
        (a, outcome)
    }

    pub fn is_observed(&self) -> (r: bool)
        ensures
            r == self.view().observed,
    {
        self.observed
    }

    pub fn power(&self) -> (r: u64)
        ensures
            r == self.view().power,
    {
        self.power
    }

    pub fn height(&self) -> (r: u64)
        ensures
            r == self.view().height,
    {
        self.height
    }

    pub fn event(&self) -> (r: &ChainEvent)
        ensures
            *r == self.view().event,
    {
        &self.event
    }

    pub fn votes(&self) -> (r: &Vec<String>)
        ensures
            voter_set(r@) == self.view().voters,
    {
        &self.votes
    }

    fn has_voted(&self, voter: &String) -> (r: bool)
        ensures
            r == self.view().voters.contains(voter@),
    {
        listed(&self.votes, voter)
    }

    /// Counts a claim of `voter` for `event`, arriving at hub height
    /// `height`.
    pub fn add_vote(&mut self, table: &PowerTable, voter: &String, event: &ChainEvent, height: u64) -> (r:
        VoteOutcome)
        requires
            table_wf(table.members@),
            old(self).wf(table.members@),
        ensures
            final(self).wf(table.members@),
            (final(self).view(), r) == vote_spec(old(self).view(), table.members@, voter@, *event, height),
    {
        let ghost m = table.members@;
        let k = match table.position(voter) {
            None => return VoteOutcome::UnknownVoter,
            Some(k) => k,
        };
        if !event.matches(&self.event) {
            return VoteOutcome::Conflict;
        }
        if self.has_voted(voter) {
            return VoteOutcome::AlreadyVoted;
        }
        let total = table.total_power();
        let ghost old_voters = voter_set(self.votes@);
        proof {
            lemma_tally_insert(m, old_voters, k as int);
            lemma_tally_bounds(m, old_voters.insert(voter@));
        }
        self.power = self.power + table.members[k].power;
        self.votes.push(voter.clone());
        proof {
            assert(voter_set(self.votes@) =~= old_voters.insert(voter@)) by {
                assert forall|v: Seq<char>| voter_set(self.votes@).contains(v) implies old_voters.insert(voter@).contains(v) by {
                    let i = choose|i: int| 0 <= i < self.votes@.len() && self.votes@[i]@ == v;
                    if i < self.votes@.len() - 1 {
                        assert(self.votes@[i] == old(self).votes@[i]);
                    }
                }
                assert forall|v: Seq<char>| old_voters.insert(voter@).contains(v) implies voter_set(self.votes@).contains(v) by {
                    if v == voter@ {
                        assert(self.votes@[self.votes@.len() - 1]@ == v);
                    } else {
                        let i = choose|i: int| 0 <= i < old(self).votes@.len() && old(self).votes@[i]@ == v;
                        assert(self.votes@[i] == old(self).votes@[i]);
                    }
                }
            }
        }
        let observed = 3 * (self.power as u128) >= 2 * (total as u128);
        let crossed = observed && !self.observed;
        self.observed = observed;
        if crossed {
            self.height = height;
            VoteOutcome::Observed
        } else {
            VoteOutcome::Counted
        }
    }
}

/// One claim as it reaches the aggregator.
pub struct Arrival {
    pub voter: Seq<char>,
    pub event: ChainEvent,
    pub height: u64,
}

/// The attestation after a run of arrivals, in order.
pub open spec fn arrive_all(a: AttestationView, m: Seq<VotingMember>, xs: Seq<Arrival>) -> AttestationView
    decreases xs.len(),
{
    if xs.len() == 0 {
        a
    } else {
        let x = xs.last();
        vote_spec(arrive_all(a, m, xs.drop_last()), m, x.voter, x.event, x.height).0
    }
}

/// The (orchestrator, content) pairs of a run.
pub open spec fn pairs(xs: Seq<Arrival>) -> Set<(Seq<char>, ChainEvent)> {
    Set::new(
        |pe: (Seq<char>, ChainEvent)|
            exists|i: int| 0 <= i < xs.len() && xs[i].voter == pe.0 && xs[i].event == pe.1,
    )
}

/// The members of the table that sent a claim matching `e` in the run.
pub open spec fn matching_voters(xs: Seq<Arrival>, m: Seq<VotingMember>, e: ChainEvent) -> Set<Seq<char>> {
    Set::new(
        |v: Seq<char>|
            is_member(m, v) && exists|i: int|
                0 <= i < xs.len() && xs[i].voter == v && (#[trigger] xs[i].event).same_as(&e),
    )
}

/// After any run, the attestation holds exactly the members that sent a
/// matching claim, counted once each, with the power and the observed flag
/// that they give.
pub proof fn lemma_arrivals_accumulate(a: AttestationView, m: Seq<VotingMember>, xs: Seq<Arrival>)
    requires
        table_wf(m),
        view_wf(a, m),
    ensures
        view_wf(arrive_all(a, m, xs), m),
        arrive_all(a, m, xs).event == a.event,
        arrive_all(a, m, xs).voters == a.voters.union(matching_voters(xs, m, a.event)),
    decreases xs.len(),
{
    if xs.len() > 0 {
        let r = xs.drop_last();
        lemma_arrivals_accumulate(a, m, r);
        let b = arrive_all(a, m, r);
        let x = xs.last();
        let lhs = arrive_all(a, m, xs).voters;
        let rhs = a.voters.union(matching_voters(xs, m, a.event));
        assert forall|v: Seq<char>| lhs.contains(v) <==> rhs.contains(v) by {
            if matching_voters(r, m, a.event).contains(v) {
                let i = choose|i: int|
                    0 <= i < r.len() && r[i].voter == v && (#[trigger] r[i].event).same_as(&a.event);
                assert(xs[i] == r[i]);
            }
            if matching_voters(xs, m, a.event).contains(v) {
                let i = choose|i: int|
                    0 <= i < xs.len() && xs[i].voter == v && (#[trigger] xs[i].event).same_as(&a.event);
                if i < r.len() {
                    assert(r[i] == xs[i]);
                    assert(matching_voters(r, m, a.event).contains(v));
                } else {
                    assert(xs[i] == x);
                }
            }
            if v == x.voter && is_member(m, v) && x.event.same_as(&a.event) {
                assert(xs[xs.len() - 1] == x);
            }
        }
        assert(lhs =~= rhs);
        let (c, _) = vote_spec(b, m, x.voter, x.event, x.height);
        assert(c.voters.finite());
    }
}

/// Arrival order does not matter: two runs with the same set of
/// (orchestrator, content) pairs leave the same voters, power and observed
/// flag.
pub proof fn lemma_accumulation_commutes(
    a: AttestationView,
    m: Seq<VotingMember>,
    xs: Seq<Arrival>,
    ys: Seq<Arrival>,
)
    requires
        table_wf(m),
        view_wf(a, m),
        pairs(xs) == pairs(ys),
    ensures
        arrive_all(a, m, xs).voters == arrive_all(a, m, ys).voters,
        arrive_all(a, m, xs).power == arrive_all(a, m, ys).power,
        arrive_all(a, m, xs).observed == arrive_all(a, m, ys).observed,
{
    lemma_arrivals_accumulate(a, m, xs);
    lemma_arrivals_accumulate(a, m, ys);
    lemma_matching_by_pairs(xs, ys, m, a.event);
    lemma_matching_by_pairs(ys, xs, m, a.event);
    assert(matching_voters(xs, m, a.event) =~= matching_voters(ys, m, a.event));
}

proof fn lemma_matching_by_pairs(xs: Seq<Arrival>, ys: Seq<Arrival>, m: Seq<VotingMember>, e: ChainEvent)
    requires
        pairs(xs) == pairs(ys),
    ensures
        matching_voters(xs, m, e).subset_of(matching_voters(ys, m, e)),
{
    assert forall|v: Seq<char>| matching_voters(xs, m, e).contains(v) implies matching_voters(ys, m, e).contains(v) by {
        let i = choose|i: int| 0 <= i < xs.len() && xs[i].voter == v && (#[trigger] xs[i].event).same_as(&e);
        assert(pairs(xs).contains((v, xs[i].event)));
        assert(pairs(ys).contains((v, xs[i].event)));
        let j = choose|j: int| 0 <= j < ys.len() && ys[j].voter == v && ys[j].event == xs[i].event;
        assert(ys[j].event.same_as(&e));
    }
}

/// Starting from no votes, an attestation is observed exactly when the
/// distinct members that sent a matching claim hold at least two thirds of
/// the total power.
pub proof fn lemma_threshold_correct(e: ChainEvent, m: Seq<VotingMember>, height: u64, xs: Seq<Arrival>)
    requires
        table_wf(m),
        sum_power(m) > 0,
    ensures
        arrive_all(fresh_view(e, m, height), m, xs).observed <==> 3 * tally(
            m,
            matching_voters(xs, m, e),
        ) >= 2 * sum_power(m),
        arrive_all(fresh_view(e, m, height), m, xs).power == tally(m, matching_voters(xs, m, e)),
{
    let a = fresh_view(e, m, height);
    lemma_tally_empty(m);
    lemma_arrivals_accumulate(a, m, xs);
    assert(a.voters.union(matching_voters(xs, m, e)) =~= matching_voters(xs, m, e));
}

proof fn lemma_tally_empty(m: Seq<VotingMember>)
    ensures
        tally(m, Set::empty()) == 0,
    decreases m.len(),
{
    if m.len() > 0 {
        lemma_tally_empty(m.drop_last());
    }
}

} // verus!
