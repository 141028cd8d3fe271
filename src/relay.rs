//! Signature tallies over confirmation records: a batch or a signer set may
//! be relayed once members holding two thirds of the power have signed it.
use vstd::prelude::*;
use crate::attestation::{
    PowerTable, lemma_sum_prefix, lemma_tally_bounds, listed, reaches_threshold, sum_power, table_wf,
    tally, voter_set,
};
use crate::types::{MsgConfirmBatch, MsgValsetConfirm};

verus! {

/// The power of the table members whose id is among `signers`, each
/// counted once.
pub fn signed_power(table: &PowerTable, signers: &Vec<String>) -> (r: u64)
    requires
        table_wf(table.members@),
    ensures
        r == tally(table.members@, voter_set(signers@)),
{
    let ghost m = table.members@;
    let ghost set = voter_set(signers@);
    let mut total: u64 = 0;
    let mut i: usize = 0;
    while i < table.members.len()
        invariant
            table_wf(m),
            m == table.members@,
            set == voter_set(signers@),
            i <= m.len(),
            total == tally(m.subrange(0, i as int), set),
        decreases m.len() - i,
    {
        let id = &table.members[i].id;
        let signed = listed(signers, id);
        proof {
            assert(m.subrange(0, i + 1).drop_last() =~= m.subrange(0, i as int));
            assert(m.subrange(0, i + 1).last() == m[i as int]);
            lemma_tally_bounds(m.subrange(0, i + 1), set);
            lemma_sum_prefix(m, i + 1);
        }
        if signed {
            total = total + table.members[i].power;
        }
        i = i + 1;
    }
    assert(m.subrange(0, i as int) =~= m);
    total
}

/// The external signers that confirmed batch `nonce` of `token`.
pub open spec fn batch_signers_spec(confirms: Seq<MsgConfirmBatch>, nonce: u64, token: Seq<char>) -> Set<Seq<char>> {
    Set::new(
        |v: Seq<char>|
            exists|i: int|
                0 <= i < confirms.len() && (#[trigger] confirms[i]).nonce == nonce
                    && confirms[i].token_contract@ == token && confirms[i].eth_signer@ == v,
    )
}

/// The external addresses that confirmed signer set `nonce`.
pub open spec fn valset_signers_spec(confirms: Seq<MsgValsetConfirm>, nonce: u64) -> Set<Seq<char>> {
    Set::new(
        |v: Seq<char>|
            exists|i: int| 0 <= i < confirms.len() && (#[trigger] confirms[i]).nonce == nonce && confirms[i].eth_address@ == v,
    )
}

/// The signers of the confirmations that are for batch `nonce` of `token`.
pub fn batch_signers(confirms: &Vec<MsgConfirmBatch>, nonce: u64, token: &String) -> (r: Vec<String>)
    ensures
        voter_set(r@) == batch_signers_spec(confirms@, nonce, token@),
{
    let mut r: Vec<String> = Vec::new();
    let mut i: usize = 0;
    while i < confirms.len()
        invariant
            i <= confirms@.len(),
            voter_set(r@) == batch_signers_spec(confirms@.subrange(0, i as int), nonce, token@),
        decreases confirms@.len() - i,
    {
        let c = &confirms[i];
        let ghost before = r@;
        let ghost pre = confirms@.subrange(0, i as int);
        let ghost cur = confirms@.subrange(0, i + 1);
        let takes = c.nonce == nonce && c.token_contract == *token;
        if takes {
            r.push(c.eth_signer.clone());
        }
        proof {
            assert forall|v: Seq<char>| voter_set(r@).contains(v) <==> batch_signers_spec(cur, nonce, token@).contains(v) by {
                if voter_set(r@).contains(v) {
                    let q = choose|q: int| 0 <= q < r@.len() && r@[q]@ == v;
                    if q < before.len() {
                        assert(r@[q] == before[q]);
                        assert(voter_set(before).contains(v));
                        let j = choose|j: int| 0 <= j < pre.len() && (#[trigger] pre[j]).nonce == nonce
                            && pre[j].token_contract@ == token@ && pre[j].eth_signer@ == v;
                        assert(cur[j] == pre[j]);
                    } else {
                        assert(cur[i as int] == confirms@[i as int]);
                    }
                }
                if batch_signers_spec(cur, nonce, token@).contains(v) {
                    let j = choose|j: int| 0 <= j < cur.len() && (#[trigger] cur[j]).nonce == nonce
                        && cur[j].token_contract@ == token@ && cur[j].eth_signer@ == v;
                    if j < i {
                        assert(pre[j] == cur[j]);
                        assert(batch_signers_spec(pre, nonce, token@).contains(v));
                        let q = choose|q: int| 0 <= q < before.len() && before[q]@ == v;
                        assert(r@[q] == before[q]);
                    } else {
                        assert(cur[j] == confirms@[i as int]);
                        assert(r@[r@.len() - 1]@ == v);
                    }
                }
            }
            assert(voter_set(r@) =~= batch_signers_spec(cur, nonce, token@));
        }
        i = i + 1;
    }
    assert(confirms@.subrange(0, i as int) =~= confirms@);
    r
}

/// The signers of the confirmations that are for signer set `nonce`.
pub fn valset_signers(confirms: &Vec<MsgValsetConfirm>, nonce: u64) -> (r: Vec<String>)
    ensures
        voter_set(r@) == valset_signers_spec(confirms@, nonce),
{
    let mut r: Vec<String> = Vec::new();
    let mut i: usize = 0;
    while i < confirms.len()
        invariant
            i <= confirms@.len(),
            voter_set(r@) == valset_signers_spec(confirms@.subrange(0, i as int), nonce),
        decreases confirms@.len() - i,
    {
        let c = &confirms[i];
        let ghost before = r@;
        let ghost pre = confirms@.subrange(0, i as int);
        let ghost cur = confirms@.subrange(0, i + 1);
        if c.nonce == nonce {
            r.push(c.eth_address.clone());
        }
        proof {
            assert forall|v: Seq<char>| voter_set(r@).contains(v) <==> valset_signers_spec(cur, nonce).contains(v) by {
                if voter_set(r@).contains(v) {
                    let q = choose|q: int| 0 <= q < r@.len() && r@[q]@ == v;
                    if q < before.len() {
                        assert(r@[q] == before[q]);
                        assert(voter_set(before).contains(v));
                        let j = choose|j: int| 0 <= j < pre.len() && (#[trigger] pre[j]).nonce == nonce
                            && pre[j].eth_address@ == v;
                        assert(cur[j] == pre[j]);
                    } else {
                        assert(cur[i as int] == confirms@[i as int]);
                    }
                }
                if valset_signers_spec(cur, nonce).contains(v) {
                    let j = choose|j: int| 0 <= j < cur.len() && (#[trigger] cur[j]).nonce == nonce
                        && cur[j].eth_address@ == v;
                    if j < i {
                        assert(pre[j] == cur[j]);
                        assert(valset_signers_spec(pre, nonce).contains(v));
                        let q = choose|q: int| 0 <= q < before.len() && before[q]@ == v;
                        assert(r@[q] == before[q]);
                    } else {
                        assert(cur[j] == confirms@[i as int]);
                        assert(r@[r@.len() - 1]@ == v);
                    }
                }
            }
            assert(voter_set(r@) =~= valset_signers_spec(cur, nonce));
        }
        i = i + 1;
    }
    assert(confirms@.subrange(0, i as int) =~= confirms@);
    r
}

/// Batch `nonce` of `token` may be relayed: its confirmations come from
/// members holding at least two thirds of the power.
pub fn batch_relayable(table: &PowerTable, confirms: &Vec<MsgConfirmBatch>, nonce: u64, token: &String) -> (r: bool)
    requires
        table_wf(table.members@),
    ensures
        r == reaches_threshold(
            tally(table.members@, batch_signers_spec(confirms@, nonce, token@)),
            sum_power(table.members@),
        ),
{
    let signers = batch_signers(confirms, nonce, token);
    let power = signed_power(table, &signers);
    let total = table.total_power();
    3 * (power as u128) >= 2 * (total as u128)
}

/// Signer set `nonce` may be relayed: its confirmations come from members
/// holding at least two thirds of the power.
pub fn valset_relayable(table: &PowerTable, confirms: &Vec<MsgValsetConfirm>, nonce: u64) -> (r: bool)
    requires
        table_wf(table.members@),
    ensures
        r == reaches_threshold(
            tally(table.members@, valset_signers_spec(confirms@, nonce)),
            sum_power(table.members@),
        ),
{
    let signers = valset_signers(confirms, nonce);
    let power = signed_power(table, &signers);
    let total = table.total_power();
    3 * (power as u128) >= 2 * (total as u128)
}

} // verus!
