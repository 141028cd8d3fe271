//! The batch builder: picks pending transfers by fee, highest first, into a
//! frozen outgoing batch, as a pure function of the pool.
use vstd::prelude::*;
use crate::types::{BatchFees, LastObservedEthereumBlockHeight, OutgoingTransferTx, OutgoingTxBatch};

verus! {

/// The selection rule and the timeout projection.
#[derive(Clone, Copy, Debug, PartialEq, Eq)]
pub struct BatchConfig {
    /// Most transactions in one batch.
    pub max_size: usize,
    /// Profitability floor: a transaction paying less is left in the pool.
    pub min_fee: u128,
    /// Target lifetime of a batch, in milliseconds.
    pub target_batch_timeout: u64,
    /// Average external-chain block time, in milliseconds.
    pub average_eth_block_time: u64,
}

/// `a` goes before `b`: higher fee first, and the lower id on equal fees.
pub open spec fn ranks_before(a: OutgoingTransferTx, b: OutgoingTransferTx) -> bool {
    a.erc20_fee.amount > b.erc20_fee.amount || (a.erc20_fee.amount == b.erc20_fee.amount && a.id
        < b.id)
}

/// A transfer of `token` that pays at least the floor.
pub open spec fn eligible(t: OutgoingTransferTx, token: Seq<char>, min_fee: u128) -> bool {
    t.erc20_token.contract@ == token && t.erc20_fee.amount >= min_fee
}

/// No two pending transfers share an id.
pub open spec fn pool_wf(pool: Seq<OutgoingTransferTx>) -> bool {
    forall|i: int, j: int|
        0 <= i < pool.len() && 0 <= j < pool.len() && i != j ==> (#[trigger] pool[i]).id != (
        #[trigger] pool[j]).id
}

/// `s` is the batch content for `pool`: eligible transfers of the pool in
/// fee order, at most `max` of them, and no eligible transfer left out that
/// ranks before one taken; one is left out only when the batch is full.
pub open spec fn is_selection(
    pool: Seq<OutgoingTransferTx>,
    token: Seq<char>,
    min_fee: u128,
    max: int,
    s: Seq<OutgoingTransferTx>,
) -> bool {
    &&& s.len() <= max
    &&& forall|i: int| 0 <= i < s.len() ==> pool.contains(#[trigger] s[i]) && eligible(s[i], token, min_fee)
    &&& forall|i: int, j: int| 0 <= i < j < s.len() ==> ranks_before(#[trigger] s[i], #[trigger] s[j])
    &&& forall|t: OutgoingTransferTx|
        pool.contains(t) && eligible(t, token, min_fee) && !s.contains(t) ==> s.len() == max
            && forall|i: int| 0 <= i < s.len() ==> ranks_before(#[trigger] s[i], t)
}

/// Never is a transfer with a higher fee left out while one with a lower fee
/// is taken.
pub proof fn lemma_selection_respects_fees(
    pool: Seq<OutgoingTransferTx>,
    token: Seq<char>,
    min_fee: u128,
    max: int,
    s: Seq<OutgoingTransferTx>,
    t: OutgoingTransferTx,
    i: int,
)
    requires
        is_selection(pool, token, min_fee, max, s),
        pool.contains(t),
        eligible(t, token, min_fee),
        !s.contains(t),
        0 <= i < s.len(),
    ensures
        t.erc20_fee.amount <= s[i].erc20_fee.amount,
        s.len() == max,
{
}

/// The batch content depends on the pool's transfers alone, not on the
/// order in which an orchestrator holds them: two selections over pools
/// with the same transfers are equal.
pub proof fn lemma_selection_deterministic(
    pool1: Seq<OutgoingTransferTx>,
    pool2: Seq<OutgoingTransferTx>,
    token: Seq<char>,
    min_fee: u128,
    max: int,
    s1: Seq<OutgoingTransferTx>,
    s2: Seq<OutgoingTransferTx>,
)
    requires
        pool1.to_set() == pool2.to_set(),
        is_selection(pool1, token, min_fee, max, s1),
        is_selection(pool2, token, min_fee, max, s2),
    ensures
        s1 == s2,
{
    assert forall|t: OutgoingTransferTx| pool1.contains(t) <==> pool2.contains(t) by {
        assert(pool1.contains(t) <==> pool1.to_set().contains(t));
        assert(pool2.contains(t) <==> pool2.to_set().contains(t));
    }
    lemma_prefix_agrees(pool1, pool2, token, min_fee, max, s1, s2, 0);
    lemma_prefix_agrees(pool2, pool1, token, min_fee, max, s2, s1, 0);
    lemma_no_longer(pool1, pool2, token, min_fee, max, s1, s2);
    lemma_no_longer(pool2, pool1, token, min_fee, max, s2, s1);
    assert(s1 =~= s2);
}

/// Neither of two agreeing selections can be longer than the other.
proof fn lemma_no_longer(
    pool1: Seq<OutgoingTransferTx>,
    pool2: Seq<OutgoingTransferTx>,
    token: Seq<char>,
    min_fee: u128,
    max: int,
    s1: Seq<OutgoingTransferTx>,
    s2: Seq<OutgoingTransferTx>,
)
    requires
        forall|t: OutgoingTransferTx| pool1.contains(t) <==> pool2.contains(t),
        is_selection(pool1, token, min_fee, max, s1),
        is_selection(pool2, token, min_fee, max, s2),
        forall|k: int| 0 <= k < s1.len() && k < s2.len() ==> s1[k] == s2[k],
    ensures
        s1.len() >= s2.len(),
{
    if s1.len() < s2.len() {
        let n = s1.len() as int;
        let t = s2[n];
        assert(pool2.contains(t));
        if s1.contains(t) {
            let p = choose|p: int| 0 <= p < s1.len() && s1[p] == t;
            assert(s2[p] == s2[n]);
            assert(ranks_before(s2[p], s2[n]));
        }
    }
}

proof fn lemma_prefix_agrees(
    pool1: Seq<OutgoingTransferTx>,
    pool2: Seq<OutgoingTransferTx>,
    token: Seq<char>,
    min_fee: u128,
    max: int,
    s1: Seq<OutgoingTransferTx>,
    s2: Seq<OutgoingTransferTx>,
    k: int,
)
    requires
        forall|t: OutgoingTransferTx| pool1.contains(t) <==> pool2.contains(t),
        is_selection(pool1, token, min_fee, max, s1),
        is_selection(pool2, token, min_fee, max, s2),
        0 <= k,
        forall|j: int| 0 <= j < k && j < s1.len() && j < s2.len() ==> s1[j] == s2[j],
    ensures
        forall|j: int| 0 <= j < s1.len() && j < s2.len() ==> s1[j] == s2[j],
    decreases s1.len() - k,
{
    if k < s1.len() && k < s2.len() {
        if s1[k] != s2[k] {
            lemma_goes_after(pool1, pool2, token, min_fee, max, s1, s2, k);
            lemma_goes_after(pool2, pool1, token, min_fee, max, s2, s1, k);
        }
        lemma_prefix_agrees(pool1, pool2, token, min_fee, max, s1, s2, k + 1);
    }
}

/// Where two selections first differ, the entry of the first ranks after
/// that of the second.
proof fn lemma_goes_after(
    pool1: Seq<OutgoingTransferTx>,
    pool2: Seq<OutgoingTransferTx>,
    token: Seq<char>,
    min_fee: u128,
    max: int,
    s1: Seq<OutgoingTransferTx>,
    s2: Seq<OutgoingTransferTx>,
    k: int,
)
    requires
        forall|t: OutgoingTransferTx| pool1.contains(t) <==> pool2.contains(t),
        is_selection(pool1, token, min_fee, max, s1),
        is_selection(pool2, token, min_fee, max, s2),
        0 <= k < s1.len(),
        k < s2.len(),
        forall|j: int| 0 <= j < k ==> s1[j] == s2[j],
        s1[k] != s2[k],
    ensures
        ranks_before(s2[k], s1[k]),
{
    let t = s1[k];
    assert(pool1.contains(t));
    if s2.contains(t) {
        let p = choose|p: int| 0 <= p < s2.len() && s2[p] == t;
        if p < k {
            assert(s1[p] == s2[p]);
            assert(ranks_before(s1[p], s1[k]));
        } else {
            assert(p != k);
            assert(ranks_before(s2[k], s2[p]));
        }
    }
}

/// Why no batch was built.
#[derive(Clone, Copy, Debug, PartialEq, Eq, Structural)]
pub enum BatchError {
    /// No pending transfer of the token pays the floor.
    NoEligibleTransactions,
    /// The token's batch nonce is already at its largest value.
    NonceExhausted,
    /// The configured external block time is zero.
    ZeroBlockTime,
    /// The projected timeout height does not fit in a `u64`.
    TimeoutOverflow,
}

/// The external-chain height after which a batch built now is stale: the
/// last observed height plus the target lifetime in blocks.
pub open spec fn timeout_spec(last: LastObservedEthereumBlockHeight, cfg: BatchConfig) -> int {
    last.eth_block_height + cfg.target_batch_timeout / cfg.average_eth_block_time
}

/// The fees that the transfers of `token` in `pool` pay together.
pub open spec fn fee_total(pool: Seq<OutgoingTransferTx>, token: Seq<char>) -> int
    decreases pool.len(),
{
    if pool.len() == 0 {
        0
    } else {
        fee_total(pool.drop_last(), token) + if pool.last().erc20_token.contract@ == token {
            pool.last().erc20_fee.amount as int
        } else {
            0
        }
    }
}

/// The transfers of `token` in `pool`.
pub open spec fn tx_count(pool: Seq<OutgoingTransferTx>, token: Seq<char>) -> int
    decreases pool.len(),
{
    if pool.len() == 0 {
        0
    } else {
        tx_count(pool.drop_last(), token) + if pool.last().erc20_token.contract@ == token {
            1int
        } else {
            0
        }
    }
}

proof fn lemma_tx_count_bound(pool: Seq<OutgoingTransferTx>, token: Seq<char>)
    ensures
        0 <= tx_count(pool, token) <= pool.len(),
    decreases pool.len(),
{
    if pool.len() > 0 {
        lemma_tx_count_bound(pool.drop_last(), token);
    }
}

/// The fee summary of the unbatched transfers of `token`; `None` when the
/// total does not fit in a `u128`.
pub fn batch_fees(pool: &Vec<OutgoingTransferTx>, token: &String) -> (r: Option<BatchFees>)
    ensures
        r.is_none() <==> fee_total(pool@, token@) > u128::MAX,
        r matches Some(f) ==> f.token_contract@ == token@ && f.total_fees == fee_total(pool@, token@)
            && f.total_txs == tx_count(pool@, token@),
{
    let mut total: u128 = 0;
    let mut count: u64 = 0;
    let mut i: usize = 0;
    while i < pool.len()
        invariant
            i <= pool@.len(),
            total == fee_total(pool@.subrange(0, i as int), token@),
            count == tx_count(pool@.subrange(0, i as int), token@),
            count <= i,
        decreases pool@.len() - i,
    {
        let ghost pre = pool@.subrange(0, i as int);
        proof {
            assert(pool@.subrange(0, i + 1).drop_last() =~= pre);
            assert(pool@.subrange(0, i + 1).last() == pool@[i as int]);
        }
        let t = &pool[i];
        if t.erc20_token.contract == *token {
            if total > u128::MAX - t.erc20_fee.amount {
                proof {
                    lemma_fee_total_prefix(pool@, token@, i + 1);
                }
                return None;
            }
            total = total + t.erc20_fee.amount;
            count = count + 1;
        }
        i = i + 1;
    }
    assert(pool@.subrange(0, i as int) =~= pool@);
    Some(BatchFees { token_contract: token.clone(), total_fees: total, total_txs: count })
}

/// Fees only add up: a prefix pays no more than the whole.
proof fn lemma_fee_total_prefix(pool: Seq<OutgoingTransferTx>, token: Seq<char>, k: int)
    requires
        0 <= k <= pool.len(),
    ensures
        fee_total(pool.subrange(0, k), token) <= fee_total(pool, token),
    decreases pool.len() - k,
{
    if k < pool.len() {
        lemma_fee_total_prefix(pool, token, k + 1);
        assert(pool.subrange(0, k + 1).drop_last() =~= pool.subrange(0, k));
    } else {
        assert(pool.subrange(0, k) =~= pool);
    }
}

/// The observation pair after external height `eth_height` is seen at hub
/// height `fx_height`: it moves only forward, so timeouts projected from it
/// never fall back.
pub fn record_observation(prev: LastObservedEthereumBlockHeight, fx_height: u64, eth_height: u64) -> (r:
    LastObservedEthereumBlockHeight)
    ensures
        r == (if eth_height > prev.eth_block_height {
            LastObservedEthereumBlockHeight { fx_block_height: fx_height, eth_block_height: eth_height }
        } else {
            prev
        }),
{
    if eth_height > prev.eth_block_height {
        LastObservedEthereumBlockHeight { fx_block_height: fx_height, eth_block_height: eth_height }
    } else {
        prev
    }
}

/// Picks the batch content from `pool`.
pub fn select_transactions(pool: &Vec<OutgoingTransferTx>, token: &String, cfg: &BatchConfig) -> (r:
    Vec<OutgoingTransferTx>)
    requires
        pool_wf(pool@),
    ensures
        is_selection(pool@, token@, cfg.min_fee, cfg.max_size as int, r@),
{
    let mut s: Vec<OutgoingTransferTx> = Vec::new();
    while s.len() < cfg.max_size
        invariant
            pool_wf(pool@),
            is_selection_prefix(pool@, token@, cfg.min_fee, cfg.max_size as int, s@),
        ensures
            is_selection(pool@, token@, cfg.min_fee, cfg.max_size as int, s@),
        decreases cfg.max_size - s@.len(),
    {
        let mut best: Option<usize> = None;
        let mut j: usize = 0;
        while j < pool.len()
            invariant
                pool_wf(pool@),
                j <= pool@.len(),
                is_selection_prefix(pool@, token@, cfg.min_fee, cfg.max_size as int, s@),
                best matches Some(b) ==> b < pool@.len() && candidate(pool@[b as int], s@, token@, cfg.min_fee),
                forall|k: int|
                    0 <= k < j && candidate(#[trigger] pool@[k], s@, token@, cfg.min_fee) ==> (best matches Some(b) && (
                        k == b || ranks_before(pool@[b as int], pool@[k]))),
            decreases pool@.len() - j,
        {
            let t = &pool[j];
            let is_candidate = t.erc20_token.contract == *token && t.erc20_fee.amount >= cfg.min_fee && (
            s.len() == 0 || {
                let last = &s[s.len() - 1];
                last.erc20_fee.amount > t.erc20_fee.amount || (last.erc20_fee.amount
                    == t.erc20_fee.amount && last.id < t.id)
            });
            if is_candidate {
                match best {
                    None => {
                        best = Some(j);
                    },
                    Some(b) => {
                        let cur = &pool[b];
                        if t.erc20_fee.amount > cur.erc20_fee.amount || (t.erc20_fee.amount
                            == cur.erc20_fee.amount && t.id < cur.id) {
                            best = Some(j);
                        }
                    },
                }
            }
            j = j + 1;
        }
        match best {
            None => {
                proof {
                    assert forall|t: OutgoingTransferTx|
                        pool@.contains(t) && eligible(t, token@, cfg.min_fee) && !s@.contains(
                            t,
                        ) implies false by {
                        let k = choose|k: int| 0 <= k < pool@.len() && pool@[k] == t;
                        assert(candidate(pool@[k], s@, token@, cfg.min_fee));
                    }
                }
                break ;
            },
            Some(b) => {
                let ghost before = s@;
                let picked = pool[b].copy();
                s.push(picked);
                proof {
                    lemma_prefix_extends(pool@, token@, cfg.min_fee, cfg.max_size as int, before, b as int);
                }
            },
        }
    }
    s
}

/// `b` is the batch that `build_batch` makes from `pool`.
pub open spec fn is_built(
    pool: Seq<OutgoingTransferTx>,
    token: Seq<char>,
    cfg: BatchConfig,
    max_nonce: u64,
    last: LastObservedEthereumBlockHeight,
    hub_height: u64,
    fee_receive: Seq<char>,
    b: OutgoingTxBatch,
) -> bool {
    &&& is_selection(pool, token, cfg.min_fee, cfg.max_size as int, b.transactions@)
    &&& b.transactions@.len() > 0
    &&& b.batch_nonce == max_nonce + 1
    &&& b.batch_timeout == timeout_spec(last, cfg)
    &&& b.token_contract@ == token
    &&& b.block == hub_height
    &&& b.fee_receive@ == fee_receive
}

/// The pool has a transfer that could go into a batch.
pub open spec fn has_eligible(pool: Seq<OutgoingTransferTx>, token: Seq<char>, min_fee: u128) -> bool {
    exists|i: int| 0 <= i < pool.len() && eligible(#[trigger] pool[i], token, min_fee)
}

/// Why `build_batch` builds nothing, checked in this order.
pub open spec fn batch_error_spec(
    pool: Seq<OutgoingTransferTx>,
    token: Seq<char>,
    cfg: BatchConfig,
    max_nonce: u64,
    last: LastObservedEthereumBlockHeight,
) -> Option<BatchError> {
    if cfg.average_eth_block_time == 0 {
        Some(BatchError::ZeroBlockTime)
    } else if timeout_spec(last, cfg) > u64::MAX {
        Some(BatchError::TimeoutOverflow)
    } else if max_nonce == u64::MAX {
        Some(BatchError::NonceExhausted)
    } else if cfg.max_size == 0 || !has_eligible(pool, token, cfg.min_fee) {
        Some(BatchError::NoEligibleTransactions)
    } else {
        None
    }
}

/// Two orchestrators that build a batch from pools holding the same
/// transfers, with the same inputs, build the same batch.
pub proof fn lemma_batch_deterministic(
    pool1: Seq<OutgoingTransferTx>,
    pool2: Seq<OutgoingTransferTx>,
    token: Seq<char>,
    cfg: BatchConfig,
    max_nonce: u64,
    last: LastObservedEthereumBlockHeight,
    hub_height: u64,
    fee_receive: Seq<char>,
    b1: OutgoingTxBatch,
    b2: OutgoingTxBatch,
)
    requires
        pool1.to_set() == pool2.to_set(),
        is_built(pool1, token, cfg, max_nonce, last, hub_height, fee_receive, b1),
        is_built(pool2, token, cfg, max_nonce, last, hub_height, fee_receive, b2),
    ensures
        b1.transactions@ == b2.transactions@,
        b1.batch_nonce == b2.batch_nonce,
        b1.batch_timeout == b2.batch_timeout,
        b1.token_contract@ == b2.token_contract@,
        b1.block == b2.block,
        b1.fee_receive@ == b2.fee_receive@,
{
    lemma_selection_deterministic(
        pool1,
        pool2,
        token,
        cfg.min_fee,
        cfg.max_size as int,
        b1.transactions@,
        b2.transactions@,
    );
}

/// Freezes a new batch for `token` out of `pool` and takes its transfers
/// out of the pool; on an error the pool is left as it was.
pub fn build_batch(
    pool: &mut Vec<OutgoingTransferTx>,
    token: &String,
    cfg: &BatchConfig,
    max_nonce: u64,
    last: LastObservedEthereumBlockHeight,
    hub_height: u64,
    fee_receive: &String,
) -> (r: Result<OutgoingTxBatch, BatchError>)
    requires
        pool_wf(old(pool)@),
    ensures
        pool_wf(final(pool)@),
        r.is_err() <==> batch_error_spec(old(pool)@, token@, *cfg, max_nonce, last).is_some(),
        r matches Err(e) ==> batch_error_spec(old(pool)@, token@, *cfg, max_nonce, last) == Some(e)
            && final(pool)@ == old(pool)@,
        r matches Ok(b) ==> is_built(old(pool)@, token@, *cfg, max_nonce, last, hub_height, fee_receive@, b)
            && final(pool)@ == old(pool)@.filter(not_in(b.transactions@)),
{
    if cfg.average_eth_block_time == 0 {
        return Err(BatchError::ZeroBlockTime);
    }
    let blocks = cfg.target_batch_timeout / cfg.average_eth_block_time;
    if last.eth_block_height > u64::MAX - blocks {
        return Err(BatchError::TimeoutOverflow);
    }
    if max_nonce == u64::MAX {
        return Err(BatchError::NonceExhausted);
    }
    let selected = select_transactions(pool, token, cfg);
    if selected.len() == 0 {
        proof {
            if cfg.max_size > 0 && has_eligible(pool@, token@, cfg.min_fee) {
                let i = choose|i: int| 0 <= i < pool@.len() && eligible(#[trigger] pool@[i], token@, cfg.min_fee);
                assert(pool@.contains(pool@[i]));
            }
        }
        return Err(BatchError::NoEligibleTransactions);
    }
    proof {
        assert(pool@.contains(selected@[0]));
        let k = choose|k: int| 0 <= k < pool@.len() && pool@[k] == selected@[0];
        assert(eligible(pool@[k], token@, cfg.min_fee));
    }
    let ghost before = pool@;
    let rest = remove_selected(pool, &selected);
    *pool = rest;
    Ok(OutgoingTxBatch {
        batch_nonce: max_nonce + 1,
        batch_timeout: last.eth_block_height + blocks,
        transactions: selected,
        token_contract: token.clone(),
        block: hub_height,
        fee_receive: fee_receive.clone(),
    })
}

/// Not among the transfers of `s`.
pub open spec fn not_in(s: Seq<OutgoingTransferTx>) -> spec_fn(OutgoingTransferTx) -> bool {
    |t: OutgoingTransferTx| !s.contains(t)
}

fn has_id(s: &Vec<OutgoingTransferTx>, id: u64) -> (r: bool)
    ensures
        r == exists|q: int| 0 <= q < s@.len() && (#[trigger] s@[q]).id == id,
{
    let mut k: usize = 0;
    while k < s.len()
        invariant
            k <= s@.len(),
            forall|q: int| 0 <= q < k ==> (#[trigger] s@[q]).id != id,
        decreases s@.len() - k,
    {
        if s[k].id == id {
            return true;
        }
        k = k + 1;
    }
    false
}

/// The pool without the transfers of `s`, in its order.
fn remove_selected(pool: &Vec<OutgoingTransferTx>, s: &Vec<OutgoingTransferTx>) -> (r: Vec<OutgoingTransferTx>)
    requires
        pool_wf(pool@),
        forall|k: int| 0 <= k < s@.len() ==> pool@.contains(#[trigger] s@[k]),
    ensures
        pool_wf(r@),
        r@ == pool@.filter(not_in(s@)),
{
    let mut r: Vec<OutgoingTransferTx> = Vec::new();
    let mut i: usize = 0;
    while i < pool.len()
        invariant
            pool_wf(pool@),
            forall|k: int| 0 <= k < s@.len() ==> pool@.contains(#[trigger] s@[k]),
            i <= pool@.len(),
            r@ == pool@.subrange(0, i as int).filter(not_in(s@)),
            forall|a: int| 0 <= a < r@.len() ==> exists|p: int| 0 <= p < i && pool@[p] == #[trigger] r@[a],
            pool_wf(r@),
        decreases pool@.len() - i,
    {
        let t = &pool[i];
        let found = has_id(s, t.id);
        proof {
            assert(found == s@.contains(pool@[i as int])) by {
                if found {
                    let q = choose|q: int| 0 <= q < s@.len() && (#[trigger] s@[q]).id == pool@[i as int].id;
                    assert(pool@.contains(s@[q]));
                    let p = choose|p: int| 0 <= p < pool@.len() && pool@[p] == s@[q];
                    assert(p == i);
                }
                if s@.contains(pool@[i as int]) {
                    let q = choose|q: int| 0 <= q < s@.len() && s@[q] == pool@[i as int];
                    assert(s@[q].id == pool@[i as int].id);
                }
            }
            reveal(Seq::filter);
            assert(pool@.subrange(0, i + 1).drop_last() =~= pool@.subrange(0, i as int));
            assert(pool@.subrange(0, i + 1).last() == pool@[i as int]);
            assert(not_in(s@)(pool@[i as int]) == !found);
            if found {
                assert(pool@.subrange(0, i + 1).filter(not_in(s@)) == pool@.subrange(0, i as int).filter(not_in(s@)));
            } else {
                assert(pool@.subrange(0, i + 1).filter(not_in(s@)) == pool@.subrange(0, i as int).filter(not_in(s@)).push(pool@[i as int]));
            }
        }
        if !found {
            let ghost before = r@;
            r.push(t.copy());
            proof {
                assert forall|a: int, b: int|
                    0 <= a < r@.len() && 0 <= b < r@.len() && a != b implies (#[trigger] r@[a]).id != (#[trigger] r@[b]).id by {
                    if a < before.len() && b < before.len() {
                        assert(r@[a] == before[a] && r@[b] == before[b]);
                    } else if a < before.len() {
                        let p = choose|p: int| 0 <= p < i && pool@[p] == before[a];
                        assert(r@[a] == before[a]);
                        assert(pool@[p].id != pool@[i as int].id);
                    } else {
                        let p = choose|p: int| 0 <= p < i && pool@[p] == before[b];
                        assert(r@[b] == before[b]);
                        assert(pool@[p].id != pool@[i as int].id);
                    }
                }
                assert forall|a: int| 0 <= a < r@.len() implies exists|p: int| 0 <= p < i + 1 && pool@[p] == #[trigger] r@[a] by {
                    if a < before.len() {
                        let p = choose|p: int| 0 <= p < i && pool@[p] == before[a];
                        assert(r@[a] == before[a]);
                    } else {
                        assert(pool@[i as int] == r@[a]);
                    }
                }
            }
        }
        i = i + 1;
    }
    assert(pool@.subrange(0, i as int) =~= pool@);
    r
}

/// A transfer that may come next after `s`.
pub open spec fn candidate(t: OutgoingTransferTx, s: Seq<OutgoingTransferTx>, token: Seq<char>, min_fee: u128) -> bool {
    eligible(t, token, min_fee) && (s.len() == 0 || ranks_before(s.last(), t))
}

/// A selection under way: every eligible transfer not taken yet ranks after
/// all that were.
pub open spec fn is_selection_prefix(
    pool: Seq<OutgoingTransferTx>,
    token: Seq<char>,
    min_fee: u128,
    max: int,
    s: Seq<OutgoingTransferTx>,
) -> bool {
    &&& s.len() <= max
    &&& forall|i: int| 0 <= i < s.len() ==> pool.contains(#[trigger] s[i]) && eligible(s[i], token, min_fee)
    &&& forall|i: int, j: int| 0 <= i < j < s.len() ==> ranks_before(#[trigger] s[i], #[trigger] s[j])
    &&& forall|t: OutgoingTransferTx|
        pool.contains(t) && eligible(t, token, min_fee) && !s.contains(t) ==> forall|i: int|
            0 <= i < s.len() ==> ranks_before(#[trigger] s[i], t)
}

proof fn lemma_prefix_extends(
    pool: Seq<OutgoingTransferTx>,
    token: Seq<char>,
    min_fee: u128,
    max: int,
    s: Seq<OutgoingTransferTx>,
    b: int,
)
    requires
        pool_wf(pool),
        is_selection_prefix(pool, token, min_fee, max, s),
        s.len() < max,
        0 <= b < pool.len(),
        candidate(pool[b], s, token, min_fee),
        forall|k: int|
            0 <= k < pool.len() && candidate(#[trigger] pool[k], s, token, min_fee) ==> k == b
                || ranks_before(pool[b], pool[k]),
    ensures
        is_selection_prefix(pool, token, min_fee, max, s.push(pool[b])),
{
    let x = pool[b];
    let s2 = s.push(x);
    assert(pool.contains(x));
    assert forall|i: int, j: int| 0 <= i < j < s2.len() implies ranks_before(#[trigger] s2[i], #[trigger] s2[j]) by {
        if j < s.len() {
            assert(s2[i] == s[i] && s2[j] == s[j]);
        } else {
            assert(s2[i] == s[i]);
            assert(ranks_before(s.last(), x));
            assert(s.last() == s[s.len() - 1]);
            if i < s.len() - 1 {
                assert(ranks_before(s[i], s[s.len() - 1]));
            }
        }
    }
    assert forall|t: OutgoingTransferTx|
        pool.contains(t) && eligible(t, token, min_fee) && !s2.contains(t) implies forall|i: int|
            0 <= i < s2.len() ==> ranks_before(#[trigger] s2[i], t) by {
        assert(!s.contains(t)) by {
            if s.contains(t) {
                let p = choose|p: int| 0 <= p < s.len() && s[p] == t;
                assert(s2[p] == t);
            }
        }
        assert(t != x) by {
            assert(s2[s.len() as int] == x);
        }
        let k = choose|k: int| 0 <= k < pool.len() && pool[k] == t;
        if s.len() > 0 {
            assert(s.last() == s[s.len() - 1]);
        }
        assert(candidate(pool[k], s, token, min_fee));
        assert(k != b);
        assert(ranks_before(x, t));
        assert forall|i: int| 0 <= i < s2.len() implies ranks_before(#[trigger] s2[i], t) by {
            if i < s.len() {
                assert(s2[i] == s[i]);
            }
        }
    }
    assert forall|i: int| 0 <= i < s2.len() implies pool.contains(#[trigger] s2[i]) && eligible(s2[i], token, min_fee) by {
        if i < s.len() {
            assert(s2[i] == s[i]);
        }
    }
}

} // verus!
