use fx_bridge_core::batch::{build_batch, select_transactions, BatchConfig, BatchError};
use fx_bridge_core::types::{Erc20Token, LastObservedEthereumBlockHeight, OutgoingTransferTx};

fn tx(id: u64, fee: u128) -> OutgoingTransferTx {
    tx_of(id, fee, "0xtoken")
}

fn tx_of(id: u64, fee: u128, token: &str) -> OutgoingTransferTx {
    OutgoingTransferTx {
        id,
        sender: format!("fx1sender{}", id),
        dest_address: "0xdest".to_string(),
        erc20_token: Erc20Token { contract: token.to_string(), amount: 500 },
        erc20_fee: Erc20Token { contract: token.to_string(), amount: fee },
    }
}

fn cfg(max_size: usize, min_fee: u128) -> BatchConfig {
    BatchConfig {
        max_size,
        min_fee,
        target_batch_timeout: 43_200_000,
        average_eth_block_time: 15_000,
    }
}

fn last() -> LastObservedEthereumBlockHeight {
    LastObservedEthereumBlockHeight { fx_block_height: 900, eth_block_height: 10_000 }
}

fn ids(v: &[OutgoingTransferTx]) -> Vec<u64> {
    v.iter().map(|t| t.id).collect()
}

#[test]
fn selection_takes_highest_fees_first() {
    let pool = vec![tx(1, 5), tx(2, 50), tx(3, 20), tx(4, 50), tx(5, 1), tx(6, 30)];
    let token = "0xtoken".to_string();
    let s = select_transactions(&pool, &token, &cfg(3, 2));
    assert_eq!(ids(&s), vec![2, 4, 6]);
    let s = select_transactions(&pool, &token, &cfg(10, 2));
    assert_eq!(ids(&s), vec![2, 4, 6, 3, 1]);
    let s = select_transactions(&pool, &token, &cfg(0, 0));
    assert!(s.is_empty());
}

#[test]
fn selection_ignores_other_tokens() {
    let pool = vec![tx_of(1, 100, "0xother"), tx(2, 10)];
    let s = select_transactions(&pool, &"0xtoken".to_string(), &cfg(5, 0));
    assert_eq!(ids(&s), vec![2]);
}

#[test]
fn batch_is_identical_for_permuted_pools() {
    let pool_a = vec![tx(1, 5), tx(2, 50), tx(3, 20), tx(4, 50), tx(6, 30)];
    let pool_b = vec![tx(6, 30), tx(4, 50), tx(3, 20), tx(1, 5), tx(2, 50)];
    let token = "0xtoken".to_string();
    let recv = "fx1receiver".to_string();
    let mut a = pool_a.clone();
    let mut b = pool_b.clone();
    let ba = build_batch(&mut a, &token, &cfg(3, 0), 7, last(), 1000, &recv).unwrap();
    let bb = build_batch(&mut b, &token, &cfg(3, 0), 7, last(), 1000, &recv).unwrap();
    assert_eq!(ba, bb);
    assert_eq!(ba.batch_nonce, 8);
    assert_eq!(ids(&ba.transactions), vec![2, 4, 6]);
    let mut again = pool_a.clone();
    assert_eq!(build_batch(&mut again, &token, &cfg(3, 0), 7, last(), 1000, &recv).unwrap(), ba);
}

#[test]
fn higher_fee_never_left_behind_lower_fee() {
    let pool = vec![tx(10, 3), tx(11, 9), tx(12, 7), tx(13, 9), tx(14, 8)];
    let token = "0xtoken".to_string();
    for max in 0..6usize {
        let s = select_transactions(&pool, &token, &cfg(max, 0));
        for left in pool.iter().filter(|t| !s.contains(t)) {
            for taken in s.iter() {
                assert!(left.erc20_fee.amount <= taken.erc20_fee.amount);
            }
            assert_eq!(s.len(), max);
        }
    }
}

#[test]
fn build_batch_freezes_and_removes() {
    let mut pool = vec![tx(1, 5), tx(2, 50), tx(3, 20), tx_of(4, 99, "0xother")];
    let b = build_batch(
        &mut pool,
        &"0xtoken".to_string(),
        &cfg(2, 0),
        0,
        last(),
        1234,
        &"fx1fees".to_string(),
    )
    .unwrap();
    assert_eq!(ids(&b.transactions), vec![2, 3]);
    assert_eq!(b.batch_nonce, 1);
    // 43_200_000 ms / 15_000 ms = 2880 blocks
    assert_eq!(b.batch_timeout, 12_880);
    assert_eq!(b.block, 1234);
    assert_eq!(b.token_contract, "0xtoken");
    assert_eq!(b.fee_receive, "fx1fees");
    assert_eq!(ids(&pool), vec![1, 4]);
}

#[test]
fn build_batch_errors() {
    let token = "0xtoken".to_string();
    let recv = "r".to_string();
    let base = vec![tx(1, 5)];

    let mut pool = base.clone();
    let mut c = cfg(5, 0);
    c.average_eth_block_time = 0;
    assert_eq!(build_batch(&mut pool, &token, &c, 0, last(), 1, &recv), Err(BatchError::ZeroBlockTime));
    assert_eq!(pool, base);

    let high = LastObservedEthereumBlockHeight { fx_block_height: 1, eth_block_height: u64::MAX - 10 };
    assert_eq!(
        build_batch(&mut pool, &token, &cfg(5, 0), 0, high, 1, &recv),
        Err(BatchError::TimeoutOverflow)
    );

    assert_eq!(
        build_batch(&mut pool, &token, &cfg(5, 0), u64::MAX, last(), 1, &recv),
        Err(BatchError::NonceExhausted)
    );

    assert_eq!(
        build_batch(&mut pool, &token, &cfg(5, 6), 0, last(), 1, &recv),
        Err(BatchError::NoEligibleTransactions)
    );
    assert_eq!(
        build_batch(&mut pool, &token, &cfg(0, 0), 0, last(), 1, &recv),
        Err(BatchError::NoEligibleTransactions)
    );
    let mut empty: Vec<OutgoingTransferTx> = Vec::new();
    assert_eq!(
        build_batch(&mut empty, &token, &cfg(5, 0), 0, last(), 1, &recv),
        Err(BatchError::NoEligibleTransactions)
    );
    assert_eq!(pool, base);
}

#[test]
fn observation_pair_only_moves_forward() {
    let prev = last();
    let same = fx_bridge_core::batch::record_observation(prev, 950, 9_999);
    assert_eq!(same, prev);
    let equal = fx_bridge_core::batch::record_observation(prev, 950, 10_000);
    assert_eq!(equal, prev);
    let newer = fx_bridge_core::batch::record_observation(prev, 951, 10_005);
    assert_eq!(newer, LastObservedEthereumBlockHeight { fx_block_height: 951, eth_block_height: 10_005 });
}

#[test]
fn fee_summary_counts_one_token() {
    let pool = vec![tx(1, 5), tx_of(2, 100, "0xother"), tx(3, 20)];
    let f = fx_bridge_core::batch::batch_fees(&pool, &"0xtoken".to_string()).unwrap();
    assert_eq!(f.token_contract, "0xtoken");
    assert_eq!(f.total_fees, 25);
    assert_eq!(f.total_txs, 2);
    let none = fx_bridge_core::batch::batch_fees(&Vec::new(), &"0xtoken".to_string()).unwrap();
    assert_eq!((none.total_fees, none.total_txs), (0, 0));
    let huge = vec![tx(1, u128::MAX), tx(2, 1)];
    assert!(fx_bridge_core::batch::batch_fees(&huge, &"0xtoken".to_string()).is_none());
}
