use fx_bridge_core::confirmation::{
    ConfirmationPolicy, ConfirmationStatus, TX_CONFIRMATIONS_BLOCK_NUMBER,
    TX_CONFIRMATIONS_TIMEOUT_SECS,
};
use fx_bridge_core::events::{ChainEvent, Claim, DepositEvent, WithdrawEvent};
use fx_bridge_core::watcher::{EventWatcher, ObserveOutcome};

fn deposit(nonce: u64, height: u64) -> ChainEvent {
    ChainEvent::Deposit(DepositEvent {
        event_nonce: nonce,
        block_height: height,
        token_contract: "0xtoken".to_string(),
        amount: 1000 + nonce as u128,
        eth_sender: "0xsender".to_string(),
        fx_receiver: "fx1receiver".to_string(),
        target_ibc: String::new(),
    })
}

#[test]
fn out_of_order_events_are_submitted_in_nonce_order() {
    let mut w = EventWatcher::new(4);
    let mut submitted: Vec<u64> = Vec::new();
    for n in [6u64, 5, 7] {
        assert_eq!(w.observe(deposit(n, 100 + n), 0), ObserveOutcome::Buffered);
        while let Some(p) = w.next_event() {
            let claim = Claim::from_event(&p.event, &"fx1orch".to_string());
            submitted.push(claim.event_nonce());
            assert!(w.mark_submitted());
        }
        if n == 6 {
            // 6 waits for 5
            assert!(submitted.is_empty());
            assert_eq!(w.buffered(), 1);
        }
    }
    assert_eq!(submitted, vec![5, 6, 7]);
    assert_eq!(w.last_seen(), 7);
    assert_eq!(w.buffered(), 0);
}

#[test]
fn stale_and_duplicate_events_are_ignored() {
    let mut w = EventWatcher::new(10);
    assert_eq!(w.observe(deposit(10, 1), 0), ObserveOutcome::Stale);
    assert_eq!(w.observe(deposit(3, 1), 0), ObserveOutcome::Stale);
    assert_eq!(w.observe(deposit(12, 1), 0), ObserveOutcome::Buffered);
    assert_eq!(w.observe(deposit(12, 1), 5), ObserveOutcome::Duplicate);
    assert_eq!(w.buffered(), 1);
    // the gap at 11 holds 12 back
    assert!(w.next_event().is_none());
    assert!(!w.mark_submitted());
    assert_eq!(w.last_seen(), 10);
}

#[test]
fn random_delivery_orders_never_skip_or_repeat() {
    let orders: Vec<Vec<u64>> = vec![
        vec![3, 1, 2, 4, 5],
        vec![5, 4, 3, 2, 1],
        vec![2, 2, 1, 5, 3, 4, 1],
        vec![1, 3, 5, 2, 4],
    ];
    for order in orders {
        let mut w = EventWatcher::new(0);
        let mut submitted: Vec<u64> = Vec::new();
        for n in order {
            w.observe(deposit(n, 1), 0);
            while let Some(p) = w.next_event() {
                submitted.push(p.event.event_nonce());
                w.mark_submitted();
            }
        }
        assert_eq!(submitted, vec![1, 2, 3, 4, 5]);
    }
}

#[test]
fn resync_drops_what_the_hub_already_has() {
    let mut w = EventWatcher::new(0);
    for n in [2u64, 3, 5] {
        w.observe(deposit(n, 1), 0);
    }
    w.resync(3);
    assert_eq!(w.last_seen(), 3);
    assert_eq!(w.buffered(), 1);
    assert!(w.next_event().is_none());
    w.observe(deposit(4, 1), 0);
    assert_eq!(w.next_event().unwrap().event.event_nonce(), 4);
}

#[test]
fn confirmation_gating_by_depth_and_timeout() {
    let policy = ConfirmationPolicy::standard();
    assert_eq!(policy.depth, TX_CONFIRMATIONS_BLOCK_NUMBER);
    assert_eq!(policy.timeout_secs, 150);
    assert_eq!(TX_CONFIRMATIONS_TIMEOUT_SECS, 150);
    // same block as the head: depth 0, young
    assert_eq!(policy.check(100, Some(100), 10), ConfirmationStatus::Pending);
    // one block on top
    assert_eq!(policy.check(100, Some(101), 0), ConfirmationStatus::Confirmed);
    // head behind the event counts as no depth
    assert_eq!(policy.check(100, Some(90), 149), ConfirmationStatus::Pending);
    // old enough without depth
    assert_eq!(policy.check(100, Some(100), 150), ConfirmationStatus::Confirmed);
    // head unknown
    assert_eq!(policy.check(100, None, 1000), ConfirmationStatus::Unknown);
}

#[test]
fn watcher_forwards_only_confirmed_events() {
    let policy = ConfirmationPolicy::standard();
    let mut w = EventWatcher::new(0);
    w.observe(deposit(1, 500), 1000);
    assert!(w.next_confirmed(&policy, Some(500), 1100).is_none());
    assert!(w.next_confirmed(&policy, None, 5000).is_none());
    let e = w.next_confirmed(&policy, Some(500), 1150).unwrap();
    assert_eq!(e, deposit(1, 500));
    assert_eq!(w.next_confirmed(&policy, Some(501), 1000).unwrap(), deposit(1, 500));
    // a clock that went back counts as no time
    assert!(w.next_confirmed(&policy, Some(500), 10).is_none());
}

#[test]
fn claim_round_trip_keeps_content() {
    let e = ChainEvent::Withdraw(WithdrawEvent {
        event_nonce: 9,
        block_height: 77,
        batch_nonce: 3,
        token_contract: "0xabc".to_string(),
    });
    let c = Claim::from_event(&e, &"fx1orch".to_string());
    match &c {
        Claim::Withdraw(w) => {
            assert_eq!(w.orchestrator, "fx1orch");
            assert_eq!(w.batch_nonce, 3);
            assert_eq!(w.event_nonce, 9);
        }
        _ => panic!("wrong claim kind"),
    }
    assert_eq!(c.to_event(), e);
    assert!(c.to_event().matches(&e));
    let (back, who) = c.into_parts();
    assert_eq!(back, e);
    assert_eq!(who, "fx1orch");
    assert!(!deposit(9, 77).matches(&e));
}
