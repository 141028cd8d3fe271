use fx_bridge_core::attestation::{Attestation, PowerTable, VoteOutcome, VotingMember};
use fx_bridge_core::events::{ChainEvent, Claim, DepositEvent, ValsetUpdatedEvent};
use fx_bridge_core::hub::{check_nonce, ClaimResult, Hub, NonceCheck};
use fx_bridge_core::relay::{batch_relayable, signed_power, valset_relayable};
use fx_bridge_core::types::{BridgeValidator, MsgConfirmBatch, MsgValsetConfirm, Valset};
use fx_bridge_core::watcher::EventWatcher;

fn table(powers: &[(&str, u64)]) -> PowerTable {
    PowerTable {
        members: powers
            .iter()
            .map(|(id, p)| VotingMember { id: id.to_string(), power: *p })
            .collect(),
    }
}

fn deposit(nonce: u64, amount: u128) -> ChainEvent {
    ChainEvent::Deposit(DepositEvent {
        event_nonce: nonce,
        block_height: 50,
        token_contract: "0xtoken".to_string(),
        amount,
        eth_sender: "0xsender".to_string(),
        fx_receiver: "fx1receiver".to_string(),
        target_ibc: String::new(),
    })
}

fn claim(nonce: u64, amount: u128, who: &str) -> Claim {
    Claim::from_event(&deposit(nonce, amount), &who.to_string())
}

fn standard_hub() -> Hub {
    Hub::new(table(&[("a", 40), ("b", 35), ("c", 25)])).unwrap()
}

#[test]
fn two_thirds_threshold_example() {
    let mut hub = standard_hub();
    assert_eq!(hub.submit(claim(1, 10, "a"), 1), ClaimResult::Accepted);
    let att = hub.attestation(1).unwrap();
    assert!(!att.is_observed());
    assert_eq!(att.power(), 40);
    assert_eq!(hub.submit(claim(1, 10, "b"), 2), ClaimResult::Observed);
    let att = hub.attestation(1).unwrap();
    assert!(att.is_observed());
    assert_eq!(att.power(), 75);
    assert_eq!(att.height(), 2);
    assert_eq!(att.votes().len(), 2);
}

#[test]
fn only_forty_percent_is_not_observed() {
    let mut hub = standard_hub();
    hub.submit(claim(1, 10, "a"), 1);
    assert!(!hub.attestation(1).unwrap().is_observed());
}

#[test]
fn threshold_is_reached_at_exactly_two_thirds() {
    let mut hub = Hub::new(table(&[("a", 2), ("b", 1)])).unwrap();
    assert_eq!(hub.submit(claim(1, 10, "a"), 7), ClaimResult::Observed);
    assert_eq!(hub.attestation(1).unwrap().height(), 7);
}

#[test]
fn arrival_order_does_not_change_the_attestation() {
    let orders: Vec<Vec<&str>> = vec![
        vec!["a", "b", "c"],
        vec!["c", "b", "a"],
        vec!["b", "c", "a"],
        vec!["c", "a", "b"],
    ];
    for order in orders {
        let mut hub = standard_hub();
        let mut nonce_of_claimant = 0u64;
        for who in order {
            let r = hub.submit(claim(1, 10, who), 3);
            assert!(r == ClaimResult::Accepted || r == ClaimResult::Observed);
            nonce_of_claimant += 1;
        }
        assert_eq!(nonce_of_claimant, 3);
        let att = hub.attestation(1).unwrap();
        assert!(att.is_observed());
        assert_eq!(att.power(), 100);
    }
}

#[test]
fn conflicting_claim_is_rejected() {
    let mut hub = standard_hub();
    hub.submit(claim(1, 10, "a"), 1);
    assert_eq!(hub.submit(claim(1, 11, "b"), 1), ClaimResult::Conflict);
    assert_eq!(hub.last_nonce(&"b".to_string()), 0);
    assert_eq!(hub.attestation(1).unwrap().power(), 40);
}

#[test]
fn unknown_orchestrator_is_rejected() {
    let mut hub = standard_hub();
    assert_eq!(hub.submit(claim(1, 10, "z"), 1), ClaimResult::UnknownOrchestrator);
    assert!(hub.attestation(1).is_none());
}

#[test]
fn nonce_rules() {
    assert_eq!(check_nonce(9, 10), NonceCheck::Next);
    assert_eq!(check_nonce(9, 9), NonceCheck::AlreadyAccepted);
    assert_eq!(check_nonce(9, 3), NonceCheck::AlreadyAccepted);
    assert_eq!(check_nonce(9, 12), NonceCheck::Gap { expected: 10 });
    let mut hub = standard_hub();
    assert_eq!(hub.submit(claim(2, 10, "a"), 1), ClaimResult::NonceGap { expected: 1 });
    assert!(hub.attestation(2).is_none());
}

#[test]
fn resubmission_leaves_hub_unchanged() {
    let mut hub = standard_hub();
    assert_eq!(hub.submit(claim(1, 10, "a"), 1), ClaimResult::Accepted);
    assert_eq!(hub.submit(claim(1, 10, "a"), 2), ClaimResult::Duplicate);
    assert_eq!(hub.last_nonce(&"a".to_string()), 1);
    let att = hub.attestation(1).unwrap();
    assert_eq!(att.power(), 40);
    assert_eq!(att.votes().len(), 1);
    assert_eq!(att.height(), 1);
}

#[test]
fn retried_submission_is_one_logical_claim() {
    let mut hub = standard_hub();
    for n in 1..10u64 {
        assert_eq!(hub.submit(claim(n, 5, "a"), n), ClaimResult::Accepted);
    }
    let mut w = EventWatcher::new(9);
    w.observe(deposit(10, 5), 0);
    let c = Claim::from_event(&w.next_event().unwrap().event, &"a".to_string());
    // the first send lands but its acknowledgement is lost
    assert_eq!(hub.submit(c.clone(), 20), ClaimResult::Accepted);
    // the retry is answered as a duplicate
    assert_eq!(hub.submit(c, 21), ClaimResult::Duplicate);
    assert!(w.mark_submitted());
    assert_eq!(w.last_seen(), 10);
    assert_eq!(w.buffered(), 0);
    assert!(!w.mark_submitted());
    assert_eq!(hub.last_nonce(&"a".to_string()), 10);
    assert_eq!(hub.attestation(10).unwrap().votes().len(), 1);
}

#[test]
fn invalid_tables_are_refused() {
    assert!(Hub::new(table(&[("a", 1), ("a", 2)])).is_none());
    assert!(Hub::new(table(&[("a", u64::MAX), ("b", 1)])).is_none());
    assert!(table(&[("a", u64::MAX)]).is_valid());
    assert_eq!(table(&[("a", 7), ("b", 8)]).total_power(), 15);
}

#[test]
fn batch_relay_needs_two_thirds_of_signers() {
    let t = table(&[("0xa", 40), ("0xb", 35), ("0xc", 25)]);
    let confirm = |signer: &str, nonce: u64, token: &str| MsgConfirmBatch {
        nonce,
        token_contract: token.to_string(),
        eth_signer: signer.to_string(),
        orchestrator: "fx1".to_string(),
        signature: "sig".to_string(),
    };
    let token = "0xtoken".to_string();
    let confirms = vec![
        confirm("0xa", 4, "0xtoken"),
        confirm("0xa", 4, "0xtoken"),
        confirm("0xb", 3, "0xtoken"),
        confirm("0xc", 4, "0xother"),
    ];
    assert!(!batch_relayable(&t, &confirms, 4, &token));
    let mut more = confirms.clone();
    more.push(confirm("0xb", 4, "0xtoken"));
    assert!(batch_relayable(&t, &more, 4, &token));
    assert_eq!(signed_power(&t, &vec!["0xa".to_string(), "0xa".to_string(), "0xz".to_string()]), 40);
}

#[test]
fn valset_relay_uses_member_addresses() {
    let v = Valset {
        nonce: 3,
        members: vec![
            BridgeValidator { power: 60, eth_address: "0xa".to_string() },
            BridgeValidator { power: 40, eth_address: "0xb".to_string() },
        ],
        height: 10,
    };
    let t = PowerTable::from_valset(&v);
    assert_eq!(t.members[0].id, "0xa");
    assert_eq!(t.total_power(), 100);
    let confirm = |addr: &str, nonce: u64| MsgValsetConfirm {
        nonce,
        orchestrator: "fx1".to_string(),
        eth_address: addr.to_string(),
        signature: "sig".to_string(),
    };
    assert!(!valset_relayable(&t, &vec![confirm("0xa", 3), confirm("0xb", 2)], 3));
    assert!(valset_relayable(&t, &vec![confirm("0xa", 3), confirm("0xb", 3)], 3));
}

#[test]
fn vote_outcomes_on_a_single_attestation() {
    let t = table(&[("a", 40), ("b", 35), ("c", 25)]);
    let (mut att, first) = Attestation::open(&t, &"c".to_string(), deposit(1, 1), 4);
    assert_eq!(first, VoteOutcome::Counted);
    assert_eq!(att.add_vote(&t, &"c".to_string(), &deposit(1, 1), 5), VoteOutcome::AlreadyVoted);
    assert_eq!(att.add_vote(&t, &"x".to_string(), &deposit(1, 1), 5), VoteOutcome::UnknownVoter);
    assert_eq!(att.add_vote(&t, &"a".to_string(), &deposit(1, 2), 5), VoteOutcome::Conflict);
    assert_eq!(att.add_vote(&t, &"a".to_string(), &deposit(1, 1), 6), VoteOutcome::Counted);
    assert_eq!(att.power(), 65);
    assert!(!att.is_observed());
    assert_eq!(att.add_vote(&t, &"b".to_string(), &deposit(1, 1), 9), VoteOutcome::Observed);
    assert_eq!(att.power(), 100);
    assert!(att.is_observed());
    assert_eq!(att.height(), 9);
    assert_eq!(att.event(), &deposit(1, 1));
}

#[test]
fn valset_update_supersedes_only_older_sets() {
    let current = Valset {
        nonce: 4,
        members: vec![BridgeValidator { power: 10, eth_address: "0xa".to_string() }],
        height: 100,
    };
    let update = ValsetUpdatedEvent {
        event_nonce: 12,
        block_height: 300,
        valset_nonce: 5,
        members: vec![
            BridgeValidator { power: 6, eth_address: "0xa".to_string() },
            BridgeValidator { power: 4, eth_address: "0xb".to_string() },
        ],
    };
    let next = update.apply_to(&current).unwrap();
    assert_eq!(next.nonce, 5);
    assert_eq!(next.height, 300);
    assert_eq!(next.members, update.members);
    let stale = ValsetUpdatedEvent { valset_nonce: 4, ..update.clone() };
    assert!(stale.apply_to(&current).is_none());
}
