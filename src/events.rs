//! Bridge events observed on the external chain, and the claims that an
//! orchestrator builds from them for the hub.
use vstd::prelude::*;
use crate::types::{BridgeValidator, ClaimType, Valset, copy_members, members_match, same_members};

verus! {

/// Tokens locked in the bridge contract for a receiver on the hub.
#[derive(Clone, Debug, PartialEq, Eq)]
pub struct DepositEvent {
    pub event_nonce: u64,
    pub block_height: u64,
    pub token_contract: String,
    pub amount: u128,
    pub eth_sender: String,
    pub fx_receiver: String,
    pub target_ibc: String,
}

/// A batch of outgoing transfers executed by the bridge contract.
#[derive(Clone, Debug, PartialEq, Eq)]
pub struct WithdrawEvent {
    pub event_nonce: u64,
    pub block_height: u64,
    pub batch_nonce: u64,
    pub token_contract: String,
}

/// An ERC20 representation deployed for a hub-originated token.
#[derive(Clone, Debug, PartialEq, Eq)]
pub struct OriginatedTokenEvent {
    pub event_nonce: u64,
    pub block_height: u64,
    pub token_contract: String,
    pub name: String,
    pub symbol: String,
    pub decimals: u64,
}

/// A signer set installed in the bridge contract.
#[derive(Clone, Debug, PartialEq, Eq)]
pub struct ValsetUpdatedEvent {
    pub event_nonce: u64,
    pub block_height: u64,
    pub valset_nonce: u64,
    pub members: Vec<BridgeValidator>,
}

/// A bridge-relevant event of the external chain.
#[derive(Clone, Debug, PartialEq, Eq)]
pub enum ChainEvent {
    Deposit(DepositEvent),
    Withdraw(WithdrawEvent),
    OriginatedToken(OriginatedTokenEvent),
    ValsetUpdated(ValsetUpdatedEvent),
}

impl ChainEvent {
    pub open spec fn nonce(&self) -> u64 {
        match self {
            ChainEvent::Deposit(e) => e.event_nonce,
            ChainEvent::Withdraw(e) => e.event_nonce,
            ChainEvent::OriginatedToken(e) => e.event_nonce,
            ChainEvent::ValsetUpdated(e) => e.event_nonce,
        }
    }

    pub open spec fn height(&self) -> u64 {
        match self {
            ChainEvent::Deposit(e) => e.block_height,
            ChainEvent::Withdraw(e) => e.block_height,
            ChainEvent::OriginatedToken(e) => e.block_height,
            ChainEvent::ValsetUpdated(e) => e.block_height,
        }
    }

    /// Two events report the same thing: same variant, and equal fields
    /// (strings compared by their characters).
    pub open spec fn same_as(&self, o: &ChainEvent) -> bool {
        match (self, o) {
            (ChainEvent::Deposit(a), ChainEvent::Deposit(b)) => {
                &&& a.event_nonce == b.event_nonce
                &&& a.block_height == b.block_height
                &&& a.token_contract@ == b.token_contract@
                &&& a.amount == b.amount
                &&& a.eth_sender@ == b.eth_sender@
                &&& a.fx_receiver@ == b.fx_receiver@
                &&& a.target_ibc@ == b.target_ibc@
            },
            (ChainEvent::Withdraw(a), ChainEvent::Withdraw(b)) => {
                &&& a.event_nonce == b.event_nonce
                &&& a.block_height == b.block_height
                &&& a.batch_nonce == b.batch_nonce
                &&& a.token_contract@ == b.token_contract@
            },
            (ChainEvent::OriginatedToken(a), ChainEvent::OriginatedToken(b)) => {
                &&& a.event_nonce == b.event_nonce
                &&& a.block_height == b.block_height
                &&& a.token_contract@ == b.token_contract@
                &&& a.name@ == b.name@
                &&& a.symbol@ == b.symbol@
                &&& a.decimals == b.decimals
            },
            (ChainEvent::ValsetUpdated(a), ChainEvent::ValsetUpdated(b)) => {
                &&& a.event_nonce == b.event_nonce
                &&& a.block_height == b.block_height
                &&& a.valset_nonce == b.valset_nonce
                &&& same_members(a.members@, b.members@)
            },
            _ => false,
        }
    }

    pub fn event_nonce(&self) -> (r: u64)
        ensures
            r == self.nonce(),
    {
        match self {
            ChainEvent::Deposit(e) => e.event_nonce,
            ChainEvent::Withdraw(e) => e.event_nonce,
            ChainEvent::OriginatedToken(e) => e.event_nonce,
            ChainEvent::ValsetUpdated(e) => e.event_nonce,
        }
    }

    pub fn block_height(&self) -> (r: u64)
        ensures
            r == self.height(),
    {
        match self {
            ChainEvent::Deposit(e) => e.block_height,
            ChainEvent::Withdraw(e) => e.block_height,
            ChainEvent::OriginatedToken(e) => e.block_height,
            ChainEvent::ValsetUpdated(e) => e.block_height,
        }
    }

    pub open spec fn kind(&self) -> ClaimType {
        match self {
            ChainEvent::Deposit(_) => ClaimType::Deposit,
            ChainEvent::Withdraw(_) => ClaimType::Withdraw,
            ChainEvent::OriginatedToken(_) => ClaimType::OriginatedToken,
            ChainEvent::ValsetUpdated(_) => ClaimType::ValsetUpdated,
        }
    }

    pub fn claim_type(&self) -> (r: ClaimType)
        ensures
            r == self.kind(),
    {
        match self {
            ChainEvent::Deposit(_) => ClaimType::Deposit,
            ChainEvent::Withdraw(_) => ClaimType::Withdraw,
            ChainEvent::OriginatedToken(_) => ClaimType::OriginatedToken,
            ChainEvent::ValsetUpdated(_) => ClaimType::ValsetUpdated,
        }
    }

    /// Decides whether two events report the same thing.
    pub fn matches(&self, o: &ChainEvent) -> (r: bool)
        ensures
            r == self.same_as(o),
    {
        match (self, o) {
            (ChainEvent::Deposit(a), ChainEvent::Deposit(b)) => {
                a.event_nonce == b.event_nonce && a.block_height == b.block_height
                    && a.token_contract == b.token_contract && a.amount == b.amount
                    && a.eth_sender == b.eth_sender && a.fx_receiver == b.fx_receiver
                    && a.target_ibc == b.target_ibc
            },
            (ChainEvent::Withdraw(a), ChainEvent::Withdraw(b)) => {
                a.event_nonce == b.event_nonce && a.block_height == b.block_height
                    && a.batch_nonce == b.batch_nonce && a.token_contract == b.token_contract
            },
            (ChainEvent::OriginatedToken(a), ChainEvent::OriginatedToken(b)) => {
                a.event_nonce == b.event_nonce && a.block_height == b.block_height
                    && a.token_contract == b.token_contract && a.name == b.name
                    && a.symbol == b.symbol && a.decimals == b.decimals
            },
            (ChainEvent::ValsetUpdated(a), ChainEvent::ValsetUpdated(b)) => {
                a.event_nonce == b.event_nonce && a.block_height == b.block_height
                    && a.valset_nonce == b.valset_nonce && members_match(&a.members, &b.members)
            },
            _ => false,
        }
    }

    /// A copy that reports the same thing.
    pub fn copy(&self) -> (r: ChainEvent)
        ensures
            r.same_as(self),
    {
        match self {
            ChainEvent::Deposit(e) => ChainEvent::Deposit(
                DepositEvent {
                    event_nonce: e.event_nonce,
                    block_height: e.block_height,
                    token_contract: e.token_contract.clone(),
                    amount: e.amount,
                    eth_sender: e.eth_sender.clone(),
                    fx_receiver: e.fx_receiver.clone(),
                    target_ibc: e.target_ibc.clone(),
                },
            ),
            ChainEvent::Withdraw(e) => ChainEvent::Withdraw(
                WithdrawEvent {
                    event_nonce: e.event_nonce,
                    block_height: e.block_height,
                    batch_nonce: e.batch_nonce,
                    token_contract: e.token_contract.clone(),
                },
            ),
            ChainEvent::OriginatedToken(e) => ChainEvent::OriginatedToken(
                OriginatedTokenEvent {
                    event_nonce: e.event_nonce,
                    block_height: e.block_height,
                    token_contract: e.token_contract.clone(),
                    name: e.name.clone(),
                    symbol: e.symbol.clone(),
                    decimals: e.decimals,
                },
            ),
            ChainEvent::ValsetUpdated(e) => ChainEvent::ValsetUpdated(
                ValsetUpdatedEvent {
                    event_nonce: e.event_nonce,
                    block_height: e.block_height,
                    valset_nonce: e.valset_nonce,
                    members: copy_members(&e.members),
                },
            ),
        }
    }
}

impl ValsetUpdatedEvent {
    /// The signer set that this update installs over `current`: a newer
    /// version replaces it; an older or equal one changes nothing.
    pub fn apply_to(&self, current: &Valset) -> (r: Option<Valset>)
        ensures
            r.is_some() <==> self.valset_nonce > current.nonce,
            r matches Some(v) ==> v.nonce == self.valset_nonce && v.height == self.block_height
                && v.members@ == self.members@,
    {
        if self.valset_nonce > current.nonce {
            Some(Valset { nonce: self.valset_nonce, members: copy_members(&self.members), height: self.block_height })
        } else {
            None
        }
    }
}

/// Reporting the same thing is symmetric and transitive.
pub proof fn lemma_same_as_equivalence(a: ChainEvent, b: ChainEvent, c: ChainEvent)
    ensures
        a.same_as(&a),
        a.same_as(&b) ==> b.same_as(&a),
        a.same_as(&b) && b.same_as(&c) ==> a.same_as(&c),
        a.same_as(&b) ==> a.nonce() == b.nonce() && a.height() == b.height(),
{
}

/// Claim that a deposit occurred.
#[derive(Clone, Debug, PartialEq, Eq)]
pub struct MsgDepositClaim {
    pub event_nonce: u64,
    pub block_height: u64,
    pub token_contract: String,
    pub amount: u128,
    pub eth_sender: String,
    pub fx_receiver: String,
    pub target_ibc: String,
    pub orchestrator: String,
}

/// Claim that a batch of withdrawals was executed.
#[derive(Clone, Debug, PartialEq, Eq)]
pub struct MsgWithdrawClaim {
    pub event_nonce: u64,
    pub block_height: u64,
    pub batch_nonce: u64,
    pub token_contract: String,
    pub orchestrator: String,
}

/// Claim that an ERC20 representation of a hub token was deployed.
#[derive(Clone, Debug, PartialEq, Eq)]
pub struct MsgFxOriginatedTokenClaim {
    pub event_nonce: u64,
    pub block_height: u64,
    pub token_contract: String,
    pub name: String,
    pub symbol: String,
    pub decimals: u64,
    pub orchestrator: String,
}

/// Claim that the bridge contract installed a new signer set.
#[derive(Clone, Debug, PartialEq, Eq)]
pub struct MsgValsetUpdatedClaim {
    pub event_nonce: u64,
    pub block_height: u64,
    pub valset_nonce: u64,
    pub members: Vec<BridgeValidator>,
    pub orchestrator: String,
}

/// The claim record that an orchestrator submits to the hub.
#[derive(Clone, Debug, PartialEq, Eq)]
pub enum Claim {
    Deposit(MsgDepositClaim),
    Withdraw(MsgWithdrawClaim),
    OriginatedToken(MsgFxOriginatedTokenClaim),
    ValsetUpdated(MsgValsetUpdatedClaim),
}

impl Claim {
    pub open spec fn claimant(&self) -> Seq<char> {
        match self {
            Claim::Deposit(c) => c.orchestrator@,
            Claim::Withdraw(c) => c.orchestrator@,
            Claim::OriginatedToken(c) => c.orchestrator@,
            Claim::ValsetUpdated(c) => c.orchestrator@,
        }
    }

    /// The claim reports event `e` and is tagged with the orchestrator `o`.
    pub open spec fn reports(&self, e: ChainEvent, o: Seq<char>) -> bool {
        self.claimant() == o && match (self, e) {
            (Claim::Deposit(c), ChainEvent::Deposit(a)) => {
                &&& c.event_nonce == a.event_nonce
                &&& c.block_height == a.block_height
                &&& c.token_contract@ == a.token_contract@
                &&& c.amount == a.amount
                &&& c.eth_sender@ == a.eth_sender@
                &&& c.fx_receiver@ == a.fx_receiver@
                &&& c.target_ibc@ == a.target_ibc@
            },
            (Claim::Withdraw(c), ChainEvent::Withdraw(a)) => {
                &&& c.event_nonce == a.event_nonce
                &&& c.block_height == a.block_height
                &&& c.batch_nonce == a.batch_nonce
                &&& c.token_contract@ == a.token_contract@
            },
            (Claim::OriginatedToken(c), ChainEvent::OriginatedToken(a)) => {
                &&& c.event_nonce == a.event_nonce
                &&& c.block_height == a.block_height
                &&& c.token_contract@ == a.token_contract@
                &&& c.name@ == a.name@
                &&& c.symbol@ == a.symbol@
                &&& c.decimals == a.decimals
            },
            (Claim::ValsetUpdated(c), ChainEvent::ValsetUpdated(a)) => {
                &&& c.event_nonce == a.event_nonce
                &&& c.block_height == a.block_height
                &&& c.valset_nonce == a.valset_nonce
                &&& same_members(c.members@, a.members@)
            },
            _ => false,
        }
    }

    /// The event that the claim reports, as a value.
    pub open spec fn event_of(&self) -> ChainEvent {
        match self {
            Claim::Deposit(c) => ChainEvent::Deposit(
                DepositEvent {
                    event_nonce: c.event_nonce,
                    block_height: c.block_height,
                    token_contract: c.token_contract,
                    amount: c.amount,
                    eth_sender: c.eth_sender,
                    fx_receiver: c.fx_receiver,
                    target_ibc: c.target_ibc,
                },
            ),
            Claim::Withdraw(c) => ChainEvent::Withdraw(
                WithdrawEvent {
                    event_nonce: c.event_nonce,
                    block_height: c.block_height,
                    batch_nonce: c.batch_nonce,
                    token_contract: c.token_contract,
                },
            ),
            Claim::OriginatedToken(c) => ChainEvent::OriginatedToken(
                OriginatedTokenEvent {
                    event_nonce: c.event_nonce,
                    block_height: c.block_height,
                    token_contract: c.token_contract,
                    name: c.name,
                    symbol: c.symbol,
                    decimals: c.decimals,
                },
            ),
            Claim::ValsetUpdated(c) => ChainEvent::ValsetUpdated(
                ValsetUpdatedEvent {
                    event_nonce: c.event_nonce,
                    block_height: c.block_height,
                    valset_nonce: c.valset_nonce,
                    members: c.members,
                },
            ),
        }
    }

    /// Splits the claim into the event it reports and its claimant.
    pub fn into_parts(self) -> (r: (ChainEvent, String))
        ensures
            r.0 == self.event_of(),
            r.1@ == self.claimant(),
            self.reports(r.0, r.1@),
    {
        match self {
            Claim::Deposit(c) => (
                ChainEvent::Deposit(
                    DepositEvent {
                        event_nonce: c.event_nonce,
                        block_height: c.block_height,
                        token_contract: c.token_contract,
                        amount: c.amount,
                        eth_sender: c.eth_sender,
                        fx_receiver: c.fx_receiver,
                        target_ibc: c.target_ibc,
                    },
                ),
                c.orchestrator,
            ),
            Claim::Withdraw(c) => (
                ChainEvent::Withdraw(
                    WithdrawEvent {
                        event_nonce: c.event_nonce,
                        block_height: c.block_height,
                        batch_nonce: c.batch_nonce,
                        token_contract: c.token_contract,
                    },
                ),
                c.orchestrator,
            ),
            Claim::OriginatedToken(c) => (
                ChainEvent::OriginatedToken(
                    OriginatedTokenEvent {
                        event_nonce: c.event_nonce,
                        block_height: c.block_height,
                        token_contract: c.token_contract,
                        name: c.name,
                        symbol: c.symbol,
                        decimals: c.decimals,
                    },
                ),
                c.orchestrator,
            ),
            Claim::ValsetUpdated(c) => (
                ChainEvent::ValsetUpdated(
                    ValsetUpdatedEvent {
                        event_nonce: c.event_nonce,
                        block_height: c.block_height,
                        valset_nonce: c.valset_nonce,
                        members: c.members,
                    },
                ),
                c.orchestrator,
            ),
        }
    }

    /// Builds the claim that reports `event` for `orchestrator`.
    pub fn from_event(event: &ChainEvent, orchestrator: &String) -> (r: Claim)
        ensures
            r.reports(*event, orchestrator@),
    {
        match event {
            ChainEvent::Deposit(e) => Claim::Deposit(
                MsgDepositClaim {
                    event_nonce: e.event_nonce,
                    block_height: e.block_height,
                    token_contract: e.token_contract.clone(),
                    amount: e.amount,
                    eth_sender: e.eth_sender.clone(),
                    fx_receiver: e.fx_receiver.clone(),
                    target_ibc: e.target_ibc.clone(),
                    orchestrator: orchestrator.clone(),
                },
            ),
            ChainEvent::Withdraw(e) => Claim::Withdraw(
                MsgWithdrawClaim {
                    event_nonce: e.event_nonce,
                    block_height: e.block_height,
                    batch_nonce: e.batch_nonce,
                    token_contract: e.token_contract.clone(),
                    orchestrator: orchestrator.clone(),
                },
            ),
            ChainEvent::OriginatedToken(e) => Claim::OriginatedToken(
                MsgFxOriginatedTokenClaim {
                    event_nonce: e.event_nonce,
                    block_height: e.block_height,
                    token_contract: e.token_contract.clone(),
                    name: e.name.clone(),
                    symbol: e.symbol.clone(),
                    decimals: e.decimals,
                    orchestrator: orchestrator.clone(),
                },
            ),
            ChainEvent::ValsetUpdated(e) => Claim::ValsetUpdated(
                MsgValsetUpdatedClaim {
                    event_nonce: e.event_nonce,
                    block_height: e.block_height,
                    valset_nonce: e.valset_nonce,
                    members: copy_members(&e.members),
                    orchestrator: orchestrator.clone(),
                },
            ),
        }
    }

    /// The event that the claim reports, without the claimant.
    pub fn to_event(&self) -> (r: ChainEvent)
        ensures
            self.reports(r, self.claimant()),
    {
        match self {
            Claim::Deposit(c) => ChainEvent::Deposit(
                DepositEvent {
                    event_nonce: c.event_nonce,
                    block_height: c.block_height,
                    token_contract: c.token_contract.clone(),
                    amount: c.amount,
                    eth_sender: c.eth_sender.clone(),
                    fx_receiver: c.fx_receiver.clone(),
                    target_ibc: c.target_ibc.clone(),
                },
            ),
            Claim::Withdraw(c) => ChainEvent::Withdraw(
                WithdrawEvent {
                    event_nonce: c.event_nonce,
                    block_height: c.block_height,
                    batch_nonce: c.batch_nonce,
                    token_contract: c.token_contract.clone(),
                },
            ),
            Claim::OriginatedToken(c) => ChainEvent::OriginatedToken(
                OriginatedTokenEvent {
                    event_nonce: c.event_nonce,
                    block_height: c.block_height,
                    token_contract: c.token_contract.clone(),
                    name: c.name.clone(),
                    symbol: c.symbol.clone(),
                    decimals: c.decimals,
                },
            ),
            Claim::ValsetUpdated(c) => ChainEvent::ValsetUpdated(
                ValsetUpdatedEvent {
                    event_nonce: c.event_nonce,
                    block_height: c.block_height,
                    valset_nonce: c.valset_nonce,
                    members: copy_members(&c.members),
                },
            ),
        }
    }

    pub fn event_nonce(&self) -> (r: u64)
        ensures
            r == self.event_of().nonce(),
    {
        match self {
            Claim::Deposit(c) => c.event_nonce,
            Claim::Withdraw(c) => c.event_nonce,
            Claim::OriginatedToken(c) => c.event_nonce,
            Claim::ValsetUpdated(c) => c.event_nonce,
        }
    }
}

/// A claim built from an event gives that event back: the two records
/// carry the same content.
pub proof fn lemma_claim_round_trip(e: ChainEvent, o: Seq<char>, c: Claim, back: ChainEvent)
    requires
        c.reports(e, o),
        c.reports(back, c.claimant()),
    ensures
        back.same_as(&e),
        c.claimant() == o,
{
}

} // verus!
