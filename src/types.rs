//! Records of the bridge's data model, held as plain values.
use vstd::prelude::*;

verus! {

/// The kind of counterpart-chain event that a claim reports.
#[derive(Clone, Copy, Debug, PartialEq, Eq, Structural, Hash, PartialOrd, Ord)]
pub enum ClaimType {
    Unspecified,
    Deposit,
    Withdraw,
    OriginatedToken,
    ValsetUpdated,
}

/// What an orchestrator has signed with its external-chain key.
#[derive(Clone, Copy, Debug, PartialEq, Eq, Structural, Hash, PartialOrd, Ord)]
pub enum SignType {
    Unspecified,
    OrchestratorSignedMultiSigUpdate,
    OrchestratorSignedWithdrawBatch,
}

/// An amount of an ERC20 token, identified by its contract address.
#[derive(Clone, Debug, PartialEq, Eq)]
pub struct Erc20Token {
    pub contract: String,
    pub amount: u128,
}

impl Erc20Token {
    pub fn copy(&self) -> (r: Erc20Token)
        ensures
            r == *self,
    {
        Erc20Token { contract: self.contract.clone(), amount: self.amount }
    }
}

/// A set of transaction ids.
#[derive(Clone, Debug, PartialEq, Eq)]
pub struct IdSet {
    pub ids: Vec<u64>,
}

/// The fees that the unbatched transfers of one token would pay.
#[derive(Clone, Debug, PartialEq, Eq)]
pub struct BatchFees {
    pub token_contract: String,
    pub total_fees: u128,
    pub total_txs: u64,
}

/// A pending transfer from the hub to the EVM chain.
#[derive(Clone, Debug, PartialEq, Eq)]
pub struct OutgoingTransferTx {
    pub id: u64,
    pub sender: String,
    pub dest_address: String,
    pub erc20_token: Erc20Token,
    pub erc20_fee: Erc20Token,
}

impl OutgoingTransferTx {
    pub fn copy(&self) -> (r: OutgoingTransferTx)
        ensures
            r == *self,
    {
        OutgoingTransferTx {
            id: self.id,
            sender: self.sender.clone(),
            dest_address: self.dest_address.clone(),
            erc20_token: self.erc20_token.copy(),
            erc20_fee: self.erc20_fee.copy(),
        }
    }
}

/// A frozen, ordered group of outgoing transfers for one token contract.
#[derive(Clone, Debug, PartialEq, Eq)]
pub struct OutgoingTxBatch {
    pub batch_nonce: u64,
    pub batch_timeout: u64,
    pub transactions: Vec<OutgoingTransferTx>,
    pub token_contract: String,
    pub block: u64,
    pub fee_receive: String,
}

/// A bridge signer: its external-chain address and its voting power.
#[derive(Clone, Debug, PartialEq, Eq)]
pub struct BridgeValidator {
    pub power: u64,
    pub eth_address: String,
}

impl BridgeValidator {
    pub fn copy(&self) -> (r: BridgeValidator)
        ensures
            r == *self,
    {
        BridgeValidator { power: self.power, eth_address: self.eth_address.clone() }
    }
}

/// Two member lists that hold the same powers and addresses, in the same order.
pub open spec fn same_members(a: Seq<BridgeValidator>, b: Seq<BridgeValidator>) -> bool {
    &&& a.len() == b.len()
    &&& forall|i: int|
        #![trigger a[i]]
        #![trigger b[i]]
        0 <= i < a.len() ==> a[i].power == b[i].power && a[i].eth_address@ == b[i].eth_address@
}

/// Copies a member list element by element.
pub fn copy_members(v: &Vec<BridgeValidator>) -> (r: Vec<BridgeValidator>)
    ensures
        r@ == v@,
{
    let mut r: Vec<BridgeValidator> = Vec::new();
    let mut i: usize = 0;
    while i < v.len()
        invariant
            i <= v.len(),
            r@ == v@.subrange(0, i as int),
        decreases v.len() - i,
    {
        r.push(v[i].copy());
        i = i + 1;
    }
    assert(r@ =~= v@);
    r
}

/// Compares two member lists by power and address.
pub fn members_match(a: &Vec<BridgeValidator>, b: &Vec<BridgeValidator>) -> (r: bool)
    ensures
        r == same_members(a@, b@),
{
    if a.len() != b.len() {
        return false;
    }
    let mut i: usize = 0;
    while i < a.len()
        invariant
            a.len() == b.len(),
            i <= a.len(),
            forall|j: int|
                #![trigger a@[j]]
                0 <= j < i ==> a@[j].power == b@[j].power && a@[j].eth_address@
                    == b@[j].eth_address@,
        decreases a.len() - i,
    {
        if a[i].power != b[i].power || !(a[i].eth_address == b[i].eth_address) {
            return false;
        }
        i = i + 1;
    }
    true
}

/// The bridge signer set at one version.
#[derive(Clone, Debug, PartialEq, Eq)]
pub struct Valset {
    pub nonce: u64,
    pub members: Vec<BridgeValidator>,
    pub height: u64,
}

/// The last observed external-chain height, with the hub height at which it
/// was recorded.
#[derive(Clone, Copy, Debug, PartialEq, Eq)]
pub struct LastObservedEthereumBlockHeight {
    pub fx_block_height: u64,
    pub eth_block_height: u64,
}

/// The link between an ERC20 contract and a hub denomination.
#[derive(Clone, Debug, PartialEq, Eq)]
pub struct Erc20ToDenom {
    pub erc20: String,
    pub denom: String,
}

/// The bridge's governance parameters.
#[derive(Clone, Debug, PartialEq, Eq)]
pub struct Params {
    pub gravity_id: String,
    pub contract_source_hash: String,
    pub bridge_eth_address: String,
    pub bridge_chain_id: u64,
    pub signed_valsets_window: u64,
    pub signed_batches_window: u64,
    pub signed_claims_window: u64,
    /// Target lifetime of a batch, in milliseconds.
    pub target_batch_timeout: u64,
    /// Average hub block time, in milliseconds.
    pub average_block_time: u64,
    /// Average external-chain block time, in milliseconds.
    pub average_eth_block_time: u64,
    pub slash_fraction_valset: Vec<u8>,
    pub slash_fraction_batch: Vec<u8>,
    pub slash_fraction_claim: Vec<u8>,
    pub slash_fraction_conflicting_claim: Vec<u8>,
    pub unbond_slashing_valsets_window: u64,
    pub ibc_transfer_timeout_height: u64,
    pub valset_update_power_change_percent: Vec<u8>,
}

/// A validator's delegation of its bridge duties to an orchestrator key.
#[derive(Clone, Debug, PartialEq, Eq)]
pub struct MsgSetOrchestratorAddress {
    pub validator: String,
    pub orchestrator: String,
    pub eth_address: String,
}

/// An orchestrator's signature over a signer set.
#[derive(Clone, Debug, PartialEq, Eq)]
pub struct MsgValsetConfirm {
    pub nonce: u64,
    pub orchestrator: String,
    pub eth_address: String,
    pub signature: String,
}

/// A user's request to send a token across the bridge.
#[derive(Clone, Debug, PartialEq, Eq)]
pub struct MsgSendToEth {
    pub sender: String,
    pub eth_dest: String,
    pub amount: Erc20Token,
    pub bridge_fee: Erc20Token,
}

/// A request that a batch be built for one denomination.
#[derive(Clone, Debug, PartialEq, Eq)]
pub struct MsgRequestBatch {
    pub sender: String,
    pub denom: String,
    pub minimum_fee: u128,
    pub fee_receive: String,
}

/// An orchestrator's signature over a frozen batch.
#[derive(Clone, Debug, PartialEq, Eq)]
pub struct MsgConfirmBatch {
    pub nonce: u64,
    pub token_contract: String,
    pub eth_signer: String,
    pub orchestrator: String,
    pub signature: String,
}

/// A sender's cancellation of a transfer that is still unbatched.
#[derive(Clone, Debug, PartialEq, Eq)]
pub struct MsgCancelSendToEth {
    pub transaction_id: u64,
    pub sender: String,
}

} // verus!
