use vstd::prelude::*;

verus! {

/// A content identifier, held in its binary form.
#[derive(Debug)]
pub struct Cid {
    pub bytes: Vec<u8>,
}

impl View for Cid {
    type V = Seq<u8>;

    open spec fn view(&self) -> Seq<u8> {
        self.bytes@
    }
}

/// The address of an actor, by protocol.
#[derive(Clone, Copy, Debug)]
pub enum Address {
    Id(u64),
    Secp256k1([u8; 20]),
    Actor([u8; 20]),
    Bls([u8; 48]),
}

/// The signature schemes a key or a signature may belong to.
#[derive(Clone, Copy, Debug, PartialEq, Eq, Structural)]
pub enum SignatureType {
    Secp256k1,
    Bls,
    Delegated,
}

#[derive(Debug)]
pub struct Signature {
    pub sig_type: SignatureType,
    pub bytes: Vec<u8>,
}

/// The proposer's private signing key.
#[derive(Debug)]
pub struct Key {
    pub key_type: SignatureType,
    pub private_key: Vec<u8>,
}

/// A snapshot of the current best chain tip.
#[derive(Debug)]
pub struct ChainTip {
    /// The identifiers of the tip's blocks, which become the new block's parents.
    pub key: Vec<Cid>,
    pub epoch: i64,
    pub min_timestamp: u64,
    /// The identifier of the tip's block with the smallest ticket.
    pub min_ticket_block: Cid,
}

/// What the proposer reads of the chain configuration.
#[derive(Clone, Copy, Debug)]
pub struct ChainConfig {
    /// The fixed interval between blocks, in whole seconds.
    pub block_delay_secs: u64,
    /// The epoch of the network upgrade that parameterises the base fee.
    pub base_fee_upgrade_epoch: i64,
}

/// The selected messages, as persisted in the blockstore.
#[derive(Debug)]
pub struct PersistedMessages {
    /// The identifier of the persisted bundle.
    pub msg_cid: Cid,
    /// The aggregate signature over the BLS-signed messages.
    pub bls_agg: Signature,
    pub bls_cids: Vec<Cid>,
    pub secp_cids: Vec<Cid>,
}

/// A block header before it is signed.
#[derive(Debug)]
pub struct UnsignedHeader {
    pub parents: Vec<Cid>,
    pub epoch: i64,
    pub timestamp: u64,
    pub miner_address: Address,
    /// The chain weight of the parent tip.
    pub weight: u128,
    pub parent_base_fee: u128,
    pub state_root: Cid,
    pub message_receipts: Cid,
    pub messages: Cid,
    pub bls_aggregate: Option<Signature>,
}

/// An assembled block waiting for its signature.
#[derive(Debug)]
pub struct UnsignedBlock {
    pub header: UnsignedHeader,
    pub bls_messages: Vec<Cid>,
    pub secpk_messages: Vec<Cid>,
}

/// A signed block, ready to be broadcast.
#[derive(Debug)]
pub struct SignedBlock {
    pub header: UnsignedHeader,
    pub signature: Signature,
    pub bls_messages: Vec<Cid>,
    pub secpk_messages: Vec<Cid>,
}

/// Why the assembly of a block failed.
#[derive(Debug)]
pub enum AssemblyFailure {
    /// The parent state root and receipts could not be computed.
    StateComputation(String),
    BaseFee(String),
    Weight(String),
    /// The messages could not be selected or persisted.
    Messages(String),
    /// The parent epoch is the largest epoch there is.
    EpochOverflow,
    /// The parent timestamp plus the block delay exceeds the largest timestamp.
    TimestampOverflow,
}

/// The errors that end block production.
#[derive(Debug)]
pub enum ProposalError {
    AssemblyFailed(AssemblyFailure),
    SigningFailed(String),
}

} // verus!
