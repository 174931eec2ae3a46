//! Block production for a delegated (single-signer) consensus: the assembly of
//! a block header on top of the current chain tip, its canonical signing
//! encoding, and the proposal loop that sequences the collaborator calls and
//! decides which failures end block production.
mod assembly;
mod encoding;
mod laws;
mod proposer;
mod types;

pub use assembly::{assemble_block, assemble_spec};
pub use encoding::{
    address_bytes, aggregate_bytes, cid_list_bytes, encodable, epoch_word, le_bytes,
    length_prefixed, pow256, same_signable_fields, sig_type_byte, signature_bytes, signing_bytes,
};
pub use laws::{
    lemma_consecutive_ticks_increase_epoch, lemma_halted_is_terminal, lemma_run_append,
    lemma_signed_block_carries_signed_header, lemma_signing_bytes_determine_header,
    lemma_successful_tick, lemma_signing_failure_prevents_submission,
    lemma_state_failure_prevents_signing, lemma_submission_failure_keeps_loop_live,
    successful_tick, tick_tip, tip_extends,
};
pub use proposer::{next, run, Action, DelegatedProposer, Event, LoopState, ProposalLoop};
pub use types::{
    Address, AssemblyFailure, ChainConfig, ChainTip, Cid, Key, PersistedMessages,
    ProposalError, Signature, SignatureType, SignedBlock, UnsignedBlock, UnsignedHeader,
};
