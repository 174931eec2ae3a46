use vstd::prelude::*;

use crate::assembly::{assemble_block, assemble_spec};
use crate::encoding::signing_bytes;
use crate::types::{
    Address, AssemblyFailure, ChainConfig, ChainTip, Cid, Key, PersistedMessages, ProposalError,
    Signature, SignedBlock, UnsignedBlock,
};

verus! {

/// The only authority allowed to produce blocks: its address and the private
/// key that signs them. It is built once and never changes.
pub struct DelegatedProposer {
    miner_addr: Address,
    key: Key,
}

impl DelegatedProposer {
    /// The address that every block of this proposer names as its miner.
    pub closed spec fn miner(&self) -> Address {
        self.miner_addr
    }

    pub closed spec fn signing_key(&self) -> Key {
        self.key
    }

    pub fn new(miner_addr: Address, key: Key) -> (r: Self)
        ensures
            r.miner() == miner_addr,
            r.signing_key() == key,
    {
        DelegatedProposer { miner_addr, key }
    }

    pub fn miner_addr(&self) -> (r: Address)
        ensures
            r == self.miner(),
    {
        self.miner_addr
    }

    pub fn key(&self) -> (r: &Key)
        ensures
            *r == self.signing_key(),
    {
        &self.key
    }
}

/// Where the proposal loop stands. Between two ticks it is `Idle`; while a block
/// is built it holds what the collaborators have returned so far; `Halted` and
/// `Finished` are terminal.
#[derive(Debug)]
pub enum LoopState {
    Idle,
    FetchingTip,
    ComputingState { tip: ChainTip },
    ComputingBaseFee { tip: ChainTip, state_root: Cid, receipts: Cid },
    ComputingWeight { tip: ChainTip, state_root: Cid, receipts: Cid, base_fee: u128 },
    CollectingMessages {
        tip: ChainTip,
        state_root: Cid,
        receipts: Cid,
        base_fee: u128,
        weight: u128,
    },
    Signing { block: UnsignedBlock },
    Submitting { epoch: i64, message_count: u128 },
    Halted,
    Finished,
}

/// What the driver of the loop reports: a tick of the block timer, the end of
/// the timer, or the outcome of the collaborator call the loop asked for.
/// A collaborator's error is carried as its message.
#[derive(Debug)]
pub enum Event {
    Tick,
    TicksEnded,
    TipFetched(ChainTip),
    /// The parent state root and the parent receipts root.
    StateComputed(Result<(Cid, Cid), String>),
    BaseFeeComputed(Result<u128, String>),
    WeightComputed(Result<u128, String>),
    /// The mempool's selection, once persisted as a bundle.
    MessagesPersisted(Result<PersistedMessages, String>),
    Signed(Result<Signature, String>),
    Submitted(Result<(), String>),
}

/// What the loop asks of its driver next.
#[derive(Debug)]
pub enum Action {
    /// Fetch the current best chain tip.
    FetchTip,
    /// Compute the state root and receipts root of the tip.
    ComputeState,
    /// Compute the base fee of the new block from the tip.
    ComputeBaseFee { upgrade_epoch: i64 },
    /// Compute the chain weight of the tip.
    ComputeWeight,
    /// Select the messages valid against the tip and persist them.
    CollectMessages,
    /// Sign the pending header's signing bytes with the proposer's key.
    Sign,
    /// Hand the block to the submission pipeline.
    Submit(SignedBlock),
    /// The block was submitted: log it and wait for the next tick.
    Proposed { epoch: i64, message_count: u128 },
    /// The submission failed: log it and wait for the next tick.
    SubmissionFailed(String),
    /// Block production has failed for good: stop and report the error.
    Halt(ProposalError),
    /// The timer has ended: stop without error.
    Finish,
    /// The event was not the one the loop waits for; nothing changes.
    Ignore,
}

/// The loop's transition: the state after `e` in state `s`, and what the driver
/// must do next.
pub open spec fn next(miner: Address, config: ChainConfig, s: LoopState, e: Event) -> (
    LoopState,
    Action,
) {
    match s {
        LoopState::Idle => match e {
            Event::Tick => (LoopState::FetchingTip, Action::FetchTip),
            Event::TicksEnded => (LoopState::Finished, Action::Finish),
            _ => (s, Action::Ignore),
        },
        LoopState::FetchingTip => match e {
            Event::TipFetched(tip) => (LoopState::ComputingState { tip }, Action::ComputeState),
            _ => (s, Action::Ignore),
        },
        LoopState::ComputingState { tip } => match e {
            Event::StateComputed(Ok((state_root, receipts))) => (
                LoopState::ComputingBaseFee { tip, state_root, receipts },
                Action::ComputeBaseFee { upgrade_epoch: config.base_fee_upgrade_epoch },
            ),
            Event::StateComputed(Err(msg)) => (
                LoopState::Halted,
                Action::Halt(
                    ProposalError::AssemblyFailed(AssemblyFailure::StateComputation(msg)),
                ),
            ),
            _ => (s, Action::Ignore),
        },
        LoopState::ComputingBaseFee { tip, state_root, receipts } => match e {
            Event::BaseFeeComputed(Ok(base_fee)) => (
                LoopState::ComputingWeight { tip, state_root, receipts, base_fee },
                Action::ComputeWeight,
            ),
            Event::BaseFeeComputed(Err(msg)) => (
                LoopState::Halted,
                Action::Halt(ProposalError::AssemblyFailed(AssemblyFailure::BaseFee(msg))),
            ),
            _ => (s, Action::Ignore),
        },
        LoopState::ComputingWeight { tip, state_root, receipts, base_fee } => match e {
            Event::WeightComputed(Ok(weight)) => (
                LoopState::CollectingMessages { tip, state_root, receipts, base_fee, weight },
                Action::CollectMessages,
            ),
            Event::WeightComputed(Err(msg)) => (
                LoopState::Halted,
                Action::Halt(ProposalError::AssemblyFailed(AssemblyFailure::Weight(msg))),
            ),
            _ => (s, Action::Ignore),
        },
        LoopState::CollectingMessages { tip, state_root, receipts, base_fee, weight } => match e {
            Event::MessagesPersisted(Ok(persisted)) => match assemble_spec(
                tip,
                config,
                miner,
                state_root,
                receipts,
                base_fee,
                weight,
                persisted,
            ) {
                Ok(block) => (LoopState::Signing { block }, Action::Sign),
                Err(f) => (LoopState::Halted, Action::Halt(ProposalError::AssemblyFailed(f))),
            },
            Event::MessagesPersisted(Err(msg)) => (
                LoopState::Halted,
                Action::Halt(ProposalError::AssemblyFailed(AssemblyFailure::Messages(msg))),
            ),
            _ => (s, Action::Ignore),
        },
        LoopState::Signing { block } => match e {
            Event::Signed(Ok(signature)) => (
                LoopState::Submitting {
                    epoch: block.header.epoch,
                    message_count: (block.bls_messages@.len()
                        + block.secpk_messages@.len()) as u128,
                },
                Action::Submit(
                    SignedBlock {
                        header: block.header,
                        signature,
                        bls_messages: block.bls_messages,
                        secpk_messages: block.secpk_messages,
                    },
                ),
            ),
            Event::Signed(Err(msg)) => (
                LoopState::Halted,
                Action::Halt(ProposalError::SigningFailed(msg)),
            ),
            _ => (s, Action::Ignore),
        },
        LoopState::Submitting { epoch, message_count } => match e {
            Event::Submitted(Ok(())) => (LoopState::Idle, Action::Proposed { epoch, message_count }),
            Event::Submitted(Err(msg)) => (LoopState::Idle, Action::SubmissionFailed(msg)),
            _ => (s, Action::Ignore),
        },
        LoopState::Halted => (s, Action::Ignore),
        LoopState::Finished => (s, Action::Ignore),
    }
}

/// The state after a sequence of events, and the actions asked on the way.
pub open spec fn run(miner: Address, config: ChainConfig, s: LoopState, events: Seq<Event>) -> (
    LoopState,
    Seq<Action>,
)
    decreases events.len(),
{
    if events.len() == 0 {
        (s, Seq::empty())
    } else {
        let (s1, a) = next(miner, config, s, events[0]);
        let (s2, rest) = run(miner, config, s1, events.drop_first());
        (s2, seq![a] + rest)
    }
}

/// The proposal loop of a delegated proposer, as a state machine. Its driver
/// waits for timer ticks, performs each action it is given and reports the
/// outcome as the next event.
pub struct ProposalLoop {
    proposer: DelegatedProposer,
    config: ChainConfig,
    state: LoopState,
}

impl ProposalLoop {
    pub closed spec fn identity(&self) -> DelegatedProposer {
        self.proposer
    }

    pub closed spec fn chain_config(&self) -> ChainConfig {
        self.config
    }

    pub closed spec fn loop_state(&self) -> LoopState {
        self.state
    }

    /// A loop that waits for its first tick.
    pub fn new(proposer: DelegatedProposer, config: ChainConfig) -> (r: Self)
        ensures
            r.identity() == proposer,
            r.chain_config() == config,
            r.loop_state() is Idle,
    {
        ProposalLoop { proposer, config, state: LoopState::Idle }
    }

    pub fn proposer(&self) -> (r: &DelegatedProposer)
        ensures
            *r == self.identity(),
    {
        &self.proposer
    }

    pub fn config(&self) -> (r: ChainConfig)
        ensures
            r == self.chain_config(),
    {
        self.config
    }

    pub fn state(&self) -> (r: &LoopState)
        ensures
            *r == self.loop_state(),
    {
        &self.state
    }

    /// The bytes to sign while the loop waits for a signature: the canonical
    /// encoding of the pending header. In any other state there is nothing to
    /// sign.
    pub fn signing_payload(&self) -> (r: Option<Vec<u8>>)
        ensures
            self.loop_state() is Signing <==> r is Some,
            r is Some ==> r->Some_0@ == signing_bytes(self.loop_state()->block.header),
    {
        match &self.state {
            LoopState::Signing { block } => Some(block.header.to_signing_bytes()),
            _ => None,
        }
    }

    /// Takes the next event and says what the driver must do.
    pub fn step(&mut self, event: Event) -> (r: Action)
        ensures
            final(self).identity() == old(self).identity(),
            final(self).chain_config() == old(self).chain_config(),
            (final(self).loop_state(), r) == next(
                old(self).identity().miner(),
                old(self).chain_config(),
                old(self).loop_state(),
                event,
            ),
    {
        let mut s = LoopState::Halted;
        core::mem::swap(&mut self.state, &mut s);
        let (s2, a) = self.transition(s, event);
        self.state = s2;
        a
    }

    fn transition(&self, s: LoopState, e: Event) -> (r: (LoopState, Action))
        ensures
            r == next(self.proposer.miner(), self.config, s, e),
    {
        match s {
            LoopState::Idle => match e {
                Event::Tick => (LoopState::FetchingTip, Action::FetchTip),
                Event::TicksEnded => (LoopState::Finished, Action::Finish),
                _ => (LoopState::Idle, Action::Ignore),
            },
            LoopState::FetchingTip => match e {
                Event::TipFetched(tip) => (LoopState::ComputingState { tip }, Action::ComputeState),
                _ => (LoopState::FetchingTip, Action::Ignore),
            },
            LoopState::ComputingState { tip } => match e {
                Event::StateComputed(Ok((state_root, receipts))) => (
                    LoopState::ComputingBaseFee { tip, state_root, receipts },
                    Action::ComputeBaseFee { upgrade_epoch: self.config.base_fee_upgrade_epoch },
                ),
                Event::StateComputed(Err(msg)) => (
                    LoopState::Halted,
                    Action::Halt(
                        ProposalError::AssemblyFailed(AssemblyFailure::StateComputation(msg)),
                    ),
                ),
                _ => (LoopState::ComputingState { tip }, Action::Ignore),
            },
            LoopState::ComputingBaseFee { tip, state_root, receipts } => match e {
                Event::BaseFeeComputed(Ok(base_fee)) => (
                    LoopState::ComputingWeight { tip, state_root, receipts, base_fee },
                    Action::ComputeWeight,
                ),
                Event::BaseFeeComputed(Err(msg)) => (
                    LoopState::Halted,
                    Action::Halt(ProposalError::AssemblyFailed(AssemblyFailure::BaseFee(msg))),
                ),
                _ => (LoopState::ComputingBaseFee { tip, state_root, receipts }, Action::Ignore),
            },
            LoopState::ComputingWeight { tip, state_root, receipts, base_fee } => match e {
                Event::WeightComputed(Ok(weight)) => (
                    LoopState::CollectingMessages { tip, state_root, receipts, base_fee, weight },
                    Action::CollectMessages,
                ),
                Event::WeightComputed(Err(msg)) => (
                    LoopState::Halted,
                    Action::Halt(ProposalError::AssemblyFailed(AssemblyFailure::Weight(msg))),
                ),
                _ => (
                    LoopState::ComputingWeight { tip, state_root, receipts, base_fee },
                    Action::Ignore,
                ),
            },
            LoopState::CollectingMessages { tip, state_root, receipts, base_fee, weight } => {
                match e {
                    Event::MessagesPersisted(Ok(persisted)) => {
                        let miner = self.proposer.miner_addr();
                        match assemble_block(
                            tip,
                            self.config,
                            miner,
                            state_root,
                            receipts,
                            base_fee,
                            weight,
                            persisted,
                        ) {
                            Ok(block) => (LoopState::Signing { block }, Action::Sign),
                            Err(f) => (
                                LoopState::Halted,
                                Action::Halt(ProposalError::AssemblyFailed(f)),
                            ),
                        }
                    },
                    Event::MessagesPersisted(Err(msg)) => (
                        LoopState::Halted,
                        Action::Halt(
                            ProposalError::AssemblyFailed(AssemblyFailure::Messages(msg)),
                        ),
                    ),
                    _ => (
                        LoopState::CollectingMessages {
                            tip,
                            state_root,
                            receipts,
                            base_fee,
                            weight,
                        },
                        Action::Ignore,
                    ),
                }
            },
            LoopState::Signing { block } => match e {
                Event::Signed(Ok(signature)) => {
                    let epoch = block.header.epoch;
                    let message_count = block.bls_messages.len() as u128
                        + block.secpk_messages.len() as u128;
                    let UnsignedBlock { header, bls_messages, secpk_messages } = block;
                    (
                        LoopState::Submitting { epoch, message_count },
                        Action::Submit(
                            SignedBlock { header, signature, bls_messages, secpk_messages },
                        ),
                    )
                },
                Event::Signed(Err(msg)) => (
                    LoopState::Halted,
                    Action::Halt(ProposalError::SigningFailed(msg)),
                ),
                _ => (LoopState::Signing { block }, Action::Ignore),
            },
            LoopState::Submitting { epoch, message_count } => match e {
                Event::Submitted(Ok(())) => (
                    LoopState::Idle,
                    Action::Proposed { epoch, message_count },
                ),
                Event::Submitted(Err(msg)) => (LoopState::Idle, Action::SubmissionFailed(msg)),
                _ => (LoopState::Submitting { epoch, message_count }, Action::Ignore),
            },
            LoopState::Halted => (LoopState::Halted, Action::Ignore),
            LoopState::Finished => (LoopState::Finished, Action::Ignore),
        }
    }
}

} // verus!
