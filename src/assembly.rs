use vstd::prelude::*;

use crate::types::{
    Address, AssemblyFailure, ChainConfig, ChainTip, Cid, PersistedMessages, UnsignedBlock,
    UnsignedHeader,
};

verus! {

/// The block that goes on top of `tip`, built from the collaborators' results:
/// its epoch is one past the tip's, its timestamp the tip's smallest timestamp
/// plus the block delay, and every other field is handed through unchanged.
/// It fails only where the epoch or the timestamp would not fit its type.
pub open spec fn assemble_spec(
    tip: ChainTip,
    config: ChainConfig,
    miner: Address,
    state_root: Cid,
    receipts: Cid,
    base_fee: u128,
    weight: u128,
    persisted: PersistedMessages,
) -> Result<UnsignedBlock, AssemblyFailure> {
    if tip.epoch == i64::MAX {
        Err(AssemblyFailure::EpochOverflow)
    } else if tip.min_timestamp + config.block_delay_secs > u64::MAX {
        Err(AssemblyFailure::TimestampOverflow)
    } else {
        Ok(
            UnsignedBlock {
                header: UnsignedHeader {
                    parents: tip.key,
                    epoch: (tip.epoch + 1) as i64,
                    timestamp: (tip.min_timestamp + config.block_delay_secs) as u64,
                    miner_address: miner,
                    weight: weight,
                    parent_base_fee: base_fee,
                    state_root: state_root,
                    message_receipts: receipts,
                    messages: persisted.msg_cid,
                    bls_aggregate: Some(persisted.bls_agg),
                },
                bls_messages: persisted.bls_cids,
                secpk_messages: persisted.secp_cids,
            },
        )
    }
}

/// Builds the unsigned block on top of `tip` from the parent state root and
/// receipts, the base fee, the parent weight and the persisted messages.
pub fn assemble_block(
    tip: ChainTip,
    config: ChainConfig,
    miner: Address,
    state_root: Cid,
    receipts: Cid,
    base_fee: u128,
    weight: u128,
    persisted: PersistedMessages,
) -> (r: Result<UnsignedBlock, AssemblyFailure>)
    ensures
        r == assemble_spec(tip, config, miner, state_root, receipts, base_fee, weight, persisted),
        r is Ok ==> r->Ok_0.header.epoch == tip.epoch + 1,
        r is Ok ==> r->Ok_0.header.timestamp == tip.min_timestamp + config.block_delay_secs,
        r is Ok ==> r->Ok_0.header.weight == weight,
        r is Err <==> (tip.epoch == i64::MAX || tip.min_timestamp + config.block_delay_secs
            > u64::MAX),
{
    if tip.epoch == i64::MAX {
        return Err(AssemblyFailure::EpochOverflow);
    }
    if tip.min_timestamp > u64::MAX - config.block_delay_secs {
        return Err(AssemblyFailure::TimestampOverflow);
    }
    let epoch = tip.epoch + 1;
    let timestamp = tip.min_timestamp + config.block_delay_secs;
    let header = UnsignedHeader {
        parents: tip.key,
        epoch,
        timestamp,
        miner_address: miner,
        weight,
        parent_base_fee: base_fee,
        state_root,
        message_receipts: receipts,
        messages: persisted.msg_cid,
        bls_aggregate: Some(persisted.bls_agg),
    };
    Ok(
        UnsignedBlock {
            header,
            bls_messages: persisted.bls_cids,
            secpk_messages: persisted.secp_cids,
        },
    )
}

} // verus!
