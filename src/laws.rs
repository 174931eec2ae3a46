use vstd::prelude::*;

use crate::encoding::{
    address_bytes, aggregate_bytes, cid_list_bytes, encodable, epoch_word, le_bytes,
    lemma_address_head, lemma_cid_list_head, lemma_le_head, lemma_length_prefixed_head,
    lemma_pow256_widths, lemma_split, length_prefixed, same_signable_fields, sig_type_byte,
    signing_bytes,
};
use crate::proposer::{next, run, Action, Event, LoopState};
use crate::types::{
    Address, AssemblyFailure, ChainConfig, ChainTip, ProposalError, Signature, UnsignedBlock,
    UnsignedHeader,
};

verus! {

/// The events of one tick on which every collaborator succeeds: the tick, the
/// tip, the state, the base fee, the weight, the persisted messages, the
/// signature and the outcome of the submission.
pub open spec fn successful_tick(es: Seq<Event>) -> bool {
    &&& es.len() == 8
    &&& es[0] is Tick
    &&& es[1] is TipFetched
    &&& es[2] matches Event::StateComputed(Ok(_))
    &&& es[3] matches Event::BaseFeeComputed(Ok(_))
    &&& es[4] matches Event::WeightComputed(Ok(_))
    &&& es[5] matches Event::MessagesPersisted(Ok(_))
    &&& es[6] matches Event::Signed(Ok(_))
    &&& es[7] is Submitted
}

/// The tip that a tick's events build on.
pub open spec fn tick_tip(es: Seq<Event>) -> ChainTip {
    es[1]->TipFetched_0
}

/// A block on top of `tip` has an epoch and a timestamp that fit their types.
pub open spec fn tip_extends(tip: ChainTip, config: ChainConfig) -> bool {
    tip.epoch < i64::MAX && tip.min_timestamp + config.block_delay_secs <= u64::MAX
}

/// Running two event sequences one after the other is running their
/// concatenation.
pub proof fn lemma_run_append(
    miner: Address,
    config: ChainConfig,
    s: LoopState,
    a: Seq<Event>,
    b: Seq<Event>,
)
    ensures
        run(miner, config, s, a + b) == (
            run(miner, config, run(miner, config, s, a).0, b).0,
            run(miner, config, s, a).1 + run(miner, config, run(miner, config, s, a).0, b).1,
        ),
    decreases a.len(),
{
    if a.len() == 0 {
        assert(a + b =~= b);
        assert(run(miner, config, s, a).1 + run(miner, config, s, b).1 =~= run(
            miner,
            config,
            s,
            b,
        ).1);
    } else {
        let (s1, x) = next(miner, config, s, a[0]);
        assert((a + b).drop_first() =~= a.drop_first() + b);
        lemma_run_append(miner, config, s1, a.drop_first(), b);
        let r = run(miner, config, s1, a.drop_first());
        let q = run(miner, config, r.0, b);
        assert(seq![x] + (r.1 + q.1) =~= (seq![x] + r.1) + q.1);
    }
}

/// Once halted, the loop stays halted and asks for nothing, whatever happens.
pub proof fn lemma_halted_is_terminal(miner: Address, config: ChainConfig, events: Seq<Event>)
    ensures
        run(miner, config, LoopState::Halted, events).0 is Halted,
        run(miner, config, LoopState::Halted, events).1.len() == events.len(),
        forall|i: int|
            0 <= i < events.len() ==> #[trigger] run(
                miner,
                config,
                LoopState::Halted,
                events,
            ).1[i] is Ignore,
    decreases events.len(),
{
    if events.len() > 0 {
        lemma_halted_is_terminal(miner, config, events.drop_first());
        let rest = run(miner, config, LoopState::Halted, events.drop_first()).1;
        assert forall|i: int| 0 <= i < events.len() implies #[trigger] run(
            miner,
            config,
            LoopState::Halted,
            events,
        ).1[i] is Ignore by {
            if i > 0 {
                assert((seq![Action::Ignore] + rest)[i] == rest[i - 1]);
            }
        }
    }
}

/// When the parent state cannot be computed, block production halts with that
/// error, and no signature and no submission is ever asked for afterwards.
pub proof fn lemma_state_failure_prevents_signing(
    miner: Address,
    config: ChainConfig,
    tip: ChainTip,
    msg: String,
    later: Seq<Event>,
)
    ensures
        ({
            let (s, actions) = run(
                miner,
                config,
                LoopState::ComputingState { tip },
                seq![Event::StateComputed(Err(msg))] + later,
            );
            &&& s is Halted
            &&& actions[0] == Action::Halt(
                ProposalError::AssemblyFailed(AssemblyFailure::StateComputation(msg)),
            )
            &&& forall|i: int|
                0 <= i < actions.len() ==> !(#[trigger] actions[i] is Sign) && !(
                actions[i] is Submit)
        }),
{
    let events = seq![Event::StateComputed(Err(msg))] + later;
    assert(events.drop_first() =~= later);
    lemma_halted_is_terminal(miner, config, later);
    let rest = run(miner, config, LoopState::Halted, later).1;
    let actions = run(miner, config, LoopState::ComputingState { tip }, events).1;
    assert forall|i: int| 0 <= i < actions.len() implies !(#[trigger] actions[i] is Sign) && !(
    actions[i] is Submit) by {
        if i > 0 {
            assert(actions[i] == rest[i - 1]);
        }
    }
}

/// When signing fails, block production halts with that error, and no
/// submission is ever asked for afterwards.
pub proof fn lemma_signing_failure_prevents_submission(
    miner: Address,
    config: ChainConfig,
    block: UnsignedBlock,
    msg: String,
    later: Seq<Event>,
)
    ensures
        ({
            let (s, actions) = run(
                miner,
                config,
                LoopState::Signing { block },
                seq![Event::Signed(Err(msg))] + later,
            );
            &&& s is Halted
            &&& actions[0] == Action::Halt(ProposalError::SigningFailed(msg))
            &&& forall|i: int| 0 <= i < actions.len() ==> !(#[trigger] actions[i] is Submit)
        }),
{
    let events = seq![Event::Signed(Err(msg))] + later;
    assert(events.drop_first() =~= later);
    lemma_halted_is_terminal(miner, config, later);
    let rest = run(miner, config, LoopState::Halted, later).1;
    let actions = run(miner, config, LoopState::Signing { block }, events).1;
    assert forall|i: int| 0 <= i < actions.len() implies !(#[trigger] actions[i] is Submit) by {
        if i > 0 {
            assert(actions[i] == rest[i - 1]);
        }
    }
}

/// A failed submission is reported and the loop goes back to waiting: the next
/// tick fetches a fresh tip and starts a new assembly on it.
pub proof fn lemma_submission_failure_keeps_loop_live(
    miner: Address,
    config: ChainConfig,
    epoch: i64,
    message_count: u128,
    msg: String,
    tip: ChainTip,
)
    ensures
        run(
            miner,
            config,
            LoopState::Submitting { epoch, message_count },
            seq![Event::Submitted(Err(msg)), Event::Tick, Event::TipFetched(tip)],
        ) == (
            LoopState::ComputingState { tip },
            seq![Action::SubmissionFailed(msg), Action::FetchTip, Action::ComputeState],
        ),
{
    let events = seq![Event::Submitted(Err(msg)), Event::Tick, Event::TipFetched(tip)];
    let e1 = events.drop_first();
    let e2 = e1.drop_first();
    let e3 = e2.drop_first();
    assert(e3.len() == 0);
    assert(e2[0] == Event::TipFetched(tip));
    assert(e1[0] == Event::Tick);
    let s3 = LoopState::ComputingState { tip };
    assert(run(miner, config, s3, e3) == (s3, Seq::<Action>::empty()));
    assert(run(miner, config, LoopState::FetchingTip, e2) == (
        s3,
        seq![Action::ComputeState] + Seq::<Action>::empty(),
    ));
    assert(run(miner, config, LoopState::Idle, e1) == (
        s3,
        seq![Action::FetchTip] + (seq![Action::ComputeState] + Seq::<Action>::empty()),
    ));
    assert(seq![Action::SubmissionFailed(msg)] + (seq![Action::FetchTip] + (
    seq![Action::ComputeState] + Seq::<Action>::empty())) =~= seq![
        Action::SubmissionFailed(msg),
        Action::FetchTip,
        Action::ComputeState,
    ]);
}

/// One tick on which every collaborator succeeds produces exactly one block and
/// hands it to submission: its epoch is one past the tip's, its timestamp the
/// tip's smallest timestamp plus the block delay, its weight the weight that was
/// computed, its miner the proposer. The loop then waits for the next tick.
pub proof fn lemma_successful_tick(miner: Address, config: ChainConfig, es: Seq<Event>)
    requires
        successful_tick(es),
        tip_extends(tick_tip(es), config),
    ensures
        ({
            let (s, actions) = run(miner, config, LoopState::Idle, es);
            &&& s is Idle
            &&& actions.len() == 8
            &&& actions[6] is Submit
            &&& actions[6]->Submit_0.header.epoch == tick_tip(es).epoch + 1
            &&& actions[6]->Submit_0.header.timestamp == tick_tip(es).min_timestamp
                + config.block_delay_secs
            &&& actions[6]->Submit_0.header.weight == es[4]->WeightComputed_0->Ok_0
            &&& actions[6]->Submit_0.header.miner_address == miner
            &&& forall|i: int| 0 <= i < 8 && i != 6 ==> !(#[trigger] actions[i] is Submit)
        }),
{
    let s0 = LoopState::Idle;
    let s1 = next(miner, config, s0, es[0]).0;
    let s2 = next(miner, config, s1, es[1]).0;
    let s3 = next(miner, config, s2, es[2]).0;
    let s4 = next(miner, config, s3, es[3]).0;
    let s5 = next(miner, config, s4, es[4]).0;
    let s6 = next(miner, config, s5, es[5]).0;
    let s7 = next(miner, config, s6, es[6]).0;
    let submit = next(miner, config, s6, es[6]).1;
    assert(s6 is Signing);
    assert(submit is Submit);
    assert(es.subrange(7, 8)[0] == es[7]);
    assert(es.subrange(7, 8).drop_first() =~= Seq::<Event>::empty());
    let r7 = run(miner, config, s7, es.subrange(7, 8));
    assert(s7 is Submitting);
    assert(next(miner, config, s7, es[7]).0 is Idle);
    assert(run(miner, config, next(miner, config, s7, es[7]).0, Seq::<Event>::empty()).1.len()
        == 0);
    assert(r7.0 is Idle && r7.1.len() == 1);
    assert(!(r7.1[0] is Submit));
    assert(es.subrange(6, 8)[0] == es[6]);
    assert(es.subrange(6, 8).drop_first() =~= es.subrange(7, 8));
    let r6 = run(miner, config, s6, es.subrange(6, 8));
    assert(r6.0 is Idle && r6.1.len() == 2);
    assert(r6.1 == seq![next(miner, config, s6, es[6]).1] + r7.1);
    assert(forall|i: int| 0 < i < 2 ==> r6.1[i] == r7.1[i - 1]);
    assert(r6.1[0] == submit);
    assert(forall|i: int| 0 <= i < 2 && i != 0 ==> !(r6.1[i] is Submit));
    assert(es.subrange(5, 8)[0] == es[5]);
    assert(es.subrange(5, 8).drop_first() =~= es.subrange(6, 8));
    let r5 = run(miner, config, s5, es.subrange(5, 8));
    assert(r5.0 is Idle && r5.1.len() == 3);
    assert(r5.1 == seq![next(miner, config, s5, es[5]).1] + r6.1);
    assert(forall|i: int| 0 < i < 3 ==> r5.1[i] == r6.1[i - 1]);
    assert(r5.1[1] == submit);
    assert(forall|i: int| 0 <= i < 3 && i != 1 ==> !(r5.1[i] is Submit));
    assert(es.subrange(4, 8)[0] == es[4]);
    assert(es.subrange(4, 8).drop_first() =~= es.subrange(5, 8));
    let r4 = run(miner, config, s4, es.subrange(4, 8));
    assert(r4.0 is Idle && r4.1.len() == 4);
    assert(r4.1 == seq![next(miner, config, s4, es[4]).1] + r5.1);
    assert(forall|i: int| 0 < i < 4 ==> r4.1[i] == r5.1[i - 1]);
    assert(r4.1[2] == submit);
    assert(forall|i: int| 0 <= i < 4 && i != 2 ==> !(r4.1[i] is Submit));
    assert(es.subrange(3, 8)[0] == es[3]);
    assert(es.subrange(3, 8).drop_first() =~= es.subrange(4, 8));
    let r3 = run(miner, config, s3, es.subrange(3, 8));
    assert(r3.0 is Idle && r3.1.len() == 5);
    assert(r3.1 == seq![next(miner, config, s3, es[3]).1] + r4.1);
    assert(forall|i: int| 0 < i < 5 ==> r3.1[i] == r4.1[i - 1]);
    assert(r3.1[3] == submit);
    assert(forall|i: int| 0 <= i < 5 && i != 3 ==> !(r3.1[i] is Submit));
    assert(es.subrange(2, 8)[0] == es[2]);
    assert(es.subrange(2, 8).drop_first() =~= es.subrange(3, 8));
    let r2 = run(miner, config, s2, es.subrange(2, 8));
    assert(r2.0 is Idle && r2.1.len() == 6);
    assert(r2.1 == seq![next(miner, config, s2, es[2]).1] + r3.1);
    assert(forall|i: int| 0 < i < 6 ==> r2.1[i] == r3.1[i - 1]);
    assert(r2.1[4] == submit);
    assert(forall|i: int| 0 <= i < 6 && i != 4 ==> !(r2.1[i] is Submit));
    assert(es.subrange(1, 8)[0] == es[1]);
    assert(es.subrange(1, 8).drop_first() =~= es.subrange(2, 8));
    let r1 = run(miner, config, s1, es.subrange(1, 8));
    assert(r1.0 is Idle && r1.1.len() == 7);
    assert(r1.1 == seq![next(miner, config, s1, es[1]).1] + r2.1);
    assert(forall|i: int| 0 < i < 7 ==> r1.1[i] == r2.1[i - 1]);
    assert(r1.1[5] == submit);
    assert(forall|i: int| 0 <= i < 7 && i != 5 ==> !(r1.1[i] is Submit));
    assert(es.subrange(0, 8)[0] == es[0]);
    assert(es.subrange(0, 8).drop_first() =~= es.subrange(1, 8));
    let r0 = run(miner, config, s0, es.subrange(0, 8));
    assert(r0.0 is Idle && r0.1.len() == 8);
    assert(r0.1 == seq![next(miner, config, s0, es[0]).1] + r1.1);
    assert(forall|i: int| 0 < i < 8 ==> r0.1[i] == r1.1[i - 1]);
    assert(r0.1[6] == submit);
    assert(forall|i: int| 0 <= i < 8 && i != 6 ==> !(r0.1[i] is Submit));
    assert(es.subrange(0, 8) =~= es);
}

/// Two consecutive ticks on which every collaborator succeeds, the tip having
/// advanced in between, produce two blocks with strictly increasing epochs.
pub proof fn lemma_consecutive_ticks_increase_epoch(
    miner: Address,
    config: ChainConfig,
    first: Seq<Event>,
    second: Seq<Event>,
)
    requires
        successful_tick(first),
        successful_tick(second),
        tip_extends(tick_tip(first), config),
        tip_extends(tick_tip(second), config),
        tick_tip(second).epoch > tick_tip(first).epoch,
    ensures
        ({
            let (s, actions) = run(miner, config, LoopState::Idle, first + second);
            &&& s is Idle
            &&& actions.len() == 16
            &&& actions[6] is Submit
            &&& actions[14] is Submit
            &&& actions[14]->Submit_0.header.epoch > actions[6]->Submit_0.header.epoch
        }),
{
    lemma_run_append(miner, config, LoopState::Idle, first, second);
    lemma_successful_tick(miner, config, first);
    lemma_successful_tick(miner, config, second);
    let a = run(miner, config, LoopState::Idle, first).1;
    let b = run(miner, config, LoopState::Idle, second).1;
    assert((a + b)[14] == b[6]);
    assert((a + b)[6] == a[6]);
}

/// The block handed to submission carries the very header whose canonical
/// bytes were to be signed, with the signature returned for them, and the
/// messages of the assembled block.
pub proof fn lemma_signed_block_carries_signed_header(
    miner: Address,
    config: ChainConfig,
    block: UnsignedBlock,
    signature: Signature,
)
    ensures
        ({
            let a = next(miner, config, LoopState::Signing { block }, Event::Signed(Ok(signature))).1;
            &&& a is Submit
            &&& signing_bytes(a->Submit_0.header) == signing_bytes(block.header)
            &&& a->Submit_0.header == block.header
            &&& a->Submit_0.signature == signature
            &&& a->Submit_0.bls_messages == block.bls_messages
            &&& a->Submit_0.secpk_messages == block.secpk_messages
        }),
{
}

/// The signing encoding is canonical: headers with the same signing bytes agree
/// on every signed field, so any change to a signed field changes the bytes
/// that are signed.
pub proof fn lemma_signing_bytes_determine_header(h1: UnsignedHeader, h2: UnsignedHeader)
    requires
        encodable(h1),
        encodable(h2),
        signing_bytes(h1) == signing_bytes(h2),
    ensures
        same_signable_fields(h1, h2),
{
    lemma_pow256_widths();
    let t10a = aggregate_bytes(h1.bls_aggregate);
    let t10b = aggregate_bytes(h2.bls_aggregate);
    let t9a = length_prefixed(h1.messages@) + t10a;
    let t9b = length_prefixed(h2.messages@) + t10b;
    let t8a = length_prefixed(h1.message_receipts@) + t9a;
    let t8b = length_prefixed(h2.message_receipts@) + t9b;
    let t7a = length_prefixed(h1.state_root@) + t8a;
    let t7b = length_prefixed(h2.state_root@) + t8b;
    let t6a = le_bytes(h1.parent_base_fee as nat, 16) + t7a;
    let t6b = le_bytes(h2.parent_base_fee as nat, 16) + t7b;
    let t5a = le_bytes(h1.weight as nat, 16) + t6a;
    let t5b = le_bytes(h2.weight as nat, 16) + t6b;
    let t4a = address_bytes(h1.miner_address) + t5a;
    let t4b = address_bytes(h2.miner_address) + t5b;
    let t3a = le_bytes(h1.timestamp as nat, 8) + t4a;
    let t3b = le_bytes(h2.timestamp as nat, 8) + t4b;
    let t2a = le_bytes(epoch_word(h1.epoch), 8) + t3a;
    let t2b = le_bytes(epoch_word(h2.epoch), 8) + t3b;
    let t1a = cid_list_bytes(h1.parents@) + t2a;
    let t1b = cid_list_bytes(h2.parents@) + t2b;
    lemma_le_head(h1.parents@.len(), t1a, h2.parents@.len(), t1b, 8);
    lemma_cid_list_head(h1.parents@, t2a, h2.parents@, t2b);
    lemma_le_head(epoch_word(h1.epoch), t3a, epoch_word(h2.epoch), t3b, 8);
    lemma_le_head(h1.timestamp as nat, t4a, h2.timestamp as nat, t4b, 8);
    lemma_address_head(h1.miner_address, t5a, h2.miner_address, t5b);
    lemma_le_head(h1.weight as nat, t6a, h2.weight as nat, t6b, 16);
    lemma_le_head(h1.parent_base_fee as nat, t7a, h2.parent_base_fee as nat, t7b, 16);
    lemma_length_prefixed_head(h1.state_root@, t8a, h2.state_root@, t8b);
    lemma_length_prefixed_head(h1.message_receipts@, t9a, h2.message_receipts@, t9b);
    lemma_length_prefixed_head(h1.messages@, t10a, h2.messages@, t10b);
    assert(t10a[0] == t10b[0]);
    match (h1.bls_aggregate, h2.bls_aggregate) {
        (Some(s1), Some(s2)) => {
            let e = Seq::<u8>::empty();
            assert(t10a =~= seq![1u8, sig_type_byte(s1.sig_type)] + (length_prefixed(s1.bytes@)
                + e));
            assert(t10b =~= seq![1u8, sig_type_byte(s2.sig_type)] + (length_prefixed(s2.bytes@)
                + e));
            lemma_split(
                seq![1u8, sig_type_byte(s1.sig_type)],
                length_prefixed(s1.bytes@) + e,
                seq![1u8, sig_type_byte(s2.sig_type)],
                length_prefixed(s2.bytes@) + e,
            );
            assert(seq![1u8, sig_type_byte(s1.sig_type)][1] == sig_type_byte(s1.sig_type));
            lemma_length_prefixed_head(s1.bytes@, e, s2.bytes@, e);
        },
        _ => {},
    }
}

} // verus!
