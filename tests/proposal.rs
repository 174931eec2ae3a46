use delegated_proposer::{
    assemble_block, Action, Address, AssemblyFailure, ChainConfig, ChainTip, Cid, DelegatedProposer,
    Event, Key, LoopState, PersistedMessages, ProposalError, ProposalLoop, Signature,
    SignatureType, UnsignedHeader,
};

fn cid(tag: u8) -> Cid {
    Cid { bytes: vec![0x01, 0x71, tag] }
}

fn tip(epoch: i64, min_timestamp: u64) -> ChainTip {
    ChainTip { key: vec![cid(1), cid(2)], epoch, min_timestamp, min_ticket_block: cid(1) }
}

fn config(block_delay_secs: u64) -> ChainConfig {
    ChainConfig { block_delay_secs, base_fee_upgrade_epoch: 41280 }
}

fn persisted(bls: Vec<Cid>, secp: Vec<Cid>) -> PersistedMessages {
    PersistedMessages {
        msg_cid: cid(9),
        bls_agg: Signature { sig_type: SignatureType::Bls, bytes: vec![7, 7] },
        bls_cids: bls,
        secp_cids: secp,
    }
}

fn proposer() -> DelegatedProposer {
    DelegatedProposer::new(
        Address::Id(1000),
        Key { key_type: SignatureType::Secp256k1, private_key: vec![1, 2, 3] },
    )
}

fn signature() -> Signature {
    Signature { sig_type: SignatureType::Secp256k1, bytes: vec![5; 65] }
}

/// Feeds one tick on which every collaborator succeeds, up to the submission,
/// and returns the epoch of the block handed to submission.
fn tick_to_submit(l: &mut ProposalLoop, t: ChainTip, weight: u128) -> (i64, u64, u128, usize) {
    assert!(matches!(l.step(Event::Tick), Action::FetchTip));
    assert!(matches!(l.step(Event::TipFetched(t)), Action::ComputeState));
    assert!(matches!(
        l.step(Event::StateComputed(Ok((cid(3), cid(4))))),
        Action::ComputeBaseFee { upgrade_epoch: 41280 }
    ));
    assert!(matches!(l.step(Event::BaseFeeComputed(Ok(100))), Action::ComputeWeight));
    assert!(matches!(l.step(Event::WeightComputed(Ok(weight))), Action::CollectMessages));
    assert!(matches!(
        l.step(Event::MessagesPersisted(Ok(persisted(vec![], vec![cid(5)])))),
        Action::Sign
    ));
    assert!(l.signing_payload().is_some());
    match l.step(Event::Signed(Ok(signature()))) {
        Action::Submit(block) => (
            block.header.epoch,
            block.header.timestamp,
            block.header.weight,
            block.bls_messages.len() + block.secpk_messages.len(),
        ),
        other => panic!("expected a submission, got {:?}", other),
    }
}

#[test]
fn header_epoch_and_timestamp_follow_parent() {
    let r = assemble_block(
        tip(100, 1000),
        config(30),
        Address::Id(1000),
        cid(3),
        cid(4),
        100,
        555,
        persisted(vec![cid(5)], vec![cid(6), cid(7)]),
    );
    let block = r.unwrap();
    assert_eq!(block.header.epoch, 101);
    assert_eq!(block.header.timestamp, 1030);
    assert_eq!(block.header.weight, 555);
    assert_eq!(block.header.parent_base_fee, 100);
    assert_eq!(block.header.parents.len(), 2);
    assert_eq!(block.header.parents[1].bytes, vec![0x01, 0x71, 2]);
    assert_eq!(block.header.messages.bytes, vec![0x01, 0x71, 9]);
    assert_eq!(block.bls_messages.len(), 1);
    assert_eq!(block.secpk_messages.len(), 2);
    assert!(matches!(block.header.miner_address, Address::Id(1000)));
}

#[test]
fn empty_selection_gives_empty_block() {
    let block = assemble_block(
        tip(7, 70),
        config(30),
        Address::Id(1),
        cid(3),
        cid(4),
        0,
        0,
        persisted(vec![], vec![]),
    )
    .unwrap();
    assert!(block.bls_messages.is_empty());
    assert!(block.secpk_messages.is_empty());

    let mut l = ProposalLoop::new(proposer(), config(30));
    l.step(Event::Tick);
    l.step(Event::TipFetched(tip(7, 70)));
    l.step(Event::StateComputed(Ok((cid(3), cid(4)))));
    l.step(Event::BaseFeeComputed(Ok(1)));
    l.step(Event::WeightComputed(Ok(2)));
    assert!(matches!(l.step(Event::MessagesPersisted(Ok(persisted(vec![], vec![])))), Action::Sign));
    match l.step(Event::Signed(Ok(signature()))) {
        Action::Submit(b) => {
            assert!(b.bls_messages.is_empty());
            assert!(b.secpk_messages.is_empty());
        }
        other => panic!("expected a submission, got {:?}", other),
    }
    assert!(matches!(
        l.step(Event::Submitted(Ok(()))),
        Action::Proposed { epoch: 8, message_count: 0 }
    ));
}

#[test]
fn epoch_overflow_fails_assembly() {
    let r = assemble_block(
        tip(i64::MAX, 0),
        config(30),
        Address::Id(1),
        cid(3),
        cid(4),
        0,
        0,
        persisted(vec![], vec![]),
    );
    assert!(matches!(r, Err(AssemblyFailure::EpochOverflow)));
}

#[test]
fn timestamp_overflow_fails_assembly() {
    let r = assemble_block(
        tip(5, u64::MAX - 10),
        config(30),
        Address::Id(1),
        cid(3),
        cid(4),
        0,
        0,
        persisted(vec![], vec![]),
    );
    assert!(matches!(r, Err(AssemblyFailure::TimestampOverflow)));
    let ok = assemble_block(
        tip(5, u64::MAX - 30),
        config(30),
        Address::Id(1),
        cid(3),
        cid(4),
        0,
        0,
        persisted(vec![], vec![]),
    );
    assert_eq!(ok.unwrap().header.timestamp, u64::MAX);
}

#[test]
fn full_tick_produces_and_reports_block() {
    let mut l = ProposalLoop::new(proposer(), config(30));
    assert!(matches!(l.state(), LoopState::Idle));
    let (epoch, timestamp, weight, count) = tick_to_submit(&mut l, tip(100, 1000), 4242);
    assert_eq!((epoch, timestamp, weight, count), (101, 1030, 4242, 1));
    assert!(matches!(l.state(), LoopState::Submitting { epoch: 101, message_count: 1 }));
    assert!(matches!(
        l.step(Event::Submitted(Ok(()))),
        Action::Proposed { epoch: 101, message_count: 1 }
    ));
    assert!(matches!(l.state(), LoopState::Idle));
}

#[test]
fn state_failure_halts_before_signing() {
    let mut l = ProposalLoop::new(proposer(), config(30));
    l.step(Event::Tick);
    l.step(Event::TipFetched(tip(100, 1000)));
    match l.step(Event::StateComputed(Err("no state".to_string()))) {
        Action::Halt(ProposalError::AssemblyFailed(AssemblyFailure::StateComputation(m))) => {
            assert_eq!(m, "no state")
        }
        other => panic!("expected a halt, got {:?}", other),
    }
    assert!(matches!(l.state(), LoopState::Halted));
    assert!(l.signing_payload().is_none());
    assert!(matches!(l.step(Event::Tick), Action::Ignore));
    assert!(matches!(l.step(Event::Signed(Ok(signature()))), Action::Ignore));
    assert!(matches!(l.step(Event::Submitted(Ok(()))), Action::Ignore));
    assert!(matches!(l.state(), LoopState::Halted));
}

#[test]
fn collaborator_failures_halt_with_their_error() {
    let mut l = ProposalLoop::new(proposer(), config(30));
    l.step(Event::Tick);
    l.step(Event::TipFetched(tip(1, 10)));
    l.step(Event::StateComputed(Ok((cid(3), cid(4)))));
    assert!(matches!(
        l.step(Event::BaseFeeComputed(Err("fee".to_string()))),
        Action::Halt(ProposalError::AssemblyFailed(AssemblyFailure::BaseFee(_)))
    ));

    let mut l = ProposalLoop::new(proposer(), config(30));
    l.step(Event::Tick);
    l.step(Event::TipFetched(tip(1, 10)));
    l.step(Event::StateComputed(Ok((cid(3), cid(4)))));
    l.step(Event::BaseFeeComputed(Ok(1)));
    assert!(matches!(
        l.step(Event::WeightComputed(Err("weight".to_string()))),
        Action::Halt(ProposalError::AssemblyFailed(AssemblyFailure::Weight(_)))
    ));

    let mut l = ProposalLoop::new(proposer(), config(30));
    l.step(Event::Tick);
    l.step(Event::TipFetched(tip(1, 10)));
    l.step(Event::StateComputed(Ok((cid(3), cid(4)))));
    l.step(Event::BaseFeeComputed(Ok(1)));
    l.step(Event::WeightComputed(Ok(1)));
    assert!(matches!(
        l.step(Event::MessagesPersisted(Err("store".to_string()))),
        Action::Halt(ProposalError::AssemblyFailed(AssemblyFailure::Messages(_)))
    ));

    let mut l = ProposalLoop::new(proposer(), config(30));
    l.step(Event::Tick);
    l.step(Event::TipFetched(tip(i64::MAX, 10)));
    l.step(Event::StateComputed(Ok((cid(3), cid(4)))));
    l.step(Event::BaseFeeComputed(Ok(1)));
    l.step(Event::WeightComputed(Ok(1)));
    assert!(matches!(
        l.step(Event::MessagesPersisted(Ok(persisted(vec![], vec![])))),
        Action::Halt(ProposalError::AssemblyFailed(AssemblyFailure::EpochOverflow))
    ));
}

#[test]
fn signing_failure_prevents_submission() {
    let mut l = ProposalLoop::new(proposer(), config(30));
    l.step(Event::Tick);
    l.step(Event::TipFetched(tip(1, 10)));
    l.step(Event::StateComputed(Ok((cid(3), cid(4)))));
    l.step(Event::BaseFeeComputed(Ok(1)));
    l.step(Event::WeightComputed(Ok(1)));
    l.step(Event::MessagesPersisted(Ok(persisted(vec![], vec![]))));
    match l.step(Event::Signed(Err("bad key".to_string()))) {
        Action::Halt(ProposalError::SigningFailed(m)) => assert_eq!(m, "bad key"),
        other => panic!("expected a halt, got {:?}", other),
    }
    assert!(matches!(l.step(Event::Submitted(Ok(()))), Action::Ignore));
    assert!(matches!(l.step(Event::Tick), Action::Ignore));
}

#[test]
fn submission_failure_keeps_loop_running() {
    let mut l = ProposalLoop::new(proposer(), config(30));
    tick_to_submit(&mut l, tip(100, 1000), 1);
    match l.step(Event::Submitted(Err("peer unreachable".to_string()))) {
        Action::SubmissionFailed(m) => assert_eq!(m, "peer unreachable"),
        other => panic!("expected a reported failure, got {:?}", other),
    }
    assert!(matches!(l.state(), LoopState::Idle));
    let (epoch, _, _, _) = tick_to_submit(&mut l, tip(100, 1000), 1);
    assert_eq!(epoch, 101);
    assert!(matches!(l.step(Event::Submitted(Ok(()))), Action::Proposed { .. }));
}

#[test]
fn consecutive_ticks_have_increasing_epochs() {
    let mut l = ProposalLoop::new(proposer(), config(30));
    let (first, t1, _, _) = tick_to_submit(&mut l, tip(100, 1000), 1);
    l.step(Event::Submitted(Ok(())));
    let (second, t2, _, _) = tick_to_submit(&mut l, tip(101, 1030), 2);
    l.step(Event::Submitted(Ok(())));
    assert_eq!((first, second), (101, 102));
    assert_eq!((t1, t2), (1030, 1060));
}

#[test]
fn unexpected_events_are_ignored_and_timer_end_finishes() {
    let mut l = ProposalLoop::new(proposer(), config(30));
    assert!(matches!(l.step(Event::Signed(Ok(signature()))), Action::Ignore));
    assert!(matches!(l.state(), LoopState::Idle));
    assert!(matches!(l.step(Event::TicksEnded), Action::Finish));
    assert!(matches!(l.state(), LoopState::Finished));
    assert!(matches!(l.step(Event::Tick), Action::Ignore));
}

#[test]
fn proposer_keeps_identity() {
    let p = proposer();
    assert!(matches!(p.miner_addr(), Address::Id(1000)));
    assert_eq!(p.key().private_key, vec![1, 2, 3]);
    let l = ProposalLoop::new(p, config(25));
    assert_eq!(l.config().block_delay_secs, 25);
    assert!(matches!(l.proposer().miner_addr(), Address::Id(1000)));
}

fn small_header() -> UnsignedHeader {
    UnsignedHeader {
        parents: vec![Cid { bytes: vec![0xaa] }],
        epoch: 2,
        timestamp: 3,
        miner_address: Address::Id(0x0102),
        weight: 4,
        parent_base_fee: 5,
        state_root: Cid { bytes: vec![0xbb] },
        message_receipts: Cid { bytes: vec![] },
        messages: Cid { bytes: vec![0xcc, 0xdd] },
        bls_aggregate: None,
    }
}

#[test]
fn signing_bytes_are_canonical() {
    let h = small_header();
    let mut expected: Vec<u8> = Vec::new();
    expected.extend_from_slice(&[1, 0, 0, 0, 0, 0, 0, 0]);
    expected.extend_from_slice(&[1, 0, 0, 0, 0, 0, 0, 0, 0xaa]);
    expected.extend_from_slice(&[2, 0, 0, 0, 0, 0, 0, 0]);
    expected.extend_from_slice(&[3, 0, 0, 0, 0, 0, 0, 0]);
    expected.extend_from_slice(&[0, 0x02, 0x01, 0, 0, 0, 0, 0, 0]);
    expected.extend_from_slice(&[4, 0, 0, 0, 0, 0, 0, 0, 0, 0, 0, 0, 0, 0, 0, 0]);
    expected.extend_from_slice(&[5, 0, 0, 0, 0, 0, 0, 0, 0, 0, 0, 0, 0, 0, 0, 0]);
    expected.extend_from_slice(&[1, 0, 0, 0, 0, 0, 0, 0, 0xbb]);
    expected.extend_from_slice(&[0, 0, 0, 0, 0, 0, 0, 0]);
    expected.extend_from_slice(&[2, 0, 0, 0, 0, 0, 0, 0, 0xcc, 0xdd]);
    expected.push(0);
    assert_eq!(h.to_signing_bytes(), expected);
    assert_eq!(h.to_signing_bytes(), small_header().to_signing_bytes());
}

#[test]
fn signing_bytes_change_with_fields() {
    let base = small_header().to_signing_bytes();
    let mut h = small_header();
    h.epoch = -1;
    let b = h.to_signing_bytes();
    assert_ne!(b, base);
    assert_eq!(&b[17..25], &[0xff; 8]);
    let mut h = small_header();
    h.miner_address = Address::Secp256k1([9; 20]);
    assert_ne!(h.to_signing_bytes(), base);
    let mut h = small_header();
    h.bls_aggregate = Some(Signature { sig_type: SignatureType::Bls, bytes: vec![8] });
    let b = h.to_signing_bytes();
    assert_eq!(&b[base.len() - 1..], &[1, 2, 1, 0, 0, 0, 0, 0, 0, 0, 8]);
}

#[test]
fn signing_payload_matches_pending_header() {
    let mut l = ProposalLoop::new(proposer(), config(30));
    assert!(l.signing_payload().is_none());
    l.step(Event::Tick);
    l.step(Event::TipFetched(tip(100, 1000)));
    l.step(Event::StateComputed(Ok((cid(3), cid(4)))));
    l.step(Event::BaseFeeComputed(Ok(1)));
    l.step(Event::WeightComputed(Ok(2)));
    l.step(Event::MessagesPersisted(Ok(persisted(vec![], vec![]))));
    let payload = l.signing_payload().unwrap();
    match l.state() {
        LoopState::Signing { block } => assert_eq!(payload, block.header.to_signing_bytes()),
        other => panic!("expected to be signing, got {:?}", other),
    }
}
