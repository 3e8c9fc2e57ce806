use proof_helper::engine::{
    BoundarySide, ChainPhase, KeyLoadStart, McProofFetch, ProofChainDownload,
    ProofHelperEngineImpl,
};
use proof_helper::query::QueryRow;
use proof_helper::storage::{LogicalKey, ProofStorage};
use proof_helper::{BlockProof, ClientContext, NetworkUID, ProofError, TrustedMcBlockId};

fn context(zs_hash: &str, fmb_hash: &str, trusted_seq: u32, trusted_hash: &str) -> ClientContext {
    ClientContext {
        network_uid: NetworkUID {
            zerostate_root_hash: zs_hash.to_string(),
            first_master_block_root_hash: fmb_hash.to_string(),
        },
        trusted_block_id: TrustedMcBlockId {
            seq_no: trusted_seq,
            root_hash: trusted_hash.to_string(),
        },
    }
}

fn engine_with_anchor(trusted_seq: u32, trusted_hash: &str) -> ProofHelperEngineImpl {
    ProofHelperEngineImpl::new(
        context("aa112233445566", "bb998877665544", trusted_seq, trusted_hash),
        ProofStorage::new(),
    )
}

fn empty_row() -> QueryRow {
    QueryRow {
        id: None,
        seq_no: None,
        gen_utime: None,
        boc: None,
        prev_ref_file_hash: None,
        file_hash: None,
        signatures_payload: None,
        shard_hashes: None,
    }
}

fn proof_row(seq_no: u64, gen_utime: u64, root_hash: &str) -> QueryRow {
    let mut row = empty_row();
    row.seq_no = Some(seq_no);
    row.gen_utime = Some(gen_utime);
    row.id = Some(root_hash.to_string());
    row.signatures_payload = Some(vec![1, 2, 3]);
    row
}

fn next_block_row(seq_no: u64, file_hash: &str) -> QueryRow {
    let mut row = empty_row();
    row.seq_no = Some(seq_no);
    row.gen_utime = Some(10);
    row.prev_ref_file_hash = Some(file_hash.to_string());
    row
}

fn proof_of(seq_no: u32, root_hash: &str) -> BlockProof {
    BlockProof {
        seq_no,
        root_hash: root_hash.to_string(),
        file_hash: Some(format!("fh{}", seq_no)),
        payload: vec![9, 9],
    }
}

#[test]
fn metadata_u32_round_trips_and_rejects_wrong_width() {
    let mut engine = engine_with_anchor(100, "aa00");
    assert_eq!(engine.read_metadata_value_u32(LogicalKey::ZsRightBound), None);
    engine.write_metadata_value_u32(LogicalKey::ZsRightBound, 7);
    assert_eq!(engine.read_metadata_value_u32(LogicalKey::ZsRightBound), Some(7));
    engine.put_bin(LogicalKey::ZsRightBound, vec![1, 2, 3]);
    assert_eq!(engine.read_metadata_value_u32(LogicalKey::ZsRightBound), None);
    assert_eq!(engine.read_zs_right_bound(), 0);
}

#[test]
fn bounds_update_keeps_maximum() {
    let mut engine = engine_with_anchor(100, "aa00");
    assert_eq!(engine.read_zs_right_bound(), 0);
    engine.update_zs_right_bound(10);
    assert_eq!(engine.read_zs_right_bound(), 10);
    engine.update_zs_right_bound(4);
    assert_eq!(engine.read_zs_right_bound(), 10);
    engine.update_zs_right_bound(12);
    assert_eq!(engine.read_zs_right_bound(), 12);

    assert_eq!(engine.read_trusted_block_right_bound(100), 100);
    engine.update_trusted_block_right_bound(100, 103);
    assert_eq!(engine.read_trusted_block_right_bound(100), 103);
    engine.update_trusted_block_right_bound(100, 101);
    assert_eq!(engine.read_trusted_block_right_bound(100), 103);
}

#[test]
fn bounds_monotone_under_any_bump_order() {
    let mut engine = engine_with_anchor(100, "aa00");
    let mut last = engine.read_zs_right_bound();
    for seq in [5u32, 3, 9, 2, 9, 50, 1] {
        engine.bump(BoundarySide::Zerostate, seq);
        let now = engine.read_zs_right_bound();
        assert!(now >= last);
        assert!(now >= seq);
        last = now;
    }
    let mut last_t = engine.read_trusted_block_right_bound(100);
    for seq in [101u32, 110, 105, 200] {
        engine.bump(BoundarySide::Trusted(100), seq);
        let now = engine.read_trusted_block_right_bound(100);
        assert!(now >= last_t);
        last_t = now;
    }
}

#[test]
fn proof_cache_round_trips() {
    let mut engine = engine_with_anchor(100, "aa00");
    assert!(matches!(engine.read_mc_proof(42), Ok(None)));
    engine.write_mc_proof(42, proof_of(42, "ab42"));
    let cached = engine.read_mc_proof(42).unwrap().unwrap();
    assert_eq!(cached.seq_no, 42);
    assert_eq!(cached.root_hash, "ab42");
    assert_eq!(cached.file_hash.as_deref(), Some("fh42"));
    // A proof slot holding a plain blob is the analogue of unparsable JSON.
    engine.put_bin(LogicalKey::McProof(42), vec![0]);
    assert_eq!(engine.read_mc_proof(42).unwrap_err(), ProofError::SerdeError);
}

#[test]
fn cache_hit_returns_stored_proof_without_queries() {
    let mut engine = engine_with_anchor(100, "aa00");
    engine.write_mc_proof(42, proof_of(42, "ab42"));
    // The cache hit neither issues a query (the start step is read-only and
    // complete) nor writes anything.
    match engine.load_key_block_proof_start(42).unwrap() {
        KeyLoadStart::Cached(p) => {
            assert_eq!(p.seq_no, 42);
            assert_eq!(p.root_hash, "ab42");
        }
        _ => panic!("expected the cached proof"),
    }
    assert_eq!(engine.read_zs_right_bound(), 0);
    assert_eq!(engine.read_trusted_block_right_bound(100), 100);
}

#[test]
fn trusted_anchor_proof_accepted_only_on_exact_match() {
    let mut engine = engine_with_anchor(100, "aa00");
    // Wrong seq_no.
    let err = engine.accept_trusted_key_block_proof(proof_of(101, "aa00")).unwrap_err();
    assert_eq!(err, ProofError::TrustedAnchorMismatch);
    // Wrong root hash.
    let err = engine.accept_trusted_key_block_proof(proof_of(100, "bb00")).unwrap_err();
    assert_eq!(err, ProofError::TrustedAnchorMismatch);
    assert!(matches!(engine.read_mc_proof(100), Ok(None)));
    // Exact match: persisted, and the boundary stays at its default.
    let p = engine.accept_trusted_key_block_proof(proof_of(100, "aa00")).unwrap();
    assert_eq!(p.seq_no, 100);
    assert_eq!(engine.read_mc_proof(100).unwrap().unwrap().root_hash, "aa00");
    assert_eq!(engine.read_trusted_block_right_bound(100), 100);
    match engine.load_key_block_proof_start(60).unwrap() {
        KeyLoadStart::ReadyToPlan => {}
        _ => panic!("anchor proof is cached, planning should be next"),
    }
}

#[test]
fn zerostate_mismatch_writes_nothing() {
    let mut engine = engine_with_anchor(100, "aa00");
    let err = engine.accept_zerostate_boc(vec![1, 2, 3], "deadbeef").unwrap_err();
    assert_eq!(err, ProofError::ZerostateHashMismatch);
    assert!(engine.load_zerostate_cached().is_none());
    // The matching hash is the one in the engine's network uid.
    let boc = engine.accept_zerostate_boc(vec![1, 2, 3], "aa112233445566").unwrap();
    assert_eq!(boc, vec![1, 2, 3]);
    assert_eq!(engine.load_zerostate_cached().unwrap(), vec![1, 2, 3]);
}

#[test]
fn zerostate_rows_decode_or_fail() {
    assert_eq!(
        ProofHelperEngineImpl::zerostate_boc_from_rows(vec![]).unwrap_err(),
        ProofError::QueryFailed
    );
    let mut row = empty_row();
    row.boc = Some("AQID".to_string());
    assert_eq!(
        ProofHelperEngineImpl::zerostate_boc_from_rows(vec![row]).unwrap(),
        vec![1, 2, 3]
    );
    let mut bad = empty_row();
    bad.boc = Some("!!!".to_string());
    assert_eq!(
        ProofHelperEngineImpl::zerostate_boc_from_rows(vec![bad]).unwrap_err(),
        ProofError::InvalidData
    );
}

#[test]
fn plan_picks_the_documented_segment() {
    // Extend right of the trusted boundary.
    let p = ProofHelperEngineImpl::plan_key_block_download(103, 100, 0, 100);
    assert_eq!((p.lo, p.hi), (101, 104));
    assert_eq!(p.side, BoundarySide::Trusted(100));
    // Extend from the zerostate toward a block left of the anchor.
    let p = ProofHelperEngineImpl::plan_key_block_download(50, 100, 0, 100);
    assert_eq!((p.lo, p.hi), (1, 51));
    assert_eq!(p.side, BoundarySide::Zerostate);
    let p = ProofHelperEngineImpl::plan_key_block_download(50, 100, 30, 100);
    assert_eq!((p.lo, p.hi), (31, 51));
    assert_eq!(p.side, BoundarySide::Zerostate);
    // A request inside the zerostate-covered range rebuilds from the start.
    let p = ProofHelperEngineImpl::plan_key_block_download(20, 100, 30, 100);
    assert_eq!((p.lo, p.hi), (1, 21));
    assert_eq!(p.side, BoundarySide::Zerostate);
    // A request inside the trusted-covered range rebuilds from the anchor.
    let p = ProofHelperEngineImpl::plan_key_block_download(150, 100, 0, 200);
    assert_eq!((p.lo, p.hi), (101, 151));
    assert_eq!(p.side, BoundarySide::Trusted(100));
}

#[test]
fn chain_download_extends_right_and_bumps_trusted_bound() {
    let mut engine = engine_with_anchor(100, "aa00");
    engine.write_mc_proof(100, proof_of(100, "aa00"));
    // Request 103: extend (100, 103].
    let session = engine.plan_chain(103).unwrap();
    let q = session.collect_query();
    assert!(matches!(
        q.filter,
        Some(proof_helper::query::QueryFilter::McKeyBlocksRange(101, 104))
    ));
    // One page with the three key blocks.
    let session = session
        .on_key_blocks_page(vec![
            proof_row(101, 5, "ab01"),
            proof_row(102, 5, "ab02"),
            proof_row(103, 5, "ab03"),
        ])
        .unwrap();
    // Attach file hashes from the next blocks 102, 103, 104.
    let q = session.attach_query().unwrap();
    match q.filter {
        Some(proof_helper::query::QueryFilter::McBlocksSeqNoIn(v)) => {
            assert_eq!(v, vec![102, 103, 104]);
        }
        _ => panic!("expected a seq_no-in filter"),
    }
    let mut session = session
        .on_next_blocks_page(vec![
            next_block_row(102, "fh101"),
            next_block_row(103, "fh102"),
            next_block_row(104, "fh103"),
        ])
        .unwrap();
    // Verify the three proofs in order.
    for expected_seq in [101u32, 102, 103] {
        let p = session.verify_action();
        assert_eq!(p.seq_no, expected_seq);
        assert_eq!(p.file_hash.clone().unwrap(), format!("fh{}", expected_seq));
        session.on_proof_checked(&mut engine, true).unwrap();
    }
    let last = session.finish().unwrap();
    assert_eq!(last.seq_no, 103);
    // Every proof of (100, 103] is cached and the boundary moved to 103.
    for seq in [101u32, 102, 103] {
        assert!(engine.read_mc_proof(seq).unwrap().is_some());
    }
    assert_eq!(engine.read_trusted_block_right_bound(100), 103);
    assert_eq!(engine.read_zs_right_bound(), 0);
}

#[test]
fn chain_download_extends_left_from_zerostate() {
    let mut engine = engine_with_anchor(100, "aa00");
    engine.write_mc_proof(100, proof_of(100, "aa00"));
    // Request 2 with a fresh store: download [1, 2] from the zerostate side.
    let session = engine.plan_chain(2).unwrap();
    assert_eq!(session.side, BoundarySide::Zerostate);
    let session = session
        .on_key_blocks_page(vec![proof_row(1, 5, "ab01"), proof_row(2, 5, "ab02")])
        .unwrap();
    let mut session = session
        .on_next_blocks_page(vec![next_block_row(2, "fh1"), next_block_row(3, "fh2")])
        .unwrap();
    session.on_proof_checked(&mut engine, true).unwrap();
    session.on_proof_checked(&mut engine, true).unwrap();
    let last = session.finish().unwrap();
    assert_eq!(last.seq_no, 2);
    assert_eq!(engine.read_zs_right_bound(), 2);
    assert_eq!(engine.read_trusted_block_right_bound(100), 100);
}

#[test]
fn chain_rejects_surplus_or_mismatched_next_blocks() {
    let engine = engine_with_anchor(100, "aa00");
    let session = engine.plan_chain(101).unwrap();
    let session = session.on_key_blocks_page(vec![proof_row(101, 5, "ab01")]).unwrap();
    // Two rows for one waiting proof: surplus.
    let err = session
        .on_next_blocks_page(vec![next_block_row(102, "x"), next_block_row(103, "y")])
        .unwrap_err();
    assert_eq!(err, ProofError::ChainGapOrFork);

    let session = engine.plan_chain(101).unwrap();
    let session = session.on_key_blocks_page(vec![proof_row(101, 5, "ab01")]).unwrap();
    // A row that is not seq_no + 1: gap.
    let err = session.on_next_blocks_page(vec![next_block_row(103, "x")]).unwrap_err();
    assert_eq!(err, ProofError::ChainGapOrFork);
}

#[test]
fn rejected_proof_stops_the_chain() {
    let mut engine = engine_with_anchor(100, "aa00");
    let session = engine.plan_chain(101).unwrap();
    let session = session.on_key_blocks_page(vec![proof_row(101, 5, "ab01")]).unwrap();
    let mut session = session.on_next_blocks_page(vec![next_block_row(102, "fh101")]).unwrap();
    let err = session.on_proof_checked(&mut engine, false).unwrap_err();
    assert_eq!(err, ProofError::ProofVerificationFailed);
    assert!(matches!(engine.read_mc_proof(101), Ok(None)));
    assert_eq!(engine.read_trusted_block_right_bound(100), 100);
}

#[test]
fn empty_range_is_refused_and_empty_chain_reported() {
    let plan = proof_helper::engine::ChainPlan {
        lo: 5,
        hi: 5,
        side: BoundarySide::Zerostate,
    };
    assert_eq!(ProofChainDownload::start(plan).unwrap_err(), ProofError::EmptyRange);

    let engine = engine_with_anchor(100, "aa00");
    let session = engine.plan_chain(101).unwrap();
    // No key blocks at all: the collection ends empty and finishing reports
    // an empty chain.
    let session = session.on_key_blocks_page(vec![]).unwrap();
    match session.phase {
        ChainPhase::Attach { ref done, ref todo } => {
            assert!(done.is_empty() && todo.is_empty());
        }
        _ => panic!("expected the attach phase"),
    }
    // With nothing to attach the driver moves straight to finish by parsing
    // zero records: model that by an explicit empty verify phase.
    let session = ProofChainDownload {
        side: session.side,
        phase: ChainPhase::Verify { proofs: vec![], idx: 0 },
    };
    assert_eq!(session.finish().unwrap_err(), ProofError::EmptyProofChain);
}

#[test]
fn mc_proof_fetch_attaches_file_hash_from_next_block() {
    let engine = engine_with_anchor(100, "aa00");
    let fetch = McProofFetch::start(7);
    let q = fetch.pending_query().unwrap();
    assert!(matches!(
        q.filter,
        Some(proof_helper::query::QueryFilter::McBlockSeqNo(7))
    ));
    let fetch = fetch.on_proof_rows(vec![proof_row(7, 5, "ab07")]).unwrap();
    let fetch = fetch
        .on_next_block_rows(&engine, vec![next_block_row(8, "fh7")])
        .unwrap();
    let proof = fetch.take_proof();
    assert_eq!(proof.seq_no, 7);
    assert_eq!(proof.root_hash, "ab07");
    assert_eq!(proof.file_hash.as_deref(), Some("fh7"));
    assert_eq!(proof.payload, vec![1, 2, 3]);
}

#[test]
fn mc_proof_fetch_falls_back_to_cached_boc_and_computed_hash() {
    let mut engine = engine_with_anchor(100, "aa00");
    engine.write_mc_block(7, vec![0xde, 0xad]);
    let fetch = McProofFetch::start(7);
    let fetch = fetch.on_proof_rows(vec![proof_row(7, 5, "ab07")]).unwrap();
    // The next block is missing: the cached BoC must be hashed instead.
    let fetch = fetch.on_next_block_rows(&engine, vec![]).unwrap();
    assert_eq!(fetch.boc_to_hash(), &vec![0xde, 0xad]);
    let fetch = fetch.on_file_hash("computedfh".to_string()).unwrap();
    let proof = fetch.take_proof();
    assert_eq!(proof.file_hash.as_deref(), Some("computedfh"));
}

#[test]
fn mc_proof_fetch_reports_missing_block() {
    let fetch = McProofFetch::start(7);
    assert_eq!(fetch.on_proof_rows(vec![]).unwrap_err(), ProofError::QueryFailed);
}

#[test]
fn short_next_block_page_leaves_tail_unattached() {
    let engine = engine_with_anchor(100, "aa00");
    let session = engine.plan_chain(102).unwrap();
    let session = session
        .on_key_blocks_page(vec![proof_row(101, 5, "ab01"), proof_row(102, 5, "ab02")])
        .unwrap();
    // Only the next block of 101 comes back: 102 stays without a file hash
    // and will fail verification later instead of blocking the pass.
    let session = session.on_next_blocks_page(vec![next_block_row(102, "fh101")]).unwrap();
    match &session.phase {
        ChainPhase::Verify { proofs, idx } => {
            assert_eq!(*idx, 0);
            assert_eq!(proofs.len(), 2);
            assert_eq!(proofs[0].file_hash.as_deref(), Some("fh101"));
            assert_eq!(proofs[1].file_hash, None);
        }
        _ => panic!("expected the verify phase"),
    }
}

#[test]
fn metadata_update_over_junk_slot_writes_fresh_value() {
    let mut engine = engine_with_anchor(100, "aa00");
    // A slot of the wrong width reads as absent, so an update starts over.
    engine.put_bin(LogicalKey::ZsRightBound, vec![9, 9, 9]);
    engine.update_zs_right_bound(6);
    assert_eq!(engine.read_zs_right_bound(), 6);
}

#[test]
fn mc_proof_fetch_downloads_boc_when_nothing_is_cached() {
    let engine = engine_with_anchor(100, "aa00");
    let fetch = McProofFetch::start(7);
    let fetch = fetch.on_proof_rows(vec![proof_row(7, 5, "ab07")]).unwrap();
    let fetch = fetch.on_next_block_rows(&engine, vec![]).unwrap();
    // Neither the next block nor a cached BoC: the block's own BoC must be
    // downloaded ("AQID" is bytes 01 02 03) and hashed.
    assert!(matches!(fetch, McProofFetch::AwaitBocRows { .. }));
    let mut boc_row = empty_row();
    boc_row.seq_no = Some(7);
    boc_row.gen_utime = Some(1);
    boc_row.boc = Some("AQID".to_string());
    let fetch = fetch.on_boc_rows(vec![boc_row]).unwrap();
    assert_eq!(fetch.boc_to_hash(), &vec![1, 2, 3]);
    let proof = fetch.on_file_hash("fh7".to_string()).unwrap().take_proof();
    assert_eq!(proof.file_hash.as_deref(), Some("fh7"));
}

#[test]
fn dedup_tie_on_gen_utime_keeps_the_earlier_row() {
    let rows = vec![proof_row(5, 10, "first"), proof_row(5, 10, "second")];
    let out = proof_helper::query::preprocess_query_result(rows).unwrap();
    assert_eq!(out.len(), 1);
    assert_eq!(out[0].1.id.as_deref(), Some("first"));
}
