use proof_helper::engine::ProofHelperEngineImpl;
use proof_helper::query::{
    preprocess_query_result, QueryRow, ShardDescrFields, ShardHashItem, ShardIdent, SortDirection,
};
use proof_helper::shard::{ShardBlockCheck, ShardBlockInfo, ShardCheckState};
use proof_helper::storage::ProofStorage;
use proof_helper::types::{
    default_message_expiration_timeout, default_workchain, grams_to_u64, StringId, MASTERCHAIN_ID,
};
use proof_helper::{BlockProof, ClientContext, NetworkUID, ProofError, TrustedMcBlockId};

fn row(seq_no: u64, gen_utime: u64, tag: &str) -> QueryRow {
    QueryRow {
        id: Some(tag.to_string()),
        seq_no: Some(seq_no),
        gen_utime: Some(gen_utime),
        boc: None,
        prev_ref_file_hash: None,
        file_hash: None,
        signatures_payload: None,
        shard_hashes: None,
    }
}

fn shard_ident(workchain_id: i32, prefix: &str) -> ShardIdent {
    ShardIdent { workchain_id, shard_prefix_tagged: prefix.to_string() }
}

fn shard_entry(workchain_id: i64, prefix: &str, seq_no: u64, root_hash: &str) -> ShardHashItem {
    ShardHashItem {
        workchain_id: Some(workchain_id),
        shard: Some(prefix.to_string()),
        descr: ShardDescrFields { seq_no: Some(seq_no), root_hash: Some(root_hash.to_string()) },
    }
}

#[test]
fn preprocess_keeps_single_row_with_max_gen_utime() {
    // Three rows for seq_no 5 with varying gen_utime, then seq_no 6.
    let rows = vec![row(5, 10, "a"), row(5, 30, "b"), row(5, 20, "c"), row(6, 1, "d")];
    let out = preprocess_query_result(rows).unwrap();
    assert_eq!(out.len(), 2);
    assert_eq!(out[0].0, 5);
    assert_eq!(out[0].1.id.as_deref(), Some("b"));
    assert_eq!(out[1].0, 6);
    assert_eq!(out[1].1.id.as_deref(), Some("d"));
}

#[test]
fn preprocess_keeps_order_across_distinct_seq_nos() {
    let rows = vec![row(3, 9, "x"), row(4, 1, "y"), row(7, 2, "z")];
    let out = preprocess_query_result(rows).unwrap();
    let seqs: Vec<u32> = out.iter().map(|p| p.0).collect();
    assert_eq!(seqs, vec![3, 4, 7]);
}

#[test]
fn preprocess_rejects_rows_without_integers() {
    let mut bad = row(3, 9, "x");
    bad.gen_utime = None;
    let err = preprocess_query_result(vec![row(1, 1, "a"), bad]).unwrap_err();
    assert_eq!(err, ProofError::SerdeError);
}

#[test]
fn storage_keys_render_canonically() {
    assert_eq!(ProofHelperEngineImpl::mc_proof_key(42), "proof_mc_42");
    assert_eq!(ProofHelperEngineImpl::mc_block_key(0), "block_mc_0");
    assert_eq!(
        ProofHelperEngineImpl::trusted_block_right_bound_key(4294967295),
        "trusted_4294967295_right_boundary_seq_no"
    );
    let uid = NetworkUID {
        zerostate_root_hash: "0123456789abcdef".to_string(),
        first_master_block_root_hash: "fedcba9876543210".to_string(),
    };
    assert_eq!(
        ProofHelperEngineImpl::gen_storage_key(&uid, "zerostate"),
        "01234567/fedcba98/zerostate"
    );
    assert_eq!(ProofHelperEngineImpl::gen_root_hash_prefix("abc"), "abc");
    let order = ProofHelperEngineImpl::sorting_by_seq_no();
    assert_eq!(order.len(), 1);
    assert_eq!(order[0].path, "seq_no");
    assert!(matches!(order[0].direction, SortDirection::ASC));
}

#[test]
fn string_id_encodes_and_decodes_hex() {
    let id = StringId::from(vec![0xab, 0x01]);
    assert_eq!(id.to_string(), "ab01");
    assert_eq!(id.to_bytes().unwrap(), vec![0xab, 0x01]);
    // 01 02 03 in base64 is AQID.
    let id = StringId::from("010203");
    assert_eq!(id.to_base64().unwrap(), "AQID");
    let bad = StringId::from("abc");
    assert_eq!(bad.to_bytes().unwrap_err(), ProofError::InvalidData);
    assert_eq!(bad.to_base64().unwrap_err(), ProofError::InvalidData);
    assert_eq!(StringId::from(&b"\xff"[..]).to_string(), "ff");
    assert_eq!(StringId::default().to_string(), "");
    assert!(StringId::from("aa") == StringId::from("aa".to_string()));
    assert!(StringId::from("aa") != StringId::from("ab"));
}

#[test]
fn sdk_defaults_and_grams() {
    assert_eq!(MASTERCHAIN_ID, -1);
    assert_eq!(default_workchain(), 0);
    assert_eq!(default_message_expiration_timeout(), 40000);
    assert_eq!(grams_to_u64(12345u128).unwrap(), 12345);
    assert_eq!(grams_to_u64(u64::MAX as u128).unwrap(), u64::MAX);
    assert_eq!(grams_to_u64(u64::MAX as u128 + 1).unwrap_err(), ProofError::InvalidData);
}

#[test]
fn top_shard_block_extraction_matches_exactly() {
    let shard = shard_ident(0, "8000000000000000");
    let entries = vec![
        shard_entry(1, "8000000000000000", 11, "other-wc"),
        shard_entry(0, "4000000000000000", 12, "other-prefix"),
        shard_entry(0, "8000000000000000", 9, "h9"),
    ];
    let (seq, hash) = ProofHelperEngineImpl::extract_top_shard_block(&entries, &shard).unwrap();
    assert_eq!((seq, hash.as_str()), (9, "h9"));

    let none = vec![shard_entry(2, "8000000000000000", 11, "x")];
    assert_eq!(
        ProofHelperEngineImpl::extract_top_shard_block(&none, &shard).unwrap_err(),
        ProofError::InvalidData
    );
}

#[test]
fn shard_chain_walk_accepts_linked_chain_and_rejects_flipped_hash() {
    // Chain 8, 9 above the queried block 7: B8.prev = hash(B7), B9.prev = hash(B8).
    let good = vec![
        ShardBlockInfo {
            seq_no: 8,
            root_hash: "h8".to_string(),
            prev_seq_no: 7,
            prev_root_hash: "h7".to_string(),
        },
        ShardBlockInfo {
            seq_no: 9,
            root_hash: "h9".to_string(),
            prev_seq_no: 8,
            prev_root_hash: "h8".to_string(),
        },
    ];
    let ok = ProofHelperEngineImpl::verify_shard_chain_links(
        7,
        &"h7".to_string(),
        9,
        "h9".to_string(),
        &good,
    );
    assert!(ok.is_ok());

    let mut bad = good.clone();
    bad[1].prev_root_hash = "0000000000000000000000000000000000000000000000000000000000000000"
        .to_string();
    let err = ProofHelperEngineImpl::verify_shard_chain_links(
        7,
        &"h7".to_string(),
        9,
        "h9".to_string(),
        &bad,
    )
    .unwrap_err();
    assert_eq!(err, ProofError::ShardRootHashMismatch);
}

#[test]
fn shard_chain_walk_handles_empty_chain() {
    let empty: Vec<ShardBlockInfo> = vec![];
    assert!(ProofHelperEngineImpl::verify_shard_chain_links(
        7,
        &"h7".to_string(),
        7,
        "h7".to_string(),
        &empty
    )
    .is_ok());
    assert_eq!(
        ProofHelperEngineImpl::verify_shard_chain_links(
            7,
            &"h7".to_string(),
            7,
            "other".to_string(),
            &empty
        )
        .unwrap_err(),
        ProofError::ShardRootHashMismatch
    );
}

fn engine() -> ProofHelperEngineImpl {
    ProofHelperEngineImpl::new(
        ClientContext {
            network_uid: NetworkUID {
                zerostate_root_hash: "aa112233445566".to_string(),
                first_master_block_root_hash: "bb998877665544".to_string(),
            },
            trusted_block_id: TrustedMcBlockId { seq_no: 100, root_hash: "aa00".to_string() },
        },
        ProofStorage::new(),
    )
}

fn mc_commit_row(seq_no: u64, entries: Vec<ShardHashItem>) -> QueryRow {
    let mut r = row(seq_no, 1, "mc");
    r.shard_hashes = Some(entries);
    r
}

#[test]
fn shard_block_verification_walks_to_acceptance() {
    let mut eng = engine();
    let shard = shard_ident(0, "8000000000000000");
    // Queried shard block: seq 7, hash h7, master_ref at mc 150.
    let check = ShardBlockCheck::start(7, "h7".to_string(), shard.duplicate(), 150);

    // First scan page has no commit: the window advances.
    let (check, wait) = check
        .on_find_mc_rows(vec![mc_commit_row(150, vec![shard_entry(0, "8000000000000000", 5, "h5")])])
        .unwrap();
    assert!(!wait);
    // An empty page asks the driver to sleep and retry.
    let (check, wait) = check.on_find_mc_rows(vec![]).unwrap();
    assert!(wait);
    // mc 200 commits top shard block (9, h9).
    let (check, wait) = check
        .on_find_mc_rows(vec![mc_commit_row(200, vec![shard_entry(0, "8000000000000000", 9, "h9")])])
        .unwrap();
    assert!(!wait);

    let fetch = check.anchor_proof_fetch();
    let anchor_proof = {
        let fetch = fetch
            .on_proof_rows(vec![{
                let mut r = row(200, 1, "mc200root");
                r.signatures_payload = Some(vec![7]);
                r
            }])
            .unwrap();
        let mut next = row(201, 1, "next");
        next.prev_ref_file_hash = Some("fh200".to_string());
        fetch.on_next_block_rows(&eng, vec![next]).unwrap().take_proof()
    };
    assert_eq!(anchor_proof.seq_no, 200);

    let check = check.on_anchor_proof(anchor_proof);
    let check = check.on_anchor_proof_checked(true).unwrap();
    let check = check.on_anchor_boc(vec![0xbb, 0xcc]);
    // The embedding hashes the BoC; it must equal the proof's root hash.
    let check = check.on_anchor_hash(&mut eng, "mc200root").unwrap();
    // Side effect: the anchor BoC is cached.
    assert_eq!(eng.read_mc_block(200).unwrap(), vec![0xbb, 0xcc]);

    let check = check
        .on_shard_hashes(vec![shard_entry(0, "8000000000000000", 9, "h9")])
        .unwrap();
    // Shard blocks 8 and 9 come back in order; their BoCs are handed out to
    // be parsed.
    let mut r8 = row(8, 1, "b8");
    r8.boc = Some("AQID".to_string());
    let mut r9 = row(9, 1, "b9");
    r9.boc = Some("AQID".to_string());
    let (check, bocs) = check.on_shard_block_rows(vec![r8, r9]).unwrap();
    assert_eq!(bocs.len(), 2);

    let chain = vec![
        ShardBlockInfo {
            seq_no: 8,
            root_hash: "h8".to_string(),
            prev_seq_no: 7,
            prev_root_hash: "h7".to_string(),
        },
        ShardBlockInfo {
            seq_no: 9,
            root_hash: "h9".to_string(),
            prev_seq_no: 8,
            prev_root_hash: "h8".to_string(),
        },
    ];
    let check = check.on_parsed_chain(&chain).unwrap();
    assert!(matches!(check.state, ShardCheckState::Accepted));
}

#[test]
fn shard_block_verification_rejects_replaced_prev_hash() {
    let mut eng = engine();
    let shard = shard_ident(0, "8000000000000000");
    let check = ShardBlockCheck::start(7, "h7".to_string(), shard.duplicate(), 150);
    let (check, _) = check
        .on_find_mc_rows(vec![mc_commit_row(200, vec![shard_entry(0, "8000000000000000", 9, "h9")])])
        .unwrap();
    let check = check.on_anchor_proof(BlockProof {
        seq_no: 200,
        root_hash: "mc200root".to_string(),
        file_hash: Some("fh200".to_string()),
        payload: vec![],
    });
    let check = check.on_anchor_proof_checked(true).unwrap();
    let check = check.on_anchor_boc(vec![0xbb]);
    let check = check.on_anchor_hash(&mut eng, "mc200root").unwrap();
    let check = check
        .on_shard_hashes(vec![shard_entry(0, "8000000000000000", 9, "h9")])
        .unwrap();
    let mut r8 = row(8, 1, "b8");
    r8.boc = Some("AQID".to_string());
    let mut r9 = row(9, 1, "b9");
    r9.boc = Some("AQID".to_string());
    let (check, _) = check.on_shard_block_rows(vec![r8, r9]).unwrap();
    // B9's prev-reference no longer names B8.
    let chain = vec![
        ShardBlockInfo {
            seq_no: 8,
            root_hash: "h8".to_string(),
            prev_seq_no: 7,
            prev_root_hash: "h7".to_string(),
        },
        ShardBlockInfo {
            seq_no: 9,
            root_hash: "h9".to_string(),
            prev_seq_no: 8,
            prev_root_hash: "f00dbabe00000000000000000000000000000000000000000000000000000000"
                .to_string(),
        },
    ];
    assert_eq!(check.on_parsed_chain(&chain).unwrap_err(), ProofError::ShardRootHashMismatch);
}

#[test]
fn shard_top_block_equal_to_queried_compares_hashes() {
    let mut eng = engine();
    let shard = shard_ident(0, "8000000000000000");
    let check = ShardBlockCheck::start(7, "h7".to_string(), shard.duplicate(), 150);
    let (check, _) = check
        .on_find_mc_rows(vec![mc_commit_row(200, vec![shard_entry(0, "8000000000000000", 7, "h7")])])
        .unwrap();
    let check = check.on_anchor_proof(BlockProof {
        seq_no: 200,
        root_hash: "mcroot".to_string(),
        file_hash: None,
        payload: vec![],
    });
    let check = check.on_anchor_proof_checked(true).unwrap();
    let check = check.on_anchor_boc(vec![1]);
    let check = check.on_anchor_hash(&mut eng, "mcroot").unwrap();
    // The committed top block is the queried block itself: equal hashes end
    // the verification, a different hash is a mismatch.
    let accepted = check
        .on_shard_hashes(vec![shard_entry(0, "8000000000000000", 7, "h7")])
        .unwrap();
    assert!(matches!(accepted.state, ShardCheckState::Accepted));
}

#[test]
fn shard_range_validation_requires_exact_rows() {
    // Wrong count.
    let mut r8 = row(8, 1, "b8");
    r8.boc = Some("AQID".to_string());
    assert_eq!(
        ProofHelperEngineImpl::shard_block_bocs_from_rows(8, 10, vec![r8]).unwrap_err(),
        ProofError::ChainGapOrFork
    );
    // Wrong seq_no.
    let mut r8 = row(8, 1, "b8");
    r8.boc = Some("AQID".to_string());
    let mut r11 = row(11, 1, "b11");
    r11.boc = Some("AQID".to_string());
    assert_eq!(
        ProofHelperEngineImpl::shard_block_bocs_from_rows(8, 10, vec![r8, r11]).unwrap_err(),
        ProofError::ChainGapOrFork
    );
    // No rows at all.
    assert_eq!(
        ProofHelperEngineImpl::shard_block_bocs_from_rows(8, 10, vec![]).unwrap_err(),
        ProofError::QueryFailed
    );
}

#[test]
fn namespaces_of_distinct_networks_share_no_keys() {
    let uid_a = NetworkUID {
        zerostate_root_hash: "aaaaaaaa1111".to_string(),
        first_master_block_root_hash: "bbbbbbbb2222".to_string(),
    };
    let uid_b = NetworkUID {
        zerostate_root_hash: "cccccccc3333".to_string(),
        first_master_block_root_hash: "dddddddd4444".to_string(),
    };
    let logical = ["zerostate", "zs_right_boundary_seq_no", "proof_mc_42", "block_mc_7"];
    for ka in logical.iter() {
        for kb in logical.iter() {
            let a = ProofHelperEngineImpl::gen_storage_key(&uid_a, ka);
            let b = ProofHelperEngineImpl::gen_storage_key(&uid_b, kb);
            assert_ne!(a, b);
        }
    }
}

#[test]
fn shard_top_block_equal_to_queried_with_wrong_hash_is_a_mismatch() {
    let mut eng = engine();
    let shard = shard_ident(0, "8000000000000000");
    let check = ShardBlockCheck::start(7, "h7".to_string(), shard.duplicate(), 150);
    let (check, _) = check
        .on_find_mc_rows(vec![mc_commit_row(200, vec![shard_entry(0, "8000000000000000", 7, "h7")])])
        .unwrap();
    let check = check.on_anchor_proof(BlockProof {
        seq_no: 200,
        root_hash: "mcroot".to_string(),
        file_hash: None,
        payload: vec![],
    });
    let check = check.on_anchor_proof_checked(true).unwrap();
    let check = check.on_anchor_boc(vec![1]);
    let check = check.on_anchor_hash(&mut eng, "mcroot").unwrap();
    // The committed top block is the queried block itself but its committed
    // root hash differs: the verification fails with a shard hash mismatch.
    let err = check
        .on_shard_hashes(vec![shard_entry(0, "8000000000000000", 7, "not-h7")])
        .unwrap_err();
    assert_eq!(err, ProofError::ShardRootHashMismatch);
}
