//! Proof helper engine of a light client for a sharded, masterchain-anchored
//! blockchain.
//!
//! Given a trusted bootstrap (the network's genesis state hash and a
//! hard-configured trusted key-block identifier), the engine verifies
//! masterchain key-block proofs, connects a requested block to the trust root
//! via a chain of key-block proofs, and verifies that a shard block is
//! reachable from a proven masterchain block.  Verified artifacts are cached
//! in a key/value store so that later verifications extend an already-trusted
//! range instead of re-downloading full chains.
//!
//! All network and cryptographic work (the indexer queries, BoC parsing and
//! hashing, signature checking) happens outside this crate; the engine is
//! driven step by step: it hands out query descriptions and consumes the rows
//! and verification outcomes handed back.

use vstd::prelude::*;

pub mod encoding;
pub mod engine;
pub mod keys;
pub mod query;
pub mod shard;
pub mod storage;
pub mod types;

verus! {

/// Error kinds raised by the engine.  Every failure of a verification attempt
/// is fatal for that attempt except `ShardCommitNotYet`, which the driver is
/// expected to retry after a short delay.
#[derive(Clone, Copy, Debug, PartialEq, Eq, Structural)]
pub enum ProofError {
    /// The storage backend failed a get or put.
    StorageIO,
    /// A cached record was unparsable or an indexer row was malformed.
    SerdeError,
    /// The indexer was unreachable, rejected the request, or returned
    /// nothing where a row was owed.
    QueryFailed,
    /// The fetched zerostate's hash differs from the network's genesis hash.
    ZerostateHashMismatch,
    /// The proof for the trusted seq_no has a wrong seq_no or root hash.
    TrustedAnchorMismatch,
    /// The cryptographic check of a block proof rejected it.
    ProofVerificationFailed,
    /// The indexer's next-block seq_no did not match the expected one, or a
    /// shard range came back with the wrong length or order.
    ChainGapOrFork,
    /// A shard block's root hash does not match the reference committed to it,
    /// or the prev-reference chain broke.
    ShardRootHashMismatch,
    /// No masterchain block commits to the shard block yet; retryable.
    ShardCommitNotYet,
    /// A proof chain download was asked for an empty seq_no range.
    EmptyRange,
    /// A proof chain download ended with no verified proof.
    EmptyProofChain,
    /// A value was outside the shape or range its consumer requires.
    InvalidData,
}

/// Identity of a network universe: the genesis state hash and the root hash
/// of the first masterchain block, both as hex strings.
#[derive(Debug)]
pub struct NetworkUID {
    pub zerostate_root_hash: String,
    pub first_master_block_root_hash: String,
}

/// A configured trust anchor: the engine treats this masterchain block id as
/// ground truth without further validation.
#[derive(Debug)]
pub struct TrustedMcBlockId {
    pub seq_no: u32,
    pub root_hash: String,
}

/// The slice of the client context the engine reads: how the current network
/// is identified and which key block is trusted out of band.
#[derive(Debug)]
pub struct ClientContext {
    pub network_uid: NetworkUID,
    pub trusted_block_id: TrustedMcBlockId,
}

/// A key-block proof as the engine handles it: the block id fields it reads
/// and decides on, plus the cryptographic payload (validator signatures,
/// catchain seq-no, proof BoC) it carries opaquely for the outside verifier.
#[derive(Debug)]
pub struct BlockProof {
    pub seq_no: u32,
    /// The block's root hash in hex.
    pub root_hash: String,
    /// The block's file hash in hex, attached from the following block's
    /// prev-reference; absent until attached.
    pub file_hash: Option<String>,
    /// The signatures subtree and proof BoC, packed by the embedding.
    pub payload: Vec<u8>,
}

/// Mathematical shape of a [`BlockProof`].
pub struct BlockProofView {
    pub seq_no: u32,
    pub root_hash: Seq<char>,
    pub file_hash: Option<Seq<char>>,
    pub payload: Seq<u8>,
}

impl View for BlockProof {
    type V = BlockProofView;

    open spec fn view(&self) -> BlockProofView {
        BlockProofView {
            seq_no: self.seq_no,
            root_hash: self.root_hash@,
            file_hash: match self.file_hash {
                Some(s) => Some(s@),
                None => None,
            },
            payload: self.payload@,
        }
    }
}

impl BlockProof {
    /// An identical copy.
    pub fn duplicate(&self) -> (r: BlockProof)
        ensures
            r@ == self@,
    {
        let r = BlockProof {
            seq_no: self.seq_no,
            root_hash: self.root_hash.clone(),
            file_hash: match &self.file_hash {
                Some(s) => Some(s.clone()),
                None => None,
            },
            payload: vstd::slice::slice_to_vec(self.payload.as_slice()),
        };
        r
    }
}

} // verus!
