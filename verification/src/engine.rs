//! The proof helper engine: network-scoped storage access, bounds metadata,
//! and the trust-extension planning for key-block proof chains.

use vstd::prelude::*;
use vstd::bytes::{
    lemma_auto_spec_u32_to_from_le_bytes, spec_u32_from_le_bytes, spec_u32_to_le_bytes,
    u32_from_le_bytes, u32_to_le_bytes,
};
use crate::{BlockProof, ClientContext, NetworkUID, ProofError};
use crate::keys::{dec_str_of, prefix8, storage_key_seq, u32_dec_string};
use crate::query::{
    preprocess_query_result, preprocess_spec, row_parses, Collection, OrderBy, ParamsOfQueryCollection, QueryFilter, QueryRow,
    ResultProjection, SortDirection,
};
use crate::storage::{LogicalKey, ProofStorage, StoredData, StoredValue};

verus! {

/// The u32 a stored metadata slot denotes: present only when the slot holds
/// a blob of exactly four bytes, read little-endian.
pub open spec fn stored_meta_u32(m: Map<LogicalKey, StoredData>, key: LogicalKey) -> Option<u32> {
    if m.contains_key(key) {
        match m[key] {
            StoredData::Bin(b) => if b.len() == 4 {
                Some(spec_u32_from_le_bytes(b))
            } else {
                None
            },
            _ => None,
        }
    } else {
        None
    }
}

/// What a metadata update writes: the greater of the stored value and the
/// new one, or the new one where nothing (or junk) is stored.
pub open spec fn meta_max_combined(
    m: Map<LogicalKey, StoredData>,
    key: LogicalKey,
    value: u32,
) -> u32 {
    match stored_meta_u32(m, key) {
        None => value,
        Some(p) => if p >= value {
            p
        } else {
            value
        },
    }
}

/// The zerostate-side right boundary: absent reads as 0.
pub open spec fn zs_right_bound_of(m: Map<LogicalKey, StoredData>) -> u32 {
    match stored_meta_u32(m, LogicalKey::ZsRightBound) {
        None => 0,
        Some(v) => v,
    }
}

/// The trusted-anchor-side right boundary: absent reads as the anchor itself.
pub open spec fn trusted_right_bound_of(m: Map<LogicalKey, StoredData>, trusted_seq_no: u32) -> u32 {
    match stored_meta_u32(m, LogicalKey::TrustedRightBound(trusted_seq_no)) {
        None => trusted_seq_no,
        Some(v) => v,
    }
}

/// Whether the proof slot for a masterchain seq_no is occupied by something
/// that is not a proof record: the analogue of unparsable cached JSON.
pub open spec fn mc_proof_slot_corrupt(m: Map<LogicalKey, StoredData>, mc_seq_no: u32) -> bool {
    m.contains_key(LogicalKey::McProof(mc_seq_no)) && cached_mc_proof(m, mc_seq_no) is None
}

/// The proof cached for a masterchain seq_no, if the slot holds one.
pub open spec fn cached_mc_proof(m: Map<LogicalKey, StoredData>, mc_seq_no: u32) -> Option<
    crate::BlockProofView,
> {
    if m.contains_key(LogicalKey::McProof(mc_seq_no)) {
        match m[LogicalKey::McProof(mc_seq_no)] {
            StoredData::Proof(p) => Some(p),
            _ => None,
        }
    } else {
        None
    }
}

/// The proof helper engine: the client context it serves and its view of the
/// persisted store.
pub struct ProofHelperEngineImpl {
    pub context: ClientContext,
    pub storage: ProofStorage,
}

impl ProofHelperEngineImpl {
    /// A new engine over the given context and store.
    pub fn new(context: ClientContext, storage: ProofStorage) -> (r: ProofHelperEngineImpl)
        ensures
            r.context == context,
            r.storage == storage,
    {
        ProofHelperEngineImpl { context, storage }
    }

    /// The client context the engine serves.
    pub fn context(&self) -> (r: &ClientContext)
        ensures
            *r == self.context,
    {
        &self.context
    }

    /// The engine's store.
    pub fn storage(&self) -> (r: &ProofStorage)
        ensures
            *r == self.storage,
    {
        &self.storage
    }

    /// The first eight characters of a root hash, used as a human-readable
    /// namespace prefix.
    pub fn gen_root_hash_prefix(root_hash: &str) -> (r: &str)
        ensures
            r@ == prefix8(root_hash@),
    {
        let len = root_hash.unicode_len();
        if len < 8 {
            root_hash
        } else {
            let r = root_hash.substring_char(0, 8);
            r
        }
    }

    /// The full storage key for a logical key under the given network.
    pub fn gen_storage_key(network_uid: &NetworkUID, key: &str) -> (r: String)
        ensures
            r@ == storage_key_seq(
                network_uid.zerostate_root_hash@,
                network_uid.first_master_block_root_hash@,
                key@,
            ),
    {
        let mut s = String::from_str(
            Self::gen_root_hash_prefix(network_uid.zerostate_root_hash.as_str()),
        );
        s.append("/");
        s.append(Self::gen_root_hash_prefix(network_uid.first_master_block_root_hash.as_str()));
        s.append("/");
        s.append(key);
        proof {
            reveal_strlit("/");
            assert("/"@ =~= seq!['/']);
            assert(s@ =~= storage_key_seq(
                network_uid.zerostate_root_hash@,
                network_uid.first_master_block_root_hash@,
                key@,
            ));
        }
        s
    }

    /// The full storage key for a logical key under the engine's own network.
    pub fn get_storage_key(&self, key: &str) -> (r: String)
        ensures
            r@ == storage_key_seq(
                self.context.network_uid.zerostate_root_hash@,
                self.context.network_uid.first_master_block_root_hash@,
                key@,
            ),
    {
        Self::gen_storage_key(&self.context.network_uid, key)
    }

    /// The string form of the proof cache key for a masterchain seq_no.
    pub fn mc_proof_key(mc_seq_no: u32) -> (r: String)
        ensures
            r@ == "proof_mc_"@ + dec_str_of(mc_seq_no as nat),
    {
        let mut s = String::from_str("proof_mc_");
        let num = u32_dec_string(mc_seq_no);
        s.append(num.as_str());
        s
    }

    /// The string form of the block cache key for a masterchain seq_no.
    pub fn mc_block_key(mc_seq_no: u32) -> (r: String)
        ensures
            r@ == "block_mc_"@ + dec_str_of(mc_seq_no as nat),
    {
        let mut s = String::from_str("block_mc_");
        let num = u32_dec_string(mc_seq_no);
        s.append(num.as_str());
        s
    }

    /// The string form of the right-boundary key for a trusted anchor.
    pub fn trusted_block_right_bound_key(seq_no: u32) -> (r: String)
        ensures
            r@ == "trusted_"@ + dec_str_of(seq_no as nat) + "_right_boundary_seq_no"@,
    {
        let mut s = String::from_str("trusted_");
        let num = u32_dec_string(seq_no);
        s.append(num.as_str());
        s.append("_right_boundary_seq_no");
        s
    }

    /// The filter selecting one masterchain block by seq_no.
    pub fn filter_for_mc_block(mc_seq_no: u32) -> (r: QueryFilter)
        ensures
            r == QueryFilter::McBlockSeqNo(mc_seq_no),
    {
        QueryFilter::McBlockSeqNo(mc_seq_no)
    }

    /// The ascending-by-seq_no sort clause every block query uses.
    pub fn sorting_by_seq_no() -> (r: Vec<OrderBy>)
        ensures
            r@.len() == 1,
            r@[0].path@ == "seq_no"@,
            r@[0].direction == SortDirection::ASC,
    {
        let mut v: Vec<OrderBy> = Vec::new();
        v.push(OrderBy { path: String::from_str("seq_no"), direction: SortDirection::ASC });
        v
    }

    /// Reads a blob slot; a slot of another kind reads as absent.
    pub fn get_bin(&self, key: LogicalKey) -> (r: Option<Vec<u8>>)
        ensures
            match r {
                Some(v) => self.storage@.contains_key(key) && self.storage@[key] == StoredData::Bin(
                    v@,
                ),
                None => !self.storage@.contains_key(key) || !(self.storage@[key] is Bin),
            },
    {
        match self.storage.get(key) {
            Some(StoredValue::Bin(v)) => Some(vstd::slice::slice_to_vec(v.as_slice())),
            _ => None,
        }
    }

    /// Writes a blob slot.
    pub fn put_bin(&mut self, key: LogicalKey, value: Vec<u8>)
        ensures
            final(self).context == old(self).context,
            final(self).storage@ == old(self).storage@.insert(key, StoredData::Bin(value@)),
    {
        self.storage.put(key, StoredValue::Bin(value));
    }

    /// Reads a string slot; a slot of another kind reads as absent.
    pub fn get_str(&self, key: LogicalKey) -> (r: Option<String>)
        ensures
            match r {
                Some(v) => self.storage@.contains_key(key) && self.storage@[key] == StoredData::Str(
                    v@,
                ),
                None => !self.storage@.contains_key(key) || !(self.storage@[key] is Str),
            },
    {
        match self.storage.get(key) {
            Some(StoredValue::Str(s)) => Some(s.clone()),
            _ => None,
        }
    }

    /// Writes a string slot.
    pub fn put_str(&mut self, key: LogicalKey, value: String)
        ensures
            final(self).context == old(self).context,
            final(self).storage@ == old(self).storage@.insert(key, StoredData::Str(value@)),
    {
        self.storage.put(key, StoredValue::Str(value));
    }

    /// Reads the cached proof for a masterchain seq_no.  An empty slot is
    /// `None`; a slot holding anything but a proof record is the analogue of
    /// unparsable cached JSON and fails with `SerdeError`.
    pub fn read_mc_proof(&self, mc_seq_no: u32) -> (r: Result<Option<BlockProof>, ProofError>)
        ensures
            match r {
                Ok(Some(p)) => cached_mc_proof(self.storage@, mc_seq_no) == Some(p@),
                Ok(None) => !self.storage@.contains_key(LogicalKey::McProof(mc_seq_no)),
                Err(e) => e == ProofError::SerdeError && self.storage@.contains_key(
                    LogicalKey::McProof(mc_seq_no),
                ) && cached_mc_proof(self.storage@, mc_seq_no) is None,
            },
    {
        match self.storage.get(LogicalKey::McProof(mc_seq_no)) {
            None => Ok(None),
            Some(StoredValue::Proof(p)) => Ok(Some(p.duplicate())),
            Some(_) => Err(ProofError::SerdeError),
        }
    }

    /// Persists a verified proof under its seq_no's cache key.
    pub fn write_mc_proof(&mut self, mc_seq_no: u32, proof: BlockProof)
        ensures
            final(self).context == old(self).context,
            final(self).storage@ == old(self).storage@.insert(
                LogicalKey::McProof(mc_seq_no),
                StoredData::Proof(proof@),
            ),
    {
        self.storage.put(LogicalKey::McProof(mc_seq_no), StoredValue::Proof(proof));
    }

    /// Reads the cached BoC of a masterchain block.
    pub fn read_mc_block(&self, mc_seq_no: u32) -> (r: Option<Vec<u8>>)
        ensures
            match r {
                Some(v) => self.storage@.contains_key(LogicalKey::McBlock(mc_seq_no))
                    && self.storage@[LogicalKey::McBlock(mc_seq_no)] == StoredData::Bin(v@),
                None => !self.storage@.contains_key(LogicalKey::McBlock(mc_seq_no)) || !(
                self.storage@[LogicalKey::McBlock(mc_seq_no)] is Bin),
            },
    {
        self.get_bin(LogicalKey::McBlock(mc_seq_no))
    }

    /// Caches the BoC of a masterchain block.
    pub fn write_mc_block(&mut self, mc_seq_no: u32, boc: Vec<u8>)
        ensures
            final(self).context == old(self).context,
            final(self).storage@ == old(self).storage@.insert(
                LogicalKey::McBlock(mc_seq_no),
                StoredData::Bin(boc@),
            ),
    {
        self.put_bin(LogicalKey::McBlock(mc_seq_no), boc);
    }

    /// Reads a u32 metadata slot: present only as an exactly-four-byte blob,
    /// little-endian; any other width or kind reads as absent.
    pub fn read_metadata_value_u32(&self, key: LogicalKey) -> (r: Option<u32>)
        ensures
            r == stored_meta_u32(self.storage@, key),
    {
        match self.get_bin(key) {
            None => None,
            Some(v) => {
                if v.len() == 4 {
                    Some(u32_from_le_bytes(v.as_slice()))
                } else {
                    None
                }
            },
        }
    }

    /// Writes a u32 metadata slot as four little-endian bytes.
    pub fn write_metadata_value_u32(&mut self, key: LogicalKey, value: u32)
        ensures
            final(self).context == old(self).context,
            final(self).storage@ == old(self).storage@.insert(
                key,
                StoredData::Bin(spec_u32_to_le_bytes(value)),
            ),
            stored_meta_u32(final(self).storage@, key) == Some(value),
    {
        proof {
            lemma_auto_spec_u32_to_from_le_bytes();
        }
        self.put_bin(key, u32_to_le_bytes(value));
    }

    /// Combines a u32 metadata slot with a new value, keeping the maximum:
    /// the slot never decreases, whatever order updates arrive in.
    pub fn update_metadata_value_u32(&mut self, key: LogicalKey, value: u32)
        ensures
            final(self).context == old(self).context,
            final(self).storage@ == old(self).storage@.insert(
                key,
                StoredData::Bin(
                    spec_u32_to_le_bytes(meta_max_combined(old(self).storage@, key, value)),
                ),
            ),
            stored_meta_u32(final(self).storage@, key) == Some(
                meta_max_combined(old(self).storage@, key, value),
            ),
    {
        match self.read_metadata_value_u32(key) {
            None => self.write_metadata_value_u32(key, value),
            Some(prev) => self.write_metadata_value_u32(
                key,
                if prev >= value {
                    prev
                } else {
                    value
                },
            ),
        }
    }

    /// The highest mc seq_no proven from the zerostate; 0 when unset.
    pub fn read_zs_right_bound(&self) -> (r: u32)
        ensures
            r == zs_right_bound_of(self.storage@),
    {
        match self.read_metadata_value_u32(LogicalKey::ZsRightBound) {
            None => 0,
            Some(v) => v,
        }
    }

    /// Bumps the zerostate-side right boundary to at least `seq_no`; the
    /// boundary never decreases.
    pub fn update_zs_right_bound(&mut self, seq_no: u32)
        ensures
            final(self).context == old(self).context,
            final(self).storage@ == old(self).storage@.insert(
                LogicalKey::ZsRightBound,
                StoredData::Bin(
                    spec_u32_to_le_bytes(
                        meta_max_combined(old(self).storage@, LogicalKey::ZsRightBound, seq_no),
                    ),
                ),
            ),
            zs_right_bound_of(final(self).storage@) >= zs_right_bound_of(old(self).storage@),
            zs_right_bound_of(final(self).storage@) >= seq_no,
            zs_right_bound_of(final(self).storage@) == zs_right_bound_of(old(self).storage@)
                || zs_right_bound_of(final(self).storage@) == seq_no,
    {
        self.update_metadata_value_u32(LogicalKey::ZsRightBound, seq_no);
    }

    /// The highest mc seq_no proven from the given trusted anchor; the anchor
    /// itself when unset.
    pub fn read_trusted_block_right_bound(&self, trusted_seq_no: u32) -> (r: u32)
        ensures
            r == trusted_right_bound_of(self.storage@, trusted_seq_no),
    {
        match self.read_metadata_value_u32(LogicalKey::TrustedRightBound(trusted_seq_no)) {
            None => trusted_seq_no,
            Some(v) => v,
        }
    }

    /// The query fetching the network's zerostate (a single row).
    pub fn zerostate_query() -> (r: ParamsOfQueryCollection)
        ensures
            r.collection == Collection::Zerostates,
            r.result == ResultProjection::Boc,
            r.filter is None,
            r.order is None,
            r.limit == Some(1u32),
    {
        ParamsOfQueryCollection {
            collection: Collection::Zerostates,
            result: ResultProjection::Boc,
            filter: None,
            order: None,
            limit: Some(1),
        }
    }

    /// The query fetching one masterchain block with the given projection.
    pub fn mc_block_query(mc_seq_no: u32, result: ResultProjection) -> (r: ParamsOfQueryCollection)
        ensures
            r.collection == Collection::Blocks,
            r.result == result,
            r.filter == Some(QueryFilter::McBlockSeqNo(mc_seq_no)),
            r.order matches Some(o) && o@.len() == 1 && o@[0].path@ == "seq_no"@ && o@[0].direction
                == SortDirection::ASC,
            r.limit is None,
    {
        ParamsOfQueryCollection {
            collection: Collection::Blocks,
            result,
            filter: Some(Self::filter_for_mc_block(mc_seq_no)),
            order: Some(Self::sorting_by_seq_no()),
            limit: None,
        }
    }

    /// The query fetching the key blocks of a seq_no range `[lo, hi)`.
    pub fn key_blocks_query(lo: u32, hi: u32) -> (r: ParamsOfQueryCollection)
        ensures
            r.collection == Collection::Blocks,
            r.result == ResultProjection::ProofFields,
            r.filter == Some(QueryFilter::McKeyBlocksRange(lo, hi)),
            r.order matches Some(o) && o@.len() == 1 && o@[0].path@ == "seq_no"@ && o@[0].direction
                == SortDirection::ASC,
            r.limit is None,
    {
        ParamsOfQueryCollection {
            collection: Collection::Blocks,
            result: ResultProjection::ProofFields,
            filter: Some(QueryFilter::McKeyBlocksRange(lo, hi)),
            order: Some(Self::sorting_by_seq_no()),
            limit: None,
        }
    }

    /// The query fetching the prev-references of an explicit set of
    /// masterchain seq_nos.
    pub fn next_blocks_query(seq_nos: Vec<u32>) -> (r: ParamsOfQueryCollection)
        ensures
            r.collection == Collection::Blocks,
            r.result == ResultProjection::SeqNoGenUtimePrevRefFileHash,
            r.filter matches Some(f) && (f matches QueryFilter::McBlocksSeqNoIn(v) && v@
                == seq_nos@),
            r.order matches Some(o) && o@.len() == 1 && o@[0].path@ == "seq_no"@ && o@[0].direction
                == SortDirection::ASC,
            r.limit is None,
    {
        ParamsOfQueryCollection {
            collection: Collection::Blocks,
            result: ResultProjection::SeqNoGenUtimePrevRefFileHash,
            filter: Some(QueryFilter::McBlocksSeqNoIn(seq_nos)),
            order: Some(Self::sorting_by_seq_no()),
            limit: None,
        }
    }

    /// Extracts the zerostate BoC from the rows of a zerostate query: no
    /// rows means the server had nothing; a row without a `boc` string is
    /// malformed; the string must decode as base64.
    pub fn zerostate_boc_from_rows(rows: Vec<QueryRow>) -> (r: Result<Vec<u8>, ProofError>)
        ensures
            rows@.len() == 0 ==> (r matches Err(e) && e == ProofError::QueryFailed),
            rows@.len() > 0 && rows@[0].boc is None ==> (r matches Err(e) && e
                == ProofError::SerdeError),
            (rows@.len() > 0 && rows@[0].boc is Some) ==> (match crate::encoding::base64_decoding(rows@[0].boc->0@) {
                Some(bytes) => r matches Ok(v) && v@ == bytes,
                None => r matches Err(e) && e == ProofError::InvalidData,
            }),
    {
        if rows.len() == 0 {
            return Err(ProofError::QueryFailed);
        }
        let mut rows = rows;
        let row = rows.remove(0);
        let boc_base64 = match row.boc {
            Some(b) => b,
            None => {
                return Err(ProofError::SerdeError);
            },
        };
        match crate::encoding::base64_decode(boc_base64.as_str()) {
            Ok(bytes) => Ok(bytes),
            Err(_) => Err(ProofError::InvalidData),
        }
    }

    /// The cached zerostate BoC, if one was persisted.
    pub fn load_zerostate_cached(&self) -> (r: Option<Vec<u8>>)
        ensures
            match r {
                Some(v) => self.storage@.contains_key(LogicalKey::Zerostate)
                    && self.storage@[LogicalKey::Zerostate] == StoredData::Bin(v@),
                None => !self.storage@.contains_key(LogicalKey::Zerostate) || !(
                self.storage@[LogicalKey::Zerostate] is Bin),
            },
    {
        self.get_bin(LogicalKey::Zerostate)
    }

    /// Accepts a freshly downloaded zerostate BoC: it is persisted exactly
    /// when its computed root hash equals the network's genesis hash, and
    /// nothing is written on a mismatch.  Hashes are compared as exact
    /// strings: the configured genesis hash and the hash the embedding
    /// computes must use one casing (lowercase hex).
    pub fn accept_zerostate_boc(&mut self, boc: Vec<u8>, actual_root_hash: &str) -> (r: Result<
        Vec<u8>,
        ProofError,
    >)
        ensures
            final(self).context == old(self).context,
            actual_root_hash@ == old(self).context.network_uid.zerostate_root_hash@ ==> (r matches
                Ok(v) && v@ == boc@ && final(self).storage@ == old(self).storage@.insert(
                LogicalKey::Zerostate,
                StoredData::Bin(boc@),
            )),
            actual_root_hash@ != old(self).context.network_uid.zerostate_root_hash@ ==> (r matches
                Err(e) && e == ProofError::ZerostateHashMismatch && final(self).storage@ == old(self).storage@),
    {
        let actual = String::from_str(actual_root_hash);
        if actual == self.context.network_uid.zerostate_root_hash {
            let copy = vstd::slice::slice_to_vec(boc.as_slice());
            self.put_bin(LogicalKey::Zerostate, copy);
            Ok(boc)
        } else {
            Err(ProofError::ZerostateHashMismatch)
        }
    }

    /// Accepts a proof queried for the trusted key block: it is taken on the
    /// anchor's word alone, so its seq_no and root hash must equal the
    /// anchor's exactly; then it is persisted.  Nothing is written on a
    /// mismatch.  Hashes are compared as exact strings: the configured
    /// anchor hash must use the casing the indexer serves (lowercase).
    pub fn accept_trusted_key_block_proof(&mut self, proof: BlockProof) -> (r: Result<
        BlockProof,
        ProofError,
    >)
        ensures
            final(self).context == old(self).context,
            (proof.seq_no == old(self).context.trusted_block_id.seq_no && proof@.root_hash == old(self).context.trusted_block_id.root_hash@) ==> (r matches Ok(p) && p@ == proof@ && final(self).storage@ == old(self).storage@.insert(
                LogicalKey::McProof(proof.seq_no),
                StoredData::Proof(proof@),
            )),
            (proof.seq_no != old(self).context.trusted_block_id.seq_no || proof@.root_hash != old(self).context.trusted_block_id.root_hash@) ==> (r matches Err(e) && e
                == ProofError::TrustedAnchorMismatch && final(self).storage@ == old(self).storage@),
    {
        if proof.seq_no != self.context.trusted_block_id.seq_no {
            return Err(ProofError::TrustedAnchorMismatch);
        }
        if !(proof.root_hash == self.context.trusted_block_id.root_hash) {
            return Err(ProofError::TrustedAnchorMismatch);
        }
        let copy = proof.duplicate();
        self.write_mc_proof(proof.seq_no, copy);
        Ok(proof)
    }

    /// Bumps the right boundary of a trusted anchor to at least
    /// `right_bound_seq_no`; for bumps at or beyond the anchor, the boundary
    /// never decreases.
    pub fn update_trusted_block_right_bound(&mut self, trusted_seq_no: u32, right_bound_seq_no: u32)
        ensures
            final(self).context == old(self).context,
            final(self).storage@ == old(self).storage@.insert(
                LogicalKey::TrustedRightBound(trusted_seq_no),
                StoredData::Bin(
                    spec_u32_to_le_bytes(
                        meta_max_combined(
                            old(self).storage@,
                            LogicalKey::TrustedRightBound(trusted_seq_no),
                            right_bound_seq_no,
                        ),
                    ),
                ),
            ),
            right_bound_seq_no >= trusted_seq_no ==> trusted_right_bound_of(
                final(self).storage@,
                trusted_seq_no,
            ) >= trusted_right_bound_of(old(self).storage@, trusted_seq_no),
            right_bound_seq_no >= trusted_seq_no ==> trusted_right_bound_of(
                final(self).storage@,
                trusted_seq_no,
            ) >= right_bound_seq_no,
    {
        self.update_metadata_value_u32(
            LogicalKey::TrustedRightBound(trusted_seq_no),
            right_bound_seq_no,
        );
    }
}

/// Bounds monotonicity, the frame half: persisting a proof, a masterchain
/// block, or the zerostate never moves a right boundary.  Together with the
/// max-combining boundary updates, which never decrease what they touch, no
/// run of successful engine steps ever lowers a stored boundary.
pub proof fn lemma_bounds_untouched_by_cache_writes(
    m: Map<LogicalKey, StoredData>,
    key: LogicalKey,
    v: StoredData,
)
    requires
        key is McProof || key is McBlock || key is Zerostate,
    ensures
        zs_right_bound_of(m.insert(key, v)) == zs_right_bound_of(m),
        forall|t: u32|
            #![trigger trusted_right_bound_of(m.insert(key, v), t)]
            trusted_right_bound_of(m.insert(key, v), t) == trusted_right_bound_of(m, t),
{
}

/// Which trust anchor's right boundary a stored proof extends.
#[derive(Clone, Copy, Debug, PartialEq, Eq, Structural)]
pub enum BoundarySide {
    /// The chain grows rightward from the zerostate.
    Zerostate,
    /// The chain grows rightward from the trusted anchor with this seq_no.
    Trusted(u32),
}

/// Which range of key-block proofs to download for a request, and which
/// boundary each stored proof bumps.  The range is `[lo, hi)`.
#[derive(Debug)]
pub struct ChainPlan {
    pub lo: u32,
    pub hi: u32,
    pub side: BoundarySide,
}

impl ProofHelperEngineImpl {
    /// Bumps the right boundary named by `side` to at least `seq_no`.  This
    /// is the store hook a chain download runs after persisting each proof:
    /// the boundary moves only after the proof it covers is in the store.
    pub fn bump(&mut self, side: BoundarySide, seq_no: u32)
        ensures
            final(self).context == old(self).context,
            side is Zerostate ==> final(self).storage@ == old(self).storage@.insert(
                LogicalKey::ZsRightBound,
                StoredData::Bin(
                    spec_u32_to_le_bytes(
                        meta_max_combined(old(self).storage@, LogicalKey::ZsRightBound, seq_no),
                    ),
                ),
            ),
            side matches BoundarySide::Trusted(t) ==> final(self).storage@ == old(self).storage@.insert(
                LogicalKey::TrustedRightBound(t),
                StoredData::Bin(
                    spec_u32_to_le_bytes(
                        meta_max_combined(
                            old(self).storage@,
                            LogicalKey::TrustedRightBound(t),
                            seq_no,
                        ),
                    ),
                ),
            ),
            zs_right_bound_of(final(self).storage@) >= zs_right_bound_of(old(self).storage@),
            side is Zerostate ==> zs_right_bound_of(final(self).storage@) >= seq_no,
            forall|t: u32|
                (side == BoundarySide::Trusted(t) && seq_no >= t) ==> trusted_right_bound_of(
                    final(self).storage@,
                    t,
                ) >= seq_no,
            forall|t: u32|
                #![trigger trusted_right_bound_of(final(self).storage@, t)]
                (side == BoundarySide::Trusted(t) ==> seq_no >= t) ==> trusted_right_bound_of(
                    final(self).storage@,
                    t,
                ) >= trusted_right_bound_of(old(self).storage@, t),
    {
        match side {
            BoundarySide::Zerostate => self.update_zs_right_bound(seq_no),
            BoundarySide::Trusted(t) => self.update_trusted_block_right_bound(t, seq_no),
        }
    }

    /// The trust-extension choice: which segment of the key-block proof
    /// chain to download for a requested seq_no, given the persisted
    /// boundaries on either side of the trusted anchor and of the zerostate.
    /// The first matching rule wins:
    /// rightward of the trusted boundary, extend it; between the zerostate
    /// boundary and the anchor, extend from the zerostate; at or below the
    /// zerostate boundary, the cached chain is broken, so rebuild it from
    /// the start; between the anchor and its boundary, that cached chain is
    /// broken, so rebuild it from the anchor.
    pub fn plan_key_block_download(
        mc_seq_no: u32,
        trusted_seq_no: u32,
        zs_right: u32,
        trusted_right: u32,
    ) -> (r: ChainPlan)
        requires
            mc_seq_no != trusted_seq_no,
            mc_seq_no < u32::MAX,
        ensures
            r.hi == mc_seq_no + 1,
            r.lo <= r.hi,
            mc_seq_no > trusted_right ==> (r.lo == trusted_right + 1 && r.side
                == BoundarySide::Trusted(trusted_seq_no)),
            (mc_seq_no <= trusted_right && mc_seq_no < trusted_seq_no && mc_seq_no > zs_right)
                ==> (r.lo == zs_right + 1 && r.side == BoundarySide::Zerostate),
            (mc_seq_no <= trusted_right && mc_seq_no <= zs_right) ==> (r.lo == 1 && r.side
                == BoundarySide::Zerostate),
            (mc_seq_no <= trusted_right && mc_seq_no > zs_right && mc_seq_no > trusted_seq_no)
                ==> (r.lo == trusted_seq_no + 1 && r.side == BoundarySide::Trusted(
                trusted_seq_no,
            )),
            r.side matches BoundarySide::Trusted(t) ==> t == trusted_seq_no,
            r == chain_plan_spec(mc_seq_no, trusted_seq_no, zs_right, trusted_right),
    {
        if mc_seq_no > trusted_right {
            ChainPlan {
                lo: trusted_right + 1,
                hi: mc_seq_no + 1,
                side: BoundarySide::Trusted(trusted_seq_no),
            }
        } else if mc_seq_no < trusted_seq_no && mc_seq_no > zs_right {
            ChainPlan { lo: zs_right + 1, hi: mc_seq_no + 1, side: BoundarySide::Zerostate }
        } else if mc_seq_no <= zs_right {
            // The cached chain from the zerostate is broken: a covered proof
            // was missing, so the whole half-chain is rebuilt.
            ChainPlan { lo: 1, hi: mc_seq_no + 1, side: BoundarySide::Zerostate }
        } else {
            // Here mc_seq_no > zs_right, mc_seq_no <= trusted_right and
            // mc_seq_no != trusted_seq_no force trusted_seq_no < mc_seq_no:
            // the cached chain right of the trusted anchor is broken.
            assert(mc_seq_no > trusted_seq_no);
            ChainPlan {
                lo: trusted_seq_no + 1,
                hi: mc_seq_no + 1,
                side: BoundarySide::Trusted(trusted_seq_no),
            }
        }
    }
}

/// The waiting proof rows after one next-block page has been applied: page
/// row `i` hands its `prev_ref.file_hash` to waiting row `i`; rows beyond
/// the page keep theirs, unattached.
pub open spec fn attached_rows(
    todo: Seq<(u32, QueryRow)>,
    page: Seq<(u32, QueryRow)>,
) -> Seq<(u32, QueryRow)> {
    Seq::new(
        todo.len(),
        |i: int|
            if i < page.len() {
                (todo[i].0, QueryRow { file_hash: page[i].1.prev_ref_file_hash, ..todo[i].1 })
            } else {
                todo[i]
            },
    )
}

/// The plan the trust-extension rules pick, as a function of the request and
/// the two stored boundaries; `plan_key_block_download` returns exactly this.
pub open spec fn chain_plan_spec(
    mc_seq_no: u32,
    trusted_seq_no: u32,
    zs_right: u32,
    trusted_right: u32,
) -> ChainPlan {
    if mc_seq_no > trusted_right {
        ChainPlan {
            lo: (trusted_right + 1) as u32,
            hi: (mc_seq_no + 1) as u32,
            side: BoundarySide::Trusted(trusted_seq_no),
        }
    } else if mc_seq_no < trusted_seq_no && mc_seq_no > zs_right {
        ChainPlan {
            lo: (zs_right + 1) as u32,
            hi: (mc_seq_no + 1) as u32,
            side: BoundarySide::Zerostate,
        }
    } else if mc_seq_no <= zs_right {
        ChainPlan { lo: 1, hi: (mc_seq_no + 1) as u32, side: BoundarySide::Zerostate }
    } else {
        ChainPlan {
            lo: (trusted_seq_no + 1) as u32,
            hi: (mc_seq_no + 1) as u32,
            side: BoundarySide::Trusted(trusted_seq_no),
        }
    }
}

/// Where a proof chain download stands.
#[derive(Debug)]
pub enum ChainPhase {
    /// Collecting pages of key-block proof rows for seq_nos in
    /// `[next, end)`.
    Collect { next: u32, end: u32, proofs: Vec<(u32, QueryRow)> },
    /// Attaching file hashes: `done` rows carry theirs, `todo` rows wait
    /// for the next-block page.
    Attach { done: Vec<(u32, QueryRow)>, todo: Vec<(u32, QueryRow)> },
    /// Verifying the parsed proofs in ascending order; those before `idx`
    /// are verified and persisted.
    Verify { proofs: Vec<BlockProof>, idx: usize },
}

/// A proof-chain download in progress: the engine verifies and persists the
/// proofs of a seq_no range in strictly the order the indexer sorted them,
/// bumping one boundary after each stored proof.
#[derive(Debug)]
pub struct ProofChainDownload {
    pub side: BoundarySide,
    pub phase: ChainPhase,
}

impl ProofChainDownload {
    /// Internal consistency of the session state.
    pub open spec fn wf(&self) -> bool {
        match self.phase {
            ChainPhase::Collect { next, end, proofs } => next < end,
            ChainPhase::Attach { done, todo } => true,
            ChainPhase::Verify { proofs, idx } => idx <= proofs.len(),
        }
    }

    /// Every proof already verified stays cached in the store.
    pub open spec fn verified_stored(&self, eng: &ProofHelperEngineImpl) -> bool {
        match self.phase {
            ChainPhase::Verify { proofs, idx } => forall|j: int|
                0 <= j < idx ==> cached_mc_proof(
                    eng.storage@,
                    (#[trigger] proofs@[j]).seq_no,
                ) is Some,
            _ => true,
        }
    }

    /// Starts a download of the key-block proofs of `[lo, hi)`; an empty
    /// range is refused.
    pub fn start(plan: ChainPlan) -> (r: Result<ProofChainDownload, ProofError>)
        ensures
            plan.lo >= plan.hi ==> (r matches Err(e) && e == ProofError::EmptyRange),
            plan.lo < plan.hi ==> (r matches Ok(s) && s.wf() && s.side == plan.side && s.phase
                is Collect && s.phase->Collect_next == plan.lo && s.phase->Collect_end == plan.hi
                && s.phase->Collect_proofs@.len() == 0),
    {
        if plan.lo >= plan.hi {
            return Err(ProofError::EmptyRange);
        }
        let proofs: Vec<(u32, QueryRow)> = Vec::new();
        proof {
            assert(proofs@ =~= Seq::<(u32, QueryRow)>::empty());
        }
        Ok(ProofChainDownload {
            side: plan.side,
            phase: ChainPhase::Collect { next: plan.lo, end: plan.hi, proofs },
        })
    }

    /// The key-block page query to run while collecting.
    pub fn collect_query(&self) -> (r: ParamsOfQueryCollection)
        requires
            self.wf(),
            self.phase is Collect,
        ensures
            r.collection == Collection::Blocks,
            r.result == ResultProjection::ProofFields,
            r.filter == Some(
                QueryFilter::McKeyBlocksRange(
                    self.phase->Collect_next,
                    self.phase->Collect_end,
                ),
            ),
    {
        match &self.phase {
            ChainPhase::Collect { next, end, proofs: _ } => ProofHelperEngineImpl::key_blocks_query(
                *next,
                *end,
            ),
            _ => vstd::pervasive::unreached(),
        }
    }

    /// Consumes one key-block page: deduplicated rows are appended, and the
    /// collection window advances past the last returned seq_no.  An empty
    /// page, or a page reaching the end of the window, moves the session to
    /// the file-hash attachment phase over everything collected.
    pub fn on_key_blocks_page(self, rows: Vec<QueryRow>) -> (r: Result<
        ProofChainDownload,
        ProofError,
    >)
        requires
            self.wf(),
            self.phase is Collect,
        ensures
            r is Ok <==> (forall|i: int| 0 <= i < rows@.len() ==> row_parses(#[trigger] rows@[i])),
            r matches Err(e) ==> e == ProofError::SerdeError,
            r matches Ok(s) ==> ({
                &&& s.wf()
                &&& s.side == self.side
                &&& (s.phase is Collect || s.phase is Attach)
                &&& (s.phase is Attach ==> s.phase->Attach_done@.len() == 0
                    && s.phase->Attach_todo@ == self.phase->Collect_proofs@ + preprocess_spec(
                    rows@,
                ))
                &&& (s.phase is Collect ==> s.phase->Collect_end == self.phase->Collect_end
                    && s.phase->Collect_proofs@ == self.phase->Collect_proofs@ + preprocess_spec(
                    rows@,
                ) && s.phase->Collect_next == preprocess_spec(rows@).last().0 + 1)
                &&& (s.phase is Attach <==> (preprocess_spec(rows@).len() == 0 || preprocess_spec(
                    rows@,
                ).last().0 + 1 >= self.phase->Collect_end))
            }),
    {
        let ProofChainDownload { side, phase } = self;
        let (next, end, mut proofs) = match phase {
            ChainPhase::Collect { next, end, proofs } => (next, end, proofs),
            _ => {
                proof {
                    assert(false);
                }
                return Err(ProofError::SerdeError);
            },
        };
        let mut page = preprocess_query_result(rows)?;
        if page.len() == 0 {
            proof {
                assert(proofs@ + preprocess_spec(rows@) =~= proofs@);
            }
            return Ok(ProofChainDownload {
                side,
                phase: ChainPhase::Attach { done: Vec::new(), todo: proofs },
            });
        }
        let last_seq = page[page.len() - 1].0;
        let ghost page_view = page@;
        proofs.append(&mut page);
        proof {
            assert(proofs@ =~= self.phase->Collect_proofs@ + page_view);
        }
        if last_seq >= end - 1 {
            Ok(ProofChainDownload {
                side,
                phase: ChainPhase::Attach { done: Vec::new(), todo: proofs },
            })
        } else {
            Ok(ProofChainDownload {
                side,
                phase: ChainPhase::Collect { next: last_seq + 1, end, proofs },
            })
        }
    }

    /// The next-block query attaching file hashes to the waiting rows: each
    /// proof's file hash is the `prev_ref.file_hash` of the block one
    /// seq_no above it.
    pub fn attach_query(&self) -> (r: Result<ParamsOfQueryCollection, ProofError>)
        requires
            self.wf(),
            self.phase is Attach,
            self.phase->Attach_todo@.len() > 0,
        ensures
            r matches Ok(q) ==> ({
                &&& q.collection == Collection::Blocks
                &&& q.result == ResultProjection::SeqNoGenUtimePrevRefFileHash
                &&& q.filter matches Some(f) && (f matches QueryFilter::McBlocksSeqNoIn(v)
                    && v@.len() == self.phase->Attach_todo@.len() && (forall|i: int|
                    0 <= i < v@.len() ==> v@[i] == (#[trigger] self.phase->Attach_todo@[i]).0
                        + 1))
            }),
            r is Ok <==> (forall|i: int|
                0 <= i < self.phase->Attach_todo@.len() ==> (#[trigger] self.phase->Attach_todo@[i]).0
                    < u32::MAX),
            r matches Err(e) ==> e == ProofError::InvalidData,
    {
        let todo = match &self.phase {
            ChainPhase::Attach { done: _, todo } => todo,
            _ => {
                proof {
                    assert(false);
                }
                return Err(ProofError::InvalidData);
            },
        };
        let mut seq_nos: Vec<u32> = Vec::new();
        let mut i: usize = 0;
        while i < todo.len()
            invariant
                i <= todo@.len(),
                todo@ == self.phase->Attach_todo@,
                seq_nos@.len() == i,
                forall|j: int| 0 <= j < i ==> seq_nos@[j] == (#[trigger] todo@[j]).0 + 1,
                forall|j: int| 0 <= j < i ==> (#[trigger] todo@[j]).0 < u32::MAX,
            decreases todo@.len() - i,
        {
            let s = todo[i].0;
            if s == u32::MAX {
                proof {
                    assert(self.phase->Attach_todo@[i as int].0 == u32::MAX);
                }
                return Err(ProofError::InvalidData);
            }
            seq_nos.push(s + 1);
            i = i + 1;
        }
        Ok(ProofHelperEngineImpl::next_blocks_query(seq_nos))
    }

    /// Attaches file hashes to one page of waiting proof rows: page row `i`
    /// must sit exactly one seq_no above waiting proof `i`, and hands its
    /// `prev_ref.file_hash` to it; a gap or a misplaced row is a chain gap
    /// or fork.  Returned are the attached prefix and the untouched rest.
    pub fn attach_file_hashes_page(
        todo: Vec<(u32, QueryRow)>,
        blocks: &Vec<(u32, QueryRow)>,
    ) -> (r: Result<(Vec<(u32, QueryRow)>, Vec<(u32, QueryRow)>), ProofError>)
        requires
            blocks@.len() <= todo@.len(),
        ensures
            r is Ok <==> (forall|i: int|
                0 <= i < blocks@.len() ==> (#[trigger] todo@[i]).0 < u32::MAX && blocks@[i].0
                    == todo@[i].0 + 1),
            r matches Ok(p) ==> ({
                &&& p.0@ == attached_rows(todo@, blocks@).take(blocks@.len() as int)
                &&& p.1@ == todo@.skip(blocks@.len() as int)
            }),
            r matches Err(e) ==> e == ProofError::ChainGapOrFork,
    {
        let mut remaining = todo;
        let mut attached: Vec<(u32, QueryRow)> = Vec::new();
        let n = blocks.len();
        let mut i: usize = 0;
        while i < n
            invariant
                i <= n,
                n == blocks@.len(),
                n <= todo@.len(),
                remaining@ == todo@.skip(i as int),
                attached@ == attached_rows(todo@, blocks@).take(i as int),
                forall|j: int|
                    0 <= j < i ==> (#[trigger] todo@[j]).0 < u32::MAX && blocks@[j].0 == todo@[j].0
                        + 1,
            decreases n - i,
        {
            proof {
                assert(remaining@[0] == todo@[i as int]);
            }
            let (seq_no, mut row) = remaining.remove(0);
            proof {
                assert(remaining@ =~= todo@.skip(i + 1));
            }
            if seq_no == u32::MAX || blocks[i].0 != seq_no + 1 {
                proof {
                    assert(todo@[i as int].0 == seq_no);
                    assert(!(todo@[i as int].0 < u32::MAX && blocks@[i as int].0 == todo@[
                        i as int
                    ].0 + 1));
                }
                return Err(ProofError::ChainGapOrFork);
            }
            row.file_hash = match &blocks[i].1.prev_ref_file_hash {
                Some(h) => Some(h.clone()),
                None => None,
            };
            proof {
                assert(row == (QueryRow {
                    file_hash: blocks@[i as int].1.prev_ref_file_hash,
                    ..todo@[i as int].1
                }));
            }
            attached.push((seq_no, row));
            proof {
                assert(attached@ =~= attached_rows(todo@, blocks@).take(i + 1));
            }
            i = i + 1;
        }
        Ok((attached, remaining))
    }

    /// Consumes the next-block page.  The indexer may not return more rows
    /// than proofs are waiting, and each returned row hands its
    /// `prev_ref.file_hash` to the proof one seq_no below it.  A short page
    /// leaves the tail unattached rather than blocking the rest: its proofs
    /// will fail verification and the caller can retry later.  The records
    /// are then parsed, in order, and the session moves to verification.
    pub fn on_next_blocks_page(self, rows: Vec<QueryRow>) -> (r: Result<
        ProofChainDownload,
        ProofError,
    >)
        requires
            self.wf(),
            self.phase is Attach,
            self.phase->Attach_todo@.len() > 0,
        ensures
            ({
                let page = preprocess_spec(rows@);
                let done0 = self.phase->Attach_done@;
                let todo0 = self.phase->Attach_todo@;
                let records = done0 + attached_rows(todo0, page);
                &&& (r is Ok <==> {
                    &&& (forall|i: int| 0 <= i < rows@.len() ==> row_parses(#[trigger] rows@[i]))
                    &&& page.len() <= todo0.len()
                    &&& (forall|i: int|
                        0 <= i < page.len() ==> (#[trigger] todo0[i]).0 < u32::MAX && page[i].0
                            == todo0[i].0 + 1)
                    &&& (forall|j: int| 0 <= j < done0.len() ==> (#[trigger] done0[j]).1.id is Some)
                    &&& (forall|j: int| 0 <= j < todo0.len() ==> (#[trigger] todo0[j]).1.id is Some)
                })
                &&& (((forall|i: int|
                    0 <= i < rows@.len() ==> row_parses(#[trigger] rows@[i])) && page.len()
                    > todo0.len()) ==> (r matches Err(e) && e == ProofError::ChainGapOrFork))
                &&& (r matches Ok(s) ==> {
                    &&& s.wf()
                    &&& s.side == self.side
                    &&& s.phase is Verify
                    &&& s.phase->Verify_idx == 0
                    &&& s.phase->Verify_proofs@.len() == records.len()
                    &&& (forall|j: int|
                        0 <= j < records.len() ==> {
                            &&& (#[trigger] s.phase->Verify_proofs@[j]).seq_no == records[j].0
                            &&& s.phase->Verify_proofs@[j]@.root_hash == records[j].1.id->0@
                            &&& s.phase->Verify_proofs@[j]@.file_hash == (match records[j].1.file_hash {
                                Some(h) => Some(h@),
                                None => None::<Seq<char>>,
                            })
                        })
                })
                &&& (r matches Err(e) ==> (e == ProofError::SerdeError || e
                    == ProofError::ChainGapOrFork))
            }),
    {
        let ghost done0 = self.phase->Attach_done@;
        let ghost todo0 = self.phase->Attach_todo@;
        let ProofChainDownload { side, phase } = self;
        let (mut done, todo) = match phase {
            ChainPhase::Attach { done, todo } => (done, todo),
            _ => {
                proof {
                    assert(false);
                }
                return Err(ProofError::SerdeError);
            },
        };
        let blocks = preprocess_query_result(rows)?;
        if blocks.len() > todo.len() {
            return Err(ProofError::ChainGapOrFork);
        }
        let ghost page = blocks@;
        let (mut attached, mut rest) = Self::attach_file_hashes_page(todo, &blocks)?;
        let ghost records = done0 + attached_rows(todo0, page);
        done.append(&mut attached);
        done.append(&mut rest);
        proof {
            assert(forall|j: int|
                0 <= j < todo0.len() ==> (#[trigger] attached_rows(todo0, page)[j]).1.id == todo0[
                    j
                ].1.id && attached_rows(todo0, page)[j].0 == todo0[j].0);
            assert(done@ =~= records);
        }
        let mut proofs: Vec<BlockProof> = Vec::new();
        let mut k: usize = 0;
        let n2 = done.len();
        while k < n2
            invariant
                k <= n2,
                n2 == records.len(),
                done@ == records.skip(k as int),
                done0 == self.phase->Attach_done@,
                todo0 == self.phase->Attach_todo@,
                page == preprocess_spec(rows@),
                forall|i: int| 0 <= i < rows@.len() ==> row_parses(#[trigger] rows@[i]),
                page.len() <= todo0.len(),
                forall|i: int|
                    0 <= i < page.len() ==> (#[trigger] todo0[i]).0 < u32::MAX && page[i].0
                        == todo0[i].0 + 1,
                records == done0 + attached_rows(todo0, page),
                records.len() == done0.len() + todo0.len(),
                proofs@.len() == k,
                forall|j: int|
                    0 <= j < k ==> {
                        &&& records[j].1.id is Some
                        &&& (#[trigger] proofs@[j]).seq_no == records[j].0
                        &&& proofs@[j]@.root_hash == records[j].1.id->0@
                        &&& proofs@[j]@.file_hash == (match records[j].1.file_hash {
                            Some(h) => Some(h@),
                            None => None::<Seq<char>>,
                        })
                    },
            decreases n2 - k,
        {
            proof {
                assert(done@[0] == records[k as int]);
            }
            let (seq_no, row) = done.remove(0);
            proof {
                assert(done@ =~= records.skip(k + 1));
            }
            let p = match BlockProof::from_row(seq_no, row) {
                Ok(p) => p,
                Err(e) => {
                    proof {
                        let kk = k as int;
                        assert(records[kk].1.id is None);
                        if kk < done0.len() {
                            assert(done0[kk].1.id is None);
                        } else {
                            assert(records[kk].1.id == todo0[kk - done0.len()].1.id);
                            assert(todo0[kk - done0.len()].1.id is None);
                        }
                    }
                    return Err(e);
                },
            };
            proofs.push(p);
            k = k + 1;
        }
        proof {
            assert forall|j: int| 0 <= j < done0.len() implies (#[trigger] done0[j]).1.id
                is Some by {
                assert(proofs@[j].seq_no == records[j].0);
                assert(records[j].1.id == done0[j].1.id);
            }
            assert forall|j: int| 0 <= j < todo0.len() implies (#[trigger] todo0[j]).1.id
                is Some by {
                assert(proofs@[done0.len() + j].seq_no == records[done0.len() + j].0);
                assert(records[done0.len() + j].1.id == todo0[j].1.id);
            }
        }
        Ok(ProofChainDownload { side, phase: ChainPhase::Verify { proofs, idx: 0 } })
    }

    /// The proof waiting to be checked by the outside verifier.
    pub fn verify_action(&self) -> (r: &BlockProof)
        requires
            self.wf(),
            self.phase is Verify,
            self.phase->Verify_idx < self.phase->Verify_proofs@.len(),
        ensures
            *r == self.phase->Verify_proofs@[self.phase->Verify_idx as int],
    {
        match &self.phase {
            ChainPhase::Verify { proofs, idx } => &proofs[*idx],
            _ => vstd::pervasive::unreached(),
        }
    }

    /// Consumes the verifier's verdict on the current proof.  A rejected
    /// proof is fatal.  An accepted one is persisted under its seq_no and
    /// the session's boundary is bumped to it, in that order, so a crash
    /// between the two writes at worst re-verifies a prefix.
    pub fn on_proof_checked(
        &mut self,
        engine: &mut ProofHelperEngineImpl,
        verified: bool,
    ) -> (r: Result<(), ProofError>)
        requires
            old(self).wf(),
            old(self).phase is Verify,
            old(self).phase->Verify_idx < old(self).phase->Verify_proofs@.len(),
            old(self).verified_stored(old(engine)),
        ensures
            final(self).side == old(self).side,
            final(engine).context == old(engine).context,
            !verified ==> (r matches Err(e) && e == ProofError::ProofVerificationFailed && *final(engine) == *old(engine) && *final(self) == *old(self)),
            verified ==> (r is Ok && final(self).wf() && final(self).phase is Verify && final(self).phase->Verify_proofs@ == old(self).phase->Verify_proofs@ && final(self).phase->Verify_idx == old(self).phase->Verify_idx + 1),
            verified ==> final(self).verified_stored(final(engine)),
            verified ==> cached_mc_proof(
                final(engine).storage@,
                old(self).phase->Verify_proofs@[old(self).phase->Verify_idx as int].seq_no,
            ) == Some(old(self).phase->Verify_proofs@[old(self).phase->Verify_idx as int]@),
            verified ==> zs_right_bound_of(final(engine).storage@) >= zs_right_bound_of(
                old(engine).storage@,
            ),
            (verified && old(self).side is Trusted && old(self).phase->Verify_proofs@[old(self).phase->Verify_idx as int].seq_no >= old(self).side->Trusted_0) ==> (trusted_right_bound_of(
                final(engine).storage@,
                old(self).side->Trusted_0,
            ) >= trusted_right_bound_of(old(engine).storage@, old(self).side->Trusted_0)
                && trusted_right_bound_of(final(engine).storage@, old(self).side->Trusted_0)
                >= old(self).phase->Verify_proofs@[old(self).phase->Verify_idx as int].seq_no),
            (verified && old(self).side is Zerostate) ==> zs_right_bound_of(final(engine).storage@)
                >= old(self).phase->Verify_proofs@[old(self).phase->Verify_idx as int].seq_no,
    {
        if !verified {
            return Err(ProofError::ProofVerificationFailed);
        }
        let (proofs, idx) = match &mut self.phase {
            ChainPhase::Verify { proofs, idx } => (proofs, idx),
            _ => {
                proof {
                    assert(false);
                }
                return Err(ProofError::ProofVerificationFailed);
            },
        };
        let p = proofs[*idx].duplicate();
        let seq_no = p.seq_no;
        engine.write_mc_proof(seq_no, p);
        engine.bump(self.side, seq_no);
        let new_idx = *idx + 1;
        *idx = new_idx;
        Ok(())
    }

    /// Range reconstruction: when the verification phase has worked through
    /// its whole list, every proof the chain download collected is cached in
    /// the store under its seq_no, so the downloaded range is covered by
    /// `proof_mc` entries.
    pub proof fn lemma_completion_covers_range(&self, eng: &ProofHelperEngineImpl)
        requires
            self.phase is Verify,
            self.phase->Verify_idx == self.phase->Verify_proofs@.len(),
            self.verified_stored(eng),
        ensures
            forall|j: int|
                0 <= j < self.phase->Verify_proofs@.len() ==> cached_mc_proof(
                    eng.storage@,
                    (#[trigger] self.phase->Verify_proofs@[j]).seq_no,
                ) is Some,
    {
    }

    /// Ends a finished verification phase, handing out the last verified
    /// proof; a chain that verified nothing is an error the caller may
    /// retry.
    pub fn finish(self) -> (r: Result<BlockProof, ProofError>)
        requires
            self.wf(),
            self.phase is Verify,
            self.phase->Verify_idx == self.phase->Verify_proofs@.len(),
        ensures
            self.phase->Verify_proofs@.len() == 0 ==> (r matches Err(e) && e
                == ProofError::EmptyProofChain),
            self.phase->Verify_proofs@.len() > 0 ==> (r matches Ok(p) && p@
                == self.phase->Verify_proofs@.last()@),
    {
        let proofs = match self.phase {
            ChainPhase::Verify { proofs, idx: _ } => proofs,
            _ => {
                proof {
                    assert(false);
                }
                return Err(ProofError::EmptyProofChain);
            },
        };
        if proofs.len() == 0 {
            return Err(ProofError::EmptyProofChain);
        }
        Ok(proofs[proofs.len() - 1].duplicate())
    }
}

/// Fetching one masterchain block proof: the proof row itself, then its
/// file hash, which lives in the next block's prev-reference or, failing
/// that, is computed from the block's own BoC (cached or downloaded).
#[derive(Debug)]
pub enum McProofFetch {
    /// Waiting for the proof-fields rows of the requested seq_no.
    AwaitProofRows { mc_seq_no: u32 },
    /// Waiting for the prev-reference of the block one above the row.
    AwaitNextBlockRows { row_seq_no: u32, row: QueryRow },
    /// The next block was missing and no BoC is cached: waiting for the
    /// block's own BoC rows.
    AwaitBocRows { row_seq_no: u32, row: QueryRow },
    /// Waiting for the embedding to compute the file hash of the BoC.
    AwaitFileHash { row_seq_no: u32, row: QueryRow, boc: Vec<u8> },
    /// The proof record is complete.
    Done { proof: BlockProof },
}

impl McProofFetch {
    /// Starts fetching the proof of one masterchain seq_no.
    pub fn start(mc_seq_no: u32) -> (r: McProofFetch)
        ensures
            r == (McProofFetch::AwaitProofRows { mc_seq_no }),
    {
        McProofFetch::AwaitProofRows { mc_seq_no }
    }

    /// The query to run for the current state, or nothing when the proof is
    /// complete or the file hash must be computed by the embedding.
    pub fn pending_query(&self) -> (r: Option<ParamsOfQueryCollection>)
        ensures
            self is AwaitProofRows ==> (r matches Some(q) && q.filter == Some(
                QueryFilter::McBlockSeqNo(self->AwaitProofRows_mc_seq_no),
            ) && q.result == ResultProjection::ProofFields),
            (self is AwaitNextBlockRows && self->AwaitNextBlockRows_row_seq_no < u32::MAX) ==> (
            r matches Some(q) && q.filter == Some(
                QueryFilter::McBlockSeqNo((self->AwaitNextBlockRows_row_seq_no + 1) as u32),
            ) && q.result == ResultProjection::SeqNoGenUtimePrevRefFileHash),
            self is AwaitBocRows ==> (r matches Some(q) && q.filter == Some(
                QueryFilter::McBlockSeqNo(self->AwaitBocRows_row_seq_no),
            ) && q.result == ResultProjection::SeqNoGenUtimeBoc),
            (self is AwaitFileHash || self is Done) ==> r is None,
    {
        match self {
            McProofFetch::AwaitProofRows { mc_seq_no } => Some(
                ProofHelperEngineImpl::mc_block_query(*mc_seq_no, ResultProjection::ProofFields),
            ),
            McProofFetch::AwaitNextBlockRows { row_seq_no, row: _ } => {
                if *row_seq_no < u32::MAX {
                    Some(
                        ProofHelperEngineImpl::mc_block_query(
                            *row_seq_no + 1,
                            ResultProjection::SeqNoGenUtimePrevRefFileHash,
                        ),
                    )
                } else {
                    None
                }
            },
            McProofFetch::AwaitBocRows { row_seq_no, row: _ } => Some(
                ProofHelperEngineImpl::mc_block_query(
                    *row_seq_no,
                    ResultProjection::SeqNoGenUtimeBoc,
                ),
            ),
            _ => None,
        }
    }

    /// Consumes the proof-fields rows: the first deduplicated row is the
    /// proof; no rows means the server has no such block.
    pub fn on_proof_rows(self, rows: Vec<QueryRow>) -> (r: Result<McProofFetch, ProofError>)
        requires
            self is AwaitProofRows,
        ensures
            r is Ok <==> ((forall|i: int|
                0 <= i < rows@.len() ==> row_parses(#[trigger] rows@[i])) && preprocess_spec(
                rows@,
            ).len() > 0),
            r matches Err(e) ==> (e == ProofError::QueryFailed || e == ProofError::SerdeError),
            rows@.len() == 0 ==> (r matches Err(e) && e == ProofError::QueryFailed),
            r matches Ok(s) ==> (s is AwaitNextBlockRows && s->AwaitNextBlockRows_row_seq_no
                == preprocess_spec(rows@)[0].0 && s->AwaitNextBlockRows_row
                == preprocess_spec(rows@)[0].1),
    {
        let mut page = preprocess_query_result(rows)?;
        if page.len() == 0 {
            return Err(ProofError::QueryFailed);
        }
        let (row_seq_no, row) = page.remove(0);
        Ok(McProofFetch::AwaitNextBlockRows { row_seq_no, row })
    }

    /// Consumes the next-block rows.  A row hands over its
    /// `prev_ref.file_hash` and completes the proof; an empty page falls
    /// back to the block's own BoC, from the engine's cache if it holds
    /// one.
    pub fn on_next_block_rows(self, engine: &ProofHelperEngineImpl, rows: Vec<QueryRow>) -> (r:
        Result<McProofFetch, ProofError>)
        requires
            self is AwaitNextBlockRows,
        ensures
            r is Ok <==> ((forall|i: int|
                0 <= i < rows@.len() ==> row_parses(#[trigger] rows@[i])) && (preprocess_spec(
                rows@,
            ).len() > 0 ==> preprocess_spec(rows@)[0].1.prev_ref_file_hash is Some
                && self->AwaitNextBlockRows_row.id is Some)),
            r matches Err(e) ==> e == ProofError::SerdeError,
            (r is Ok && preprocess_spec(rows@).len() > 0) ==> (r matches Ok(s) && s is Done),
            (r is Ok && preprocess_spec(rows@).len() == 0 && engine.storage@.contains_key(
                LogicalKey::McBlock(self->AwaitNextBlockRows_row_seq_no),
            ) && engine.storage@[LogicalKey::McBlock(self->AwaitNextBlockRows_row_seq_no)]
                is Bin) ==> (r matches Ok(s) && s is AwaitFileHash),
            (r is Ok && preprocess_spec(rows@).len() == 0 && !(engine.storage@.contains_key(
                LogicalKey::McBlock(self->AwaitNextBlockRows_row_seq_no),
            ) && engine.storage@[LogicalKey::McBlock(self->AwaitNextBlockRows_row_seq_no)]
                is Bin)) ==> (r matches Ok(s) && s is AwaitBocRows),
            r matches Ok(s) ==> ({
                &&& (s is Done || s is AwaitFileHash || s is AwaitBocRows)
                &&& (s is Done ==> {
                    &&& preprocess_spec(rows@).len() > 0
                    &&& s->Done_proof.seq_no == self->AwaitNextBlockRows_row_seq_no
                    &&& s->Done_proof@.root_hash == self->AwaitNextBlockRows_row.id->0@
                    &&& s->Done_proof@.file_hash == Some(
                        preprocess_spec(rows@)[0].1.prev_ref_file_hash->0@,
                    )
                })
                &&& (s is AwaitFileHash ==> engine.storage@.contains_key(
                    LogicalKey::McBlock(self->AwaitNextBlockRows_row_seq_no),
                ) && engine.storage@[LogicalKey::McBlock(self->AwaitNextBlockRows_row_seq_no)]
                    == StoredData::Bin(s->AwaitFileHash_boc@)
                    && s->AwaitFileHash_row_seq_no == self->AwaitNextBlockRows_row_seq_no
                    && s->AwaitFileHash_row == self->AwaitNextBlockRows_row)
                &&& (s is AwaitBocRows ==> s->AwaitBocRows_row_seq_no
                    == self->AwaitNextBlockRows_row_seq_no && s->AwaitBocRows_row
                    == self->AwaitNextBlockRows_row)
            }),
    {
        let (row_seq_no, mut row) = match self {
            McProofFetch::AwaitNextBlockRows { row_seq_no, row } => (row_seq_no, row),
            _ => {
                proof {
                    assert(false);
                }
                return Err(ProofError::SerdeError);
            },
        };
        let mut page = preprocess_query_result(rows)?;
        if page.len() > 0 {
            let (_, next_row) = page.remove(0);
            let file_hash = match next_row.prev_ref_file_hash {
                Some(h) => h,
                None => {
                    return Err(ProofError::SerdeError);
                },
            };
            row.file_hash = Some(file_hash);
            let proof = BlockProof::from_row(row_seq_no, row)?;
            return Ok(McProofFetch::Done { proof });
        }
        match engine.read_mc_block(row_seq_no) {
            Some(boc) => Ok(McProofFetch::AwaitFileHash { row_seq_no, row, boc }),
            None => Ok(McProofFetch::AwaitBocRows { row_seq_no, row }),
        }
    }

    /// Consumes the block's own BoC rows: the base64 `boc` column is
    /// decoded and handed to the embedding for hashing.
    pub fn on_boc_rows(self, rows: Vec<QueryRow>) -> (r: Result<McProofFetch, ProofError>)
        requires
            self is AwaitBocRows,
        ensures
            r is Ok <==> ((forall|i: int|
                0 <= i < rows@.len() ==> row_parses(#[trigger] rows@[i])) && preprocess_spec(
                rows@,
            ).len() > 0 && preprocess_spec(rows@)[0].1.boc is Some
                && crate::encoding::base64_decoding(preprocess_spec(rows@)[0].1.boc->0@) is Some),
            r matches Err(e) ==> (e == ProofError::QueryFailed || e == ProofError::SerdeError || e
                == ProofError::InvalidData),
            rows@.len() == 0 ==> (r matches Err(e) && e == ProofError::QueryFailed),
            r matches Ok(s) ==> (s is AwaitFileHash && s->AwaitFileHash_row_seq_no
                == self->AwaitBocRows_row_seq_no && s->AwaitFileHash_row
                == self->AwaitBocRows_row && crate::encoding::base64_decoding(
                preprocess_spec(rows@)[0].1.boc->0@,
            ) == Some(s->AwaitFileHash_boc@)),
    {
        let (row_seq_no, row) = match self {
            McProofFetch::AwaitBocRows { row_seq_no, row } => (row_seq_no, row),
            _ => {
                proof {
                    assert(false);
                }
                return Err(ProofError::SerdeError);
            },
        };
        let mut page = preprocess_query_result(rows)?;
        if page.len() == 0 {
            return Err(ProofError::QueryFailed);
        }
        let (_, boc_row) = page.remove(0);
        let boc_base64 = match boc_row.boc {
            Some(b) => b,
            None => {
                return Err(ProofError::SerdeError);
            },
        };
        let boc = match crate::encoding::base64_decode(boc_base64.as_str()) {
            Ok(b) => b,
            Err(_) => {
                return Err(ProofError::InvalidData);
            },
        };
        Ok(McProofFetch::AwaitFileHash { row_seq_no, row, boc })
    }

    /// The bytes whose file hash the embedding must compute.
    pub fn boc_to_hash(&self) -> (r: &Vec<u8>)
        requires
            self is AwaitFileHash,
        ensures
            r@ == self->AwaitFileHash_boc@,
    {
        match self {
            McProofFetch::AwaitFileHash { row_seq_no: _, row: _, boc } => boc,
            _ => vstd::pervasive::unreached(),
        }
    }

    /// Consumes the computed file hash and completes the proof.
    pub fn on_file_hash(self, file_hash: String) -> (r: Result<McProofFetch, ProofError>)
        requires
            self is AwaitFileHash,
        ensures
            r is Ok <==> self->AwaitFileHash_row.id is Some,
            r matches Err(e) ==> e == ProofError::SerdeError,
            r matches Ok(s) ==> (s is Done && s->Done_proof.seq_no == self->AwaitFileHash_row_seq_no
                && s->Done_proof@.root_hash == self->AwaitFileHash_row.id->0@
                && s->Done_proof@.file_hash == Some(file_hash@)),
    {
        let (row_seq_no, mut row) = match self {
            McProofFetch::AwaitFileHash { row_seq_no, row, boc: _ } => (row_seq_no, row),
            _ => {
                proof {
                    assert(false);
                }
                return Err(ProofError::SerdeError);
            },
        };
        row.file_hash = Some(file_hash);
        let proof = BlockProof::from_row(row_seq_no, row)?;
        Ok(McProofFetch::Done { proof })
    }

    /// Hands out the finished proof.
    pub fn take_proof(self) -> (r: BlockProof)
        requires
            self is Done,
        ensures
            r == self->Done_proof,
    {
        match self {
            McProofFetch::Done { proof } => proof,
            _ => vstd::pervasive::unreached(),
        }
    }
}

/// How a `load_key_block_proof` request proceeds after the cache check.
#[derive(Debug)]
pub enum KeyLoadStart {
    /// The proof was cached; no query is needed and nothing is written.
    Cached(BlockProof),
    /// The request names the trusted key block itself: fetch its proof,
    /// check it against the anchor, and hand it out.
    TrustedIsTarget,
    /// The trusted anchor's proof must be fetched and accepted first; then
    /// plan a chain download.
    NeedTrustedProof,
    /// The trusted anchor's proof is cached: plan a chain download.
    ReadyToPlan,
}

impl ProofHelperEngineImpl {
    /// Begins `load_key_block_proof` for a masterchain seq_no: serve the
    /// cached proof if one is stored (no query is issued and nothing is
    /// written), otherwise say what must be fetched first.
    pub fn load_key_block_proof_start(&self, mc_seq_no: u32) -> (r: Result<
        KeyLoadStart,
        ProofError,
    >)
        ensures
            cached_mc_proof(self.storage@, mc_seq_no) matches Some(pv) ==> (r matches Ok(s)
                && s matches KeyLoadStart::Cached(p) && p@ == pv),
            r matches Err(e) ==> e == ProofError::SerdeError,
            r is Err <==> (mc_proof_slot_corrupt(self.storage@, mc_seq_no) || (
            !self.storage@.contains_key(LogicalKey::McProof(mc_seq_no)) && mc_seq_no
                != self.context.trusted_block_id.seq_no && mc_proof_slot_corrupt(
                self.storage@,
                self.context.trusted_block_id.seq_no,
            ))),
            (cached_mc_proof(self.storage@, mc_seq_no) is None && !self.storage@.contains_key(
                LogicalKey::McProof(mc_seq_no),
            )) ==> (match r {
                Ok(KeyLoadStart::Cached(_)) => false,
                Ok(KeyLoadStart::TrustedIsTarget) => mc_seq_no
                    == self.context.trusted_block_id.seq_no,
                Ok(KeyLoadStart::NeedTrustedProof) => mc_seq_no
                    != self.context.trusted_block_id.seq_no && !self.storage@.contains_key(
                    LogicalKey::McProof(self.context.trusted_block_id.seq_no),
                ),
                Ok(KeyLoadStart::ReadyToPlan) => mc_seq_no != self.context.trusted_block_id.seq_no
                    && cached_mc_proof(
                    self.storage@,
                    self.context.trusted_block_id.seq_no,
                ) is Some,
                Err(e) => e == ProofError::SerdeError,
            }),
    {
        if let Some(proof) = self.read_mc_proof(mc_seq_no)? {
            return Ok(KeyLoadStart::Cached(proof));
        }
        if mc_seq_no == self.context.trusted_block_id.seq_no {
            return Ok(KeyLoadStart::TrustedIsTarget);
        }
        match self.read_mc_proof(self.context.trusted_block_id.seq_no)? {
            Some(_) => Ok(KeyLoadStart::ReadyToPlan),
            None => Ok(KeyLoadStart::NeedTrustedProof),
        }
    }

    /// Plans the chain download for a request that missed the cache: reads
    /// both persisted boundaries and picks the segment and side by the
    /// trust-extension rules.
    pub fn plan_chain(&self, mc_seq_no: u32) -> (r: Result<ProofChainDownload, ProofError>)
        requires
            mc_seq_no != self.context.trusted_block_id.seq_no,
            mc_seq_no < u32::MAX,
        ensures
            ({
                let p = chain_plan_spec(
                    mc_seq_no,
                    self.context.trusted_block_id.seq_no,
                    zs_right_bound_of(self.storage@),
                    trusted_right_bound_of(self.storage@, self.context.trusted_block_id.seq_no),
                );
                &&& (r is Ok <==> p.lo < p.hi)
                &&& (r matches Ok(s) ==> s.wf() && s.side == p.side && s.phase is Collect
                    && s.phase->Collect_next == p.lo && s.phase->Collect_end == p.hi
                    && s.phase->Collect_proofs@.len() == 0)
                &&& (r matches Err(e) ==> e == ProofError::EmptyRange)
            }),
    {
        let trusted_seq_no = self.context.trusted_block_id.seq_no;
        let zs_right = self.read_zs_right_bound();
        let trusted_right = self.read_trusted_block_right_bound(trusted_seq_no);
        let plan = Self::plan_key_block_download(mc_seq_no, trusted_seq_no, zs_right, trusted_right);
        ProofChainDownload::start(plan)
    }
}

} // verus!
