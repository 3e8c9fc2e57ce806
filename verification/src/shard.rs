//! Shard-block verification.
//!
//! Given a shard block, the engine locates the smallest masterchain block
//! committing to that shard at or beyond the block's seq_no, verifies the
//! masterchain block, and then walks the shard chain backward by
//! prev-reference until it reaches the queried block, comparing root hashes
//! at every link.

use vstd::prelude::*;
use crate::{BlockProof, ProofError};
use crate::engine::{McProofFetch, ProofHelperEngineImpl};
use crate::query::{
    preprocess_query_result, preprocess_spec, row_parses, ParamsOfQueryCollection, QueryFilter, QueryRow,
    ResultProjection, ShardHashItem, ShardIdent,
};
use crate::storage::{LogicalKey, StoredData};

verus! {

/// What the embedding reads out of one parsed shard block: its identity and
/// its back-pointer.
#[derive(Clone, Debug)]
pub struct ShardBlockInfo {
    pub seq_no: u32,
    /// The representation hash of the block's root cell, in hex.
    pub root_hash: String,
    pub prev_seq_no: u32,
    pub prev_root_hash: String,
}

/// Whether a shard-hashes entry names the given shard.
pub open spec fn entry_names_shard(item: ShardHashItem, shard: ShardIdent) -> bool {
    &&& item.workchain_id matches Some(w) && w == shard.workchain_id as i64
    &&& item.shard matches Some(s) && s@ == shard.shard_prefix_tagged@
}

/// Whether a matching entry carries the two descr fields the engine reads.
pub open spec fn entry_descr_parses(item: ShardHashItem) -> bool {
    item.descr.seq_no is Some && item.descr.root_hash is Some
}

/// Whether a shard-hashes table yields a top block for the shard: some entry
/// names it, and the first such entry carries its descr fields.
pub open spec fn top_shard_entry_found(entries: Seq<ShardHashItem>, shard: ShardIdent) -> bool {
    exists|i: int|
        {
            &&& 0 <= i < entries.len()
            &&& entry_names_shard(#[trigger] entries[i], shard)
            &&& entry_descr_parses(entries[i])
            &&& (forall|j: int| 0 <= j < i ==> !entry_names_shard(#[trigger] entries[j], shard))
        }
}

/// The first entry of a shard-hashes table naming the shard.  Meaningful
/// only where some entry names it; the first such entry is unique.
pub open spec fn first_named_entry(entries: Seq<ShardHashItem>, shard: ShardIdent) -> ShardHashItem {
    entries[choose|i: int|
        0 <= i < entries.len() && entry_names_shard(#[trigger] entries[i], shard) && (forall|
            j: int,
        | 0 <= j < i ==> !entry_names_shard(#[trigger] entries[j], shard))]
}

/// Whether every entry of a scan row that names the shard carries its descr
/// seq_no, so the scan can read it.
pub open spec fn row_scan_clean(row: QueryRow, shard: ShardIdent) -> bool {
    row.shard_hashes matches Some(items) && (forall|k: int|
        0 <= k < items@.len() ==> (entry_names_shard(#[trigger] items@[k], shard)
            ==> items@[k].descr.seq_no is Some))
}

/// Whether a scan row commits to the shard at or beyond the queried seq_no.
pub open spec fn row_commits_to_shard(row: QueryRow, shard: ShardIdent, block_seq_no: u32) -> bool {
    row.shard_hashes matches Some(items) && (exists|k: int|
        0 <= k < items@.len() && entry_names_shard(#[trigger] items@[k], shard)
            && items@[k].descr.seq_no is Some && items@[k].descr.seq_no->0 >= block_seq_no as u64)
}

/// The queried shard block is linked to the committed top block when
/// following every prev-reference from the top downward reproduces exactly
/// the seq_nos and root hashes of the fetched chain and ends at the queried
/// block itself.
pub open spec fn chain_links_ok(
    queried_seq_no: u32,
    queried_root_hash: Seq<char>,
    top_seq_no: u32,
    top_root_hash: Seq<char>,
    chain: Seq<ShardBlockInfo>,
) -> bool
    decreases chain.len(),
{
    if chain.len() == 0 {
        queried_seq_no == top_seq_no && queried_root_hash == top_root_hash
    } else {
        let last = chain.last();
        &&& last.seq_no == top_seq_no
        &&& last.root_hash@ == top_root_hash
        &&& chain_links_ok(
            queried_seq_no,
            queried_root_hash,
            last.prev_seq_no,
            last.prev_root_hash@,
            chain.drop_last(),
        )
    }
}

impl ProofHelperEngineImpl {
    /// Finds, in a masterchain block's shard-hashes table, the entry for the
    /// given shard: the first entry naming the shard wins, a matching entry
    /// without its descr fields is malformed, and a table without the shard
    /// fails the verification.
    pub fn extract_top_shard_block(entries: &Vec<ShardHashItem>, shard: &ShardIdent) -> (r: Result<
        (u32, String),
        ProofError,
    >)
        ensures
            r is Ok <==> top_shard_entry_found(entries@, *shard),
            r matches Ok(p) ==> (exists|i: int|
                {
                    &&& 0 <= i < entries@.len()
                    &&& entry_names_shard(#[trigger] entries@[i], *shard)
                    &&& entry_descr_parses(entries@[i])
                    &&& p.0 == entries@[i].descr.seq_no->0 as u32
                    &&& p.1@ == entries@[i].descr.root_hash->0@
                    &&& forall|j: int| 0 <= j < i ==> !entry_names_shard(#[trigger] entries@[j], *shard)
                }),
            (forall|i: int|
                0 <= i < entries@.len() ==> !entry_names_shard(#[trigger] entries@[i], *shard))
                ==> (r matches Err(e) && e == ProofError::InvalidData),
            r matches Err(e) ==> (e == ProofError::InvalidData || e == ProofError::SerdeError),
    {
        let n = entries.len();
        let mut i: usize = 0;
        while i < n
            invariant
                i <= n,
                n == entries@.len(),
                forall|j: int| 0 <= j < i ==> !entry_names_shard(#[trigger] entries@[j], *shard),
            decreases n - i,
        {
            let item = &entries[i];
            let wc_matches = match item.workchain_id {
                Some(w) => w == shard.workchain_id as i64,
                None => false,
            };
            let shard_matches = match &item.shard {
                Some(s) => *s == shard.shard_prefix_tagged,
                None => false,
            };
            if wc_matches && shard_matches {
                if item.descr.seq_no.is_none() || item.descr.root_hash.is_none() {
                    proof {
                        assert(!entry_descr_parses(entries@[i as int]));
                        assert(!top_shard_entry_found(entries@, *shard)) by {
                            if top_shard_entry_found(entries@, *shard) {
                                let w = choose|w: int|
                                    {
                                        &&& 0 <= w < entries@.len()
                                        &&& entry_names_shard(#[trigger] entries@[w], *shard)
                                        &&& entry_descr_parses(entries@[w])
                                        &&& (forall|j: int|
                                            0 <= j < w ==> !entry_names_shard(
                                                #[trigger] entries@[j],
                                                *shard,
                                            ))
                                    };
                                assert(!(w < i as int));
                                assert(!((i as int) < w));
                                assert(w == i as int);
                            }
                        }
                    }
                    return Err(ProofError::SerdeError);
                }
                let seq = match item.descr.seq_no {
                    Some(v) => #[verifier::truncate] (v as u32),
                    None => vstd::pervasive::unreached(),
                };
                let hash = match &item.descr.root_hash {
                    Some(h) => h.clone(),
                    None => vstd::pervasive::unreached(),
                };
                return Ok((seq, hash));
            }
            i = i + 1;
        }
        proof {
            assert(!top_shard_entry_found(entries@, *shard)) by {
                if top_shard_entry_found(entries@, *shard) {
                    let w = choose|w: int|
                        {
                            &&& 0 <= w < entries@.len()
                            &&& entry_names_shard(#[trigger] entries@[w], *shard)
                            &&& entry_descr_parses(entries@[w])
                            &&& (forall|j: int|
                                0 <= j < w ==> !entry_names_shard(#[trigger] entries@[j], *shard))
                        };
                }
            }
        }
        Err(ProofError::InvalidData)
    }

    /// The query scanning masterchain blocks from `first_mc_seq_no` upward
    /// for one whose shard-hashes commit to the shard at or beyond the
    /// block's seq_no.
    pub fn closest_mc_block_query(first_mc_seq_no: u32) -> (r: ParamsOfQueryCollection)
        ensures
            r.result == ResultProjection::McShardHashes,
            r.filter == Some(QueryFilter::McBlocksFrom(first_mc_seq_no)),
    {
        ParamsOfQueryCollection {
            collection: crate::query::Collection::Blocks,
            result: ResultProjection::McShardHashes,
            filter: Some(QueryFilter::McBlocksFrom(first_mc_seq_no)),
            order: Some(Self::sorting_by_seq_no()),
            limit: None,
        }
    }

    /// The query fetching the shard blocks with seq_no in `[lo, hi)` of one
    /// shard.
    pub fn shard_blocks_query(shard: &ShardIdent, lo: u32, hi: u32) -> (r: ParamsOfQueryCollection)
        requires
            lo <= hi,
        ensures
            r.result == ResultProjection::ShardBlockFields,
            r.filter matches Some(f) && f matches QueryFilter::ShardBlocksSeqNoIn(s, v)
                && s.workchain_id == shard.workchain_id && s.shard_prefix_tagged@
                == shard.shard_prefix_tagged@ && v@.len() == hi - lo && (forall|i: int|
                0 <= i < v@.len() ==> v@[i] == lo + i),
    {
        let mut seq_nos: Vec<u32> = Vec::new();
        let mut s = lo;
        while s < hi
            invariant
                lo <= s <= hi,
                seq_nos@.len() == s - lo,
                forall|i: int| 0 <= i < seq_nos@.len() ==> seq_nos@[i] == lo + i,
            decreases hi - s,
        {
            seq_nos.push(s);
            s = s + 1;
        }
        ParamsOfQueryCollection {
            collection: crate::query::Collection::Blocks,
            result: ResultProjection::ShardBlockFields,
            filter: Some(QueryFilter::ShardBlocksSeqNoIn(shard.duplicate(), seq_nos)),
            order: Some(Self::sorting_by_seq_no()),
            limit: None,
        }
    }

    /// Validates the shard-block rows for the range `[lo, hi)` and decodes
    /// their BoCs: the indexer must return exactly one row per seq_no of
    /// the range, in ascending order; anything else is a chain gap or fork.
    pub fn shard_block_bocs_from_rows(lo: u32, hi: u32, rows: Vec<QueryRow>) -> (r: Result<
        Vec<Vec<u8>>,
        ProofError,
    >)
        requires
            lo <= hi,
        ensures
            r is Ok <==> ({
                &&& (forall|i: int| 0 <= i < rows@.len() ==> row_parses(#[trigger] rows@[i]))
                &&& preprocess_spec(rows@).len() > 0
                &&& preprocess_spec(rows@).len() == hi - lo
                &&& (forall|i: int|
                    0 <= i < preprocess_spec(rows@).len() ==> (#[trigger] preprocess_spec(
                        rows@,
                    )[i]).0 == lo + i)
                &&& (forall|i: int|
                    0 <= i < preprocess_spec(rows@).len() ==> (#[trigger] preprocess_spec(
                        rows@,
                    )[i]).1.boc is Some && crate::encoding::base64_decoding(
                        preprocess_spec(rows@)[i].1.boc->0@,
                    ) is Some)
            }),
            r matches Ok(v) ==> ({
                &&& preprocess_spec(rows@).len() == hi - lo
                &&& v@.len() == hi - lo
                &&& forall|i: int|
                    0 <= i < v@.len() ==> (#[trigger] preprocess_spec(rows@)[i]).0 == lo + i
                        && preprocess_spec(rows@)[i].1.boc is Some
                        && crate::encoding::base64_decoding(preprocess_spec(rows@)[i].1.boc->0@)
                        == Some(v@[i]@)
            }),
            r matches Err(e) ==> (e == ProofError::QueryFailed || e == ProofError::SerdeError || e
                == ProofError::ChainGapOrFork || e == ProofError::InvalidData),
    {
        let blocks = preprocess_query_result(rows)?;
        if blocks.len() == 0 {
            return Err(ProofError::QueryFailed);
        }
        let expected = (hi - lo) as usize;
        if blocks.len() != expected {
            return Err(ProofError::ChainGapOrFork);
        }
        let mut result: Vec<Vec<u8>> = Vec::new();
        let n = blocks.len();
        let mut i: usize = 0;
        while i < n
            invariant
                i <= n,
                n == blocks@.len(),
                n == hi - lo,
                blocks@ == preprocess_spec(rows@),
                result@.len() == i,
                forall|j: int|
                    0 <= j < i ==> (#[trigger] blocks@[j]).0 == lo + j && blocks@[j].1.boc is Some
                        && crate::encoding::base64_decoding(blocks@[j].1.boc->0@) == Some(
                        result@[j]@,
                    ),
            decreases n - i,
        {
            let (seq_no, block) = &blocks[i];
            let expected_seq_no = lo + (i as u32);
            if *seq_no != expected_seq_no {
                proof {
                    assert(preprocess_spec(rows@)[i as int].0 != lo + i as int);
                }
                return Err(ProofError::ChainGapOrFork);
            }
            let boc_base64 = match &block.boc {
                Some(b) => b,
                None => {
                    proof {
                        assert((preprocess_spec(rows@)[i as int]).1.boc is None);
                    }
                    return Err(ProofError::SerdeError);
                },
            };
            let boc = match crate::encoding::base64_decode(boc_base64.as_str()) {
                Ok(b) => b,
                Err(_) => {
                    proof {
                        assert(crate::encoding::base64_decoding(
                            preprocess_spec(rows@)[i as int].1.boc->0@,
                        ) is None);
                    }
                    return Err(ProofError::InvalidData);
                },
            };
            result.push(boc);
            i = i + 1;
        }
        Ok(result)
    }

    /// Extracts the BoC of one masterchain block from its query rows: the
    /// first fork-deduplicated row's base64 `boc` column, decoded.  No rows
    /// means the server had no such block; a row without the column is
    /// malformed; an undecodable column is invalid.
    pub fn mc_boc_from_rows(rows: Vec<QueryRow>) -> (r: Result<Vec<u8>, ProofError>)
        ensures
            r is Ok <==> ({
                &&& (forall|i: int| 0 <= i < rows@.len() ==> row_parses(#[trigger] rows@[i]))
                &&& preprocess_spec(rows@).len() > 0
                &&& preprocess_spec(rows@)[0].1.boc is Some
                &&& crate::encoding::base64_decoding(preprocess_spec(rows@)[0].1.boc->0@) is Some
            }),
            r matches Ok(v) ==> ({
                &&& preprocess_spec(rows@).len() > 0
                &&& preprocess_spec(rows@)[0].1.boc is Some
                &&& crate::encoding::base64_decoding(preprocess_spec(rows@)[0].1.boc->0@) == Some(
                    v@,
                )
            }),
            !(forall|i: int| 0 <= i < rows@.len() ==> row_parses(#[trigger] rows@[i])) ==> (
            r matches Err(e) && e == ProofError::SerdeError),
            ((forall|i: int| 0 <= i < rows@.len() ==> row_parses(#[trigger] rows@[i]))
                && preprocess_spec(rows@).len() == 0) ==> (r matches Err(e) && e
                == ProofError::QueryFailed),
            ((forall|i: int| 0 <= i < rows@.len() ==> row_parses(#[trigger] rows@[i]))
                && preprocess_spec(rows@).len() > 0 && preprocess_spec(rows@)[0].1.boc is None)
                ==> (r matches Err(e) && e == ProofError::SerdeError),
            ((forall|i: int| 0 <= i < rows@.len() ==> row_parses(#[trigger] rows@[i]))
                && preprocess_spec(rows@).len() > 0 && preprocess_spec(rows@)[0].1.boc is Some
                && crate::encoding::base64_decoding(preprocess_spec(rows@)[0].1.boc->0@) is None)
                ==> (r matches Err(e) && e == ProofError::InvalidData),
    {
        let mut blocks = preprocess_query_result(rows)?;
        if blocks.len() == 0 {
            return Err(ProofError::QueryFailed);
        }
        let (_, block) = blocks.remove(0);
        let boc_base64 = match block.boc {
            Some(b) => b,
            None => {
                return Err(ProofError::SerdeError);
            },
        };
        match crate::encoding::base64_decode(boc_base64.as_str()) {
            Ok(b) => Ok(b),
            Err(_) => Err(ProofError::InvalidData),
        }
    }

    /// Walks the fetched shard chain in reverse seq_no order, carrying the
    /// running prev-reference from the committed top block down to the
    /// queried block.  Succeeds exactly when every link matches by seq_no
    /// and root hash.
    pub fn verify_shard_chain_links(
        queried_seq_no: u32,
        queried_root_hash: &String,
        top_seq_no: u32,
        top_root_hash: String,
        chain: &Vec<ShardBlockInfo>,
    ) -> (r: Result<(), ProofError>)
        ensures
            r is Ok <==> chain_links_ok(
                queried_seq_no,
                queried_root_hash@,
                top_seq_no,
                top_root_hash@,
                chain@,
            ),
            r matches Err(e) ==> e == ProofError::ShardRootHashMismatch,
    {
        let mut i = chain.len();
        let mut cur_seq = top_seq_no;
        let mut cur_hash = top_root_hash;
        proof {
            assert(chain@.take(chain@.len() as int) =~= chain@);
        }
        while i > 0
            invariant
                i <= chain@.len(),
                chain_links_ok(
                    queried_seq_no,
                    queried_root_hash@,
                    top_seq_no,
                    top_root_hash@,
                    chain@,
                ) <==> chain_links_ok(
                    queried_seq_no,
                    queried_root_hash@,
                    cur_seq,
                    cur_hash@,
                    chain@.take(i as int),
                ),
            decreases i,
        {
            i = i - 1;
            let b = &chain[i];
            proof {
                assert(chain@.take(i + 1).last() == chain@[i as int]);
                assert(chain@.take(i + 1).drop_last() =~= chain@.take(i as int));
            }
            if b.seq_no != cur_seq {
                return Err(ProofError::ShardRootHashMismatch);
            }
            if !(b.root_hash == cur_hash) {
                return Err(ProofError::ShardRootHashMismatch);
            }
            cur_seq = b.prev_seq_no;
            cur_hash = b.prev_root_hash.clone();
        }
        proof {
            assert(chain@.take(0) =~= Seq::<ShardBlockInfo>::empty());
        }
        if queried_seq_no == cur_seq {
            if *queried_root_hash == cur_hash {
                Ok(())
            } else {
                Err(ProofError::ShardRootHashMismatch)
            }
        } else {
            Err(ProofError::ShardRootHashMismatch)
        }
    }
}

/// Where a shard-block verification stands.
#[derive(Debug)]
pub enum ShardCheckState {
    /// Scanning masterchain blocks from `first_mc_seq_no` upward for one
    /// committing to the shard at or beyond the block's seq_no.
    FindMc { first_mc_seq_no: u32 },
    /// An anchor was named: its proof must be fetched.
    FetchAnchorProof { mc_seq_no: u32 },
    /// Waiting for the outside verifier's verdict on the anchor's proof.
    CheckAnchorProof { proof: BlockProof },
    /// Waiting for the anchor block's BoC (cached or downloaded).
    AwaitAnchorBoc { proof: BlockProof },
    /// Waiting for the embedding to hash the anchor's BoC.
    AwaitAnchorHash { proof: BlockProof, boc: Vec<u8> },
    /// Waiting for the shard-hashes table parsed out of the anchor block.
    AwaitShardHashes { mc_seq_no: u32 },
    /// Waiting for the shard blocks between the queried block and the
    /// committed top block.
    AwaitShardBlocks { top_seq_no: u32, top_root_hash: String },
    /// Waiting for the parsed shard chain to walk.
    AwaitParsedChain { top_seq_no: u32, top_root_hash: String },
    /// The queried block is proven reachable from a verified masterchain
    /// block.
    Accepted,
}

/// A shard-block verification in progress: the queried block's identity and
/// the current step.
#[derive(Debug)]
pub struct ShardBlockCheck {
    pub block_seq_no: u32,
    pub block_root_hash: String,
    pub shard: ShardIdent,
    pub state: ShardCheckState,
}

impl ShardBlockCheck {
    /// Internal consistency: a committed top block waiting to be chained to
    /// lies strictly above the queried block.
    pub open spec fn wf(&self) -> bool {
        match self.state {
            ShardCheckState::AwaitShardBlocks { top_seq_no, .. } => self.block_seq_no < top_seq_no
                && top_seq_no < u32::MAX,
            ShardCheckState::AwaitParsedChain { top_seq_no, .. } => self.block_seq_no < top_seq_no
                && top_seq_no < u32::MAX,
            _ => true,
        }
    }

    /// The identity the session was started with is never changed by a step.
    pub open spec fn same_subject(&self, other: &ShardBlockCheck) -> bool {
        &&& self.block_seq_no == other.block_seq_no
        &&& self.block_root_hash@ == other.block_root_hash@
        &&& self.shard.workchain_id == other.shard.workchain_id
        &&& self.shard.shard_prefix_tagged@ == other.shard.shard_prefix_tagged@
    }

    /// Starts verifying a shard block from what the embedding parsed out of
    /// its BoC: seq_no, representation hash, shard, and the master
    /// reference to start the anchor scan from.
    pub fn start(
        block_seq_no: u32,
        block_root_hash: String,
        shard: ShardIdent,
        master_ref_seq_no: u32,
    ) -> (r: ShardBlockCheck)
        ensures
            r.wf(),
            r.block_seq_no == block_seq_no,
            r.block_root_hash@ == block_root_hash@,
            r.shard.workchain_id == shard.workchain_id,
            r.shard.shard_prefix_tagged@ == shard.shard_prefix_tagged@,
            r.state == (ShardCheckState::FindMc { first_mc_seq_no: master_ref_seq_no }),
    {
        ShardBlockCheck {
            block_seq_no,
            block_root_hash,
            shard,
            state: ShardCheckState::FindMc { first_mc_seq_no: master_ref_seq_no },
        }
    }

    /// Consumes one page of the anchor scan.  The first row whose
    /// shard-hashes commit to the shard at or beyond the queried seq_no
    /// names the anchor.  An empty page means no masterchain block commits
    /// yet: the returned flag tells the driver to wait and retry.  A page
    /// without a match advances the scan window.
    pub fn on_find_mc_rows(self, rows: Vec<QueryRow>) -> (r: Result<
        (ShardBlockCheck, bool),
        ProofError,
    >)
        requires
            self.wf(),
            self.state is FindMc,
        ensures
            r matches Ok(p) ==> (p.0.wf() && self.same_subject(&p.0) && (p.0.state is FindMc
                || p.0.state is FetchAnchorProof)),
            r matches Ok(p) ==> (p.1 <==> preprocess_spec(rows@).len() == 0),
            r matches Ok(p) ==> (p.1 ==> p.0.state == self.state),
            ({
                let page = preprocess_spec(rows@);
                ((forall|i: int| 0 <= i < rows@.len() ==> row_parses(#[trigger] rows@[i])) && (
                forall|i: int|
                    0 <= i < page.len() ==> row_scan_clean((#[trigger] page[i]).1, self.shard)) && (
                page.len() == 0 || page.last().0 < u32::MAX)) ==> r is Ok
            }),
            r matches Ok(p) ==> (p.0.state is FetchAnchorProof ==> exists|i: int, k: int|
                {
                    &&& 0 <= i < preprocess_spec(rows@).len()
                    &&& (#[trigger] preprocess_spec(rows@)[i]).1.shard_hashes is Some
                    &&& 0 <= k < preprocess_spec(rows@)[i].1.shard_hashes->0@.len()
                    &&& entry_names_shard(
                        #[trigger] preprocess_spec(rows@)[i].1.shard_hashes->0@[k],
                        self.shard,
                    )
                    &&& preprocess_spec(rows@)[i].1.shard_hashes->0@[k].descr.seq_no->0
                        >= self.block_seq_no as u64
                    &&& p.0.state->FetchAnchorProof_mc_seq_no == preprocess_spec(rows@)[i].0
                    &&& (forall|i2: int|
                        0 <= i2 < i ==> !row_commits_to_shard(
                            (#[trigger] preprocess_spec(rows@)[i2]).1,
                            self.shard,
                            self.block_seq_no,
                        ))
                }),
            r matches Ok(p) ==> ((p.0.state is FindMc && !p.1) ==> ({
                let page = preprocess_spec(rows@);
                &&& (forall|i: int|
                    0 <= i < page.len() ==> !row_commits_to_shard(
                        (#[trigger] page[i]).1,
                        self.shard,
                        self.block_seq_no,
                    ))
                &&& p.0.state->FindMc_first_mc_seq_no == page.last().0 + 1
            })),
            r matches Err(e) ==> (e == ProofError::SerdeError || e == ProofError::InvalidData),
    {
        let ShardBlockCheck { block_seq_no, block_root_hash, shard, state } = self;
        let first_mc_seq_no = match state {
            ShardCheckState::FindMc { first_mc_seq_no } => first_mc_seq_no,
            _ => {
                proof {
                    assert(false);
                }
                return Err(ProofError::SerdeError);
            },
        };
        let blocks = preprocess_query_result(rows)?;
        if blocks.len() == 0 {
            return Ok((
                ShardBlockCheck {
                    block_seq_no,
                    block_root_hash,
                    shard,
                    state: ShardCheckState::FindMc { first_mc_seq_no },
                },
                true,
            ));
        }
        let n = blocks.len();
        let mut i: usize = 0;
        while i < n
            invariant
                i <= n,
                n == blocks@.len(),
                n > 0,
                blocks@ == preprocess_spec(rows@),
                forall|i2: int| 0 <= i2 < rows@.len() ==> row_parses(#[trigger] rows@[i2]),
                block_seq_no == self.block_seq_no,
                block_root_hash@ == self.block_root_hash@,
                shard.workchain_id == self.shard.workchain_id,
                shard.shard_prefix_tagged@ == self.shard.shard_prefix_tagged@,
                forall|j: int|
                    0 <= j < i ==> !row_commits_to_shard(
                        (#[trigger] blocks@[j]).1,
                        self.shard,
                        self.block_seq_no,
                    ),
            decreases n - i,
        {
            let (seq_no, row) = &blocks[i];
            let items = match &row.shard_hashes {
                Some(items) => items,
                None => {
                    proof {
                        assert(!row_scan_clean(blocks@[i as int].1, self.shard));
                    }
                    return Err(ProofError::SerdeError);
                },
            };
            let m = items.len();
            let mut k: usize = 0;
            while k < m
                invariant
                    k <= m,
                    m == items@.len(),
                    i < n,
                    n == blocks@.len(),
                    blocks@ == preprocess_spec(rows@),
                    blocks@[i as int].1.shard_hashes matches Some(v) && v@ == items@,
                    *seq_no == blocks@[i as int].0,
                    block_seq_no == self.block_seq_no,
                    block_root_hash@ == self.block_root_hash@,
                    shard.workchain_id == self.shard.workchain_id,
                    shard.shard_prefix_tagged@ == self.shard.shard_prefix_tagged@,
                    forall|j: int|
                        0 <= j < i ==> !row_commits_to_shard(
                            (#[trigger] blocks@[j]).1,
                            self.shard,
                            self.block_seq_no,
                        ),
                    forall|k2: int|
                        0 <= k2 < k ==> !(entry_names_shard(#[trigger] items@[k2], self.shard)
                            && items@[k2].descr.seq_no is Some && items@[k2].descr.seq_no->0
                            >= self.block_seq_no as u64),
                decreases m - k,
            {
                let item = &items[k];
                let wc_matches = match item.workchain_id {
                    Some(w) => w == shard.workchain_id as i64,
                    None => false,
                };
                let shard_matches = match &item.shard {
                    Some(s) => *s == shard.shard_prefix_tagged,
                    None => false,
                };
                if wc_matches && shard_matches {
                    let descr_seq = match item.descr.seq_no {
                        Some(v) => v,
                        None => {
                            proof {
                                assert(entry_names_shard(items@[k as int], self.shard));
                                assert(!row_scan_clean(blocks@[i as int].1, self.shard));
                            }
                            return Err(ProofError::SerdeError);
                        },
                    };
                    if descr_seq >= block_seq_no as u64 {
                        proof {
                            let ii = i as int;
                            let kk = k as int;
                            assert(preprocess_spec(rows@)[ii].1.shard_hashes is Some);
                            assert(preprocess_spec(rows@)[ii].1.shard_hashes->0@[kk]
                                == items@[kk]);
                            assert(entry_names_shard(items@[kk], self.shard));
                            assert(items@[kk].descr.seq_no->0 >= self.block_seq_no as u64);
                            assert(exists|i2: int, k2: int|
                                {
                                    &&& 0 <= i2 < preprocess_spec(rows@).len()
                                    &&& (#[trigger] preprocess_spec(
                                        rows@,
                                    )[i2]).1.shard_hashes is Some
                                    &&& 0 <= k2 < preprocess_spec(
                                        rows@,
                                    )[i2].1.shard_hashes->0@.len()
                                    &&& entry_names_shard(
                                        #[trigger] preprocess_spec(
                                            rows@,
                                        )[i2].1.shard_hashes->0@[k2],
                                        self.shard,
                                    )
                                    &&& preprocess_spec(
                                        rows@,
                                    )[i2].1.shard_hashes->0@[k2].descr.seq_no->0
                                        >= self.block_seq_no as u64
                                    &&& *seq_no == preprocess_spec(rows@)[i2].0
                                }) by {
                                assert(0 <= ii < preprocess_spec(rows@).len());
                                assert(preprocess_spec(rows@)[ii].1.shard_hashes is Some);
                                assert(preprocess_spec(rows@)[ii].1.shard_hashes->0@.len()
                                    == items@.len());
                                assert(0 <= kk < preprocess_spec(
                                    rows@,
                                )[ii].1.shard_hashes->0@.len());
                                assert(entry_names_shard(
                                    preprocess_spec(rows@)[ii].1.shard_hashes->0@[kk],
                                    self.shard,
                                ));
                                assert(preprocess_spec(
                                    rows@,
                                )[ii].1.shard_hashes->0@[kk].descr.seq_no->0
                                    >= self.block_seq_no as u64);
                                assert(*seq_no == preprocess_spec(rows@)[ii].0);
                            }
                        }
                        return Ok((
                            ShardBlockCheck {
                                block_seq_no,
                                block_root_hash,
                                shard,
                                state: ShardCheckState::FetchAnchorProof { mc_seq_no: *seq_no },
                            },
                            false,
                        ));
                    }
                }
                k = k + 1;
            }
            proof {
                assert(!row_commits_to_shard(
                    blocks@[i as int].1,
                    self.shard,
                    self.block_seq_no,
                ));
            }
            i = i + 1;
        }
        let last_seq = blocks[blocks.len() - 1].0;
        if last_seq == u32::MAX {
            proof {
                assert(preprocess_spec(rows@).last().0 == u32::MAX);
            }
            return Err(ProofError::InvalidData);
        }
        Ok((
            ShardBlockCheck {
                block_seq_no,
                block_root_hash,
                shard,
                state: ShardCheckState::FindMc { first_mc_seq_no: last_seq + 1 },
            },
            false,
        ))
    }

    /// The proof fetch to run for the named anchor.
    pub fn anchor_proof_fetch(&self) -> (r: McProofFetch)
        requires
            self.state is FetchAnchorProof,
        ensures
            r == (McProofFetch::AwaitProofRows {
                mc_seq_no: self.state->FetchAnchorProof_mc_seq_no,
            }),
    {
        match &self.state {
            ShardCheckState::FetchAnchorProof { mc_seq_no } => McProofFetch::start(*mc_seq_no),
            _ => vstd::pervasive::unreached(),
        }
    }

    /// Consumes the fetched anchor proof.
    pub fn on_anchor_proof(self, proof: BlockProof) -> (r: ShardBlockCheck)
        requires
            self.wf(),
            self.state is FetchAnchorProof,
        ensures
            r.wf(),
            self.same_subject(&r),
            r.state is CheckAnchorProof && r.state->CheckAnchorProof_proof@ == proof@,
    {
        ShardBlockCheck {
            block_seq_no: self.block_seq_no,
            block_root_hash: self.block_root_hash,
            shard: self.shard,
            state: ShardCheckState::CheckAnchorProof { proof },
        }
    }

    /// Consumes the outside verifier's verdict on the anchor proof; a
    /// rejection is fatal.
    pub fn on_anchor_proof_checked(self, verified: bool) -> (r: Result<
        ShardBlockCheck,
        ProofError,
    >)
        requires
            self.wf(),
            self.state is CheckAnchorProof,
        ensures
            !verified ==> (r matches Err(e) && e == ProofError::ProofVerificationFailed),
            verified ==> (r matches Ok(s) && s.wf() && self.same_subject(&s) && s.state is
                AwaitAnchorBoc && s.state->AwaitAnchorBoc_proof@
                == self.state->CheckAnchorProof_proof@),
    {
        if !verified {
            return Err(ProofError::ProofVerificationFailed);
        }
        let proof = match self.state {
            ShardCheckState::CheckAnchorProof { proof } => proof,
            _ => vstd::pervasive::unreached(),
        };
        Ok(ShardBlockCheck {
            block_seq_no: self.block_seq_no,
            block_root_hash: self.block_root_hash,
            shard: self.shard,
            state: ShardCheckState::AwaitAnchorBoc { proof },
        })
    }

    /// Consumes the anchor block's BoC, from the engine's cache or freshly
    /// downloaded.
    pub fn on_anchor_boc(self, boc: Vec<u8>) -> (r: ShardBlockCheck)
        requires
            self.wf(),
            self.state is AwaitAnchorBoc,
        ensures
            r.wf(),
            self.same_subject(&r),
            r.state is AwaitAnchorHash && r.state->AwaitAnchorHash_proof@
                == self.state->AwaitAnchorBoc_proof@ && r.state->AwaitAnchorHash_boc@ == boc@,
    {
        let proof = match self.state {
            ShardCheckState::AwaitAnchorBoc { proof } => proof,
            _ => vstd::pervasive::unreached(),
        };
        ShardBlockCheck {
            block_seq_no: self.block_seq_no,
            block_root_hash: self.block_root_hash,
            shard: self.shard,
            state: ShardCheckState::AwaitAnchorHash { proof, boc },
        }
    }

    /// Consumes the representation hash the embedding computed over the
    /// anchor's BoC: it must equal the proof's root hash, or the downloaded
    /// block is not the proven one.  On a match the BoC is cached under the
    /// anchor's block key.  Hashes are compared as exact strings, so the
    /// embedding must render them in one casing (the indexer's lowercase).
    pub fn on_anchor_hash(self, engine: &mut ProofHelperEngineImpl, repr_hash: &str) -> (r: Result<
        ShardBlockCheck,
        ProofError,
    >)
        requires
            self.wf(),
            self.state is AwaitAnchorHash,
        ensures
            repr_hash@ != self.state->AwaitAnchorHash_proof@.root_hash ==> (r matches Err(e) && e
                == ProofError::ProofVerificationFailed && *final(engine) == *old(engine)),
            repr_hash@ == self.state->AwaitAnchorHash_proof@.root_hash ==> (r matches Ok(s)
                && s.wf() && self.same_subject(&s) && s.state == (ShardCheckState::AwaitShardHashes {
                mc_seq_no: self.state->AwaitAnchorHash_proof.seq_no,
            }) && final(engine).storage@ == old(engine).storage@.insert(
                LogicalKey::McBlock(self.state->AwaitAnchorHash_proof.seq_no),
                StoredData::Bin(self.state->AwaitAnchorHash_boc@),
            ) && final(engine).context == old(engine).context),
    {
        let (proof, boc) = match self.state {
            ShardCheckState::AwaitAnchorHash { proof, boc } => (proof, boc),
            _ => vstd::pervasive::unreached(),
        };
        let actual = String::from_str(repr_hash);
        if !(actual == proof.root_hash) {
            return Err(ProofError::ProofVerificationFailed);
        }
        engine.write_mc_block(proof.seq_no, boc);
        Ok(ShardBlockCheck {
            block_seq_no: self.block_seq_no,
            block_root_hash: self.block_root_hash,
            shard: self.shard,
            state: ShardCheckState::AwaitShardHashes { mc_seq_no: proof.seq_no },
        })
    }

    /// Consumes the shard-hashes table parsed out of the verified anchor
    /// block.  If the committed top block is the queried block itself, the
    /// root hashes must match and verification ends; a top block below the
    /// queried one cannot commit to it; otherwise the chain between them
    /// must be fetched.
    pub fn on_shard_hashes(self, entries: Vec<ShardHashItem>) -> (r: Result<
        ShardBlockCheck,
        ProofError,
    >)
        requires
            self.wf(),
            self.state is AwaitShardHashes,
        ensures
            r matches Ok(s) ==> (s.wf() && self.same_subject(&s) && (s.state is Accepted || s.state
                is AwaitShardBlocks)),
            r matches Ok(s) ==> (s.state is Accepted ==> exists|i: int|
                {
                    &&& 0 <= i < entries@.len()
                    &&& entry_names_shard(#[trigger] entries@[i], self.shard)
                    &&& entries@[i].descr.seq_no->0 as u32 == self.block_seq_no
                    &&& entries@[i].descr.root_hash->0@ == self.block_root_hash@
                }),
            r matches Ok(s) ==> (s.state is AwaitShardBlocks ==> exists|i: int|
                {
                    &&& 0 <= i < entries@.len()
                    &&& entry_names_shard(#[trigger] entries@[i], self.shard)
                    &&& entries@[i].descr.seq_no->0 as u32
                        == s.state->AwaitShardBlocks_top_seq_no
                    &&& entries@[i].descr.root_hash->0@
                        == s.state->AwaitShardBlocks_top_root_hash@
                }),
            r matches Err(e) ==> (e == ProofError::InvalidData || e == ProofError::SerdeError || e
                == ProofError::ShardRootHashMismatch || e == ProofError::ChainGapOrFork),
            ({
                let found = top_shard_entry_found(entries@, self.shard);
                let ts = first_named_entry(entries@, self.shard).descr.seq_no->0 as u32;
                let th = first_named_entry(entries@, self.shard).descr.root_hash->0@;
                &&& ((found && ts == self.block_seq_no && th == self.block_root_hash@) ==> (
                r matches Ok(s) && s.state is Accepted))
                &&& ((found && ts == self.block_seq_no && th != self.block_root_hash@) ==> (
                r matches Err(e) && e == ProofError::ShardRootHashMismatch))
                &&& ((found && ts < self.block_seq_no) ==> (r matches Err(e) && e
                    == ProofError::ChainGapOrFork))
                &&& ((found && ts > self.block_seq_no && ts == u32::MAX) ==> (r matches Err(e) && e
                    == ProofError::ChainGapOrFork))
                &&& ((found && ts > self.block_seq_no && ts < u32::MAX) ==> (r matches Ok(s)
                    && s.state is AwaitShardBlocks && s.state->AwaitShardBlocks_top_seq_no == ts
                    && s.state->AwaitShardBlocks_top_root_hash@ == th))
                &&& (!found ==> r is Err)
            }),
    {
        let (top_seq_no, top_root_hash) = ProofHelperEngineImpl::extract_top_shard_block(
            &entries,
            &self.shard,
        )?;
        proof {
            let i0 = choose|i: int|
                {
                    &&& 0 <= i < entries@.len()
                    &&& entry_names_shard(#[trigger] entries@[i], self.shard)
                    &&& entry_descr_parses(entries@[i])
                    &&& top_seq_no == entries@[i].descr.seq_no->0 as u32
                    &&& top_root_hash@ == entries@[i].descr.root_hash->0@
                    &&& (forall|j: int|
                        0 <= j < i ==> !entry_names_shard(#[trigger] entries@[j], self.shard))
                };
            let w = choose|i: int|
                0 <= i < entries@.len() && entry_names_shard(#[trigger] entries@[i], self.shard)
                    && (forall|j: int|
                    0 <= j < i ==> !entry_names_shard(#[trigger] entries@[j], self.shard));
            assert(!(w < i0));
            assert(!(i0 < w));
            assert(w == i0);
            assert(first_named_entry(entries@, self.shard) == entries@[i0]);
            assert(top_seq_no == first_named_entry(entries@, self.shard).descr.seq_no->0 as u32);
            assert(top_root_hash@ == first_named_entry(entries@, self.shard).descr.root_hash->0@);
        }
        if top_seq_no == self.block_seq_no {
            if top_root_hash == self.block_root_hash {
                return Ok(ShardBlockCheck {
                    block_seq_no: self.block_seq_no,
                    block_root_hash: self.block_root_hash,
                    shard: self.shard,
                    state: ShardCheckState::Accepted,
                });
            }
            return Err(ProofError::ShardRootHashMismatch);
        }
        if top_seq_no < self.block_seq_no || top_seq_no == u32::MAX {
            return Err(ProofError::ChainGapOrFork);
        }
        Ok(ShardBlockCheck {
            block_seq_no: self.block_seq_no,
            block_root_hash: self.block_root_hash,
            shard: self.shard,
            state: ShardCheckState::AwaitShardBlocks { top_seq_no, top_root_hash },
        })
    }

    /// The query fetching the shard blocks between the queried block and
    /// the committed top block.
    pub fn shard_chain_query(&self) -> (r: ParamsOfQueryCollection)
        requires
            self.wf(),
            self.state is AwaitShardBlocks,
        ensures
            r.result == ResultProjection::ShardBlockFields,
    {
        match &self.state {
            ShardCheckState::AwaitShardBlocks { top_seq_no, top_root_hash: _ } => {
                ProofHelperEngineImpl::shard_blocks_query(
                    &self.shard,
                    self.block_seq_no + 1,
                    *top_seq_no + 1,
                )
            },
            _ => vstd::pervasive::unreached(),
        }
    }

    /// Validates the shard-block rows and hands their decoded BoCs to the
    /// embedding for parsing.
    pub fn on_shard_block_rows(self, rows: Vec<QueryRow>) -> (r: Result<
        (ShardBlockCheck, Vec<Vec<u8>>),
        ProofError,
    >)
        requires
            self.wf(),
            self.state is AwaitShardBlocks,
        ensures
            ({
                let page = preprocess_spec(rows@);
                let lo = self.block_seq_no + 1;
                let hi = self.state->AwaitShardBlocks_top_seq_no + 1;
                r is Ok <==> {
                    &&& (forall|i: int| 0 <= i < rows@.len() ==> row_parses(#[trigger] rows@[i]))
                    &&& page.len() > 0
                    &&& page.len() == hi - lo
                    &&& (forall|i: int| 0 <= i < page.len() ==> (#[trigger] page[i]).0 == lo + i)
                    &&& (forall|i: int|
                        0 <= i < page.len() ==> (#[trigger] page[i]).1.boc is Some
                            && crate::encoding::base64_decoding(page[i].1.boc->0@) is Some)
                }
            }),
            r matches Ok(p) ==> (p.0.wf() && self.same_subject(&p.0) && p.0.state is
                AwaitParsedChain && p.0.state->AwaitParsedChain_top_seq_no
                == self.state->AwaitShardBlocks_top_seq_no && p.1@.len()
                == self.state->AwaitShardBlocks_top_seq_no - self.block_seq_no),
            r matches Err(e) ==> (e == ProofError::QueryFailed || e == ProofError::SerdeError || e
                == ProofError::ChainGapOrFork || e == ProofError::InvalidData),
    {
        let (top_seq_no, top_root_hash) = match self.state {
            ShardCheckState::AwaitShardBlocks { top_seq_no, top_root_hash } => (
                top_seq_no,
                top_root_hash,
            ),
            _ => vstd::pervasive::unreached(),
        };
        let bocs = ProofHelperEngineImpl::shard_block_bocs_from_rows(
            self.block_seq_no + 1,
            top_seq_no + 1,
            rows,
        )?;
        Ok((
            ShardBlockCheck {
                block_seq_no: self.block_seq_no,
                block_root_hash: self.block_root_hash,
                shard: self.shard,
                state: ShardCheckState::AwaitParsedChain { top_seq_no, top_root_hash },
            },
            bocs,
        ))
    }

    /// Walks the parsed shard chain backward from the committed top block:
    /// verification succeeds exactly when every prev-reference link matches
    /// and the walk ends at the queried block.
    pub fn on_parsed_chain(self, chain: &Vec<ShardBlockInfo>) -> (r: Result<
        ShardBlockCheck,
        ProofError,
    >)
        requires
            self.wf(),
            self.state is AwaitParsedChain,
        ensures
            r is Ok <==> chain_links_ok(
                self.block_seq_no,
                self.block_root_hash@,
                self.state->AwaitParsedChain_top_seq_no,
                self.state->AwaitParsedChain_top_root_hash@,
                chain@,
            ),
            r matches Ok(s) ==> (self.same_subject(&s) && s.state is Accepted),
            r matches Err(e) ==> e == ProofError::ShardRootHashMismatch,
    {
        let (top_seq_no, top_root_hash) = match self.state {
            ShardCheckState::AwaitParsedChain { top_seq_no, top_root_hash } => (
                top_seq_no,
                top_root_hash,
            ),
            _ => vstd::pervasive::unreached(),
        };
        ProofHelperEngineImpl::verify_shard_chain_links(
            self.block_seq_no,
            &self.block_root_hash,
            top_seq_no,
            top_root_hash,
            chain,
        )?;
        Ok(ShardBlockCheck {
            block_seq_no: self.block_seq_no,
            block_root_hash: self.block_root_hash,
            shard: self.shard,
            state: ShardCheckState::Accepted,
        })
    }
}

} // verus!
