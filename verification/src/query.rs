//! The indexer query model.
//!
//! The engine never talks to the indexer itself: it builds
//! [`ParamsOfQueryCollection`] values describing collection queries, and the
//! embedding runs them and hands the resulting rows back as [`QueryRow`]
//! values, one field per projected column, `None` where a column is missing
//! or not an integer.  Fork-deduplication of the returned rows is done here.

use vstd::prelude::*;
use crate::ProofError;

verus! {

/// Sort direction of an `order` clause.
#[derive(Clone, Copy, Debug, PartialEq, Eq, Structural)]
pub enum SortDirection {
    ASC,
    DESC,
}

/// One `order` clause: a field path and a direction.
#[derive(Debug)]
pub struct OrderBy {
    pub path: String,
    pub direction: SortDirection,
}

/// The collections the engine queries.
#[derive(Clone, Copy, Debug, PartialEq, Eq, Structural)]
pub enum Collection {
    Blocks,
    Zerostates,
}

/// The projections the engine asks for, one per query shape.
#[derive(Clone, Copy, Debug, PartialEq, Eq, Structural)]
pub enum ResultProjection {
    /// `boc`
    Boc,
    /// `seq_no gen_utime prev_ref{file_hash}`
    SeqNoGenUtimePrevRefFileHash,
    /// `seq_no gen_utime boc`
    SeqNoGenUtimeBoc,
    /// `id workchain_id shard seq_no gen_utime signatures{...}`
    ProofFields,
    /// `seq_no gen_utime master{shard_hashes{workchain_id shard descr{seq_no root_hash}}}`
    McShardHashes,
    /// `seq_no gen_utime id boc`
    ShardBlockFields,
}

/// A shard chain identifier: a workchain id and the tagged hex form of the
/// shard prefix, as the indexer renders it.
#[derive(Debug)]
pub struct ShardIdent {
    pub workchain_id: i32,
    pub shard_prefix_tagged: String,
}

impl ShardIdent {
    /// An identical copy.
    pub fn duplicate(&self) -> (r: ShardIdent)
        ensures
            r.workchain_id == self.workchain_id,
            r.shard_prefix_tagged@ == self.shard_prefix_tagged@,
    {
        ShardIdent {
            workchain_id: self.workchain_id,
            shard_prefix_tagged: self.shard_prefix_tagged.clone(),
        }
    }
}

/// The filters the engine queries with.
#[derive(Debug)]
pub enum QueryFilter {
    /// `workchain_id == -1 && seq_no == n`
    McBlockSeqNo(u32),
    /// `workchain_id == -1 && key_block == true && lo <= seq_no < hi`
    McKeyBlocksRange(u32, u32),
    /// `workchain_id == -1 && seq_no in list`
    McBlocksSeqNoIn(Vec<u32>),
    /// `workchain_id == -1 && seq_no >= n`
    McBlocksFrom(u32),
    /// `workchain_id == w && shard == s && seq_no in list`
    ShardBlocksSeqNoIn(ShardIdent, Vec<u32>),
}

/// A collection query, ready for the embedding to run.
#[derive(Debug)]
pub struct ParamsOfQueryCollection {
    pub collection: Collection,
    pub result: ResultProjection,
    pub filter: Option<QueryFilter>,
    pub order: Option<Vec<OrderBy>>,
    pub limit: Option<u32>,
}

/// The `descr` subtree of a shard-hashes entry.
#[derive(Debug)]
pub struct ShardDescrFields {
    pub seq_no: Option<u64>,
    pub root_hash: Option<String>,
}

/// One entry of a masterchain block's `shard_hashes` array.
#[derive(Debug)]
pub struct ShardHashItem {
    pub workchain_id: Option<i64>,
    pub shard: Option<String>,
    pub descr: ShardDescrFields,
}

/// One indexer row, with every column the engine ever projects.  A column
/// the query did not project, or whose value has the wrong type, is `None`.
#[derive(Debug)]
pub struct QueryRow {
    /// Block id: the root hash in hex.
    pub id: Option<String>,
    pub seq_no: Option<u64>,
    pub gen_utime: Option<u64>,
    /// Block BoC in base64.
    pub boc: Option<String>,
    /// `prev_ref.file_hash` of the block.
    pub prev_ref_file_hash: Option<String>,
    /// File hash attached by the engine from the following block.
    pub file_hash: Option<String>,
    /// The proof's cryptographic payload (signatures subtree and proof BoC),
    /// packed opaquely by the embedding.
    pub signatures_payload: Option<Vec<u8>>,
    /// `master.shard_hashes` of the block.
    pub shard_hashes: Option<Vec<ShardHashItem>>,
}

impl crate::BlockProof {
    /// Builds a proof record from a preprocessed proof row: the block id
    /// column carries the root hash; a row without it is malformed.  The
    /// file hash and the cryptographic payload travel along when present.
    pub fn from_row(seq_no: u32, row: QueryRow) -> (r: Result<crate::BlockProof, ProofError>)
        ensures
            r is Ok <==> row.id is Some,
            r matches Ok(p) ==> ({
                &&& p.seq_no == seq_no
                &&& p@.root_hash == row.id->0@
                &&& p@.file_hash == (match row.file_hash {
                    Some(h) => Some(h@),
                    None => None::<Seq<char>>,
                })
                &&& p@.payload == (match row.signatures_payload {
                    Some(b) => b@,
                    None => Seq::<u8>::empty(),
                })
            }),
            r matches Err(e) ==> e == ProofError::SerdeError,
    {
        let root_hash = match row.id {
            Some(h) => h,
            None => {
                return Err(ProofError::SerdeError);
            },
        };
        let payload = match row.signatures_payload {
            Some(b) => b,
            None => Vec::new(),
        };
        proof {
            assert(payload@ =~= (match row.signatures_payload {
                Some(b) => b@,
                None => Seq::<u8>::empty(),
            }));
        }
        Ok(crate::BlockProof { seq_no, root_hash, file_hash: row.file_hash, payload })
    }
}

/// Whether a row carries the two integers every preprocessed row needs.
pub open spec fn row_parses(r: QueryRow) -> bool {
    r.seq_no is Some && r.gen_utime is Some
}

/// The seq_no of a parsed row, truncated to 32 bits as the engine stores it.
pub open spec fn row_seq_no(r: QueryRow) -> u32 {
    r.seq_no->0 as u32
}

/// The gen_utime of a parsed row, truncated to 32 bits.
pub open spec fn row_gen_utime(r: QueryRow) -> u32 {
    r.gen_utime->0 as u32
}

/// Fork deduplication: traverse the rows in order and keep, for each run of
/// equal seq_nos, the earliest row with the greatest gen_utime.
pub open spec fn preprocess_spec(rows: Seq<QueryRow>) -> Seq<(u32, QueryRow)>
    decreases rows.len(),
{
    if rows.len() == 0 {
        Seq::empty()
    } else {
        let prev = preprocess_spec(rows.drop_last());
        let b = rows.last();
        let s = row_seq_no(b);
        if prev.len() == 0 {
            seq![(s, b)]
        } else if prev.last().0 != s {
            prev.push((s, b))
        } else if row_gen_utime(b) > row_gen_utime(prev.last().1) {
            prev.drop_last().push((s, b))
        } else {
            prev
        }
    }
}

/// Deduplicates concurrent-fork rows returned by the indexer: of the rows
/// sharing a seq_no, only the one with the greatest gen_utime survives, and
/// the relative order of distinct seq_nos is kept.  Fails exactly when some
/// row lacks an integer seq_no or gen_utime.
pub fn preprocess_query_result(blocks: Vec<QueryRow>) -> (r: Result<
    Vec<(u32, QueryRow)>,
    ProofError,
>)
    ensures
        r is Ok <==> (forall|i: int| 0 <= i < blocks@.len() ==> row_parses(#[trigger] blocks@[i])),
        r matches Ok(v) ==> v@ == preprocess_spec(blocks@),
        r matches Ok(v) ==> (forall|j: int|
            0 <= j < v@.len() ==> row_parses((#[trigger] v@[j]).1)),
        r matches Err(e) ==> e == ProofError::SerdeError,
    decreases blocks@.len(),
{
    let mut rest = blocks;
    let b = match rest.pop() {
        None => {
            proof {
                assert(rest@ =~= Seq::<QueryRow>::empty());
                assert(preprocess_spec(rest@) =~= Seq::<(u32, QueryRow)>::empty());
            }
            return Ok(Vec::new());
        },
        Some(b) => b,
    };
    proof {
        assert(rest@.push(b) =~= blocks@);
        assert(blocks@.drop_last() =~= rest@);
        assert(forall|i: int| 0 <= i < rest@.len() ==> blocks@[i] == #[trigger] rest@[i]);
        assert(blocks@.last() == b);
    }
    let mut prev = match preprocess_query_result(rest) {
        Ok(v) => v,
        Err(e) => {
            proof {
                let i = choose|i: int| 0 <= i < rest@.len() && !row_parses(rest@[i]);
                assert(!row_parses(blocks@[i]));
            }
            return Err(e);
        },
    };
    let s64 = match b.seq_no {
        Some(v) => v,
        None => {
            proof {
                assert(!row_parses(blocks@[blocks@.len() - 1]));
            }
            return Err(ProofError::SerdeError);
        },
    };
    let g64 = match b.gen_utime {
        Some(v) => v,
        None => {
            proof {
                assert(!row_parses(blocks@[blocks@.len() - 1]));
            }
            return Err(ProofError::SerdeError);
        },
    };
    let s = #[verifier::truncate] (s64 as u32);
    let g = #[verifier::truncate] (g64 as u32);
    if prev.len() == 0 {
        prev.push((s, b));
        proof {
            assert(prev@ =~= seq![(s, blocks@.last())]);
        }
        Ok(prev)
    } else {
        let keep = prev[prev.len() - 1].0 != s;
        if keep {
            prev.push((s, b));
            Ok(prev)
        } else {
            let last_gu = match prev[prev.len() - 1].1.gen_utime {
                Some(v) => #[verifier::truncate] (v as u32),
                None => {
                    proof {
                        assert(false);
                    }
                    return Err(ProofError::SerdeError);
                },
            };
            if g > last_gu {
                let _ = prev.pop();
                prev.push((s, b));
                proof {
                    assert(prev@ =~= preprocess_spec(rest@).drop_last().push(
                        (s, blocks@.last()),
                    ));
                }
                Ok(prev)
            } else {
                Ok(prev)
            }
        }
    }
}

/// What the dedup law requires of its input: every row parses and the rows
/// arrive sorted by seq_no, as the engine's sort clause guarantees.
pub open spec fn rows_parsed_sorted(rows: Seq<QueryRow>) -> bool {
    &&& forall|i: int| 0 <= i < rows.len() ==> row_parses(#[trigger] rows[i])
    &&& forall|i: int, j: int|
        0 <= i < j < rows.len() ==> row_seq_no(rows[i]) <= row_seq_no(rows[j])
}

#[verifier::spinoff_prover]
proof fn lemma_preprocess_shape(rows: Seq<QueryRow>)
    requires
        rows_parsed_sorted(rows),
    ensures
        preprocess_spec(rows).len() > 0 <==> rows.len() > 0,
        rows.len() > 0 ==> preprocess_spec(rows).last().0 == row_seq_no(rows.last()),
        forall|p: int, q: int|
            0 <= p < q < preprocess_spec(rows).len() ==> preprocess_spec(rows)[p].0
                < preprocess_spec(rows)[q].0,
        forall|p: int|
            0 <= p < preprocess_spec(rows).len() ==> (#[trigger] preprocess_spec(rows)[p]).0
                == row_seq_no(preprocess_spec(rows)[p].1),
    decreases rows.len(),
{
    if rows.len() > 0 {
        let prefix = rows.drop_last();
        let b = rows.last();
        let s = row_seq_no(b);
        let prev = preprocess_spec(prefix);
        let out = preprocess_spec(rows);
        lemma_preprocess_shape(prefix);
        if prev.len() == 0 {
            assert(out =~= seq![(s, b)]);
        } else {
            assert(prefix.last() == rows[rows.len() - 2]);
            assert(prev.last().0 <= s);
        }
    }
}

#[verifier::spinoff_prover]
proof fn lemma_preprocess_entries_come_from_rows(rows: Seq<QueryRow>)
    requires
        rows_parsed_sorted(rows),
    ensures
        forall|p: int|
            0 <= p < preprocess_spec(rows).len() ==> exists|i: int|
                0 <= i < rows.len() && rows[i] == (#[trigger] preprocess_spec(rows)[p]).1
                    && row_seq_no(rows[i]) == preprocess_spec(rows)[p].0,
    decreases rows.len(),
{
    if rows.len() > 0 {
        let prefix = rows.drop_last();
        let b = rows.last();
        let s = row_seq_no(b);
        let prev = preprocess_spec(prefix);
        let out = preprocess_spec(rows);
        lemma_preprocess_entries_come_from_rows(prefix);
        assert forall|p: int| 0 <= p < out.len() implies exists|i: int|
            0 <= i < rows.len() && rows[i] == (#[trigger] out[p]).1 && row_seq_no(rows[i])
                == out[p].0 by {
            if out[p] == (s, b) && out[p].0 == s && out[p].1 == b {
                assert(rows[rows.len() - 1] == b);
            } else {
                if p < prev.len() && out[p] == prev[p] {
                    let i = choose|i: int|
                        0 <= i < prefix.len() && prefix[i] == prev[p].1 && row_seq_no(prefix[i])
                            == prev[p].0;
                    assert(rows[i] == prefix[i]);
                }
            }
        }
    }
}

#[verifier::spinoff_prover]
proof fn lemma_preprocess_covers_rows(rows: Seq<QueryRow>)
    requires
        rows_parsed_sorted(rows),
    ensures
        forall|i: int|
            0 <= i < rows.len() ==> exists|p: int|
                0 <= p < preprocess_spec(rows).len() && preprocess_spec(rows)[p].0 == row_seq_no(
                    #[trigger] rows[i],
                ),
    decreases rows.len(),
{
    if rows.len() > 0 {
        let prefix = rows.drop_last();
        let b = rows.last();
        let s = row_seq_no(b);
        let prev = preprocess_spec(prefix);
        let out = preprocess_spec(rows);
        lemma_preprocess_covers_rows(prefix);
        lemma_preprocess_shape(rows);
        assert forall|i: int| 0 <= i < rows.len() implies exists|p: int|
            0 <= p < out.len() && out[p].0 == row_seq_no(#[trigger] rows[i]) by {
            if i == rows.len() - 1 {
                assert(out[out.len() - 1].0 == s);
            } else {
                assert(rows[i] == prefix[i]);
                let p = choose|p: int| 0 <= p < prev.len() && prev[p].0 == row_seq_no(prefix[i]);
                if prev.len() > 0 && prev.last().0 != s {
                    assert(out[p].0 == prev[p].0);
                } else if prev.len() > 0 {
                    assert(out.len() == prev.len());
                    assert(out[p].0 == prev[p].0);
                }
            }
        }
    }
}

#[verifier::spinoff_prover]
proof fn lemma_preprocess_max_gen_utime(rows: Seq<QueryRow>)
    requires
        rows_parsed_sorted(rows),
    ensures
        forall|p: int, i: int|
            0 <= p < preprocess_spec(rows).len() && 0 <= i < rows.len() && row_seq_no(rows[i])
                == (#[trigger] preprocess_spec(rows)[p]).0 ==> row_gen_utime(#[trigger] rows[i])
                <= row_gen_utime(preprocess_spec(rows)[p].1),
    decreases rows.len(),
{
    if rows.len() > 0 {
        let prefix = rows.drop_last();
        let b = rows.last();
        let s = row_seq_no(b);
        let g = row_gen_utime(b);
        let prev = preprocess_spec(prefix);
        let out = preprocess_spec(rows);
        lemma_preprocess_max_gen_utime(prefix);
        lemma_preprocess_shape(prefix);
        lemma_preprocess_shape(rows);
        assert forall|p: int, i: int|
            0 <= p < out.len() && 0 <= i < rows.len() && row_seq_no(rows[i]) == (#[trigger] out[p]).0 implies row_gen_utime(#[trigger] rows[i]) <= row_gen_utime(out[p].1) by {
            if prev.len() == 0 {
                assert(out =~= seq![(s, b)]);
                assert(rows[i] == b);
            } else if prev.last().0 != s {
                if p < prev.len() {
                    assert(out[p] == prev[p]);
                    assert(out[p].0 <= prev.last().0);
                    assert(prev.last().0 == row_seq_no(prefix.last()));
                    if i == rows.len() - 1 {
                        assert(row_seq_no(rows[i]) == s && out[p].0 < s);
                    } else {
                        assert(rows[i] == prefix[i]);
                    }
                } else {
                    assert(out[p] == (s, b));
                    if i < rows.len() - 1 {
                        assert(rows[i] == prefix[i]);
                        assert(row_seq_no(prefix[i]) <= row_seq_no(prefix.last()));
                        assert(row_seq_no(prefix.last()) == prev.last().0);
                        assert(prev.last().0 < s);
                        assert(false);
                    }
                }
            } else if g > row_gen_utime(prev.last().1) {
                if p < prev.len() - 1 {
                    assert(out[p] == prev[p]);
                    assert(out[p].0 < prev.last().0);
                    if i == rows.len() - 1 {
                        assert(false);
                    } else {
                        assert(rows[i] == prefix[i]);
                    }
                } else {
                    assert(out[p] == (s, b));
                    if i < rows.len() - 1 {
                        assert(rows[i] == prefix[i]);
                        assert(row_gen_utime(prefix[i]) <= row_gen_utime(prev.last().1));
                    }
                }
            } else {
                assert(out == prev);
                if i == rows.len() - 1 {
                    if p < out.len() - 1 {
                        assert(out[p].0 < out.last().0);
                        assert(out.last().0 == s);
                        assert(false);
                    } else {
                        assert(out[p] == prev.last());
                    }
                } else {
                    assert(rows[i] == prefix[i]);
                }
            }
        }
    }
}

/// Fork dedup: over rows that all parse and arrive sorted by seq_no, the
/// deduplicated stream has strictly increasing seq_nos (so the relative
/// order of distinct seq_nos is preserved), covers exactly the seq_nos of
/// the input, and keeps for each seq_no a row of the input with that seq_no
/// attaining the greatest gen_utime among its rows.
#[verifier::rlimit(100)]
#[verifier::spinoff_prover]
pub proof fn lemma_preprocess_fork_dedup(rows: Seq<QueryRow>)
    requires
        rows_parsed_sorted(rows),
    ensures
        preprocess_spec(rows).len() > 0 <==> rows.len() > 0,
        forall|p: int, q: int|
            0 <= p < q < preprocess_spec(rows).len() ==> preprocess_spec(rows)[p].0
                < preprocess_spec(rows)[q].0,
        forall|i: int|
            0 <= i < rows.len() ==> exists|p: int|
                0 <= p < preprocess_spec(rows).len() && preprocess_spec(rows)[p].0 == row_seq_no(
                    #[trigger] rows[i],
                ),
        forall|p: int|
            0 <= p < preprocess_spec(rows).len() ==> exists|i: int|
                0 <= i < rows.len() && rows[i] == (#[trigger] preprocess_spec(rows)[p]).1
                    && row_seq_no(rows[i]) == preprocess_spec(rows)[p].0,
        forall|p: int, i: int|
            0 <= p < preprocess_spec(rows).len() && 0 <= i < rows.len() && row_seq_no(rows[i])
                == (#[trigger] preprocess_spec(rows)[p]).0 ==> row_gen_utime(#[trigger] rows[i])
                <= row_gen_utime(preprocess_spec(rows)[p].1),
{
    lemma_preprocess_shape(rows);
    lemma_preprocess_covers_rows(rows);
    lemma_preprocess_entries_come_from_rows(rows);
    lemma_preprocess_max_gen_utime(rows);
}

} // verus!
