//! In-memory model of the persisted key/value store.
//!
//! The backend the engine runs against is an opaque key-to-blob / key-to-string
//! map.  Inside the engine every key is one of a handful of logical shapes, so
//! the store is modelled here as a map keyed by [`LogicalKey`]; the canonical
//! string form of each key (with the per-network prefix) is produced by
//! [`crate::keys`] and is what an embedding persists under.

use vstd::prelude::*;
use crate::{BlockProof, BlockProofView};

verus! {

/// The logical storage keys the engine reads and writes, all scoped to one
/// network.
#[derive(Clone, Copy, Debug, PartialEq, Eq, Structural)]
pub enum LogicalKey {
    /// Cached genesis state BoC.
    Zerostate,
    /// Highest mc seq_no linked to the zerostate by verified proofs.
    ZsRightBound,
    /// Highest mc seq_no linked to the trusted anchor with this seq_no.
    TrustedRightBound(u32),
    /// Cached verified key-block proof for this mc seq_no.
    McProof(u32),
    /// Cached masterchain block BoC for this mc seq_no.
    McBlock(u32),
}

/// A stored value: the backend distinguishes blob and string slots, and the
/// engine's verified key-block proof records are modelled as a slot of their
/// own (the embedding serializes them on the way to the real backend).
#[derive(Debug)]
pub enum StoredValue {
    Bin(Vec<u8>),
    Str(String),
    Proof(BlockProof),
}

/// Mathematical shape of a stored value.
pub enum StoredData {
    Bin(Seq<u8>),
    Str(Seq<char>),
    Proof(BlockProofView),
}

impl View for StoredValue {
    type V = StoredData;

    open spec fn view(&self) -> StoredData {
        match self {
            StoredValue::Bin(v) => StoredData::Bin(v@),
            StoredValue::Str(s) => StoredData::Str(s@),
            StoredValue::Proof(p) => StoredData::Proof(p@),
        }
    }
}

/// The map a write log denotes: later writes to a key override earlier ones.
pub open spec fn map_of(s: Seq<(LogicalKey, StoredValue)>) -> Map<LogicalKey, StoredData>
    decreases s.len(),
{
    if s.len() == 0 {
        Map::empty()
    } else {
        map_of(s.drop_last()).insert(s.last().0, s.last().1@)
    }
}

proof fn lemma_map_of_untouched_suffix(s: Seq<(LogicalKey, StoredValue)>, i: int, key: LogicalKey)
    requires
        0 <= i <= s.len(),
        forall|j: int| i <= j < s.len() ==> (#[trigger] s[j]).0 != key,
    ensures
        map_of(s).contains_key(key) == map_of(s.take(i)).contains_key(key),
        map_of(s).contains_key(key) ==> map_of(s)[key] == map_of(s.take(i))[key],
    decreases s.len() - i,
{
    if i == s.len() {
        assert(s.take(i) =~= s);
    } else {
        lemma_map_of_untouched_suffix(s, i + 1, key);
        let t = s.take(i + 1);
        assert(t.drop_last() =~= s.take(i));
        assert(t.last() == s[i]);
    }
}

/// The engine's view of the persisted store: a write log of logical keys and
/// values, read as the map where the latest write to a key wins.
#[derive(Debug)]
pub struct ProofStorage {
    entries: Vec<(LogicalKey, StoredValue)>,
}

impl View for ProofStorage {
    type V = Map<LogicalKey, StoredData>;

    closed spec fn view(&self) -> Map<LogicalKey, StoredData> {
        map_of(self.entries@)
    }
}

impl ProofStorage {
    /// A fresh store with nothing persisted.
    pub fn new() -> (r: ProofStorage)
        ensures
            r@ == Map::<LogicalKey, StoredData>::empty(),
    {
        let r = ProofStorage { entries: Vec::new() };
        proof {
            assert(r.entries@ =~= Seq::<(LogicalKey, StoredValue)>::empty());
        }
        r
    }

    /// Looks the key up, returning the latest value written under it.
    pub fn get(&self, key: LogicalKey) -> (r: Option<&StoredValue>)
        ensures
            match r {
                Some(v) => self@.contains_key(key) && v@ == self@[key],
                None => !self@.contains_key(key),
            },
    {
        let n = self.entries.len();
        let mut i = n;
        while i > 0
            invariant
                i <= n,
                n == self.entries.len(),
                forall|j: int| i <= j < n ==> (#[trigger] self.entries@[j]).0 != key,
            decreases i,
        {
            i = i - 1;
            if self.entries[i].0 == key {
                proof {
                    lemma_map_of_untouched_suffix(self.entries@, i + 1, key);
                    let t = self.entries@.take(i + 1);
                    assert(t.drop_last() =~= self.entries@.take(i as int));
                    assert(t.last() == self.entries@[i as int]);
                }
                return Some(&self.entries[i].1);
            }
        }
        proof {
            lemma_map_of_untouched_suffix(self.entries@, 0, key);
            assert(self.entries@.take(0) =~= Seq::<(LogicalKey, StoredValue)>::empty());
        }
        None
    }

    /// Writes the value under the key, replacing whatever was there.
    pub fn put(&mut self, key: LogicalKey, value: StoredValue)
        ensures
            final(self)@ == old(self)@.insert(key, value@),
    {
        let ghost v = value@;
        self.entries.push((key, value));
        proof {
            assert(self.entries@.drop_last() =~= old(self).entries@);
            assert(self@ =~= old(self)@.insert(key, v));
        }
    }
}

} // verus!
