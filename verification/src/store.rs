//! The UTXO set store: an in-memory mapping from output reference to the
//! referenced output's value and creation height.
//!
//! The store is modelled as a `Map` from `OutPoint` to `Utxo`. `insert`
//! overwrites on a duplicate key (last write wins), `lookup` reads, and
//! `remove` deletes if present; an absent key is never an error. The backing
//! structure keeps one entry per key.

use vstd::prelude::*;

use crate::block::OutPoint;

verus! {

/// What the store keeps for one unspent output: its value and the height of
/// the block that created it.
#[derive(Clone, Copy, Debug, PartialEq, Eq, Structural)]
pub struct Utxo {
    /// Unsigned 64-bit amount locked by the output.
    pub value: u64,
    /// Height of the block in which the output was created.
    pub height: u64,
}

/// One stored key/value pair.
#[derive(Clone, Copy, Debug)]
struct UtxoEntry {
    outpoint: OutPoint,
    utxo: Utxo,
}

/// The mapping that a sequence of entries represents; a later entry for the
/// same key shadows an earlier one.
spec fn map_of(s: Seq<UtxoEntry>) -> Map<OutPoint, Utxo>
    decreases s.len(),
{
    if s.len() == 0 {
        Map::empty()
    } else {
        map_of(s.drop_last()).insert(s.last().outpoint, s.last().utxo)
    }
}

/// No two entries share a key.
spec fn unique_keys(s: Seq<UtxoEntry>) -> bool {
    forall|i: int, j: int|
        #![trigger s[i], s[j]]
        0 <= i < j < s.len() ==> s[i].outpoint != s[j].outpoint
}

/// A key is in the represented mapping exactly when some entry holds it.
proof fn lemma_map_of_dom(s: Seq<UtxoEntry>)
    ensures
        forall|k: OutPoint|
            #[trigger] map_of(s).contains_key(k) <==> (exists|i: int|
                0 <= i < s.len() && (#[trigger] s[i]).outpoint == k),
    decreases s.len(),
{
    if s.len() > 0 {
        lemma_map_of_dom(s.drop_last());
        assert forall|k: OutPoint| #[trigger]
            map_of(s).contains_key(k) implies (exists|i: int|
            0 <= i < s.len() && (#[trigger] s[i]).outpoint == k) by {
            if s.last().outpoint == k {
                assert(s[s.len() - 1].outpoint == k);
            } else {
                assert(map_of(s.drop_last()).contains_key(k));
                let i: int = choose|i: int|
                    0 <= i < s.drop_last().len() && (#[trigger] s.drop_last()[i]).outpoint == k;
                assert(s[i].outpoint == k);
            }
        }
        assert forall|k: OutPoint| (exists|i: int|
            0 <= i < s.len() && (#[trigger] s[i]).outpoint == k) implies #[trigger]
            map_of(s).contains_key(k) by {
            let i: int = choose|i: int| 0 <= i < s.len() && (#[trigger] s[i]).outpoint == k;
            if i < s.len() - 1 {
                assert(s.drop_last()[i].outpoint == k);
            }
        }
    }
}

/// With unique keys, the entry holding a key gives the mapping's value.
proof fn lemma_map_of_index(s: Seq<UtxoEntry>, i: int)
    requires
        unique_keys(s),
        0 <= i < s.len(),
    ensures
        map_of(s).contains_key(s[i].outpoint),
        map_of(s)[s[i].outpoint] == s[i].utxo,
    decreases s.len(),
{
    if i == s.len() - 1 {
        assert(map_of(s) == map_of(s.drop_last()).insert(s.last().outpoint, s.last().utxo));
    } else {
        assert(unique_keys(s.drop_last()));
        lemma_map_of_index(s.drop_last(), i);
        assert(s[i].outpoint != s[s.len() - 1].outpoint);
    }
}

/// With unique keys, removing the entry at one position removes exactly its
/// key from the represented mapping, and keys stay unique.
proof fn lemma_map_of_remove(s: Seq<UtxoEntry>, i: int)
    requires
        unique_keys(s),
        0 <= i < s.len(),
    ensures
        map_of(s.remove(i)) == map_of(s).remove(s[i].outpoint),
        unique_keys(s.remove(i)),
    decreases s.len(),
{
    let k = s[i].outpoint;
    lemma_map_of_dom(s.drop_last());
    if i == s.len() - 1 {
        assert(s.remove(i) =~= s.drop_last());
        assert(!map_of(s.drop_last()).contains_key(k));
        assert(map_of(s.remove(i)) =~= map_of(s).remove(k));
    } else {
        assert(unique_keys(s.drop_last()));
        lemma_map_of_remove(s.drop_last(), i);
        assert(s.remove(i).drop_last() =~= s.drop_last().remove(i));
        assert(s.remove(i).last() == s.last());
        assert(map_of(s.remove(i)) == map_of(s.drop_last().remove(i)).insert(
            s.last().outpoint,
            s.last().utxo,
        ));
        assert(s.last().outpoint != k);
        assert(map_of(s.drop_last()).remove(k).insert(s.last().outpoint, s.last().utxo)
            =~= map_of(s.drop_last()).insert(s.last().outpoint, s.last().utxo).remove(k));
        assert(unique_keys(s.remove(i))) by {
            let t = s.remove(i);
            assert forall|p: int, q: int|
                #![trigger t[p], t[q]]
                0 <= p < q < t.len() implies t[p].outpoint != t[q].outpoint by {
                let p0: int = if p < i {
                    p
                } else {
                    p + 1
                };
                let q0: int = if q < i {
                    q
                } else {
                    q + 1
                };
                assert(t[p] == s[p0] && t[q] == s[q0]);
            }
        }
    }
}

/// Appending an entry inserts its key.
proof fn lemma_map_of_push(s: Seq<UtxoEntry>, e: UtxoEntry)
    ensures
        map_of(s.push(e)) == map_of(s).insert(e.outpoint, e.utxo),
{
    assert(s.push(e).drop_last() =~= s);
    assert(s.push(e).last() == e);
}

/// The UTXO set store. Its view is the mapping from output reference to the
/// stored value and creation height.
pub struct UtxoStore {
    entries: Vec<UtxoEntry>,
}

impl View for UtxoStore {
    type V = Map<OutPoint, Utxo>;

    closed spec fn view(&self) -> Map<OutPoint, Utxo> {
        map_of(self.entries@)
    }
}

impl UtxoStore {
    /// Output references are unique keys: the backing structure holds at
    /// most one entry per reference.
    pub closed spec fn wf(self) -> bool {
        unique_keys(self.entries@)
    }

    /// A fresh, empty store.
    pub fn new() -> (r: UtxoStore)
        ensures
            r.wf(),
            r@ == Map::<OutPoint, Utxo>::empty(),
    {
        UtxoStore { entries: Vec::new() }
    }

    /// The position of the entry holding a key, if any.
    fn find(&self, outpoint: &OutPoint) -> (r: Option<usize>)
        ensures
            match r {
                Some(i) => i < self.entries@.len() && self.entries@[i as int].outpoint
                    == *outpoint,
                None => forall|i: int|
                    0 <= i < self.entries@.len() ==> (#[trigger] self.entries@[i]).outpoint
                        != *outpoint,
            },
    {
        let mut i: usize = 0;
        while i < self.entries.len()
            invariant
                0 <= i <= self.entries@.len(),
                forall|j: int| 0 <= j < i ==> (#[trigger] self.entries@[j]).outpoint != *outpoint,
            decreases self.entries@.len() - i,
        {
            if self.entries[i].outpoint.same_as(outpoint) {
                return Some(i);
            }
            i += 1;
        }
        None
    }

    /// Adds the pair, overwriting any pair already stored under the same
    /// reference: on a duplicate key the later value and height win.
    pub fn insert(&mut self, outpoint: OutPoint, value: u64, height: u64)
        requires
            old(self).wf(),
        ensures
            final(self).wf(),
            final(self)@ == old(self)@.insert(outpoint, Utxo { value, height }),
    {
        let entry = UtxoEntry { outpoint, utxo: Utxo { value, height } };
        match self.find(&outpoint) {
            Some(i) => {
                proof {
                    lemma_map_of_remove(self.entries@, i as int);
                    lemma_map_of_dom(self.entries@.remove(i as int));
                }
                self.entries.remove(i);
                proof {
                    lemma_map_of_push(self.entries@, entry);
                    assert(map_of(self.entries@).remove(outpoint).insert(
                        outpoint,
                        entry.utxo,
                    ) =~= map_of(self.entries@).insert(outpoint, entry.utxo));
                }
                self.entries.push(entry);
            },
            None => {
                proof {
                    lemma_map_of_push(self.entries@, entry);
                }
                self.entries.push(entry);
            },
        }
        proof {
            assert(old(self)@.remove(outpoint).insert(outpoint, entry.utxo) =~= old(
                self,
            )@.insert(outpoint, entry.utxo));
        }
    }

    /// Reads the value and creation height stored under a reference, if the
    /// reference is present.
    pub fn lookup(&self, outpoint: &OutPoint) -> (r: Option<Utxo>)
        requires
            self.wf(),
        ensures
            self@.contains_key(*outpoint) ==> r == Some(self@[*outpoint]),
            !self@.contains_key(*outpoint) ==> r is None,
    {
        proof {
            lemma_map_of_dom(self.entries@);
        }
        match self.find(outpoint) {
            Some(i) => {
                proof {
                    lemma_map_of_index(self.entries@, i as int);
                }
                Some(self.entries[i].utxo)
            },
            None => None,
        }
    }

    /// Removes the pair stored under a reference, returning it if the
    /// reference was present; an absent reference leaves the store as it
    /// was.
    pub fn remove(&mut self, outpoint: &OutPoint) -> (r: Option<Utxo>)
        requires
            old(self).wf(),
        ensures
            final(self).wf(),
            final(self)@ == old(self)@.remove(*outpoint),
            old(self)@.contains_key(*outpoint) ==> r == Some(old(self)@[*outpoint]),
            !old(self)@.contains_key(*outpoint) ==> r is None,
    {
        proof {
            lemma_map_of_dom(self.entries@);
        }
        match self.find(outpoint) {
            Some(i) => {
                proof {
                    lemma_map_of_index(self.entries@, i as int);
                    lemma_map_of_remove(self.entries@, i as int);
                }
                let entry = self.entries.remove(i);
                Some(entry.utxo)
            },
            None => {
                proof {
                    assert(old(self)@.remove(*outpoint) =~= old(self)@);
                }
                None
            },
        }
    }
}

/// Law: inserting twice under one reference keeps only the later pair —
/// last write wins on a duplicate key.
pub proof fn lemma_insert_last_write_wins(
    m: Map<OutPoint, Utxo>,
    outpoint: OutPoint,
    first: Utxo,
    second: Utxo,
)
    ensures
        m.insert(outpoint, first).insert(outpoint, second) == m.insert(outpoint, second),
        m.insert(outpoint, first).insert(outpoint, second)[outpoint] == second,
{
    assert(m.insert(outpoint, first).insert(outpoint, second) =~= m.insert(outpoint, second));
}

} // verus!
