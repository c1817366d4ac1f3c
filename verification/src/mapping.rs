//! The mapping table: which key is remapped to what.

use crate::keys::{KeyIdentity, MappingEntry, RemapTarget};
use vstd::prelude::*;

verus! {

/// The association that a list of entries stands for. Where a key occurs more
/// than once the last entry counts; a table is only ever built from a list in
/// which no key occurs twice.
pub open spec fn entries_map(entries: Seq<MappingEntry>) -> Map<KeyIdentity, RemapTarget>
    decreases entries.len(),
{
    if entries.len() == 0 {
        Map::empty()
    } else {
        entries_map(entries.drop_last()).insert(entries.last().key, entries.last().target)
    }
}

/// The entry at `j` defines a key that an earlier entry has defined already.
pub open spec fn repeats_at(entries: Seq<MappingEntry>, j: int) -> bool {
    exists|i: int| 0 <= i < j && #[trigger] entries[i].key == entries[j].key
}

/// No key is defined twice.
pub open spec fn distinct_keys(entries: Seq<MappingEntry>) -> bool {
    forall|j: int| 0 <= j < entries.len() ==> !#[trigger] repeats_at(entries, j)
}

/// What an association resolves a key to: its entry, or `Passthrough` where it
/// has none.
pub open spec fn resolve(mapping: Map<KeyIdentity, RemapTarget>, id: KeyIdentity) -> RemapTarget {
    if mapping.contains_key(id) {
        mapping[id]
    } else {
        RemapTarget::Passthrough
    }
}

/// Why a list of entries is no mapping table.
#[derive(Clone, Copy, Debug, PartialEq, Eq, Structural)]
pub enum MappingError {
    /// The key is defined by more than one entry.
    DuplicateKey(KeyIdentity),
}

/// An immutable lookup from key identities to remap targets.
#[derive(Debug)]
pub struct MappingTable {
    entries: Vec<MappingEntry>,
}

/// The keys that the association defines are the keys of the entries.
pub proof fn lemma_entries_map_keys(entries: Seq<MappingEntry>, id: KeyIdentity)
    ensures
        entries_map(entries).contains_key(id) <==> exists|i: int|
            0 <= i < entries.len() && #[trigger] entries[i].key == id,
    decreases entries.len(),
{
    if entries.len() > 0 {
        let front = entries.drop_last();
        lemma_entries_map_keys(front, id);
        if entries_map(entries).contains_key(id) {
            if entries.last().key == id {
                assert(entries[entries.len() - 1].key == id);
            } else {
                let i = choose|i: int| 0 <= i < front.len() && #[trigger] front[i].key == id;
                assert(entries[i].key == id);
            }
        }
        if exists|i: int| 0 <= i < entries.len() && #[trigger] entries[i].key == id {
            let i = choose|i: int| 0 <= i < entries.len() && #[trigger] entries[i].key == id;
            if i < front.len() {
                assert(front[i].key == id);
            }
        }
    }
}

/// In a list without repeated keys, the association gives every key the
/// target of its entry.
pub proof fn lemma_entries_map_value(entries: Seq<MappingEntry>, i: int)
    requires
        distinct_keys(entries),
        0 <= i < entries.len(),
    ensures
        entries_map(entries).contains_key(entries[i].key),
        entries_map(entries)[entries[i].key] == entries[i].target,
    decreases entries.len(),
{
    let front = entries.drop_last();
    let last = entries.len() - 1;
    if i < last {
        assert forall|j: int| 0 <= j < front.len() implies !#[trigger] repeats_at(front, j) by {
            if repeats_at(front, j) {
                let w = choose|w: int| 0 <= w < j && #[trigger] front[w].key == front[j].key;
                assert(entries[w].key == entries[j].key);
                assert(repeats_at(entries, j));
            }
        }
        lemma_entries_map_value(front, i);
        assert(front[i] == entries[i]);
        if entries[last].key == entries[i].key {
            assert(repeats_at(entries, last));
        }
    }
}

impl View for MappingTable {
    type V = Map<KeyIdentity, RemapTarget>;

    closed spec fn view(&self) -> Map<KeyIdentity, RemapTarget> {
        entries_map(self.entries@)
    }
}

impl MappingTable {
    #[verifier::type_invariant]
    spec fn well_formed(self) -> bool {
        distinct_keys(self.entries@)
    }

    /// Builds a table from a list of entries. A list that defines a key twice
    /// is refused, with the key of the first entry that repeats an earlier one.
    pub fn new(entries: Vec<MappingEntry>) -> (r: Result<MappingTable, MappingError>)
        ensures
            r is Ok <==> distinct_keys(entries@),
            r matches Ok(table) ==> table@ == entries_map(entries@),
            r matches Err(MappingError::DuplicateKey(key)) ==> exists|j: int|
                0 <= j < entries.len() && #[trigger] repeats_at(entries@, j) && key
                    == entries[j].key && forall|e: int|
                    0 <= e < j ==> !#[trigger] repeats_at(entries@, e),
    {
        let n = entries.len();
        let mut j: usize = 0;
        while j < n
            invariant
                n == entries.len(),
                j <= n,
                forall|e: int| 0 <= e < j ==> !#[trigger] repeats_at(entries@, e),
            decreases n - j,
        {
            let mut i: usize = 0;
            while i < j
                invariant
                    n == entries.len(),
                    i <= j < n,
                    forall|e: int| 0 <= e < j ==> !#[trigger] repeats_at(entries@, e),
                    forall|w: int| 0 <= w < i ==> #[trigger] entries[w].key != entries[j as int].key,
                decreases j - i,
            {
                if entries[i].key == entries[j].key {
                    assert(repeats_at(entries@, j as int));
                    return Err(MappingError::DuplicateKey(entries[j].key));
                }
                i = i + 1;
            }
            j = j + 1;
        }
        Ok(MappingTable { entries })
    }

    /// What the key is remapped to. Every key has an answer: one that the
    /// table does not define is passed through.
    pub fn lookup(&self, id: KeyIdentity) -> (target: RemapTarget)
        ensures
            target == resolve(self@, id),
    {
        proof {
            use_type_invariant(self);
            lemma_entries_map_keys(self.entries@, id);
        }
        let n = self.entries.len();
        let mut i: usize = 0;
        while i < n
            invariant
                n == self.entries.len(),
                i <= n,
                distinct_keys(self.entries@),
                forall|w: int| 0 <= w < i ==> #[trigger] self.entries[w].key != id,
            decreases n - i,
        {
            if self.entries[i].key == id {
                proof {
                    lemma_entries_map_value(self.entries@, i as int);
                }
                return self.entries[i].target;
            }
            i = i + 1;
        }
        RemapTarget::Passthrough
    }

    /// How many keys the table defines.
    pub fn len(&self) -> (n: usize)
        ensures
            n == self@.dom().len(),
            self@.dom().finite(),
    {
        proof {
            use_type_invariant(self);
            lemma_entries_map_len(self.entries@);
        }
        self.entries.len()
    }
}

/// Taking one entry out of a list without repeated keys takes its key out of
/// the association and leaves the rest as it was.
pub proof fn lemma_entries_map_remove(entries: Seq<MappingEntry>, i: int)
    requires
        distinct_keys(entries),
        0 <= i < entries.len(),
    ensures
        distinct_keys(entries.remove(i)),
        entries_map(entries.remove(i)) == entries_map(entries).remove(entries[i].key),
{
    let rest = entries.remove(i);
    assert forall|j: int| 0 <= j < rest.len() implies !#[trigger] repeats_at(rest, j) by {
        if repeats_at(rest, j) {
            let w = choose|w: int| 0 <= w < j && #[trigger] rest[w].key == rest[j].key;
            let jj = if j < i { j } else { j + 1 };
            let ww = if w < i { w } else { w + 1 };
            assert(entries[ww].key == entries[jj].key);
            assert(repeats_at(entries, jj));
        }
    }
    assert forall|id: KeyIdentity|
        #![trigger entries_map(rest).dom().contains(id)]
        #![trigger entries_map(entries).remove(entries[i].key).dom().contains(id)]
        #![trigger entries_map(rest)[id]]
        #![trigger entries_map(entries).remove(entries[i].key)[id]]
        entries_map(rest).dom().contains(id) == entries_map(entries).remove(
            entries[i].key,
        ).dom().contains(id) && (entries_map(rest).dom().contains(id) ==> entries_map(rest)[id]
            == entries_map(entries).remove(entries[i].key)[id]) by {
        lemma_entries_map_keys(rest, id);
        lemma_entries_map_keys(entries, id);
        if entries_map(rest).contains_key(id) {
            let w = choose|w: int| 0 <= w < rest.len() && #[trigger] rest[w].key == id;
            let ww = if w < i { w } else { w + 1 };
            assert(entries[ww].key == id);
            if id == entries[i].key {
                if ww < i {
                    assert(repeats_at(entries, i));
                } else {
                    assert(repeats_at(entries, ww));
                }
            }
            lemma_entries_map_value(rest, w);
            lemma_entries_map_value(entries, ww);
        }
        if entries_map(entries).contains_key(id) && id != entries[i].key {
            let ww = choose|ww: int| 0 <= ww < entries.len() && #[trigger] entries[ww].key == id;
            let w = if ww < i { ww } else { ww - 1 };
            assert(rest[w].key == id);
        }
    }
    assert(entries_map(rest) =~= entries_map(entries).remove(entries[i].key));
}

/// Adding an entry for a key that the list does not define yet.
pub proof fn lemma_entries_map_push(entries: Seq<MappingEntry>, entry: MappingEntry)
    requires
        distinct_keys(entries),
        !entries_map(entries).contains_key(entry.key),
    ensures
        distinct_keys(entries.push(entry)),
        entries_map(entries.push(entry)) == entries_map(entries).insert(entry.key, entry.target),
{
    let more = entries.push(entry);
    assert(more.drop_last() =~= entries);
    lemma_entries_map_keys(entries, entry.key);
    assert forall|j: int| 0 <= j < more.len() implies !#[trigger] repeats_at(more, j) by {
        if repeats_at(more, j) {
            let w = choose|w: int| 0 <= w < j && #[trigger] more[w].key == more[j].key;
            if j < entries.len() {
                assert(entries[w].key == entries[j].key);
                assert(repeats_at(entries, j));
            } else {
                assert(entries[w].key == entry.key);
            }
        }
    }
}

/// A list without repeated keys defines as many keys as it has entries.
pub proof fn lemma_entries_map_len(entries: Seq<MappingEntry>)
    requires
        distinct_keys(entries),
    ensures
        entries_map(entries).dom().finite(),
        entries_map(entries).dom().len() == entries.len(),
    decreases entries.len(),
{
    if entries.len() > 0 {
        let front = entries.drop_last();
        let last = entries.len() - 1;
        assert forall|j: int| 0 <= j < front.len() implies !#[trigger] repeats_at(front, j) by {
            if repeats_at(front, j) {
                let w = choose|w: int| 0 <= w < j && #[trigger] front[w].key == front[j].key;
                assert(entries[w].key == entries[j].key);
                assert(repeats_at(entries, j));
            }
        }
        lemma_entries_map_len(front);
        lemma_entries_map_keys(front, entries[last].key);
        if entries_map(front).contains_key(entries[last].key) {
            let i = choose|i: int| 0 <= i < front.len() && #[trigger] front[i].key == entries[last].key;
            assert(entries[i].key == entries[last].key);
            assert(repeats_at(entries, last));
        }
    }
}

} // verus!
