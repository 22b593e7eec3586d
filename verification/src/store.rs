//! The key store: one encoded record per principal.
//!
//! Identifiers are unique within a store. Writing under an identifier that is
//! already present replaces the record that was there; nothing is merged and
//! no earlier version is kept. Nothing is ever removed.

use vstd::prelude::*;

verus! {

/// The identifier of a principal in a key store.
#[derive(Clone, Copy, Debug, PartialEq, Eq, Structural)]
pub enum KeyId {
    /// The trust anchor.
    Root,
    /// The key that the root attests and that attests journalists.
    Intermediate,
    /// A journalist, by number.
    Journalist(u32),
}

/// One stored record with its identifier.
struct StoreEntry {
    id: KeyId,
    record: Vec<u8>,
}

/// Whether some entry carries `id`.
spec fn holds(entries: Seq<StoreEntry>, id: KeyId) -> bool {
    exists|i: int| 0 <= i < entries.len() && (#[trigger] entries[i]).id == id
}

/// The place of an entry that carries `id`.
spec fn slot(entries: Seq<StoreEntry>, id: KeyId) -> int {
    choose|i: int| 0 <= i < entries.len() && (#[trigger] entries[i]).id == id
}

/// No identifier occurs twice.
spec fn distinct(entries: Seq<StoreEntry>) -> bool {
    forall|i: int, j: int|
        0 <= i < j < entries.len() ==> (#[trigger] entries[i]).id != (#[trigger] entries[j]).id
}

/// The records by identifier.
spec fn as_map(entries: Seq<StoreEntry>) -> Map<KeyId, Seq<u8>> {
    Map::new(|id: KeyId| holds(entries, id), |id: KeyId| entries[slot(entries, id)].record@)
}

/// Where identifiers are unique, an identifier is found at its own place.
proof fn lemma_slot(entries: Seq<StoreEntry>, i: int)
    requires
        distinct(entries),
        0 <= i < entries.len(),
    ensures
        holds(entries, entries[i].id),
        slot(entries, entries[i].id) == i,
{
    let found = slot(entries, entries[i].id);
    assert(0 <= found < entries.len() && entries[found].id == entries[i].id);
    if found < i {
        assert(entries[found].id != entries[i].id);
    } else if i < found {
        assert(entries[i].id != entries[found].id);
    }
}

/// Appending a record under a new identifier inserts it.
proof fn lemma_append(entries: Seq<StoreEntry>, entry: StoreEntry)
    requires
        distinct(entries),
        !holds(entries, entry.id),
    ensures
        distinct(entries.push(entry)),
        as_map(entries.push(entry)) == as_map(entries).insert(entry.id, entry.record@),
{
    let longer = entries.push(entry);
    assert forall|i: int, j: int| 0 <= i < j < longer.len() implies (#[trigger] longer[i]).id != (
    #[trigger] longer[j]).id by {
        if j == entries.len() {
            assert(entries[i].id != entry.id);
        } else {
            assert(entries[i].id != entries[j].id);
        }
    }
    assert forall|id: KeyId| holds(longer, id) <==> (id == entry.id || holds(entries, id)) by {
        if holds(longer, id) {
            let i = slot(longer, id);
            if i < entries.len() {
                assert(entries[i].id == id);
            }
        }
        if id == entry.id {
            assert(longer[entries.len() as int].id == id);
        }
        if holds(entries, id) {
            let i = slot(entries, id);
            assert(longer[i].id == id);
        }
    }
    assert forall|id: KeyId| holds(longer, id) implies #[trigger] as_map(longer)[id] == as_map(
        entries,
    ).insert(entry.id, entry.record@)[id] by {
        if id == entry.id {
            lemma_slot(longer, entries.len() as int);
        } else {
            let i = slot(entries, id);
            lemma_slot(longer, i);
        }
    }
    assert(as_map(longer) =~= as_map(entries).insert(entry.id, entry.record@));
}

/// Replacing the record at the place of its identifier overwrites it.
proof fn lemma_replace(entries: Seq<StoreEntry>, i: int, entry: StoreEntry)
    requires
        distinct(entries),
        0 <= i < entries.len(),
        entries[i].id == entry.id,
    ensures
        distinct(entries.update(i, entry)),
        as_map(entries.update(i, entry)) == as_map(entries).insert(entry.id, entry.record@),
{
    let changed = entries.update(i, entry);
    assert forall|a: int, b: int| 0 <= a < b < changed.len() implies (#[trigger] changed[a]).id != (
    #[trigger] changed[b]).id by {
        assert(entries[a].id != entries[b].id);
    }
    assert forall|id: KeyId| holds(changed, id) <==> holds(entries, id) by {
        if holds(changed, id) {
            let k = slot(changed, id);
            assert(entries[k].id == id);
        }
        if holds(entries, id) {
            let k = slot(entries, id);
            assert(changed[k].id == id);
        }
    }
    assert(holds(entries, entry.id)) by {
        lemma_slot(entries, i);
    }
    assert forall|id: KeyId| holds(changed, id) implies #[trigger] as_map(changed)[id] == as_map(
        entries,
    ).insert(entry.id, entry.record@)[id] by {
        let k = slot(entries, id);
        lemma_slot(entries, k);
        lemma_slot(changed, k);
    }
    assert(as_map(changed) =~= as_map(entries).insert(entry.id, entry.record@));
}

/// A key store held in memory.
pub struct KeyStore {
    entries: Vec<StoreEntry>,
}

impl View for KeyStore {
    type V = Map<KeyId, Seq<u8>>;

    closed spec fn view(&self) -> Map<KeyId, Seq<u8>> {
        as_map(self.entries@)
    }
}

impl KeyStore {
    #[verifier::type_invariant]
    spec fn unique_identifiers(self) -> bool {
        distinct(self.entries@)
    }

    /// A store without records.
    pub fn new() -> (store: KeyStore)
        ensures
            store@ == Map::<KeyId, Seq<u8>>::empty(),
    {
        let store = KeyStore { entries: Vec::new() };
        assert(store@ =~= Map::<KeyId, Seq<u8>>::empty());
        store
    }

    /// The place of the record stored under `id`, if there is one.
    fn find(&self, id: KeyId) -> (place: Option<usize>)
        ensures
            match place {
                Some(i) => i < self.entries@.len() && self.entries@[i as int].id == id,
                None => !holds(self.entries@, id),
            },
    {
        let mut i: usize = 0;
        while i < self.entries.len()
            invariant
                i <= self.entries@.len(),
                forall|j: int| 0 <= j < i ==> (#[trigger] self.entries@[j]).id != id,
            decreases self.entries@.len() - i,
        {
            if self.entries[i].id == id {
                return Some(i);
            }
            i += 1;
        }
        None
    }

    /// Whether a record is stored under `id`.
    pub fn contains(&self, id: KeyId) -> (present: bool)
        ensures
            present == self@.dom().contains(id),
    {
        self.find(id).is_some()
    }

    /// The record stored under `id`, if there is one.
    pub fn get(&self, id: KeyId) -> (record: Option<&Vec<u8>>)
        ensures
            match record {
                Some(record) => self@.dom().contains(id) && record@ == self@[id],
                None => !self@.dom().contains(id),
            },
    {
        proof {
            use_type_invariant(self);
        }
        match self.find(id) {
            Some(i) => {
                proof {
                    lemma_slot(self.entries@, i as int);
                }
                Some(&self.entries[i].record)
            },
            None => None,
        }
    }

    /// Stores `record` under `id`. A record that was stored under `id` before
    /// is replaced; every other record stays as it is.
    pub fn put(&mut self, id: KeyId, record: Vec<u8>)
        ensures
            final(self)@ == old(self)@.insert(id, record@),
    {
        proof {
            use_type_invariant(&*self);
        }
        let place = self.find(id);
        let entry = StoreEntry { id, record };
        let mut entries: Vec<StoreEntry> = Vec::new();
        core::mem::swap(&mut self.entries, &mut entries);
        match place {
            Some(i) => {
                proof {
                    lemma_replace(entries@, i as int, entry);
                }
                entries[i] = entry;
            },
            None => {
                proof {
                    lemma_append(entries@, entry);
                }
                entries.push(entry);
            },
        }
        core::mem::swap(&mut self.entries, &mut entries);
    }

    /// The identifiers under which records are stored, each once, in the
    /// order in which they were first written.
    pub fn ids(&self) -> (ids: Vec<KeyId>)
        ensures
            ids@.no_duplicates(),
            forall|id: KeyId| ids@.contains(id) <==> self@.dom().contains(id),
    {
        proof {
            use_type_invariant(self);
        }
        let mut ids: Vec<KeyId> = Vec::new();
        let mut i: usize = 0;
        while i < self.entries.len()
            invariant
                i <= self.entries@.len(),
                ids@.len() == i,
                forall|j: int| 0 <= j < i ==> ids@[j] == (#[trigger] self.entries@[j]).id,
            decreases self.entries@.len() - i,
        {
            ids.push(self.entries[i].id);
            i += 1;
        }
        proof {
            assert forall|a: int, b: int| 0 <= a < ids@.len() && 0 <= b < ids@.len() && a
                != b implies ids@[a] != ids@[b] by {
                if a < b {
                    assert(self.entries@[a].id != self.entries@[b].id);
                } else {
                    assert(self.entries@[b].id != self.entries@[a].id);
                }
            }
            assert forall|id: KeyId| ids@.contains(id) <==> self@.dom().contains(id) by {
                if ids@.contains(id) {
                    let j = choose|j: int| 0 <= j < ids@.len() && ids@[j] == id;
                    assert(self.entries@[j].id == id);
                }
                if holds(self.entries@, id) {
                    let j = slot(self.entries@, id);
                    assert(ids@[j] == id);
                }
            }
        }
        ids
    }
}

} // verus!
