use vstd::prelude::*;

use std::collections::hash_map::DefaultHasher;
use std::hash::Hasher;
use vstd::std_specs::hash::DefaultHasherAdditionalSpecFns;

use crate::erased::{DropFn, Dropped, Erased};
use crate::layout::{spec_storage_for, StorageKind, TypeDesc};

verus! {

/// A borrowed view of a key's bytes, used for lookups.
#[derive(Clone, Copy)]
pub struct ErasedKeyRef<'a>(pub &'a [u8]);

/// A storage cell used as a map key.
pub struct ErasedKey(pub Erased);

/// A storage cell used as a map value.
pub struct ErasedValue(pub Erased);

impl core::ops::Deref for ErasedKey {
    type Target = Erased;

    fn deref(&self) -> &Erased {
        &self.0
    }
}

impl core::ops::Deref for ErasedValue {
    type Target = Erased;

    fn deref(&self) -> &Erased {
        &self.0
    }
}

/// One resident entry of the table.
pub(crate) struct HashTableEntry {
    pub(crate) key: ErasedKey,
    pub(crate) value: ErasedValue,
}

/// The hash of a key: its bytes fed once into a fresh `DefaultHasher`.
pub open spec fn spec_key_hash(bytes: Seq<u8>) -> u64 {
    DefaultHasher::spec_finish(seq![bytes])
}

/// Hashes the bytes of a key with a fresh hasher.
pub fn key_hash(bytes: &[u8]) -> (r: u64)
    ensures
        r == spec_key_hash(bytes@),
{
    let mut hasher = DefaultHasher::new();
    hasher.write(bytes);
    hasher.finish()
}

/// Whether an entry's key holds exactly the given bytes.
pub(crate) fn entry_matches(entry: &HashTableEntry, key: &[u8]) -> (r: bool)
    ensures
        r == (entry.key.0@ == key@),
{
    let stored = entry.key.0.as_ptr();
    if stored.len() != key.len() {
        return false;
    }
    let mut i: usize = 0;
    while i < key.len()
        invariant
            stored@ == entry.key.0@,
            stored@.len() == key@.len(),
            i <= key@.len(),
            forall|j: int| 0 <= j < i ==> stored@[j] == key@[j],
        decreases key@.len() - i,
    {
        if stored[i] != key[i] {
            assert(stored@[i as int] != key@[i as int]);
            return false;
        }
        i = i + 1;
    }
    assert(stored@ =~= key@);
    true
}

/// The hash an entry was inserted with.
pub(crate) fn entry_hash(entry: &HashTableEntry) -> (r: u64)
    ensures
        r == spec_key_hash(entry.key.0@),
{
    key_hash(entry.key.0.as_ptr())
}

/// hashbrown's raw table of entries, each inserted under the hash of its key.
/// `HashTable` takes an allocator parameter bounded by a trait of another
/// crate, so Verus cannot be given the type itself; it is held here instead,
/// and reached only through the methods below.
#[verifier::external_body]
pub struct EntryTable {
    table: hashbrown::HashTable<HashTableEntry>,
}

/// The entries of the table, from the bytes of each key to the bytes of its
/// value.
pub uninterp spec fn table_contents(t: EntryTable) -> Map<Seq<u8>, Seq<u8>>;

/// How each entry's cells are laid out: from the bytes of each key to
/// whether its key cell and its value cell are boxed.
pub uninterp spec fn table_layouts(t: EntryTable) -> Map<Seq<u8>, (bool, bool)>;

/// Whether a cell keeps its value in a heap block.
pub open spec fn is_boxed(cell: Erased) -> bool {
    cell.kind() == StorageKind::Boxed
}

impl EntryTable {
    /// Relies on hashbrown's `HashTable::new`: an empty table.
    #[verifier::external_body]
    fn new() -> (r: EntryTable)
        ensures
            table_contents(r).dom() == Set::<Seq<u8>>::empty(),
            table_contents(r).dom().finite(),
            table_layouts(r).dom() == Set::<Seq<u8>>::empty(),
    {
        EntryTable { table: hashbrown::HashTable::new() }
    }

    /// Relies on hashbrown's `HashTable::len`: the number of entries.
    #[verifier::external_body]
    fn len(&self) -> (r: usize)
        ensures
            r == table_contents(*self).len(),
        opens_invariants none
        no_unwind
    {
        self.table.len()
    }

    /// Relies on hashbrown's `HashTable::find`: the entry stored under `hash`
    /// whose key matches, if there is one.
    #[verifier::external_body]
    fn find(&self, hash: u64, key: &[u8]) -> (r: Option<&HashTableEntry>)
        requires
            hash == spec_key_hash(key@),
        ensures
            r is Some <==> table_contents(*self).contains_key(key@),
            r matches Some(e) ==> e.key.0@ == key@ && e.value.0@ == table_contents(*self)[key@],
    {
        self.table.find(hash, |e| entry_matches(e, key))
    }

    /// Relies on hashbrown's `HashTable::find_mut`: the value of the entry
    /// stored under `hash` whose key matches, open for writing.
    #[verifier::external_body]
    fn find_value_mut(&mut self, hash: u64, key: &[u8]) -> (r: Option<&mut ErasedValue>)
        requires
            hash == spec_key_hash(key@),
        ensures
            r is Some <==> table_contents(*old(self)).contains_key(key@),
            r is None ==> *final(self) == *old(self),
            r matches Some(v) ==> v.0@ == table_contents(*old(self))[key@]
                && table_contents(*final(self)) == table_contents(*old(self)).insert(key@, final(v).0@)
                && table_contents(*final(self)).dom().finite()
                && table_layouts(*final(self)) == table_layouts(*old(self)).insert(
                key@,
                (table_layouts(*old(self))[key@].0, is_boxed(final(v).0)),
            ),
    {
        self.table.find_mut(hash, |e| entry_matches(e, key)).map(|e| &mut e.value)
    }

    /// Relies on hashbrown's `HashTable::insert_unique`: adds an entry whose
    /// key is not yet present, under the hash of its key; entries moved while
    /// the table grows are rehashed by the same function.
    #[verifier::external_body]
    fn insert_unique(&mut self, hash: u64, entry: HashTableEntry)
        requires
            hash == spec_key_hash(entry.key.0@),
            !table_contents(*old(self)).contains_key(entry.key.0@),
        ensures
            table_contents(*final(self)) == table_contents(*old(self)).insert(
                entry.key.0@,
                entry.value.0@,
            ),
            table_contents(*final(self)).dom().finite(),
            table_layouts(*final(self)) == table_layouts(*old(self)).insert(
                entry.key.0@,
                (is_boxed(entry.key.0), is_boxed(entry.value.0)),
            ),
    {
        self.table.insert_unique(hash, entry, |e| entry_hash(e));
    }

    /// Relies on hashbrown's `HashTable::iter`: a walk over every entry,
    /// each once, left in place.
    #[verifier::external_body]
    fn iter(&self) -> (r: EntryIter<'_>)
        ensures
            iter_rest(r).len() == table_contents(*self).len(),
            forall|i: int|
                0 <= i < iter_rest(r).len() ==> #[trigger] table_contents(*self).contains_key(
                    iter_rest(r)[i].0,
                ) && table_layouts(*self).contains_key(iter_rest(r)[i].0) && table_layouts(
                    *self,
                )[iter_rest(r)[i].0] == (iter_rest(r)[i].1, iter_rest(r)[i].2),
        opens_invariants none
        no_unwind
    {
        EntryIter { it: self.table.iter() }
    }
}

/// hashbrown's walk over the entries of a table.
#[verifier::external_body]
pub struct EntryIter<'a> {
    it: hashbrown::hash_table::Iter<'a, HashTableEntry>,
}

/// The entries a walk has still to visit: the bytes of each key, and
/// whether its key cell and its value cell are boxed.
pub uninterp spec fn iter_rest(it: EntryIter) -> Seq<(Seq<u8>, bool, bool)>;

impl<'a> EntryIter<'a> {
    /// Relies on hashbrown's `Iter::next`: the next entry of the walk, or
    /// `None` once every entry has been visited.
    #[verifier::external_body]
    fn next(&mut self) -> (r: Option<&'a HashTableEntry>)
        ensures
            iter_rest(*old(self)).len() == 0 ==> r is None,
            iter_rest(*old(self)).len() > 0 ==> r is Some,
            r is None ==> iter_rest(*final(self)) == iter_rest(*old(self)),
            r matches Some(e) ==> iter_rest(*old(self)).len() > 0 && iter_rest(*final(self))
                == iter_rest(*old(self)).drop_first() && iter_rest(*old(self))[0] == (
                e.key.0@,
                is_boxed(e.key.0),
                is_boxed(e.value.0),
            ),
        opens_invariants none
        no_unwind
    {
        self.it.next()
    }
}

/// Runs one cell's destruction routine, if its type has one.
fn destroy_cell(drop_fn: &Option<DropFn>, cell: &Erased) -> (r: Dropped)
    ensures
        r.destructor_ran == (drop_fn matches Some(f) && f.run_destructor),
        r.heap_released == (drop_fn is Some && is_boxed(*cell)),
    opens_invariants none
    no_unwind
{
    match drop_fn {
        Some(f) => f.call(cell),
        None => Dropped { destructor_ran: false, heap_released: false },
    }
}

/// The account of a destruction pass over a table: destructor runs and heap
/// releases, for keys and for values (see [`Dropped`]).
#[derive(Clone, Copy, Debug, PartialEq, Eq, Structural)]
pub struct Teardown {
    pub key_destructors: usize,
    pub value_destructors: usize,
    pub key_heap_releases: usize,
    pub value_heap_releases: usize,
}

/// The erased table: keys and values of types known only through their
/// descriptors, hashed and compared by their bytes.
pub struct ErasedHashMap {
    hash_table: EntryTable,
}

impl View for ErasedHashMap {
    type V = Map<Seq<u8>, Seq<u8>>;

    /// From the bytes of each resident key to the bytes of its value.
    closed spec fn view(&self) -> Map<Seq<u8>, Seq<u8>> {
        table_contents(self.hash_table)
    }
}

impl Default for ErasedHashMap {
    /// An empty table.
    fn default() -> (r: ErasedHashMap)
        ensures
            r@.dom() == Set::<Seq<u8>>::empty(),
    {
        ErasedHashMap::new()
    }
}

impl ErasedHashMap {
    /// For each resident key, whether its key cell and its value cell are
    /// boxed.
    pub closed spec fn layouts(&self) -> Map<Seq<u8>, (bool, bool)> {
        table_layouts(self.hash_table)
    }

    /// Every resident key cell is laid out as `key_desc` dictates and every
    /// value cell as `value_desc` does: the cells were made from them.
    pub open spec fn laid_out_by(&self, key_desc: TypeDesc, value_desc: TypeDesc) -> bool {
        forall|k: Seq<u8>| #[trigger]
            self@.contains_key(k) ==> self.layouts().contains_key(k) && self.layouts()[k] == (
                spec_storage_for(key_desc) == StorageKind::Boxed,
                spec_storage_for(value_desc) == StorageKind::Boxed,
            )
    }

    /// An empty table.
    pub fn new() -> (r: ErasedHashMap)
        ensures
            r@.dom() == Set::<Seq<u8>>::empty(),
            r@.dom().finite(),
            r.layouts().dom() == Set::<Seq<u8>>::empty(),
    {
        ErasedHashMap { hash_table: EntryTable::new() }
    }

    /// The number of resident entries.
    pub fn len(&self) -> (r: usize)
        ensures
            r == self@.len(),
    {
        self.hash_table.len()
    }

    /// Stores `value` under `key`. When the key is already present the new
    /// value takes the old one's place, the new key cell is let go, and the
    /// displaced value is handed back for the caller to destroy.
    pub fn insert(&mut self, key: ErasedKey, key_desc: &TypeDesc, value: ErasedValue) -> (r:
        Option<ErasedValue>)
        requires
            key_desc.is_key_type(),
        ensures
            final(self)@ == old(self)@.insert(key.0@, value.0@),
            final(self)@.dom().finite(),
            r is Some <==> old(self)@.contains_key(key.0@),
            r matches Some(o) ==> o.0@ == old(self)@[key.0@],
            r is None ==> final(self).layouts() == old(self).layouts().insert(
                key.0@,
                (is_boxed(key.0), is_boxed(value.0)),
            ),
            r is Some ==> final(self).layouts() == old(self).layouts().insert(
                key.0@,
                (old(self).layouts()[key.0@].0, is_boxed(value.0)),
            ),
    {
        let hash = key_hash(key.0.as_ptr());
        match self.hash_table.find_value_mut(hash, key.0.as_ptr()) {
            Some(slot) => {
                let mut displaced = value;
                core::mem::swap(slot, &mut displaced);
                Some(displaced)
            },
            None => {
                self.hash_table.insert_unique(hash, HashTableEntry { key, value });
                None
            },
        }
    }

    /// The value stored under the key whose bytes `key_ref` views.
    pub fn get(&self, key_ref: ErasedKeyRef, key_desc: &TypeDesc) -> (r: Option<&ErasedValue>)
        requires
            key_desc.is_key_type(),
        ensures
            r is Some <==> self@.contains_key(key_ref.0@),
            r matches Some(v) ==> v.0@ == self@[key_ref.0@],
    {
        let hash = key_hash(key_ref.0);
        match self.hash_table.find(hash, key_ref.0) {
            Some(entry) => Some(&entry.value),
            None => None,
        }
    }

    /// Destroys every resident key and value in place with the routines of
    /// their descriptors; the entries themselves stay until the table goes.
    /// This is to run once, just before the table is dropped.
    pub fn drop_keys_and_values(&self, key_desc: &TypeDesc, value_desc: &TypeDesc) -> (r:
        Teardown)
        requires
            key_desc.sized,
            value_desc.sized,
        ensures
            r.key_destructors == (if key_desc.has_drop { self@.len() } else { 0 }),
            r.value_destructors == (if value_desc.has_drop { self@.len() } else { 0 }),
            self.laid_out_by(*key_desc, *value_desc) ==> r.key_heap_releases == (if spec_storage_for(
                *key_desc,
            ) == StorageKind::Boxed {
                self@.len()
            } else {
                0
            }),
            self.laid_out_by(*key_desc, *value_desc) ==> r.value_heap_releases == (
            if spec_storage_for(*value_desc) == StorageKind::Boxed {
                self@.len()
            } else {
                0
            }),
        opens_invariants none
        no_unwind
    {
        let drop_key = Erased::drop_fn(key_desc);
        let drop_value = Erased::drop_fn(value_desc);
        let count = self.hash_table.len();
        let mut entries = self.hash_table.iter();
        let ghost total = self@.len();
        proof {
            assert forall|j: int|
                0 <= j < iter_rest(entries).len() implies #[trigger] self@.contains_key(
                iter_rest(entries)[j].0,
            ) && self.layouts().contains_key(iter_rest(entries)[j].0)
                && self.layouts()[iter_rest(entries)[j].0] == (
                iter_rest(entries)[j].1,
                iter_rest(entries)[j].2,
            ) by {
                assert(table_contents(self.hash_table).contains_key(iter_rest(entries)[j].0));
            }
        }
        let ghost key_boxed = spec_storage_for(*key_desc) == StorageKind::Boxed;
        let ghost value_boxed = spec_storage_for(*value_desc) == StorageKind::Boxed;
        let mut key_destructors: usize = 0;
        let mut value_destructors: usize = 0;
        let mut key_heap_releases: usize = 0;
        let mut value_heap_releases: usize = 0;
        loop
            invariant
                iter_rest(entries).len() <= total,
                total == self@.len(),
                total == count,
                key_destructors == (if key_desc.has_drop { total - iter_rest(entries).len() } else { 0 }),
                value_destructors == (if value_desc.has_drop { total - iter_rest(entries).len() } else { 0 }),
                self.laid_out_by(*key_desc, *value_desc) ==> key_heap_releases == (if key_boxed {
                    total - iter_rest(entries).len()
                } else {
                    0
                }),
                self.laid_out_by(*key_desc, *value_desc) ==> value_heap_releases == (
                if value_boxed {
                    total - iter_rest(entries).len()
                } else {
                    0
                }),
                key_heap_releases <= total - iter_rest(entries).len(),
                value_heap_releases <= total - iter_rest(entries).len(),
                key_boxed == (spec_storage_for(*key_desc) == StorageKind::Boxed),
                value_boxed == (spec_storage_for(*value_desc) == StorageKind::Boxed),
                drop_key is None <==> (spec_storage_for(*key_desc) == StorageKind::Inline
                    && !key_desc.has_drop),
                drop_key matches Some(f) ==> f.run_destructor == key_desc.has_drop,
                drop_value is None <==> (spec_storage_for(*value_desc) == StorageKind::Inline
                    && !value_desc.has_drop),
                drop_value matches Some(f) ==> f.run_destructor == value_desc.has_drop,
                forall|j: int|
                    0 <= j < iter_rest(entries).len() ==> #[trigger] self@.contains_key(
                        iter_rest(entries)[j].0,
                    ) && self.layouts().contains_key(iter_rest(entries)[j].0)
                        && self.layouts()[iter_rest(entries)[j].0] == (
                        iter_rest(entries)[j].1,
                        iter_rest(entries)[j].2,
                    ),
            ensures
                iter_rest(entries).len() == 0,
                key_destructors == (if key_desc.has_drop { total } else { 0 }),
                value_destructors == (if value_desc.has_drop { total } else { 0 }),
                self.laid_out_by(*key_desc, *value_desc) ==> key_heap_releases == (if key_boxed {
                    total
                } else {
                    0
                }),
                self.laid_out_by(*key_desc, *value_desc) ==> value_heap_releases == (
                if value_boxed {
                    total
                } else {
                    0
                }),
            decreases iter_rest(entries).len(),
        {
            let ghost rest = iter_rest(entries);
            match entries.next() {
                None => {
                    break;
                },
                Some(entry) => {
                    proof {
                        assert(self@.contains_key(rest[0].0));
                        assert forall|j: int|
                            0 <= j < iter_rest(entries).len() implies #[trigger] self@.contains_key(
                            iter_rest(entries)[j].0,
                        ) && self.layouts().contains_key(iter_rest(entries)[j].0)
                            && self.layouts()[iter_rest(entries)[j].0] == (
                            iter_rest(entries)[j].1,
                            iter_rest(entries)[j].2,
                        ) by {
                            assert(iter_rest(entries)[j] == rest[j + 1]);
                            assert(self@.contains_key(rest[j + 1].0));
                        }
                    }
                    let k = destroy_cell(&drop_key, &entry.key.0);
                    let v = destroy_cell(&drop_value, &entry.value.0);
                    if k.destructor_ran {
                        key_destructors = key_destructors + 1;
                    }
                    if v.destructor_ran {
                        value_destructors = value_destructors + 1;
                    }
                    if k.heap_released {
                        key_heap_releases = key_heap_releases + 1;
                    }
                    if v.heap_released {
                        value_heap_releases = value_heap_releases + 1;
                    }
                },
            }
        }
        Teardown { key_destructors, value_destructors, key_heap_releases, value_heap_releases }
    }
}

} // verus!
