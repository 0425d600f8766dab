use vstd::prelude::*;

use crate::erased::Erased;
use crate::erased_hashmap::{ErasedHashMap, ErasedKey, ErasedKeyRef, ErasedValue};
use crate::layout::{spec_storage_for, StorageKind};
use crate::storable::Storable;

verus! {

/// The typed map: fixes the key and value types for its whole life and
/// stores both through the erased table. When it is dropped, every resident
/// key and value is destroyed once with its type's routine.
pub struct FacetHashMap<K: Storable, V: Storable> {
    hash_map: ErasedHashMap,
    key_desc: crate::layout::TypeDesc,
    value_desc: crate::layout::TypeDesc,
    _marker: core::marker::PhantomData<(K, V)>,
}

impl<K: Storable, V: Storable> View for FacetHashMap<K, V> {
    type V = Map<Seq<u8>, Seq<u8>>;

    /// From the image of each resident key to the image of its value.
    closed spec fn view(&self) -> Map<Seq<u8>, Seq<u8>> {
        self.hash_map@
    }
}

impl<K: Storable, V: Storable> Default for FacetHashMap<K, V> {
    /// An empty map.
    fn default() -> (r: Self)
        ensures
            r.wf(),
            r@.dom() == Set::<Seq<u8>>::empty(),
    {
        FacetHashMap::new()
    }
}

impl<K: Storable, V: Storable> FacetHashMap<K, V> {
    /// The map holds finitely many entries; its descriptors are those of `K`
    /// and `V`; every cell is laid out by them; and every resident key and
    /// value is the image of a value of its type.
    pub closed spec fn wf(&self) -> bool {
        &&& self.hash_map@.dom().finite()
        &&& self.key_desc == K::spec_descriptor()
        &&& self.value_desc == V::spec_descriptor()
        &&& self.hash_map.laid_out_by(K::spec_descriptor(), V::spec_descriptor())
        &&& forall|k: Seq<u8>| #[trigger]
            self.hash_map@.contains_key(k) ==> exists|v: V| v.image() == self.hash_map@[k]
        &&& forall|k: Seq<u8>| #[trigger]
            self.hash_map@.contains_key(k) ==> exists|w: K| w.image() == k
    }

    /// An empty map.
    pub fn new() -> (r: Self)
        ensures
            r.wf(),
            r@.dom() == Set::<Seq<u8>>::empty(),
    {
        FacetHashMap {
            hash_map: ErasedHashMap::new(),
            key_desc: K::descriptor(),
            value_desc: V::descriptor(),
            _marker: core::marker::PhantomData,
        }
    }

    /// The number of resident entries.
    pub fn len(&self) -> (r: usize)
        requires
            self.wf(),
        ensures
            r == self@.len(),
            self@.dom().finite(),
    {
        self.hash_map.len()
    }

    /// Stores `value` under `key`, handing back the value it displaces.
    pub fn insert(&mut self, key: K, value: V) -> (r: Option<V>)
        requires
            old(self).wf(),
            K::spec_descriptor().is_key_type(),
        ensures
            final(self).wf(),
            final(self)@ == old(self)@.insert(key.image(), value.image()),
            r is Some <==> old(self)@.contains_key(key.image()),
            r matches Some(o) ==> o.image() == old(self)@[key.image()],
            r matches Some(o) ==> forall|w: V| #[trigger]
                w.image() == old(self)@[key.image()] ==> o@ == w@,
    {
        let erased_key = ErasedKey(Erased::new(key));
        let erased_value = ErasedValue(Erased::new(value));
        let displaced = self.hash_map.insert(erased_key, &self.key_desc, erased_value);
        proof {
            assert forall|k: Seq<u8>| #[trigger] self.hash_map@.contains_key(k) implies exists|
                v: V,
            | v.image() == self.hash_map@[k] by {
                if k == key.image() {
                    assert(value.image() == self.hash_map@[k]);
                } else {
                    assert(old(self).hash_map@.contains_key(k));
                }
            }
            assert forall|k: Seq<u8>| #[trigger] self.hash_map@.contains_key(k) implies exists|
                w: K,
            | w.image() == k by {
                if k == key.image() {
                    assert(key.image() == k);
                } else {
                    assert(old(self).hash_map@.contains_key(k));
                }
            }
            assert forall|k: Seq<u8>| #[trigger] self.hash_map@.contains_key(k) implies self.hash_map.layouts().contains_key(k) && self.hash_map.layouts()[k] == (
                spec_storage_for(K::spec_descriptor()) == StorageKind::Boxed,
                spec_storage_for(V::spec_descriptor()) == StorageKind::Boxed,
            ) by {
                if k != key.image() {
                    assert(old(self).hash_map@.contains_key(k));
                }
            }
        }
        match displaced {
            Some(old_value) => {
                assert(old(self).hash_map@.contains_key(key.image()));
                Some(old_value.0.into_typed())
            },
            None => None,
        }
    }

    /// A copy of the value stored under `key`, rebuilt from its cell.
    pub fn get(&self, key: &K) -> (r: Option<V>)
        requires
            self.wf(),
            K::spec_descriptor().is_key_type(),
        ensures
            r is Some <==> self@.contains_key(key.image()),
            r matches Some(v) ==> v.image() == self@[key.image()],
            r matches Some(v) ==> forall|w: V| #[trigger] w.image() == self@[key.image()] ==> v@ == w@,
    {
        let key_image = key.to_image();
        match self.hash_map.get(ErasedKeyRef(key_image.as_slice()), &self.key_desc) {
            Some(value) => {
                assert(self.hash_map@.contains_key(key.image()));
                Some(V::from_image(value.0.as_ptr()))
            },
            None => None,
        }
    }
}

impl<K: Storable, V: Storable> Drop for FacetHashMap<K, V> {
    /// Runs the destruction pass over every resident key and value before
    /// the table's own storage goes. The descriptors come from `K` and `V`,
    /// which are always sized.
    fn drop(&mut self)
        opens_invariants none
        no_unwind
    {
        if self.key_desc.sized && self.value_desc.sized {
            self.hash_map.drop_keys_and_values(&self.key_desc, &self.value_desc);
        }
    }
}

} // verus!
