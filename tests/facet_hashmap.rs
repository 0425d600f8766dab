use facet_hashmap::erased::Erased;
use facet_hashmap::erased_hashmap::{key_hash, ErasedHashMap, ErasedKey, ErasedKeyRef, ErasedValue};
use facet_hashmap::facet_hashmap::FacetHashMap;
use facet_hashmap::layout::{storage_for, StorageKind, TypeDesc};
use facet_hashmap::storable::Storable;

fn s(text: &str) -> String {
    text.to_string()
}

#[test]
fn string_keys_and_values() {
    let mut map: FacetHashMap<String, String> = FacetHashMap::new();
    assert_eq!(map.insert(s("key1"), s("value1")), None);
    assert_eq!(map.insert(s("key2"), s("value2")), None);
    assert_eq!(map.get(&s("key1")), Some(s("value1")));
    assert_eq!(map.get(&s("key2")), Some(s("value2")));
    assert_eq!(map.get(&s("key3")), None);
}

#[test]
fn second_insert_returns_displaced_value() {
    let mut map: FacetHashMap<u64, String> = FacetHashMap::new();
    assert_eq!(map.insert(1u64, s("a")), None);
    assert_eq!(map.insert(1u64, s("b")), Some(s("a")));
    assert_eq!(map.get(&1u64), Some(s("b")));
    assert_eq!(map.len(), 1);
}

#[test]
fn get_sees_last_insert_of_each_key() {
    let mut map: FacetHashMap<u64, u64> = FacetHashMap::new();
    map.insert(7, 70);
    map.insert(8, 80);
    assert_eq!(map.get(&7), Some(70));
    map.insert(9, 90);
    map.insert(7, 71);
    assert_eq!(map.get(&7), Some(71));
    assert_eq!(map.get(&8), Some(80));
    assert_eq!(map.get(&9), Some(90));
}

#[test]
fn absent_keys_are_none() {
    let mut map: FacetHashMap<u64, u64> = FacetHashMap::new();
    assert_eq!(map.get(&0), None);
    map.insert(1, 10);
    map.insert(2, 20);
    assert_eq!(map.get(&3), None);
    assert_eq!(map.get(&u64::MAX), None);
}

#[test]
fn distinct_keys_count_once_each() {
    let mut map: FacetHashMap<u64, u64> = FacetHashMap::new();
    assert_eq!(map.len(), 0);
    for k in 0..100u64 {
        map.insert(k, k * 2);
    }
    assert_eq!(map.len(), 100);
    for k in 0..100u64 {
        assert_eq!(map.insert(k, k), Some(k * 2));
    }
    assert_eq!(map.len(), 100);
    assert_eq!(map.get(&42), Some(42));
}

#[test]
fn empty_and_long_strings() {
    let mut map: FacetHashMap<String, String> = FacetHashMap::new();
    let long = "x".repeat(1000);
    map.insert(s(""), s("empty key"));
    map.insert(long.clone(), s(""));
    map.insert(s("héllo wörld ✓"), s("ünïcode"));
    assert_eq!(map.get(&s("")), Some(s("empty key")));
    assert_eq!(map.get(&long), Some(s("")));
    assert_eq!(map.get(&s("héllo wörld ✓")), Some(s("ünïcode")));
    assert_eq!(map.len(), 3);
}

fn u64_to_string_table(entries: &[(u64, &str)]) -> ErasedHashMap {
    let kd = u64::descriptor();
    let mut table = ErasedHashMap::new();
    for (k, v) in entries {
        table.insert(ErasedKey(Erased::new(*k)), &kd, ErasedValue(Erased::new(v.to_string())));
    }
    table
}

#[test]
fn teardown_runs_value_destructors_once_per_entry() {
    let kd = u64::descriptor();
    let vd = String::descriptor();
    let mut table = u64_to_string_table(&[(1, "one"), (2, "two"), (3, "three")]);
    // A displaced value is handed back, not destroyed.
    let displaced = table.insert(ErasedKey(Erased::new(2u64)), &kd, ErasedValue(Erased::new(s("deux"))));
    assert_eq!(displaced.unwrap().0.into_typed::<String>(), s("two"));
    let teardown = table.drop_keys_and_values(&kd, &vd);
    assert_eq!(teardown.key_destructors, 0);
    assert_eq!(teardown.value_destructors, 3);
    assert_eq!(teardown.key_heap_releases, 0);
    assert_eq!(teardown.value_heap_releases, 3);
}

#[test]
fn teardown_leaves_entries_in_place() {
    let kd = u64::descriptor();
    let vd = String::descriptor();
    let table = u64_to_string_table(&[(1, "one"), (2, "two")]);
    table.drop_keys_and_values(&kd, &vd);
    assert_eq!(table.len(), 2);
    let k = 1u64.to_le_bytes();
    assert_eq!(table.get(ErasedKeyRef(&k), &kd).unwrap().as_ptr(), b"one");
}

#[test]
fn teardown_counts_string_keys_too() {
    let kd = String::descriptor();
    let vd = u64::descriptor();
    let mut table = ErasedHashMap::new();
    table.insert(ErasedKey(Erased::new(s("a"))), &kd, ErasedValue(Erased::new(1u64)));
    table.insert(ErasedKey(Erased::new(s("b"))), &kd, ErasedValue(Erased::new(2u64)));
    let teardown = table.drop_keys_and_values(&kd, &vd);
    assert_eq!(teardown.key_destructors, 2);
    assert_eq!(teardown.value_destructors, 0);
    assert_eq!(teardown.key_heap_releases, 2);
    assert_eq!(teardown.value_heap_releases, 0);
}

#[test]
fn teardown_of_inline_trivial_cells_does_nothing() {
    let kd = u64::descriptor();
    let mut table = ErasedHashMap::new();
    table.insert(ErasedKey(Erased::new(1u64)), &kd, ErasedValue(Erased::new(10u64)));
    let teardown = table.drop_keys_and_values(&kd, &kd);
    assert_eq!(teardown.key_destructors, 0);
    assert_eq!(teardown.value_destructors, 0);
    assert_eq!(teardown.key_heap_releases, 0);
    assert_eq!(teardown.value_heap_releases, 0);
    assert_eq!(table.len(), 1);
}

#[test]
fn teardown_of_empty_table() {
    let d = String::descriptor();
    let table = ErasedHashMap::new();
    let teardown = table.drop_keys_and_values(&d, &d);
    assert_eq!(teardown.key_destructors, 0);
    assert_eq!(teardown.value_destructors, 0);
}

#[test]
fn typed_map_drops_with_entries() {
    let mut map: FacetHashMap<String, String> = FacetHashMap::new();
    map.insert(s("k"), s("v"));
    drop(map);
}

fn desc(sized: bool, size: usize, align: usize, has_drop: bool) -> TypeDesc {
    TypeDesc { sized, size, align, hashable: true, comparable: true, has_drop }
}

#[test]
fn layout_decision() {
    assert_eq!(storage_for(&desc(true, 0, 1, false)), StorageKind::Inline);
    assert_eq!(storage_for(&desc(true, 8, 8, false)), StorageKind::Inline);
    assert_eq!(storage_for(&desc(true, 9, 8, false)), StorageKind::Boxed);
    assert_eq!(storage_for(&desc(true, 8, 16, false)), StorageKind::Boxed);
    assert_eq!(storage_for(&desc(false, 0, 1, false)), StorageKind::Boxed);
    assert_eq!(storage_for(&u64::descriptor()), StorageKind::Inline);
    assert_eq!(storage_for(&String::descriptor()), StorageKind::Boxed);
}

#[test]
fn drop_routine_selection() {
    assert!(Erased::drop_fn(&desc(true, 4, 4, false)).is_none());
    assert_eq!(Erased::drop_fn(&desc(true, 4, 4, true)).map(|f| f.run_destructor), Some(true));
    assert_eq!(Erased::drop_fn(&desc(true, 32, 8, false)).map(|f| f.run_destructor), Some(false));
    assert_eq!(Erased::drop_fn(&desc(true, 32, 8, true)).map(|f| f.run_destructor), Some(true));
}

#[test]
fn dropping_a_boxed_cell_releases_heap() {
    let boxed = desc(true, 16, 8, true);
    let f = Erased::drop_fn(&boxed).unwrap();
    let dropped = f.call(&Erased::from_image(&boxed, &[1u8; 16]));
    assert!(dropped.destructor_ran);
    assert!(dropped.heap_released);

    let inline = desc(true, 2, 2, true);
    let g = Erased::drop_fn(&inline).unwrap();
    let dropped = g.call(&Erased::from_image(&inline, &[1u8, 2]));
    assert!(dropped.destructor_ran);
    assert!(!dropped.heap_released);
}

#[test]
fn cell_round_trip_u64() {
    let d = u64::descriptor();
    for v in [0u64, 1, 255, 256, 0x0102_0304_0506_0708, u64::MAX] {
        let mut cell = Erased::uninit(&d);
        cell.write(&v.to_image());
        let cell = finish_cell(cell);
        assert_eq!(cell.as_ptr(), &v.to_le_bytes()[..]);
        assert_eq!(cell.into_typed::<u64>(), v);
    }
}

fn finish_cell(cell: facet_hashmap::erased::ErasedUninit) -> Erased {
    cell.assume_init()
}

#[test]
fn cell_round_trip_string() {
    for v in ["", "a", "a somewhat longer string than one word", "ß∂ƒ"] {
        let cell = Erased::new(v.to_string());
        assert_eq!(cell.as_ptr(), v.as_bytes());
        assert_eq!(cell.into_typed::<String>(), v.to_string());
    }
}

#[test]
fn typed_cell_round_trip() {
    for v in [3u64, 1 << 40] {
        assert_eq!(Erased::new(v).into_typed::<u64>(), v);
    }
}

#[test]
fn string_descriptor_matches_std_layout() {
    let d = String::descriptor();
    assert_eq!(d.size, std::mem::size_of::<String>());
    assert_eq!(d.align, std::mem::align_of::<String>());
    assert!(d.has_drop);
    assert!(!u64::descriptor().has_drop);
}

#[test]
fn cell_round_trip_bytes() {
    let inline = desc(true, 3, 1, false);
    let cell = Erased::from_image(&inline, &[9u8, 8, 7]);
    assert_eq!(cell.into_image(), vec![9u8, 8, 7]);
    let boxed = desc(true, 12, 4, false);
    let image: Vec<u8> = (0u8..12).collect();
    let cell = Erased::from_image(&boxed, &image);
    assert_eq!(cell.into_image(), image);
}

#[test]
fn images_of_registered_types() {
    assert_eq!(513u64.to_image(), vec![1u8, 2, 0, 0, 0, 0, 0, 0]);
    assert_eq!(s("hé").to_image(), vec![b'h', 0xc3, 0xa9]);
    assert_eq!(u64::from_image(&[1u8, 2, 0, 0, 0, 0, 0, 0]), 513);
    assert_eq!(String::from_image(&[b'h', 0xc3, 0xa9]), s("hé"));
}

#[test]
fn erased_table_insert_and_get() {
    let kd = u64::descriptor();
    let vd = String::descriptor();
    let mut table = ErasedHashMap::new();
    let key = |k: u64| ErasedKey(Erased::from_image(&kd, &k.to_le_bytes()));
    let value = |v: &str| ErasedValue(Erased::from_image(&vd, v.as_bytes()));
    assert!(table.insert(key(5), &kd, value("five")).is_none());
    assert!(table.insert(key(6), &kd, value("six")).is_none());
    let displaced = table.insert(key(5), &kd, value("FIVE")).unwrap();
    assert_eq!(displaced.0.into_image(), b"five".to_vec());
    assert_eq!(table.len(), 2);
    let k5 = 5u64.to_le_bytes();
    let found = table.get(ErasedKeyRef(&k5), &kd).unwrap();
    assert_eq!(found.0.as_ptr(), b"FIVE");
    let k7 = 7u64.to_le_bytes();
    assert!(table.get(ErasedKeyRef(&k7), &kd).is_none());
    let teardown = table.drop_keys_and_values(&kd, &vd);
    assert_eq!(teardown.key_destructors, 0);
    assert_eq!(teardown.value_destructors, 2);
    assert_eq!(teardown.value_heap_releases, 2);
    assert_eq!(table.len(), 2);
}

#[test]
fn key_hash_depends_on_bytes_only() {
    assert_eq!(key_hash(b"abc"), key_hash(&[b'a', b'b', b'c']));
    assert_ne!(key_hash(b"abc"), key_hash(b"abd"));
}

#[test]
fn descriptors_from_facet_shapes() {
    let d = TypeDesc::from_shape(<u64 as facet::Facet<'static>>::SHAPE);
    assert!(d.sized);
    assert_eq!(d.size, 8);
    assert_eq!(d.align, std::mem::align_of::<u64>());
    assert!(d.hashable);
    assert!(d.comparable);
    assert!(!d.has_drop);
    assert_eq!(d, u64::descriptor());
    let d = TypeDesc::from_shape(<String as facet::Facet<'static>>::SHAPE);
    assert!(d.sized);
    assert_eq!(d.size, std::mem::size_of::<String>());
    assert!(d.hashable);
    assert!(d.comparable);
    assert!(d.has_drop);
    assert_eq!(storage_for(&d), StorageKind::Boxed);
    assert_eq!(d, String::descriptor());
}

#[test]
fn descriptor_from_parts() {
    let d = TypeDesc::from_parts(Some((4, 4)), true, false, true);
    assert_eq!(
        d,
        TypeDesc { sized: true, size: 4, align: 4, hashable: true, comparable: false, has_drop: true }
    );
    let u = TypeDesc::from_parts(None, false, false, false);
    assert!(!u.sized);
    assert_eq!(u.size, 0);
    assert_eq!(u.align, 1);
}

#[test]
fn default_maps_are_empty_and_roles_deref_to_cells() {
    let mut map: FacetHashMap<u64, u64> = FacetHashMap::default();
    assert_eq!(map.len(), 0);
    map.insert(4, 40);
    assert_eq!(map.get(&4), Some(40));

    let kd = u64::descriptor();
    let mut table = ErasedHashMap::default();
    let key = ErasedKey(Erased::new(11u64));
    assert_eq!(key.as_ptr(), &11u64.to_le_bytes()[..]);
    assert!(table.insert(key, &kd, ErasedValue(Erased::new(s("eleven")))).is_none());
    let k = 11u64.to_le_bytes();
    let found = table.get(ErasedKeyRef(&k), &kd).unwrap();
    assert_eq!(found.as_ptr(), b"eleven");
}

#[test]
fn writes_through_mutable_view_are_kept() {
    let mut cell = Erased::new(1u64);
    cell.as_mut_ptr()[0] = 2;
    assert_eq!(cell.into_typed::<u64>(), 2);

    let mut boxed = Erased::new(s("abc"));
    boxed.as_mut_ptr()[1] = b'x';
    assert_eq!(boxed.as_ptr(), b"axc");
    assert_eq!(boxed.into_typed::<String>(), s("axc"));
}
