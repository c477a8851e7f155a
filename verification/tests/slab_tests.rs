use pivot_sync::errors::SyncError;
use pivot_sync::slabs::{
    decode_asset_ptrs, encode_asset_ptrs, encode_registry, parse_registry, AssetPtr, SlabMap,
};
use pivot_sync::view::Slab;
use pivot_sync::wire::{decode_handle, pack_fixed};

use iceoryx2_bb_container::semantic_string::SemanticString;
use iceoryx2_bb_posix::permission::Permission;
use iceoryx2_bb_posix::shared_memory::{CreationMode, SharedMemory, SharedMemoryBuilder};
use iceoryx2_bb_system_types::file_name::FileName;

fn create_test_segment(name: &str, contents: &[u8]) {
    let file_name = FileName::new(name.as_bytes()).unwrap();
    let mut shm = SharedMemoryBuilder::new(&file_name)
        .is_memory_locked(false)
        .creation_mode(CreationMode::PurgeAndCreate)
        .size(contents.len())
        .permission(Permission::OWNER_ALL)
        .zero_memory(true)
        .has_ownership(false)
        .create()
        .unwrap();
    shm.as_mut_slice().copy_from_slice(contents);
}

fn remove_test_segment(name: &str) {
    let file_name = FileName::new(name.as_bytes()).unwrap();
    let _ = SharedMemory::remove(&file_name);
}

fn handle(name: &str) -> Vec<u8> {
    pack_fixed(&name.as_bytes().to_vec(), 32)
}

#[test]
fn registry_codec_round_trip() {
    let names = vec![handle("alpha"), handle("beta"), handle("gamma")];
    let bytes = encode_registry(&names);
    assert_eq!(bytes.len(), 8 + 3 * 32);
    let reg = parse_registry(&bytes).unwrap();
    assert_eq!(reg.names.len(), 3);
    assert_eq!(reg.names[0], names[0]);
    assert_eq!(reg.names[1], names[1]);
    assert_eq!(reg.names[2], names[2]);
}

#[test]
fn parse_registry_rejects_incomplete_records() {
    assert_eq!(parse_registry(&vec![0u8; 7]).unwrap_err(), SyncError::BoundsError);
    // A header advertising more slabs than the record holds.
    let mut bytes = encode_registry(&vec![handle("one")]);
    bytes[0] = 5;
    assert_eq!(parse_registry(&bytes).unwrap_err(), SyncError::BoundsError);
}

#[test]
fn handle_decoding_stops_at_first_null() {
    let h = handle("rootslab");
    assert_eq!(decode_handle(&h), b"rootslab".to_vec());
    assert_eq!(decode_handle(&vec![0u8; 32]), Vec::<u8>::new());
    let no_null = vec![7u8; 4];
    assert_eq!(decode_handle(&no_null), no_null);
}

#[test]
fn ptr_codec_round_trip() {
    let ptrs = vec![
        AssetPtr { slab_index: 0, offset: 64 },
        AssetPtr { slab_index: 3, offset: 4096 },
        AssetPtr { slab_index: 2, offset: u64::MAX },
    ];
    let bytes = encode_asset_ptrs(&ptrs);
    assert_eq!(bytes.len(), 36);
    let decoded = decode_asset_ptrs(&bytes, 3).unwrap();
    assert_eq!(decoded, ptrs);
    // Asking for more pointers than the payload holds is a bounds error.
    assert_eq!(decode_asset_ptrs(&bytes, 4).unwrap_err(), SyncError::BoundsError);
}

#[test]
fn resolve_checks_slab_index_and_offset() {
    let mut map = SlabMap::new();
    map.slabs.push(Slab { name: handle("only"), bytes: vec![0u8; 100] });

    // A slab index at or above the mapped count is a bounds error,
    // never a dereference.
    let stray = AssetPtr { slab_index: 5, offset: 0 };
    assert_eq!(map.resolve(&stray, 1).unwrap_err(), SyncError::BoundsError);

    // An offset whose record would cross the slab's end is too.
    let crossing = AssetPtr { slab_index: 0, offset: 90 };
    assert_eq!(map.resolve(&crossing, 20).unwrap_err(), SyncError::BoundsError);

    let fine = AssetPtr { slab_index: 0, offset: 10 };
    let r = map.resolve(&fine, 20).unwrap();
    assert_eq!(r.slab_index, 0);
    assert_eq!(r.offset, 10);
}

#[test]
fn hydrate_converges_on_advertised_slabs() {
    let root = "pivot_sync_test_root_a";
    let data1 = "pivot_sync_test_data_a1";
    let data2 = "pivot_sync_test_data_a2";

    // A registry at the root's base advertising all three slabs.
    let names = vec![handle(root), handle(data1), handle(data2)];
    let registry = encode_registry(&names);
    create_test_segment(root, &registry);
    create_test_segment(data1, &vec![1u8; 256]);
    create_test_segment(data2, &vec![2u8; 256]);

    let mut map = SlabMap::new();
    let no_ptrs: Vec<AssetPtr> = Vec::new();

    // Three advertised, none mapped: hydration maps exactly three.
    map.hydrate(&no_ptrs, &handle(root), 0).unwrap();
    assert_eq!(map.mapped_count(), 3);

    // All advertised slabs already mapped: a repeated call maps zero.
    map.hydrate(&no_ptrs, &handle(root), 0).unwrap();
    assert_eq!(map.mapped_count(), 3);

    // Pointers resolve against the mapped set, in bounds only.
    let ptrs = vec![AssetPtr { slab_index: 1, offset: 128 }];
    let refs = map.hydrate(&ptrs, &handle(root), 64).unwrap();
    assert_eq!(refs.len(), 1);
    assert_eq!(refs[0].slab_index, 1);
    assert_eq!(refs[0].offset, 128);

    let oob = vec![AssetPtr { slab_index: 9, offset: 0 }];
    assert_eq!(map.hydrate(&oob, &handle(root), 64).unwrap_err(), SyncError::BoundsError);

    remove_test_segment(root);
    remove_test_segment(data1);
    remove_test_segment(data2);
}

#[test]
fn hydrate_maps_only_the_missing_slabs() {
    let root = "pivot_sync_test_root_b";
    let extra = "pivot_sync_test_data_b1";

    // First the registry advertises only the root itself.
    create_test_segment(root, &encode_registry(&vec![handle(root)]));
    let mut map = SlabMap::new();
    let no_ptrs: Vec<AssetPtr> = Vec::new();
    map.hydrate(&no_ptrs, &handle(root), 0).unwrap();
    assert_eq!(map.mapped_count(), 1);

    // The other process grows the registry to two slabs; the next call
    // re-reads it and maps exactly the one that was missing.
    create_test_segment(extra, &vec![9u8; 64]);
    create_test_segment(root, &encode_registry(&vec![handle(root), handle(extra)]));
    map.hydrate(&no_ptrs, &handle(root), 0).unwrap();
    assert_eq!(map.mapped_count(), 2);

    remove_test_segment(root);
    remove_test_segment(extra);
}

#[test]
fn hydrate_fails_without_root_segment() {
    let mut map = SlabMap::new();
    let no_ptrs: Vec<AssetPtr> = Vec::new();
    let r = map.hydrate(&no_ptrs, &handle("pivot_sync_test_missing"), 0);
    assert_eq!(r.unwrap_err(), SyncError::SlabMappingFailed);
    assert_eq!(map.mapped_count(), 0);
}

#[test]
fn write_record_stays_inside_its_slab() {
    let mut map = SlabMap::new();
    map.slabs.push(Slab { name: handle("w"), bytes: vec![0u8; 32] });
    let data = vec![7u8, 8u8];
    map.write_record(0, 30, &data).unwrap();
    assert_eq!(&map.slabs[0].bytes[30..], &[7u8, 8u8]);
    assert_eq!(map.write_record(0, 31, &data).unwrap_err(), SyncError::BoundsError);
    assert_eq!(map.write_record(1, 0, &data).unwrap_err(), SyncError::IndexOutOfRange);
}
