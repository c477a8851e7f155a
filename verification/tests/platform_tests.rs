use pivot_sync::commands::{allocate_memory, plan_asset_metas, prepare_standardize_groups};
use pivot_sync::com_types::EngineReply;
use pivot_sync::errors::SyncError;
use pivot_sync::ids::{generate_uuid_bytes, new_uid16};
use pivot_sync::platform::{
    engine_binary_candidates, get_platform_id, path_join, pivot_engine_executable_name,
};
use pivot_sync::slabs::{encode_registry, SlabMap};
use pivot_sync::wire::pack_fixed;

use iceoryx2_bb_container::semantic_string::SemanticString;
use iceoryx2_bb_posix::permission::Permission;
use iceoryx2_bb_posix::shared_memory::{CreationMode, SharedMemory, SharedMemoryBuilder};
use iceoryx2_bb_system_types::file_name::FileName;

#[test]
fn platform_id_maps_known_architectures() {
    assert_eq!(get_platform_id(&b"linux".to_vec(), &b"x86_64".to_vec()), b"linux-x86-64");
    assert_eq!(get_platform_id(&b"macos".to_vec(), &b"aarch64".to_vec()), b"macos-arm64");
    assert_eq!(get_platform_id(&b"windows".to_vec(), &b"x86_64".to_vec()), b"windows-x86-64");
    // Unknown names pass through unchanged.
    assert_eq!(get_platform_id(&b"plan9".to_vec(), &b"mips".to_vec()), b"plan9-mips");
}

#[test]
fn executable_name_per_platform() {
    assert_eq!(pivot_engine_executable_name(false), b"pivot_engine");
    assert_eq!(pivot_engine_executable_name(true), b"pivot_engine.exe");
}

#[test]
fn binary_candidates_in_priority_order() {
    let exe = pivot_engine_executable_name(false);
    let platform = b"linux-x86-64".to_vec();

    // Explicit override first, then the platform-keyed directory, then
    // the directory itself.
    let candidates = engine_binary_candidates(
        &Some(b"/custom/engine".to_vec()),
        &Some(b"/opt/engines".to_vec()),
        &platform,
        &exe,
    );
    assert_eq!(candidates.len(), 3);
    assert_eq!(candidates[0], b"/custom/engine");
    assert_eq!(candidates[1], b"/opt/engines/linux-x86-64/pivot_engine");
    assert_eq!(candidates[2], b"/opt/engines/pivot_engine");

    // An empty override is ignored, a missing directory contributes
    // nothing.
    let candidates = engine_binary_candidates(&Some(Vec::new()), &None, &platform, &exe);
    assert!(candidates.is_empty());
}

#[test]
fn paths_join_with_a_separator() {
    assert_eq!(path_join(&b"/a/b".to_vec(), &b"c".to_vec()), b"/a/b/c");
}

#[test]
fn uid16_is_hex_and_fresh() {
    let a = new_uid16();
    let b = new_uid16();
    assert_eq!(a.len(), 16);
    assert!(a.iter().all(|c| c.is_ascii_hexdigit()));
    // Two draws of 64 random bits colliding would be astonishing.
    assert_ne!(a, b);
}

#[test]
fn uuid_bytes_are_fresh_version_4() {
    let a = generate_uuid_bytes();
    let b = generate_uuid_bytes();
    assert_eq!(a.len(), 16);
    assert_ne!(a, b);
    // The version nibble and variant bits are fixed on every outcome.
    for u in [a, b] {
        assert_eq!(u[6] >> 4, 4);
        assert_eq!(u[8] >> 6, 0b10);
    }
}

#[test]
fn error_descriptions_are_nonempty() {
    for e in [
        SyncError::TransportUnavailable,
        SyncError::SendFailed,
        SyncError::ReceiveFailed,
        SyncError::SessionNotStarted,
        SyncError::BoundsError,
        SyncError::SlabMappingFailed,
        SyncError::IndexOutOfRange,
        SyncError::EngineNotFound,
    ] {
        assert!(!e.describe().is_empty());
    }
}

#[test]
fn prepared_groups_get_segments_and_views() {
    let names = vec![b"rock".to_vec(), b"tree".to_vec()];
    let prepared = prepare_standardize_groups(
        &vec![6, 3],
        &vec![4, 2],
        &vec![2, 1],
        &names,
        &vec![1, 2],
    )
    .unwrap();
    assert_eq!(prepared.len(), 2);
    for (group, views) in &prepared {
        assert_eq!(group.mesh_shm_handle.len(), 32);
        assert!(views.verts.off == 0);
        // Removing the freshly created segment proves it existed.
        let trimmed: Vec<u8> =
            group.mesh_shm_handle.iter().copied().take_while(|&b| b != 0).collect();
        let file_name = FileName::new(&trimmed).unwrap();
        assert!(SharedMemory::remove(&file_name).unwrap());
    }
    assert_eq!(prepared[0].0.object_count, 2);
    assert_eq!(prepared[1].0.surface_context, 2);
}

fn create_test_segment(name: &str, contents: &[u8]) {
    let file_name = FileName::new(name.as_bytes()).unwrap();
    let mut shm = SharedMemoryBuilder::new(&file_name)
        .is_memory_locked(false)
        .creation_mode(CreationMode::PurgeAndCreate)
        .size(contents.len())
        .permission(Permission::OWNER_ALL)
        .zero_memory(true)
        .has_ownership(false)
        .create()
        .unwrap();
    shm.as_mut_slice().copy_from_slice(contents);
}

fn remove_test_segment(name: &str) {
    let file_name = FileName::new(name.as_bytes()).unwrap();
    let _ = SharedMemory::remove(&file_name);
}

#[test]
fn allocation_writes_descriptors_and_builds_views() {
    let root = "pivot_sync_test_root_d";
    let root_handle = pack_fixed(&root.as_bytes().to_vec(), 32);

    // Plan one small asset.
    let uuids = vec![vec![7u8; 16]];
    let (metas, sizes) = plan_asset_metas(
        &vec![2],
        &vec![1],
        &vec![1],
        &vec![3],
        &vec![b"chair".to_vec()],
        &uuids,
    );
    assert_eq!(metas.len(), 1);

    // The engine assigns the asset a location at byte 64 of the root
    // slab; size the slab to hold the descriptor record plus the asset.
    let asset_base = 64u64;
    let slab_len = asset_base + 152 + sizes[0] + 64;
    let mut slab_bytes = encode_registry(&vec![root_handle.clone()]);
    slab_bytes.resize(slab_len as usize, 0);
    create_test_segment(root, &slab_bytes);

    // The reply the engine would send back.
    let mut inline = Vec::new();
    inline.extend_from_slice(&uuids[0]);
    inline.extend_from_slice(&0u32.to_le_bytes());
    inline.extend_from_slice(&asset_base.to_le_bytes());
    let reply = EngineReply {
        status: 0,
        num_items: 1,
        root_slab_handle: root_handle.clone(),
        inline_data: inline,
    };

    let mut map = SlabMap::new();
    let (views, ptrs) = allocate_memory(&mut map, &reply, &metas).unwrap();
    assert_eq!(views.len(), 1);
    assert_eq!(ptrs.len(), 1);
    assert_eq!(ptrs[0].offset, asset_base);

    // The descriptor record was written at the assigned location.
    let written = pivot_sync::layout::parse_asset_meta(&map.slabs[0].bytes, asset_base).unwrap();
    assert_eq!(written.vert_count, 2);
    assert_eq!(written.edge_count, 1);
    assert_eq!(written.object_count, 1);
    assert_eq!(written.uuid, uuids[0]);

    remove_test_segment(root);
}
