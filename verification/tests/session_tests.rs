use pivot_sync::asset_sync_context::AssetSyncContext;
use pivot_sync::com_types::EngineCommand;
use pivot_sync::errors::SyncError;
use pivot_sync::layout::encode_asset_meta;
use pivot_sync::session::{
    poll_mesh_sync, send_command, set_engine_dir, start_engine, stop_engine, stored_engine_dir,
    EngineSession, QUEUE_CAPACITY,
};
use pivot_sync::slabs::{encode_asset_ptrs, encode_registry, AssetPtr};
use pivot_sync::listener::MeshPublish;
use pivot_sync::wire::pack_fixed;

use iceoryx2_bb_container::semantic_string::SemanticString;
use iceoryx2_bb_posix::permission::Permission;
use iceoryx2_bb_posix::shared_memory::{CreationMode, SharedMemory, SharedMemoryBuilder};
use iceoryx2_bb_system_types::file_name::FileName;

fn engine_path() -> Option<Vec<u8>> {
    Some(b"/opt/engine/pivot_engine".to_vec())
}

#[test]
fn start_is_idempotent() {
    let mut s = EngineSession::new();
    assert!(!s.running);
    start_engine(&mut s, engine_path()).unwrap();
    assert!(s.running);
    // A second start while running is a no-op that still succeeds.
    start_engine(&mut s, None).unwrap();
    assert!(s.running);
}

#[test]
fn start_without_binary_fails() {
    let mut s = EngineSession::new();
    assert_eq!(start_engine(&mut s, None).unwrap_err(), SyncError::EngineNotFound);
    assert!(!s.running);
}

#[test]
fn stop_twice_is_a_noop_second_time() {
    let mut s = EngineSession::new();
    start_engine(&mut s, engine_path()).unwrap();

    // Both calls report success; the second changes nothing.
    stop_engine(&mut s).unwrap();
    assert!(!s.running);
    stop_engine(&mut s).unwrap();
    assert!(!s.running);
}

#[test]
fn send_needs_a_running_session() {
    let mut s = EngineSession::new();
    let r = send_command(&mut s, EngineCommand::new(1, 0));
    assert_eq!(r.unwrap_err(), SyncError::SessionNotStarted);
}

#[test]
fn send_applies_backpressure_when_full() {
    let mut s = EngineSession::new();
    start_engine(&mut s, engine_path()).unwrap();
    for _ in 0..QUEUE_CAPACITY {
        assert!(send_command(&mut s, EngineCommand::new(1, 0)).unwrap());
    }
    // The queue is at capacity: the next submission is not accepted and
    // the caller must wait and retry.
    assert!(!send_command(&mut s, EngineCommand::new(1, 0)).unwrap());
    assert_eq!(s.queue.items.len(), QUEUE_CAPACITY);
}

#[test]
fn engine_dir_is_stored() {
    let mut s = EngineSession::new();
    assert!(stored_engine_dir(&s).is_none());
    set_engine_dir(&mut s, b"/opt/engines".to_vec());
    assert_eq!(stored_engine_dir(&s).as_ref().unwrap(), &b"/opt/engines".to_vec());
}

#[test]
fn poll_needs_a_running_session() {
    let mut s = EngineSession::new();
    assert_eq!(poll_mesh_sync(&mut s).unwrap_err(), SyncError::SessionNotStarted);
}

#[test]
fn poll_with_nothing_buffered_is_not_an_error() {
    let mut s = EngineSession::new();
    start_engine(&mut s, engine_path()).unwrap();
    assert!(poll_mesh_sync(&mut s).unwrap().is_none());
}

fn create_test_segment(name: &str, contents: &[u8]) {
    let file_name = FileName::new(name.as_bytes()).unwrap();
    let mut shm = SharedMemoryBuilder::new(&file_name)
        .is_memory_locked(false)
        .creation_mode(CreationMode::PurgeAndCreate)
        .size(contents.len())
        .permission(Permission::OWNER_ALL)
        .zero_memory(true)
        .has_ownership(false)
        .create()
        .unwrap();
    shm.as_mut_slice().copy_from_slice(contents);
}

fn remove_test_segment(name: &str) {
    let file_name = FileName::new(name.as_bytes()).unwrap();
    let _ = SharedMemory::remove(&file_name);
}

#[test]
fn poll_turns_an_update_into_views() {
    let root = "pivot_sync_test_root_c";
    let root_handle = pack_fixed(&root.as_bytes().to_vec(), 32);

    // Lay the root slab out by hand: its registry at the base, then one
    // asset descriptor at byte 64 whose empty regions all fit trivially.
    let (meta, _total) = pivot_sync::layout::AssetMeta::new(
        0,
        0,
        0,
        1,
        &b"empty".to_vec(),
        &vec![3u8; 16],
    );
    let mut slab_bytes = encode_registry(&vec![root_handle.clone()]);
    slab_bytes.resize(64, 0);
    slab_bytes.extend_from_slice(&encode_asset_meta(&meta));
    create_test_segment(root, &slab_bytes);

    let mut s = EngineSession::new();
    start_engine(&mut s, engine_path()).unwrap();
    s.updates.push_update(MeshPublish {
        num_items: 1,
        root_slab_handle: root_handle.clone(),
        inline_data: encode_asset_ptrs(&vec![AssetPtr { slab_index: 0, offset: 64 }]),
    });

    let views = poll_mesh_sync(&mut s).unwrap().unwrap();
    assert_eq!(views.len(), 1);
    assert_eq!(s.slabs.mapped_count(), 1);
    // All regions of the empty asset sit at its base with zero length.
    assert_eq!(views[0].verts.len, 0);
    assert_eq!(views[0].uuids.len, 0);

    remove_test_segment(root);
}

#[test]
fn poll_rejects_truncated_pointer_payload() {
    let mut s = EngineSession::new();
    start_engine(&mut s, engine_path()).unwrap();
    s.updates.push_update(MeshPublish {
        num_items: 2,
        root_slab_handle: vec![0u8; 32],
        inline_data: vec![0u8; 12],
    });
    assert_eq!(poll_mesh_sync(&mut s).unwrap_err(), SyncError::BoundsError);
}

#[test]
fn context_accessor_checks_its_index() {
    let (meta, total) =
        pivot_sync::layout::AssetMeta::new(1, 1, 1, 0, &b"one".to_vec(), &vec![1u8; 16]);
    let view = pivot_sync::view::AssetDataSlices::new(total, &meta).unwrap();
    let ptr = AssetPtr { slab_index: 0, offset: 0 };
    let mut ctx = AssetSyncContext::new(vec![view], vec![ptr]);

    assert!(ctx.buffers(0).is_ok());
    assert_eq!(ctx.buffers(1).unwrap_err(), SyncError::IndexOutOfRange);

    // The first finalize yields the standardization command carrying
    // the serialized pointers; later calls have nothing left to send.
    let cmd = ctx.finalize().unwrap().unwrap();
    assert_eq!(cmd.op_id, pivot_sync::com_types::OP_STANDARDIZE_GROUPS);
    assert_eq!(cmd.num_groups, 1);
    assert_eq!(cmd.inline_data, encode_asset_ptrs(&vec![ptr]));
    assert!(ctx.finalize().unwrap().is_none());
}
