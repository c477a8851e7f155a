use pivot_sync::com_types::{
    EngineCommand, MAX_INLINE_DATA, OP_ALLOC_MEM, OP_DROP_GROUPS, OP_GET_SURFACE_TYPES,
    OP_ORGANIZE_OBJECTS, OP_SET_SURFACE_TYPES, OP_STANDARDIZE_GROUPS,
    OP_STANDARDIZE_SYNCED_GROUPS, OP_STOP_ENGINE,
};
use pivot_sync::commands::{
    drop_groups_command, get_surface_types_command, organize_objects_command,
    request_memory_allocation, set_surface_types_command, standardize_groups_command,
    standardize_synced_groups_command, stop_engine_command, to_alloc_response,
};
use pivot_sync::errors::SyncError;
use pivot_sync::slabs::AssetPtr;

fn uuid(tag: u8) -> Vec<u8> {
    vec![tag; 16]
}

#[test]
fn payload_over_inline_capacity_is_rejected_not_truncated() {
    let mut cmd = EngineCommand::new(1, 0);
    let oversize = vec![5u8; MAX_INLINE_DATA + 1];
    let r = cmd.copy_payload_into_inline(&oversize);
    assert_eq!(r.unwrap_err(), SyncError::BoundsError);
    // Nothing of the oversize payload was copied.
    assert!(cmd.inline_data.is_empty());

    let exact = vec![5u8; MAX_INLINE_DATA];
    cmd.copy_payload_into_inline(&exact).unwrap();
    assert_eq!(cmd.inline_data.len(), MAX_INLINE_DATA);
}

#[test]
fn oversized_pointer_batch_is_rejected_before_transmission() {
    // One more pointer than the inline capacity holds.
    let too_many = MAX_INLINE_DATA / 12 + 1;
    let ptrs = vec![AssetPtr { slab_index: 0, offset: 0 }; too_many];
    assert_eq!(standardize_groups_command(&ptrs).unwrap_err(), SyncError::BoundsError);
}

#[test]
fn standardize_groups_payload_layout() {
    let ptrs = vec![
        AssetPtr { slab_index: 1, offset: 64 },
        AssetPtr { slab_index: 0, offset: 1024 },
    ];
    let cmd = standardize_groups_command(&ptrs).unwrap();
    assert_eq!(cmd.op_id, OP_STANDARDIZE_GROUPS);
    assert_eq!(cmd.should_cache, 1);
    assert_eq!(cmd.num_groups, 2);
    assert_eq!(cmd.inline_data.len(), 24);
    assert_eq!(&cmd.inline_data[0..4], &1u32.to_le_bytes());
    assert_eq!(&cmd.inline_data[4..12], &64u64.to_le_bytes());
    assert_eq!(&cmd.inline_data[12..16], &0u32.to_le_bytes());
    assert_eq!(&cmd.inline_data[16..24], &1024u64.to_le_bytes());
}

#[test]
fn synced_groups_payload_layout() {
    let uuids = vec![uuid(1), uuid(2)];
    let types = vec![7u32, 9u32];
    let cmd = standardize_synced_groups_command(&uuids, &types).unwrap();
    assert_eq!(cmd.op_id, OP_STANDARDIZE_SYNCED_GROUPS);
    assert_eq!(cmd.num_groups, 2);
    assert_eq!(cmd.inline_data.len(), 48);
    assert_eq!(&cmd.inline_data[0..16], uuid(1).as_slice());
    assert_eq!(&cmd.inline_data[16..24], &7u64.to_le_bytes());
    assert_eq!(&cmd.inline_data[24..40], uuid(2).as_slice());
    assert_eq!(&cmd.inline_data[40..48], &9u64.to_le_bytes());
}

#[test]
fn surface_type_assignments_keep_their_order() {
    let pairs = vec![(uuid(4), 11i64), (uuid(3), -1i64)];
    let cmd = set_surface_types_command(&pairs).unwrap();
    assert_eq!(cmd.op_id, OP_SET_SURFACE_TYPES);
    assert_eq!(cmd.num_groups, 2);
    assert_eq!(&cmd.inline_data[0..16], uuid(4).as_slice());
    assert_eq!(&cmd.inline_data[16..24], &11u64.to_le_bytes());
    assert_eq!(&cmd.inline_data[24..40], uuid(3).as_slice());
    assert_eq!(&cmd.inline_data[40..48], &(-1i64 as u64).to_le_bytes());
}

#[test]
fn drop_groups_payload_layout() {
    let uuids = vec![uuid(8), uuid(9)];
    let cmd = drop_groups_command(&uuids).unwrap();
    assert_eq!(cmd.op_id, OP_DROP_GROUPS);
    assert_eq!(cmd.num_groups, 2);
    assert_eq!(cmd.inline_data.len(), 32);
    assert_eq!(&cmd.inline_data[0..16], uuid(8).as_slice());
    assert_eq!(&cmd.inline_data[16..32], uuid(9).as_slice());
}

#[test]
fn parameterless_commands() {
    let organize = organize_objects_command();
    assert_eq!(organize.op_id, OP_ORGANIZE_OBJECTS);
    assert_eq!(organize.num_groups, 0);
    assert!(organize.inline_data.is_empty());

    let get = get_surface_types_command();
    assert_eq!(get.op_id, OP_GET_SURFACE_TYPES);
    assert!(get.inline_data.is_empty());

    let stop = stop_engine_command();
    assert_eq!(stop.op_id, OP_STOP_ENGINE);
    assert!(stop.inline_data.is_empty());
}

#[test]
fn allocation_request_layout() {
    let uuids = vec![uuid(1), uuid(2)];
    let sizes = vec![4096u64, 8192u64];
    let cmd = request_memory_allocation(&uuids, &sizes).unwrap();
    assert_eq!(cmd.op_id, OP_ALLOC_MEM);
    assert_eq!(cmd.num_groups, 1);
    // Header: count, identifier-table offset, size-table offset.
    assert_eq!(&cmd.inline_data[0..8], &2u64.to_le_bytes());
    assert_eq!(&cmd.inline_data[8..16], &24u64.to_le_bytes());
    assert_eq!(&cmd.inline_data[16..24], &56u64.to_le_bytes());
    // Identifier table, then the per-asset sizes.
    assert_eq!(&cmd.inline_data[24..40], uuid(1).as_slice());
    assert_eq!(&cmd.inline_data[40..56], uuid(2).as_slice());
    assert_eq!(&cmd.inline_data[56..64], &4096u64.to_le_bytes());
    assert_eq!(&cmd.inline_data[64..72], &8192u64.to_le_bytes());
    assert_eq!(cmd.inline_data.len(), 72);
}

#[test]
fn alloc_response_decoding() {
    // A reply pairing two assets with their assigned locations.
    let mut inline = Vec::new();
    inline.extend_from_slice(&uuid(5));
    inline.extend_from_slice(&uuid(6));
    inline.extend_from_slice(&2u32.to_le_bytes());
    inline.extend_from_slice(&64u64.to_le_bytes());
    inline.extend_from_slice(&0u32.to_le_bytes());
    inline.extend_from_slice(&4096u64.to_le_bytes());

    let (uuids, ptrs) = to_alloc_response(&inline, 2).unwrap();
    assert_eq!(uuids, vec![uuid(5), uuid(6)]);
    assert_eq!(
        ptrs,
        vec![
            AssetPtr { slab_index: 2, offset: 64 },
            AssetPtr { slab_index: 0, offset: 4096 },
        ]
    );

    // Claiming more records than the payload holds is a bounds error.
    assert_eq!(to_alloc_response(&inline, 3).unwrap_err(), SyncError::BoundsError);
}
