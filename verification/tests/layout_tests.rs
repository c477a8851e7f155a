use pivot_sync::com_types::{GroupFull, GroupNames, GroupSurface, MAX_HANDLE_LEN, MAX_NAME_LEN};
use pivot_sync::layout::{encode_asset_meta, parse_asset_meta, AssetMeta, META_BYTES};

fn name_bytes(s: &str) -> Vec<u8> {
    s.as_bytes().to_vec()
}

#[test]
fn group_full_layout_offsets() {
    let name = name_bytes("crates");
    let handle = name_bytes("seg0");
    let (total, g) = GroupFull::new(3, 2, 2, 7, &name, &handle);
    assert_eq!(g.offset_verts, 0);
    // 3 vertices * 12 bytes = 36, aligned up to 40
    assert_eq!(g.offset_edges, 40);
    // + 2 edges * 8 = 56
    assert_eq!(g.offset_rotations, 56);
    // + 2 objects * 16 = 88
    assert_eq!(g.offset_scales, 88);
    // + 2 objects * 12 = 112
    assert_eq!(g.offset_offsets, 112);
    // + 2 objects * 12 = 136
    assert_eq!(g.offset_vert_counts, 136);
    // + 3 entries * 4 = 148, aligned up to 152
    assert_eq!(g.offset_edge_counts, 152);
    // + 3 entries * 4 = 164, aligned up to 168
    assert_eq!(total, 168);
    assert_eq!(g.object_count, 2);
    assert_eq!(g.surface_context, 7);
}

#[test]
fn asset_meta_layout_scenario() {
    // 10 objects, 30 vertices, 20 edges.
    let name = name_bytes("rocks");
    let uuid = vec![9u8; 16];
    let (m, total) = AssetMeta::new(30, 20, 10, 4, &name, &uuid);
    assert_eq!(m.offset_verts, 0);
    assert_eq!(m.offset_edges, 360);
    assert_eq!(m.offset_transforms, 520);
    assert_eq!(m.offset_vert_bases, 1160);
    assert_eq!(m.offset_edge_bases, 1208);
    assert_eq!(m.offset_object_names, 1256);
    assert_eq!(m.offset_uuids, 1896);
    // Each prefix table has 11 entries of 4 bytes.
    assert_eq!(m.offset_edge_bases - m.offset_vert_bases, 48);
    assert_eq!(11 * 4, 44);
    // The name table has 10 fixed-width slots.
    assert_eq!(m.offset_uuids - m.offset_object_names, 640);
    assert_eq!(10 * MAX_NAME_LEN as u64, 640);
    // The identifier table is 10 x 16 bytes, and the total is its
    // 8-byte-aligned end.
    assert_eq!(total, 1896 + 160);
    assert_eq!(total % 8, 0);
}

#[test]
fn asset_meta_strictly_increasing_offsets() {
    let name = name_bytes("a");
    let uuid = vec![1u8; 16];
    let (m, total) = AssetMeta::new(5, 4, 3, 1, &name, &uuid);
    assert!(m.offset_verts < m.offset_edges);
    assert!(m.offset_edges < m.offset_transforms);
    assert!(m.offset_transforms < m.offset_vert_bases);
    assert!(m.offset_vert_bases < m.offset_edge_bases);
    assert!(m.offset_edge_bases < m.offset_object_names);
    assert!(m.offset_object_names < m.offset_uuids);
    assert!(m.offset_uuids < total);
    for off in [
        m.offset_verts,
        m.offset_edges,
        m.offset_transforms,
        m.offset_vert_bases,
        m.offset_edge_bases,
        m.offset_object_names,
        m.offset_uuids,
        total,
    ] {
        assert_eq!(off % 8, 0);
    }
}

#[test]
fn meta_codec_round_trip() {
    let name = name_bytes("teapot");
    let uuid = (0u8..16).collect::<Vec<u8>>();
    let (m, _total) = AssetMeta::new(12, 7, 3, 2, &name, &uuid);
    let encoded = encode_asset_meta(&m);
    assert_eq!(encoded.len(), META_BYTES);
    let parsed = parse_asset_meta(&encoded, 0).unwrap();
    assert_eq!(parsed.offset_verts, m.offset_verts);
    assert_eq!(parsed.offset_edges, m.offset_edges);
    assert_eq!(parsed.offset_transforms, m.offset_transforms);
    assert_eq!(parsed.offset_vert_bases, m.offset_vert_bases);
    assert_eq!(parsed.offset_edge_bases, m.offset_edge_bases);
    assert_eq!(parsed.offset_object_names, m.offset_object_names);
    assert_eq!(parsed.offset_uuids, m.offset_uuids);
    assert_eq!(parsed.vert_count, 12);
    assert_eq!(parsed.edge_count, 7);
    assert_eq!(parsed.object_count, 3);
    assert_eq!(parsed.surface_context, 2);
    assert_eq!(parsed.group_name, m.group_name);
    assert_eq!(parsed.uuid, uuid);
}

#[test]
fn parse_asset_meta_rejects_short_buffer() {
    let buf = vec![0u8; META_BYTES - 1];
    let r = parse_asset_meta(&buf, 0);
    assert_eq!(r.unwrap_err(), pivot_sync::errors::SyncError::BoundsError);
}

#[test]
fn group_names_packs_and_truncates() {
    let short = name_bytes("tree");
    let gn = GroupNames::new(&short);
    assert_eq!(gn.group_name.len(), MAX_NAME_LEN);
    assert_eq!(&gn.group_name[..4], b"tree");
    assert!(gn.group_name[4..].iter().all(|&b| b == 0));

    let long = vec![b'x'; 100];
    let gn = GroupNames::new(&long);
    assert_eq!(gn.group_name.len(), MAX_NAME_LEN);
    // Truncated to capacity minus one, so the field stays null-terminated.
    assert!(gn.group_name[..MAX_NAME_LEN - 1].iter().all(|&b| b == b'x'));
    assert_eq!(gn.group_name[MAX_NAME_LEN - 1], 0);
}

#[test]
fn group_surface_keeps_surface_type() {
    let surf = GroupSurface::new(&name_bytes("wall"), 9);
    assert_eq!(surf.surface_type, 9);
    assert_eq!(&surf.group_name[..4], b"wall");
    assert_eq!(surf.group_name.len(), MAX_NAME_LEN);
}

#[test]
fn group_full_setters_leave_other_fields_alone() {
    let (_, mut g) = GroupFull::new(3, 2, 2, 7, &name_bytes("first"), &name_bytes("seg"));
    let offsets_before = (
        g.offset_verts,
        g.offset_edges,
        g.offset_rotations,
        g.offset_scales,
        g.offset_offsets,
        g.offset_vert_counts,
        g.offset_edge_counts,
    );
    g.set_group_name(&name_bytes("second"));
    g.set_shm_handle(&name_bytes("other"));
    assert_eq!(&g.group_name[..6], b"second");
    assert_eq!(&g.mesh_shm_handle[..5], b"other");
    let offsets_after = (
        g.offset_verts,
        g.offset_edges,
        g.offset_rotations,
        g.offset_scales,
        g.offset_offsets,
        g.offset_vert_counts,
        g.offset_edge_counts,
    );
    assert_eq!(offsets_before, offsets_after);
    assert_eq!(g.object_count, 2);
    assert_eq!(g.surface_context, 7);
}

#[test]
fn group_full_packs_handle() {
    let (_, g) = GroupFull::new(1, 1, 1, 0, &name_bytes("n"), &name_bytes("handle9"));
    assert_eq!(g.mesh_shm_handle.len(), MAX_HANDLE_LEN);
    assert_eq!(&g.mesh_shm_handle[..7], b"handle9");
    assert_eq!(g.mesh_shm_handle[7], 0);
}
