use pivot_sync::com_types::GroupFull;
use pivot_sync::errors::SyncError;
use pivot_sync::layout::AssetMeta;
use pivot_sync::view::{
    read_at, region_from_range, write_at, AssetDataSlices, GroupDataSlices, Region, Slab,
};

fn small_meta() -> (AssetMeta, u64) {
    let name = b"cube".to_vec();
    let uuid = vec![7u8; 16];
    AssetMeta::new(4, 6, 1, 0, &name, &uuid)
}

#[test]
fn region_validation() {
    assert_eq!(region_from_range(100, 10, 90).unwrap(), Region { off: 10, len: 90 });
    assert_eq!(region_from_range(100, 10, 91).unwrap_err(), SyncError::BoundsError);
    assert_eq!(region_from_range(100, 101, 0).unwrap_err(), SyncError::BoundsError);
    assert_eq!(region_from_range(0, 0, 0).unwrap(), Region { off: 0, len: 0 });
}

#[test]
fn view_regions_match_layout() {
    let (meta, total) = small_meta();
    let v = AssetDataSlices::new(total, &meta).unwrap();
    assert_eq!(v.verts, Region { off: meta.offset_verts, len: 48 });
    assert_eq!(v.edges, Region { off: meta.offset_edges, len: 48 });
    assert_eq!(v.transforms, Region { off: meta.offset_transforms, len: 64 });
    assert_eq!(v.vert_counts, Region { off: meta.offset_vert_bases, len: 8 });
    assert_eq!(v.edge_counts, Region { off: meta.offset_edge_bases, len: 8 });
    assert_eq!(v.object_names, Region { off: meta.offset_object_names, len: 64 });
    assert_eq!(v.uuids, Region { off: meta.offset_uuids, len: 16 });
}

#[test]
fn view_rejects_too_small_segment() {
    let (meta, total) = small_meta();
    let r = AssetDataSlices::new(total - 8, &meta);
    assert_eq!(r.unwrap_err(), SyncError::BoundsError);
}

#[test]
fn view_write_read_round_trip() {
    let (meta, total) = small_meta();
    let view = AssetDataSlices::new(total, &meta).unwrap();
    let mut slab = Slab { name: vec![0u8; 32], bytes: vec![0u8; total as usize] };

    // Write vertex and edge bytes through one view.
    let vert_data: Vec<u8> = (0..48u8).collect();
    let edge_data: Vec<u8> = (100..148u8).collect();
    write_at(&mut slab, &view.verts, &vert_data).unwrap();
    write_at(&mut slab, &view.edges, &edge_data).unwrap();

    // Read them back through a fresh view over the same segment.
    let fresh = AssetDataSlices::new(total, &meta).unwrap();
    assert_eq!(fresh, view);
    assert_eq!(read_at(&slab, &fresh.verts).unwrap(), vert_data);
    assert_eq!(read_at(&slab, &fresh.edges).unwrap(), edge_data);
    // A region that was never written still reads back as zeros.
    assert!(read_at(&slab, &fresh.transforms).unwrap().iter().all(|&b| b == 0));
}

#[test]
fn write_at_rejects_wrong_length_and_leaves_slab_unchanged() {
    let mut slab = Slab { name: vec![0u8; 32], bytes: vec![5u8; 64] };
    let region = Region { off: 0, len: 16 };
    let data = vec![1u8; 8];
    assert_eq!(write_at(&mut slab, &region, &data).unwrap_err(), SyncError::BoundsError);
    assert!(slab.bytes.iter().all(|&b| b == 5));

    let oob = Region { off: 60, len: 16 };
    let data16 = vec![1u8; 16];
    assert_eq!(write_at(&mut slab, &oob, &data16).unwrap_err(), SyncError::BoundsError);
    assert!(slab.bytes.iter().all(|&b| b == 5));
}

#[test]
fn read_at_rejects_out_of_bounds() {
    let slab = Slab { name: vec![0u8; 32], bytes: vec![0u8; 8] };
    let r = read_at(&slab, &Region { off: 4, len: 8 });
    assert_eq!(r.unwrap_err(), SyncError::BoundsError);
}

#[test]
fn group_views_fit_planned_segment() {
    let name = b"props".to_vec();
    let handle = b"seg1".to_vec();
    let (total, g) = GroupFull::new(9, 5, 2, 3, &name, &handle);
    let views = GroupDataSlices::new(total, &g, 9, 5).unwrap();
    assert_eq!(views.verts.off, 0);
    assert_eq!(views.verts.len, 9 * 12);
    assert_eq!(views.rotations.len, 2 * 16);
    assert_eq!(views.vert_counts.len, 3 * 4);
    // A segment one alignment unit short is rejected.
    let r = GroupDataSlices::new(g.offset_edge_counts, &g, 9, 5);
    assert_eq!(r.unwrap_err(), SyncError::BoundsError);
}
