//! Bounds-validated views over shared-memory slabs.
//!
//! A mapped segment is modelled as an arena that owns its bytes for the
//! lifetime of the mapping; every sub-view is a validated (offset, length)
//! region checked against the owning segment at construction time, never
//! an unchecked address. Constructing an out-of-bounds view fails with an
//! explicit error.

use vstd::prelude::*;

use crate::com_types::{
    group_planned_layout, lemma_align8_bounds, GroupFull, MAX_HANDLE_LEN, MAX_NAME_LEN,
};
use crate::errors::SyncError;
use crate::layout::{planned_layout, AssetMeta};
use crate::wire::{overlay, read_range, write_into};

verus! {

/// A validated byte range inside one owning segment.
#[derive(Clone, Copy, Debug, PartialEq, Eq, Structural)]
pub struct Region {
    pub off: u64,
    pub len: u64,
}

impl Region {
    /// One past the last byte of the region.
    pub open spec fn end(&self) -> int {
        self.off + self.len
    }

    /// The region lies wholly inside a segment of `seg_len` bytes.
    pub open spec fn fits(&self, seg_len: int) -> bool {
        self.off + self.len <= seg_len
    }
}

/// Validate the byte range `[off, off + size)` against a segment of
/// `seg_len` bytes: exactly the ranges that lie wholly inside the segment
/// are accepted.
pub fn region_from_range(seg_len: u64, off: u64, size: u64) -> (r: Result<Region, SyncError>)
    ensures
        off + size <= seg_len ==> r == Ok::<Region, SyncError>(Region { off, len: size }),
        off + size > seg_len ==> r == Err::<Region, SyncError>(SyncError::BoundsError),
{
    if off > seg_len || size > seg_len - off {
        return Err(SyncError::BoundsError);
    }
    Ok(Region { off, len: size })
}

/// Every data region of `m` lies wholly inside a segment of `seg_len`
/// bytes.
pub open spec fn views_fit(m: AssetMeta, seg_len: int) -> bool {
    &&& m.offset_verts + m.verts_size() <= seg_len
    &&& m.offset_edges + m.edges_size() <= seg_len
    &&& m.offset_transforms + m.transforms_size() <= seg_len
    &&& m.offset_vert_bases + m.count_table_size() <= seg_len
    &&& m.offset_edge_bases + m.count_table_size() <= seg_len
    &&& m.offset_object_names + m.names_size() <= seg_len
    &&& m.offset_uuids + m.uuids_size() <= seg_len
}

/// A segment the planner sized for `m` holds every region of `m`.
pub proof fn lemma_planned_views_fit(m: AssetMeta, total: u64, seg_len: int)
    requires
        planned_layout(m, total),
        total <= seg_len,
    ensures
        views_fit(m, seg_len),
{
    crate::layout::lemma_layout_regions(m, total);
}

/// Typed, bounds-validated sub-views over one asset's backing bytes:
/// every region was checked against the owning segment when the view was
/// built.
#[derive(Clone, Copy, Debug, PartialEq, Eq, Structural)]
pub struct AssetDataSlices {
    pub seg_len: u64,
    pub verts: Region,
    pub edges: Region,
    pub transforms: Region,
    pub vert_counts: Region,
    pub edge_counts: Region,
    pub object_names: Region,
    pub uuids: Region,
}

impl AssetDataSlices {
    pub open spec fn wf(&self) -> bool {
        &&& self.verts.fits(self.seg_len as int)
        &&& self.edges.fits(self.seg_len as int)
        &&& self.transforms.fits(self.seg_len as int)
        &&& self.vert_counts.fits(self.seg_len as int)
        &&& self.edge_counts.fits(self.seg_len as int)
        &&& self.object_names.fits(self.seg_len as int)
        &&& self.uuids.fits(self.seg_len as int)
    }

    /// The regions of the view are exactly the regions `m` describes
    /// inside a segment of `seg_len` bytes.
    pub open spec fn matches_meta(&self, m: AssetMeta, seg_len: u64) -> bool {
        &&& self.seg_len == seg_len
        &&& self.verts == (Region { off: m.offset_verts, len: (m.vert_count as u64 * 12) as u64 })
        &&& self.edges == (Region { off: m.offset_edges, len: (m.edge_count as u64 * 8) as u64 })
        &&& self.transforms == (Region {
            off: m.offset_transforms,
            len: (m.object_count as u64 * 64) as u64,
        })
        &&& self.vert_counts == (Region {
            off: m.offset_vert_bases,
            len: ((m.object_count as u64 + 1) * 4) as u64,
        })
        &&& self.edge_counts == (Region {
            off: m.offset_edge_bases,
            len: ((m.object_count as u64 + 1) * 4) as u64,
        })
        &&& self.object_names == (Region {
            off: m.offset_object_names,
            len: (m.object_count as u64 * MAX_NAME_LEN as u64) as u64,
        })
        &&& self.uuids == (Region { off: m.offset_uuids, len: (m.object_count as u64 * 16) as u64 })
    }

    /// Materialize the typed sub-views that `meta` describes over a
    /// segment of `seg_len` bytes, validating every region before
    /// returning. A layout whose regions do not all lie inside the
    /// segment is rejected with a bounds error, never materialized.
    pub fn new(seg_len: u64, meta: &AssetMeta) -> (r: Result<Self, SyncError>)
        ensures
            views_fit(*meta, seg_len as int) ==> (r matches Ok(v) && v.matches_meta(
                *meta,
                seg_len,
            ) && v.wf()),
            !views_fit(*meta, seg_len as int) ==> r == Err::<Self, SyncError>(
                SyncError::BoundsError,
            ),
    {
        let verts = region_from_range(seg_len, meta.offset_verts, (meta.vert_count as u64) * 12)?;
        let edges = region_from_range(seg_len, meta.offset_edges, (meta.edge_count as u64) * 8)?;
        let transforms = region_from_range(
            seg_len,
            meta.offset_transforms,
            (meta.object_count as u64) * 64,
        )?;
        let vert_counts = region_from_range(
            seg_len,
            meta.offset_vert_bases,
            ((meta.object_count as u64) + 1) * 4,
        )?;
        let edge_counts = region_from_range(
            seg_len,
            meta.offset_edge_bases,
            ((meta.object_count as u64) + 1) * 4,
        )?;
        let object_names = region_from_range(
            seg_len,
            meta.offset_object_names,
            (meta.object_count as u64) * (MAX_NAME_LEN as u64),
        )?;
        let uuids = region_from_range(seg_len, meta.offset_uuids, (meta.object_count as u64) * 16)?;
        Ok(
            AssetDataSlices {
                seg_len,
                verts,
                edges,
                transforms,
                vert_counts,
                edge_counts,
                object_names,
                uuids,
            },
        )
    }
}

/// Typed, bounds-validated sub-views over one group's backing segment,
/// for the single-segment group descriptor.
#[derive(Clone, Copy, Debug, PartialEq, Eq, Structural)]
pub struct GroupDataSlices {
    pub seg_len: u64,
    pub verts: Region,
    pub edges: Region,
    pub rotations: Region,
    pub scales: Region,
    pub offsets: Region,
    pub vert_counts: Region,
    pub edge_counts: Region,
}

/// Every data region `g` describes for `total_verts` vertices and
/// `total_edges` edges lies wholly inside a segment of `seg_len` bytes.
pub open spec fn group_views_fit(
    g: GroupFull,
    total_verts: u32,
    total_edges: u32,
    seg_len: int,
) -> bool {
    &&& g.offset_verts + total_verts as int * 12 <= seg_len
    &&& g.offset_edges + total_edges as int * 8 <= seg_len
    &&& g.offset_rotations + g.object_count as int * 16 <= seg_len
    &&& g.offset_scales + g.object_count as int * 12 <= seg_len
    &&& g.offset_offsets + g.object_count as int * 12 <= seg_len
    &&& g.offset_vert_counts + (g.object_count as int + 1) * 4 <= seg_len
    &&& g.offset_edge_counts + (g.object_count as int + 1) * 4 <= seg_len
}

/// A segment the group planner sized for `g` holds every region of `g`.
pub proof fn lemma_group_planned_views_fit(
    g: GroupFull,
    total: u64,
    total_verts: u32,
    total_edges: u32,
    seg_len: int,
)
    requires
        group_planned_layout(g, total, total_verts, total_edges),
        total <= seg_len,
    ensures
        group_views_fit(g, total_verts, total_edges, seg_len),
{
    lemma_align8_bounds(g.offset_verts + total_verts as int * 12);
    lemma_align8_bounds(g.offset_edges + total_edges as int * 8);
    lemma_align8_bounds(g.offset_rotations + g.object_count as int * 16);
    lemma_align8_bounds(g.offset_scales + g.object_count as int * 12);
    lemma_align8_bounds(g.offset_offsets + g.object_count as int * 12);
    lemma_align8_bounds(g.offset_vert_counts + (g.object_count as int + 1) * 4);
    lemma_align8_bounds(g.offset_edge_counts + (g.object_count as int + 1) * 4);
}

impl GroupDataSlices {
    /// The regions of the view are exactly the regions `g` describes for
    /// `total_verts` vertices and `total_edges` edges inside a segment of
    /// `seg_len` bytes.
    pub open spec fn matches_group(
        &self,
        g: GroupFull,
        total_verts: u32,
        total_edges: u32,
        seg_len: u64,
    ) -> bool {
        &&& self.seg_len == seg_len
        &&& self.verts == (Region { off: g.offset_verts, len: (total_verts as u64 * 12) as u64 })
        &&& self.edges == (Region { off: g.offset_edges, len: (total_edges as u64 * 8) as u64 })
        &&& self.rotations == (Region {
            off: g.offset_rotations,
            len: (g.object_count as u64 * 16) as u64,
        })
        &&& self.scales == (Region {
            off: g.offset_scales,
            len: (g.object_count as u64 * 12) as u64,
        })
        &&& self.offsets == (Region {
            off: g.offset_offsets,
            len: (g.object_count as u64 * 12) as u64,
        })
        &&& self.vert_counts == (Region {
            off: g.offset_vert_counts,
            len: ((g.object_count as u64 + 1) * 4) as u64,
        })
        &&& self.edge_counts == (Region {
            off: g.offset_edge_counts,
            len: ((g.object_count as u64 + 1) * 4) as u64,
        })
    }

    pub open spec fn wf(&self) -> bool {
        &&& self.verts.fits(self.seg_len as int)
        &&& self.edges.fits(self.seg_len as int)
        &&& self.rotations.fits(self.seg_len as int)
        &&& self.scales.fits(self.seg_len as int)
        &&& self.offsets.fits(self.seg_len as int)
        &&& self.vert_counts.fits(self.seg_len as int)
        &&& self.edge_counts.fits(self.seg_len as int)
    }

    /// Materialize the sub-views that `g` describes over a segment of
    /// `seg_len` bytes, validating every region before returning.
    pub fn new(seg_len: u64, g: &GroupFull, total_verts: u32, total_edges: u32) -> (r: Result<
        Self,
        SyncError,
    >)
        ensures
            group_views_fit(*g, total_verts, total_edges, seg_len as int) ==> (r matches Ok(v)
                && v.wf() && v.matches_group(*g, total_verts, total_edges, seg_len)),
            !group_views_fit(*g, total_verts, total_edges, seg_len as int) ==> r == Err::<
                Self,
                SyncError,
            >(SyncError::BoundsError),
    {
        let verts = region_from_range(seg_len, g.offset_verts, (total_verts as u64) * 12)?;
        let edges = region_from_range(seg_len, g.offset_edges, (total_edges as u64) * 8)?;
        let rotations = region_from_range(seg_len, g.offset_rotations, (g.object_count as u64) * 16)?;
        let scales = region_from_range(seg_len, g.offset_scales, (g.object_count as u64) * 12)?;
        let offsets = region_from_range(seg_len, g.offset_offsets, (g.object_count as u64) * 12)?;
        let vert_counts = region_from_range(
            seg_len,
            g.offset_vert_counts,
            ((g.object_count as u64) + 1) * 4,
        )?;
        let edge_counts = region_from_range(
            seg_len,
            g.offset_edge_counts,
            ((g.object_count as u64) + 1) * 4,
        )?;
        Ok(GroupDataSlices { seg_len, verts, edges, rotations, scales, offsets, vert_counts, edge_counts })
    }
}

/// One mapped shared-memory segment, modelled as an arena that owns its
/// bytes, named by its fixed-capacity handle field.
#[derive(Debug)]
pub struct Slab {
    pub name: Vec<u8>,
    pub bytes: Vec<u8>,
}

impl Slab {
    pub open spec fn wf(&self) -> bool {
        self.name@.len() == MAX_HANDLE_LEN
    }
}

/// Write `data` over the region `r` of `slab`. The write happens only
/// when the region lies inside the slab and `data` fills it exactly;
/// otherwise the slab is unchanged and a bounds error is returned.
pub fn write_at(slab: &mut Slab, r: &Region, data: &Vec<u8>) -> (res: Result<(), SyncError>)
    ensures
        (r.fits(old(slab).bytes@.len() as int) && data@.len() == r.len) ==> {
            &&& res == Ok::<(), SyncError>(())
            &&& final(slab).bytes@ == overlay(old(slab).bytes@, r.off as int, data@)
        },
        !(r.fits(old(slab).bytes@.len() as int) && data@.len() == r.len) ==> {
            &&& res == Err::<(), SyncError>(SyncError::BoundsError)
            &&& final(slab).bytes@ == old(slab).bytes@
        },
        final(slab).name == old(slab).name,
{
    let n = slab.bytes.len();
    if r.off > n as u64 || r.len > n as u64 - r.off || (data.len() as u64) != r.len {
        return Err(SyncError::BoundsError);
    }
    write_into(&mut slab.bytes, r.off as usize, data);
    Ok(())
}

/// Read the bytes of region `r` of `slab` into a fresh vector, when the
/// region lies inside the slab; otherwise a bounds error.
pub fn read_at(slab: &Slab, r: &Region) -> (res: Result<Vec<u8>, SyncError>)
    ensures
        r.fits(slab.bytes@.len() as int) ==> (res matches Ok(v) && v@ == slab.bytes@.subrange(
            r.off as int,
            r.off + r.len,
        )),
        !r.fits(slab.bytes@.len() as int) ==> res == Err::<Vec<u8>, SyncError>(
            SyncError::BoundsError,
        ),
{
    let n = slab.bytes.len();
    if r.off > n as u64 || r.len > n as u64 - r.off {
        return Err(SyncError::BoundsError);
    }
    Ok(read_range(&slab.bytes, r.off as usize, r.len as usize))
}

/// Writing a region and reading the same region back through any view
/// over the same segment yields the bytes just written, and every range
/// disjoint from the written region reads back unchanged.
pub proof fn lemma_write_read_round_trip(base: Seq<u8>, off: int, data: Seq<u8>)
    requires
        0 <= off,
        off + data.len() <= base.len(),
    ensures
        overlay(base, off, data).subrange(off, off + data.len()) == data,
        forall|lo: int, hi: int|
            0 <= lo <= hi <= base.len() && (hi <= off || off + data.len() <= lo)
                ==> overlay(base, off, data).subrange(lo, hi) == base.subrange(lo, hi),
{
    assert(overlay(base, off, data).subrange(off, off + data.len()) =~= data);
    assert forall|lo: int, hi: int|
        0 <= lo <= hi <= base.len() && (hi <= off || off + data.len() <= lo)
            implies overlay(base, off, data).subrange(lo, hi) == base.subrange(lo, hi) by {
        assert(overlay(base, off, data).subrange(lo, hi) =~= base.subrange(lo, hi));
    }
}

} // verus!
