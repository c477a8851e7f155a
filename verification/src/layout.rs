//! Asset layout planner: pure computation of the byte layout of one
//! asset's backing segment, and the serialized descriptor record written
//! at the asset's base inside a slab.
//!
//! Given vertex, edge and object counts the planner lays out, in order, a
//! vertex region (12 bytes per vertex), an edge region (8 bytes per edge),
//! a 4x4 transform-matrix region (64 bytes per object), a vertex-count
//! prefix table and an edge-count prefix table (`object_count + 1` entries
//! of 4 bytes each, the last holding the grand total), an object-name
//! table (one fixed-width name slot per object) and an identifier table
//! (16 bytes per object). Each region's start offset is rounded up to the
//! next 8-byte boundary after the prior region's end, and the final cursor
//! is the total size of the backing segment.

use vstd::prelude::*;

use crate::com_types::{align8, align8_up, lemma_align8_bounds, MAX_NAME_LEN};
use crate::errors::SyncError;
use crate::wire::{
    pack_fixed, packed, read_range, read_u32_le, read_u64_le, write_into, write_u32_le,
    write_u64_le, zero_bytes,
};
use vstd::bytes::{
    lemma_auto_spec_u32_to_from_le_bytes, lemma_auto_spec_u64_to_from_le_bytes,
    spec_u32_from_le_bytes, spec_u64_from_le_bytes,
};

verus! {

/// Size in bytes of a serialized [`AssetMeta`] record.
pub const META_BYTES: usize = 152;

/// Layout descriptor of one asset: element counts, identity, and the byte
/// offset of every data region inside the asset's backing segment.
#[derive(Debug)]
pub struct AssetMeta {
    pub offset_verts: u64,
    pub offset_edges: u64,
    pub offset_transforms: u64,
    pub offset_vert_bases: u64,
    pub offset_edge_bases: u64,
    pub offset_object_names: u64,
    pub offset_uuids: u64,
    pub vert_count: u32,
    pub edge_count: u32,
    pub object_count: u32,
    pub surface_context: u32,
    pub group_name: Vec<u8>,
    pub uuid: Vec<u8>,
}

impl AssetMeta {
    pub open spec fn wf(&self) -> bool {
        &&& self.group_name@.len() == MAX_NAME_LEN
        &&& self.uuid@.len() == 16
    }

    /// Byte size of the vertex region: 3 4-byte components per vertex.
    pub open spec fn verts_size(&self) -> int {
        self.vert_count as int * 12
    }

    /// Byte size of the edge region: 2 4-byte endpoints per edge.
    pub open spec fn edges_size(&self) -> int {
        self.edge_count as int * 8
    }

    /// Byte size of the transform region: a 4x4 matrix of 4-byte entries
    /// per object.
    pub open spec fn transforms_size(&self) -> int {
        self.object_count as int * 64
    }

    /// Byte size of a cumulative count table: `object_count + 1` 4-byte
    /// entries, the last holding the grand total.
    pub open spec fn count_table_size(&self) -> int {
        (self.object_count as int + 1) * 4
    }

    /// Byte size of the object-name table: one fixed-width slot per
    /// object.
    pub open spec fn names_size(&self) -> int {
        self.object_count as int * MAX_NAME_LEN as int
    }

    /// Byte size of the identifier table: 16 bytes per object.
    pub open spec fn uuids_size(&self) -> int {
        self.object_count as int * 16
    }
}

/// The offsets of `m` are exactly the ones the planner assigns for its
/// counts, and `total` is the planned total segment size.
pub open spec fn planned_layout(m: AssetMeta, total: u64) -> bool {
    &&& m.offset_verts == 0
    &&& m.offset_edges == align8(m.offset_verts + m.verts_size())
    &&& m.offset_transforms == align8(m.offset_edges + m.edges_size())
    &&& m.offset_vert_bases == align8(m.offset_transforms + m.transforms_size())
    &&& m.offset_edge_bases == align8(m.offset_vert_bases + m.count_table_size())
    &&& m.offset_object_names == align8(m.offset_edge_bases + m.count_table_size())
    &&& m.offset_uuids == align8(m.offset_object_names + m.names_size())
    &&& total == align8(m.offset_uuids + m.uuids_size())
}

impl AssetMeta {
    /// Plan the layout for one asset and build its descriptor. Returns
    /// the descriptor together with the total byte size that the backing
    /// segment needs.
    pub fn new(
        vert_count: u32,
        edge_count: u32,
        object_count: u32,
        surface_context: u16,
        group_name: &Vec<u8>,
        uuid: &Vec<u8>,
    ) -> (r: (Self, u64))
        requires
            uuid@.len() == 16,
        ensures
            r.0.wf(),
            planned_layout(r.0, r.1),
            r.0.vert_count == vert_count,
            r.0.edge_count == edge_count,
            r.0.object_count == object_count,
            r.0.surface_context == surface_context as u32,
            r.0.group_name@ == packed(group_name@, MAX_NAME_LEN as nat),
            r.0.uuid@ == uuid@,
    {
        let offset_verts: u64 = 0;
        let cursor = align8_up(offset_verts + (vert_count as u64) * 12);
        proof {
            lemma_align8_bounds(offset_verts + vert_count as int * 12);
        }

        let offset_edges = cursor;
        let cursor = align8_up(offset_edges + (edge_count as u64) * 8);
        proof {
            lemma_align8_bounds(offset_edges + edge_count as int * 8);
        }

        let offset_transforms = cursor;
        let cursor = align8_up(offset_transforms + (object_count as u64) * 64);
        proof {
            lemma_align8_bounds(offset_transforms + object_count as int * 64);
        }

        // The count tables carry one extra trailing entry holding the total.
        let offset_vert_bases = cursor;
        let cursor = align8_up(offset_vert_bases + ((object_count as u64) + 1) * 4);
        proof {
            lemma_align8_bounds(offset_vert_bases + (object_count as int + 1) * 4);
        }

        let offset_edge_bases = cursor;
        let cursor = align8_up(offset_edge_bases + ((object_count as u64) + 1) * 4);
        proof {
            lemma_align8_bounds(offset_edge_bases + (object_count as int + 1) * 4);
        }

        let offset_object_names = cursor;
        let cursor = align8_up(offset_object_names + (object_count as u64) * (MAX_NAME_LEN as u64));
        proof {
            lemma_align8_bounds(offset_object_names + object_count as int * MAX_NAME_LEN as int);
        }

        let offset_uuids = cursor;
        let cursor = align8_up(offset_uuids + (object_count as u64) * 16);
        proof {
            lemma_align8_bounds(offset_uuids + object_count as int * 16);
        }

        let total_size = cursor;

        let meta = AssetMeta {
            offset_verts,
            offset_edges,
            offset_transforms,
            offset_vert_bases,
            offset_edge_bases,
            offset_object_names,
            offset_uuids,
            vert_count,
            edge_count,
            object_count,
            surface_context: surface_context as u32,
            group_name: pack_fixed(group_name, MAX_NAME_LEN),
            uuid: read_range(uuid, 0, uuid.len()),
        };
        proof {
            assert(uuid@.subrange(0, uuid@.len() as int) =~= uuid@);
        }

        (meta, total_size)
    }
}

/// A planned layout's regions sit in order, each wholly before the next,
/// every offset and the total are 8-byte aligned, and the total is the
/// 8-byte-aligned end of the last region. With every count positive the
/// offsets are strictly increasing.
pub proof fn lemma_layout_regions(m: AssetMeta, total: u64)
    requires
        planned_layout(m, total),
    ensures
        m.offset_verts % 8 == 0,
        m.offset_edges % 8 == 0,
        m.offset_transforms % 8 == 0,
        m.offset_vert_bases % 8 == 0,
        m.offset_edge_bases % 8 == 0,
        m.offset_object_names % 8 == 0,
        m.offset_uuids % 8 == 0,
        total % 8 == 0,
        m.offset_verts + m.verts_size() <= m.offset_edges,
        m.offset_edges + m.edges_size() <= m.offset_transforms,
        m.offset_transforms + m.transforms_size() <= m.offset_vert_bases,
        m.offset_vert_bases + m.count_table_size() <= m.offset_edge_bases,
        m.offset_edge_bases + m.count_table_size() <= m.offset_object_names,
        m.offset_object_names + m.names_size() <= m.offset_uuids,
        m.offset_uuids + m.uuids_size() <= total,
        total <= m.offset_uuids + m.uuids_size() + 7,
        m.vert_count > 0 ==> m.offset_verts < m.offset_edges,
        m.edge_count > 0 ==> m.offset_edges < m.offset_transforms,
        m.object_count >= 0 ==> m.offset_vert_bases < m.offset_edge_bases,
        m.object_count >= 0 ==> m.offset_edge_bases < m.offset_object_names,
        m.object_count > 0 ==> m.offset_transforms < m.offset_vert_bases,
        m.object_count > 0 ==> m.offset_object_names < m.offset_uuids,
        m.object_count > 0 ==> m.offset_uuids < total,
{
    lemma_align8_bounds(m.offset_verts + m.verts_size());
    lemma_align8_bounds(m.offset_edges + m.edges_size());
    lemma_align8_bounds(m.offset_transforms + m.transforms_size());
    lemma_align8_bounds(m.offset_vert_bases + m.count_table_size());
    lemma_align8_bounds(m.offset_edge_bases + m.count_table_size());
    lemma_align8_bounds(m.offset_object_names + m.names_size());
    lemma_align8_bounds(m.offset_uuids + m.uuids_size());
}

/// The serialized descriptor record of `m` sits at byte offset `base` of
/// `bytes`: the seven region offsets as little-endian `u64`s, the four
/// counts as little-endian `u32`s, then the null-padded name field and
/// the 16-byte identifier. This is the one meaning of "the descriptor is
/// written here" that the encoder establishes, the parser reads back,
/// and the allocation path promises of shared memory.
pub open spec fn meta_recorded_at(bytes: Seq<u8>, base: int, m: AssetMeta) -> bool {
    &&& 0 <= base
    &&& base + META_BYTES <= bytes.len()
    &&& spec_u64_from_le_bytes(bytes.subrange(base, base + 8)) == m.offset_verts
    &&& spec_u64_from_le_bytes(bytes.subrange(base + 8, base + 16)) == m.offset_edges
    &&& spec_u64_from_le_bytes(bytes.subrange(base + 16, base + 24)) == m.offset_transforms
    &&& spec_u64_from_le_bytes(bytes.subrange(base + 24, base + 32)) == m.offset_vert_bases
    &&& spec_u64_from_le_bytes(bytes.subrange(base + 32, base + 40)) == m.offset_edge_bases
    &&& spec_u64_from_le_bytes(bytes.subrange(base + 40, base + 48)) == m.offset_object_names
    &&& spec_u64_from_le_bytes(bytes.subrange(base + 48, base + 56)) == m.offset_uuids
    &&& spec_u32_from_le_bytes(bytes.subrange(base + 56, base + 60)) == m.vert_count
    &&& spec_u32_from_le_bytes(bytes.subrange(base + 60, base + 64)) == m.edge_count
    &&& spec_u32_from_le_bytes(bytes.subrange(base + 64, base + 68)) == m.object_count
    &&& spec_u32_from_le_bytes(bytes.subrange(base + 68, base + 72)) == m.surface_context
    &&& bytes.subrange(base + 72, base + 136) == m.group_name@
    &&& bytes.subrange(base + 136, base + 152) == m.uuid@
}

/// Serialize `m` into the fixed `META_BYTES`-byte descriptor record that
/// sits at an asset's base inside its slab: the seven region offsets as
/// little-endian `u64`s, the four counts as little-endian `u32`s, then the
/// null-padded name field and the 16-byte identifier.
pub fn encode_asset_meta(m: &AssetMeta) -> (r: Vec<u8>)
    requires
        m.wf(),
    ensures
        r@.len() == META_BYTES,
        meta_recorded_at(r@, 0, *m),
{
    let mut r = zero_bytes(META_BYTES);
    write_u64_le(&mut r, 0, m.offset_verts);
    write_u64_le(&mut r, 8, m.offset_edges);
    write_u64_le(&mut r, 16, m.offset_transforms);
    write_u64_le(&mut r, 24, m.offset_vert_bases);
    write_u64_le(&mut r, 32, m.offset_edge_bases);
    write_u64_le(&mut r, 40, m.offset_object_names);
    write_u64_le(&mut r, 48, m.offset_uuids);
    write_u32_le(&mut r, 56, m.vert_count);
    write_u32_le(&mut r, 60, m.edge_count);
    write_u32_le(&mut r, 64, m.object_count);
    write_u32_le(&mut r, 68, m.surface_context);
    write_into(&mut r, 72, &m.group_name);
    write_into(&mut r, 136, &m.uuid);
    proof {
        lemma_auto_spec_u64_to_from_le_bytes();
        lemma_auto_spec_u32_to_from_le_bytes();
        assert(r@.subrange(0, 8) =~= vstd::bytes::spec_u64_to_le_bytes(m.offset_verts));
        assert(r@.subrange(8, 16) =~= vstd::bytes::spec_u64_to_le_bytes(m.offset_edges));
        assert(r@.subrange(16, 24) =~= vstd::bytes::spec_u64_to_le_bytes(m.offset_transforms));
        assert(r@.subrange(24, 32) =~= vstd::bytes::spec_u64_to_le_bytes(m.offset_vert_bases));
        assert(r@.subrange(32, 40) =~= vstd::bytes::spec_u64_to_le_bytes(m.offset_edge_bases));
        assert(r@.subrange(40, 48) =~= vstd::bytes::spec_u64_to_le_bytes(m.offset_object_names));
        assert(r@.subrange(48, 56) =~= vstd::bytes::spec_u64_to_le_bytes(m.offset_uuids));
        assert(r@.subrange(56, 60) =~= vstd::bytes::spec_u32_to_le_bytes(m.vert_count));
        assert(r@.subrange(60, 64) =~= vstd::bytes::spec_u32_to_le_bytes(m.edge_count));
        assert(r@.subrange(64, 68) =~= vstd::bytes::spec_u32_to_le_bytes(m.object_count));
        assert(r@.subrange(68, 72) =~= vstd::bytes::spec_u32_to_le_bytes(m.surface_context));
        assert(r@.subrange(72, 136) =~= m.group_name@);
        assert(r@.subrange(136, 152) =~= m.uuid@);
    }
    r
}

/// Parse the descriptor record stored at byte offset `off` of `bytes`.
/// Fails with a bounds error — never a dereference — when the record does
/// not fit.
pub fn parse_asset_meta(bytes: &Vec<u8>, off: u64) -> (r: Result<AssetMeta, SyncError>)
    ensures
        off + META_BYTES <= bytes@.len() ==> (r matches Ok(m) && m.wf() && meta_recorded_at(
            bytes@,
            off as int,
            m,
        )),
        off + META_BYTES > bytes@.len() ==> r == Err::<AssetMeta, SyncError>(
            SyncError::BoundsError,
        ),
{
    let n = bytes.len();
    if off > n as u64 || (META_BYTES as u64) > n as u64 - off {
        return Err(SyncError::BoundsError);
    }
    let base = off as usize;
    let meta = AssetMeta {
        offset_verts: read_u64_le(bytes, base),
        offset_edges: read_u64_le(bytes, base + 8),
        offset_transforms: read_u64_le(bytes, base + 16),
        offset_vert_bases: read_u64_le(bytes, base + 24),
        offset_edge_bases: read_u64_le(bytes, base + 32),
        offset_object_names: read_u64_le(bytes, base + 40),
        offset_uuids: read_u64_le(bytes, base + 48),
        vert_count: read_u32_le(bytes, base + 56),
        edge_count: read_u32_le(bytes, base + 60),
        object_count: read_u32_le(bytes, base + 64),
        surface_context: read_u32_le(bytes, base + 68),
        group_name: read_range(bytes, base + 72, MAX_NAME_LEN),
        uuid: read_range(bytes, base + 136, 16),
    };
    Ok(meta)
}

/// Writing a serialized descriptor over a buffer records it at the
/// write offset.
pub proof fn lemma_meta_recorded_after_write(base: Seq<u8>, off: int, data: Seq<u8>, m: AssetMeta)
    requires
        data.len() == META_BYTES,
        meta_recorded_at(data, 0, m),
        0 <= off,
        off + META_BYTES <= base.len(),
    ensures
        meta_recorded_at(crate::wire::overlay(base, off, data), off, m),
{
    let w = crate::wire::overlay(base, off, data);
    assert(w.subrange(off, off + 8) =~= data.subrange(0, 8));
    assert(w.subrange(off + 8, off + 16) =~= data.subrange(8, 16));
    assert(w.subrange(off + 16, off + 24) =~= data.subrange(16, 24));
    assert(w.subrange(off + 24, off + 32) =~= data.subrange(24, 32));
    assert(w.subrange(off + 32, off + 40) =~= data.subrange(32, 40));
    assert(w.subrange(off + 40, off + 48) =~= data.subrange(40, 48));
    assert(w.subrange(off + 48, off + 56) =~= data.subrange(48, 56));
    assert(w.subrange(off + 56, off + 60) =~= data.subrange(56, 60));
    assert(w.subrange(off + 60, off + 64) =~= data.subrange(60, 64));
    assert(w.subrange(off + 64, off + 68) =~= data.subrange(64, 68));
    assert(w.subrange(off + 68, off + 72) =~= data.subrange(68, 72));
    assert(w.subrange(off + 72, off + 136) =~= data.subrange(72, 136));
    assert(w.subrange(off + 136, off + 152) =~= data.subrange(136, 152));
}

/// A write wholly apart from a recorded descriptor leaves the record in
/// place.
pub proof fn lemma_meta_record_preserved(
    base: Seq<u8>,
    off: int,
    data: Seq<u8>,
    rec_off: int,
    m: AssetMeta,
)
    requires
        meta_recorded_at(base, rec_off, m),
        0 <= off,
        off + data.len() <= base.len(),
        rec_off + META_BYTES <= off || off + data.len() <= rec_off,
    ensures
        meta_recorded_at(crate::wire::overlay(base, off, data), rec_off, m),
{
    let w = crate::wire::overlay(base, off, data);
    assert(w.subrange(rec_off, rec_off + 8) =~= base.subrange(rec_off, rec_off + 8));
    assert(w.subrange(rec_off + 8, rec_off + 16) =~= base.subrange(rec_off + 8, rec_off + 16));
    assert(w.subrange(rec_off + 16, rec_off + 24) =~= base.subrange(rec_off + 16, rec_off + 24));
    assert(w.subrange(rec_off + 24, rec_off + 32) =~= base.subrange(rec_off + 24, rec_off + 32));
    assert(w.subrange(rec_off + 32, rec_off + 40) =~= base.subrange(rec_off + 32, rec_off + 40));
    assert(w.subrange(rec_off + 40, rec_off + 48) =~= base.subrange(rec_off + 40, rec_off + 48));
    assert(w.subrange(rec_off + 48, rec_off + 56) =~= base.subrange(rec_off + 48, rec_off + 56));
    assert(w.subrange(rec_off + 56, rec_off + 60) =~= base.subrange(rec_off + 56, rec_off + 60));
    assert(w.subrange(rec_off + 60, rec_off + 64) =~= base.subrange(rec_off + 60, rec_off + 64));
    assert(w.subrange(rec_off + 64, rec_off + 68) =~= base.subrange(rec_off + 64, rec_off + 68));
    assert(w.subrange(rec_off + 68, rec_off + 72) =~= base.subrange(rec_off + 68, rec_off + 72));
    assert(w.subrange(rec_off + 72, rec_off + 136) =~= base.subrange(rec_off + 72, rec_off + 136));
    assert(w.subrange(rec_off + 136, rec_off + 152) =~= base.subrange(
        rec_off + 136,
        rec_off + 152,
    ));
}

/// The descriptor recorded at one location is unique: any two
/// descriptors recorded at the same offset of the same bytes agree on
/// every field. In particular, parsing a location where a descriptor was
/// just encoded recovers that descriptor exactly.
pub proof fn lemma_meta_round_trip(bytes: Seq<u8>, base: int, a: AssetMeta, b: AssetMeta)
    requires
        meta_recorded_at(bytes, base, a),
        meta_recorded_at(bytes, base, b),
    ensures
        a.offset_verts == b.offset_verts,
        a.offset_edges == b.offset_edges,
        a.offset_transforms == b.offset_transforms,
        a.offset_vert_bases == b.offset_vert_bases,
        a.offset_edge_bases == b.offset_edge_bases,
        a.offset_object_names == b.offset_object_names,
        a.offset_uuids == b.offset_uuids,
        a.vert_count == b.vert_count,
        a.edge_count == b.edge_count,
        a.object_count == b.object_count,
        a.surface_context == b.surface_context,
        a.group_name@ == b.group_name@,
        a.uuid@ == b.uuid@,
{
}

} // verus!
