//! Records that cross the process boundary: command and response records,
//! group descriptors, and the fixed capacities of their null-padded fields.
//!
//! Every record is modelled with plain fields and byte vectors whose
//! lengths are pinned by well-formedness predicates; the unverified
//! transport shim mirrors them as fixed-size, copyable structs.

use vstd::prelude::*;

use crate::errors::SyncError;
use crate::wire::{overlay_trunc, pack_fixed, packed, read_range, write_trunc};
use vstd::arithmetic::div_mod::{
    lemma_fundamental_div_mod, lemma_mod_bound, lemma_mod_multiples_basic,
};

verus! {

pub const OP_STANDARDIZE_GROUPS: u16 = 1;

pub const OP_STANDARDIZE_SYNCED_GROUPS: u16 = 2;

pub const OP_SET_SURFACE_TYPES: u16 = 3;

pub const OP_DROP_GROUPS: u16 = 4;

pub const OP_ORGANIZE_OBJECTS: u16 = 5;

pub const OP_GET_SURFACE_TYPES: u16 = 6;

pub const OP_STOP_ENGINE: u16 = 7;

pub const OP_ALLOC_MEM: u16 = 8;

/// Capacity of a null-padded name field.
pub const MAX_NAME_LEN: usize = 64;

/// Capacity of a null-padded shared-memory handle field.
pub const MAX_HANDLE_LEN: usize = 32;

/// Capacity of a command record's inline payload.
pub const MAX_INLINE_DATA: usize = 65536;

/// `x` rounded up to the next multiple of 8.
pub open spec fn align8(x: int) -> int {
    ((x + 7) / 8) * 8
}

/// Rounding up to an 8-byte boundary moves an offset forward by less than
/// one alignment unit and lands on a multiple of 8.
pub proof fn lemma_align8_bounds(x: int)
    requires
        0 <= x,
    ensures
        x <= align8(x) <= x + 7,
        align8(x) % 8 == 0,
{
    lemma_fundamental_div_mod(x + 7, 8);
    lemma_mod_bound(x + 7, 8);
    lemma_mod_multiples_basic((x + 7) / 8, 8);
}

/// `v` rounded up to the next multiple of 8.
pub fn align8_up(v: u64) -> (r: u64)
    requires
        v + 7 <= u64::MAX,
    ensures
        r == align8(v as int),
{
    ((v + 7) / 8) * 8
}

/// A record naming one group.
#[derive(Debug)]
pub struct GroupNames {
    pub group_name: Vec<u8>,
}

impl GroupNames {
    pub open spec fn wf(&self) -> bool {
        self.group_name@.len() == MAX_NAME_LEN
    }

    /// Pack `group_name` into the fixed name field, truncating safely.
    pub fn new(group_name: &Vec<u8>) -> (r: Self)
        ensures
            r.wf(),
            r.group_name@ == packed(group_name@, MAX_NAME_LEN as nat),
    {
        GroupNames { group_name: pack_fixed(group_name, MAX_NAME_LEN) }
    }
}

/// A record assigning a surface type to one named group.
#[derive(Debug)]
pub struct GroupSurface {
    pub group_name: Vec<u8>,
    pub surface_type: u64,
}

impl GroupSurface {
    pub open spec fn wf(&self) -> bool {
        self.group_name@.len() == MAX_NAME_LEN
    }

    pub fn new(group_name: &Vec<u8>, surface_type: u64) -> (r: Self)
        ensures
            r.wf(),
            r.group_name@ == packed(group_name@, MAX_NAME_LEN as nat),
            r.surface_type == surface_type,
    {
        let mut surf = GroupSurface { group_name: pack_fixed(&Vec::new(), MAX_NAME_LEN), surface_type };
        surf.set_group_name(group_name);
        proof {
            assert(surf.group_name@ =~= packed(group_name@, MAX_NAME_LEN as nat));
        }
        surf
    }

    /// Copy `name` over the start of the name field, truncating safely;
    /// bytes past the copied prefix keep their old values.
    pub fn set_group_name(&mut self, name: &Vec<u8>)
        requires
            old(self).wf(),
        ensures
            final(self).wf(),
            final(self).group_name@ == overlay_trunc(old(self).group_name@, name@),
            final(self).surface_type == old(self).surface_type,
    {
        write_trunc(&mut self.group_name, name);
    }
}

/// Layout descriptor of one group's backing segment: byte offsets of each
/// data region, the totals, and the group's name and segment handle.
///
/// The offsets point into the single shared-memory segment named by
/// `mesh_shm_handle`; each region start is rounded up to an 8-byte
/// boundary after the end of the region before it.
#[derive(Debug)]
pub struct GroupFull {
    pub offset_verts: u64,
    pub offset_edges: u64,
    pub offset_rotations: u64,
    pub offset_scales: u64,
    pub offset_offsets: u64,
    pub offset_vert_counts: u64,
    pub offset_edge_counts: u64,
    pub object_count: u32,
    pub surface_context: u32,
    pub group_name: Vec<u8>,
    pub mesh_shm_handle: Vec<u8>,
}

/// The offsets of `g` are exactly the ones its planner assigns for
/// `total_verts` vertices, `total_edges` edges and `g.object_count`
/// objects, and `total` is the planned total segment size.
pub open spec fn group_planned_layout(g: GroupFull, total: u64, total_verts: u32, total_edges: u32) -> bool {
    &&& g.offset_verts == 0
    &&& g.offset_edges == align8(g.offset_verts + total_verts as int * 12)
    &&& g.offset_rotations == align8(g.offset_edges + total_edges as int * 8)
    &&& g.offset_scales == align8(g.offset_rotations + g.object_count as int * 16)
    &&& g.offset_offsets == align8(g.offset_scales + g.object_count as int * 12)
    &&& g.offset_vert_counts == align8(g.offset_offsets + g.object_count as int * 12)
    &&& g.offset_edge_counts == align8(g.offset_vert_counts + (g.object_count as int + 1) * 4)
    &&& total == align8(g.offset_edge_counts + (g.object_count as int + 1) * 4)
}

impl GroupFull {
    pub open spec fn wf(&self) -> bool {
        &&& self.group_name@.len() == MAX_NAME_LEN
        &&& self.mesh_shm_handle@.len() == MAX_HANDLE_LEN
    }

    /// Plan the layout of one group's backing segment and build its
    /// descriptor. Returns the total byte size the segment needs together
    /// with the descriptor. Regions are laid out in order — vertices
    /// (12 bytes each), edges (8 bytes each), rotations (16 bytes per
    /// object), scales and translation offsets (12 bytes per object each),
    /// then the two cumulative count tables (`object_count + 1` entries of
    /// 4 bytes, the last entry holding the grand total) — each starting at
    /// the next 8-byte boundary after the previous region's end.
    pub fn new(
        total_verts: u32,
        total_edges: u32,
        object_count: u32,
        surface_context: u32,
        group_name: &Vec<u8>,
        shm_handle: &Vec<u8>,
    ) -> (r: (u64, Self))
        ensures
            r.1.wf(),
            r.1.offset_verts == 0,
            r.1.offset_edges == align8(total_verts as int * 12),
            r.1.offset_rotations == align8(r.1.offset_edges + total_edges as int * 8),
            r.1.offset_scales == align8(r.1.offset_rotations + object_count as int * 16),
            r.1.offset_offsets == align8(r.1.offset_scales + object_count as int * 12),
            r.1.offset_vert_counts == align8(r.1.offset_offsets + object_count as int * 12),
            r.1.offset_edge_counts == align8(
                r.1.offset_vert_counts + (object_count as int + 1) * 4,
            ),
            r.0 == align8(r.1.offset_edge_counts + (object_count as int + 1) * 4),
            group_planned_layout(r.1, r.0, total_verts, total_edges),
            r.1.object_count == object_count,
            r.1.surface_context == surface_context,
            r.1.group_name@ == packed(group_name@, MAX_NAME_LEN as nat),
            r.1.mesh_shm_handle@ == packed(shm_handle@, MAX_HANDLE_LEN as nat),
    {
        let offset_verts: u64 = 0;
        let cursor = align8_up(offset_verts + (total_verts as u64) * 12);
        proof {
            lemma_align8_bounds(offset_verts + total_verts as int * 12);
        }

        let offset_edges = cursor;
        let cursor = align8_up(offset_edges + (total_edges as u64) * 8);
        proof {
            lemma_align8_bounds(offset_edges + total_edges as int * 8);
        }

        let offset_rotations = cursor;
        let cursor = align8_up(offset_rotations + (object_count as u64) * 16);
        proof {
            lemma_align8_bounds(offset_rotations + object_count as int * 16);
        }

        let offset_scales = cursor;
        let cursor = align8_up(offset_scales + (object_count as u64) * 12);
        proof {
            lemma_align8_bounds(offset_scales + object_count as int * 12);
        }

        let offset_offsets = cursor;
        let cursor = align8_up(offset_offsets + (object_count as u64) * 12);
        proof {
            lemma_align8_bounds(offset_offsets + object_count as int * 12);
        }

        // The count tables carry one extra trailing entry holding the total.
        let offset_vert_counts = cursor;
        let cursor = align8_up(offset_vert_counts + ((object_count as u64) + 1) * 4);
        proof {
            lemma_align8_bounds(offset_vert_counts + (object_count as int + 1) * 4);
        }

        let offset_edge_counts = cursor;
        let cursor = align8_up(offset_edge_counts + ((object_count as u64) + 1) * 4);
        proof {
            lemma_align8_bounds(offset_edge_counts + (object_count as int + 1) * 4);
        }

        let total_size = cursor;

        let group_metadata = GroupFull {
            offset_verts,
            offset_edges,
            offset_rotations,
            offset_scales,
            offset_offsets,
            offset_vert_counts,
            offset_edge_counts,
            object_count,
            surface_context,
            group_name: pack_fixed(group_name, MAX_NAME_LEN),
            mesh_shm_handle: pack_fixed(shm_handle, MAX_HANDLE_LEN),
        };

        (total_size, group_metadata)
    }

    /// All fields of the descriptor other than its two byte-array
    /// fields are equal between `a` and `b`.
    pub open spec fn same_layout_fields(a: GroupFull, b: GroupFull) -> bool {
        &&& a.offset_verts == b.offset_verts
        &&& a.offset_edges == b.offset_edges
        &&& a.offset_rotations == b.offset_rotations
        &&& a.offset_scales == b.offset_scales
        &&& a.offset_offsets == b.offset_offsets
        &&& a.offset_vert_counts == b.offset_vert_counts
        &&& a.offset_edge_counts == b.offset_edge_counts
        &&& a.object_count == b.object_count
        &&& a.surface_context == b.surface_context
    }

    /// Copy `name` over the start of the name field, truncating safely;
    /// every other field of the descriptor is unchanged.
    pub fn set_group_name(&mut self, name: &Vec<u8>)
        requires
            old(self).wf(),
        ensures
            final(self).wf(),
            final(self).group_name@ == overlay_trunc(old(self).group_name@, name@),
            final(self).mesh_shm_handle == old(self).mesh_shm_handle,
            GroupFull::same_layout_fields(*final(self), *old(self)),
    {
        write_trunc(&mut self.group_name, name);
    }

    /// Copy `handle` over the start of the segment-handle field,
    /// truncating safely; every other field of the descriptor is
    /// unchanged.
    pub fn set_shm_handle(&mut self, handle: &Vec<u8>)
        requires
            old(self).wf(),
        ensures
            final(self).wf(),
            final(self).mesh_shm_handle@ == overlay_trunc(old(self).mesh_shm_handle@, handle@),
            final(self).group_name == old(self).group_name,
            GroupFull::same_layout_fields(*final(self), *old(self)),
    {
        write_trunc(&mut self.mesh_shm_handle, handle);
    }
}

/// A command record: operation code, item count, and a bounded inline
/// payload. Fixed-size on the wire, with no embedded pointers, so it is
/// safe to copy byte-for-byte across the transport.
#[derive(Debug)]
pub struct EngineCommand {
    /// 0 while the payload is inline; reserved for a shared-memory
    /// fallback payload.
    pub payload_mode: u8,
    pub should_cache: u8,
    pub op_id: u16,
    pub num_groups: u32,
    pub inline_data: Vec<u8>,
    pub shm_fallback_handle: Vec<u8>,
}

impl EngineCommand {
    pub open spec fn wf(&self) -> bool {
        &&& self.inline_data@.len() <= MAX_INLINE_DATA
        &&& self.shm_fallback_handle@.len() == MAX_HANDLE_LEN
    }

    /// A command with the given operation code and item count, an empty
    /// inline payload and no fallback handle.
    pub fn new(op_id: u16, num_groups: u32) -> (r: Self)
        ensures
            r.wf(),
            r.payload_mode == 0,
            r.should_cache == 1,
            r.op_id == op_id,
            r.num_groups == num_groups,
            r.inline_data@.len() == 0,
            r.shm_fallback_handle@ == packed(Seq::<u8>::empty(), MAX_HANDLE_LEN as nat),
    {
        EngineCommand {
            payload_mode: 0,
            should_cache: 1,
            op_id,
            num_groups,
            inline_data: Vec::new(),
            shm_fallback_handle: pack_fixed(&Vec::new(), MAX_HANDLE_LEN),
        }
    }

    /// Replace the inline payload with `payload`. A payload over the
    /// inline capacity is rejected whole — never truncated — and the
    /// command is left unchanged.
    pub fn copy_payload_into_inline(&mut self, payload: &Vec<u8>) -> (r: Result<(), SyncError>)
        ensures
            payload@.len() <= MAX_INLINE_DATA ==> {
                &&& r == Ok::<(), SyncError>(())
                &&& final(self).inline_data@ == payload@
            },
            payload@.len() > MAX_INLINE_DATA ==> {
                &&& r == Err::<(), SyncError>(SyncError::BoundsError)
                &&& *final(self) == *old(self)
            },
            final(self).payload_mode == old(self).payload_mode,
            final(self).should_cache == old(self).should_cache,
            final(self).op_id == old(self).op_id,
            final(self).num_groups == old(self).num_groups,
            final(self).shm_fallback_handle == old(self).shm_fallback_handle,
    {
        if payload.len() > MAX_INLINE_DATA {
            return Err(SyncError::BoundsError);
        }
        self.inline_data = read_range(payload, 0, payload.len());
        proof {
            assert(payload@.subrange(0, payload@.len() as int) =~= payload@);
        }
        Ok(())
    }
}

/// A response record: the status code of one completed command.
#[derive(Clone, Copy, Debug, PartialEq, Eq, Structural)]
pub struct EngineResponse {
    /// 0 for success; anything else is an engine-reported failure.
    pub status: u32,
}

/// A reply that carries data back from the engine: the status code, how
/// many records the inline payload holds, and the handle of the root slab
/// against which any compact pointers in the payload resolve.
#[derive(Debug)]
pub struct EngineReply {
    pub status: u32,
    pub num_items: u32,
    pub root_slab_handle: Vec<u8>,
    pub inline_data: Vec<u8>,
}

impl EngineReply {
    pub open spec fn wf(&self) -> bool {
        &&& self.root_slab_handle@.len() == MAX_HANDLE_LEN
        &&& self.inline_data@.len() <= MAX_INLINE_DATA
    }
}

} // verus!
