//! Command builders: one verified constructor per engine operation, each
//! producing a complete command record with its inline payload encoded
//! and bounds-checked. A payload that would not fit the inline capacity
//! is rejected before it could reach the transport, never truncated.
//!
//! Also here: the allocation request record, the decoding of the
//! engine's allocation response, and the completion of an allocation —
//! hydrating the returned compact pointers, writing each planned
//! descriptor into shared memory and materializing its views.

use vstd::prelude::*;

use crate::com_types::{
    group_planned_layout, EngineCommand, EngineReply, GroupFull, MAX_HANDLE_LEN,
    MAX_INLINE_DATA, OP_ALLOC_MEM, OP_DROP_GROUPS, OP_GET_SURFACE_TYPES, OP_ORGANIZE_OBJECTS,
    OP_SET_SURFACE_TYPES, OP_STANDARDIZE_GROUPS, OP_STANDARDIZE_SYNCED_GROUPS, OP_STOP_ENGINE,
    MAX_NAME_LEN,
};
use crate::ids::{is_ascii_hex_digit, new_uid16};
use crate::errors::SyncError;
use crate::layout::{
    encode_asset_meta, lemma_meta_record_preserved, lemma_meta_recorded_after_write,
    meta_recorded_at, planned_layout, AssetMeta, META_BYTES,
};
use crate::slabs::{
    create_segment, encode_asset_ptrs, records_disjoint, write_segment, AssetPtr, SlabMap,
    PTR_BYTES,
};
use crate::wire::decode_handle;
use crate::view::{
    lemma_group_planned_views_fit, AssetDataSlices, GroupDataSlices,
};
use crate::wire::{append_bytes, packed, read_range, zero_bytes};
use vstd::bytes::{
    lemma_auto_spec_u64_to_from_le_bytes, spec_u32_from_le_bytes, spec_u64_from_le_bytes,
    spec_u64_to_le_bytes, u64_to_le_bytes,
};

verus! {

/// Size in bytes of one serialized surface assignment: a 16-byte asset
/// identifier followed by the surface type as a little-endian `u64`.
pub const SURFACE_BYTES: usize = 24;

/// Size in bytes of one serialized asset identifier.
pub const UUID_BYTES: usize = 16;

/// Bytes of the allocation request header: the asset count and the two
/// payload offsets, each a little-endian `u64`.
pub const ALLOC_HEADER_BYTES: usize = 24;

/// An assignment of a surface type to one asset, identified by its
/// 16-byte identifier.
#[derive(Debug)]
pub struct AssetSurface {
    pub uuid: Vec<u8>,
    pub surface_type: u64,
}

impl AssetSurface {
    pub open spec fn wf(&self) -> bool {
        self.uuid@.len() == UUID_BYTES
    }

    pub fn new(uuid: &Vec<u8>, surface_type: u64) -> (r: Self)
        requires
            uuid@.len() == UUID_BYTES,
        ensures
            r.wf(),
            r.uuid@ == uuid@,
            r.surface_type == surface_type,
    {
        let copy = read_range(uuid, 0, uuid.len());
        proof {
            assert(uuid@.subrange(0, uuid@.len() as int) =~= uuid@);
        }
        AssetSurface { uuid: copy, surface_type }
    }
}

/// Serialize surface assignments: for each one the identifier bytes, then
/// the surface type as a little-endian `u64`.
pub fn encode_asset_surfaces(surfs: &Vec<AssetSurface>) -> (r: Vec<u8>)
    requires
        forall|i: int| 0 <= i < surfs@.len() ==> (#[trigger] surfs@[i]).wf(),
    ensures
        r@.len() == surfs@.len() * SURFACE_BYTES,
        forall|i: int|
            0 <= i < surfs@.len() ==> {
                &&& r@.subrange(SURFACE_BYTES * i, SURFACE_BYTES * i + 16) == (
                #[trigger] surfs@[i]).uuid@
                &&& spec_u64_from_le_bytes(
                    r@.subrange(SURFACE_BYTES * i + 16, SURFACE_BYTES * i + 24),
                ) == surfs@[i].surface_type
            },
{
    let mut r: Vec<u8> = Vec::new();
    let mut i: usize = 0;
    while i < surfs.len()
        invariant
            i <= surfs@.len(),
            forall|k: int| 0 <= k < surfs@.len() ==> (#[trigger] surfs@[k]).wf(),
            r@.len() == i * SURFACE_BYTES,
            forall|j: int|
                0 <= j < i ==> {
                    &&& r@.subrange(SURFACE_BYTES * j, SURFACE_BYTES * j + 16) == (
                    #[trigger] surfs@[j]).uuid@
                    &&& spec_u64_from_le_bytes(
                        r@.subrange(SURFACE_BYTES * j + 16, SURFACE_BYTES * j + 24),
                    ) == surfs@[j].surface_type
                },
        decreases surfs@.len() - i,
    {
        let ghost prev = r@;
        let surface_bytes = u64_to_le_bytes(surfs[i].surface_type);
        append_bytes(&mut r, &surfs[i].uuid);
        append_bytes(&mut r, &surface_bytes);
        proof {
            lemma_auto_spec_u64_to_from_le_bytes();
            assert forall|j: int| 0 <= j < i implies {
                &&& r@.subrange(SURFACE_BYTES * j, SURFACE_BYTES * j + 16) == (
                #[trigger] surfs@[j]).uuid@
                &&& spec_u64_from_le_bytes(
                    r@.subrange(SURFACE_BYTES * j + 16, SURFACE_BYTES * j + 24),
                ) == surfs@[j].surface_type
            } by {
                assert(r@.subrange(SURFACE_BYTES * j, SURFACE_BYTES * j + 16) =~= prev.subrange(
                    SURFACE_BYTES * j,
                    SURFACE_BYTES * j + 16,
                ));
                assert(r@.subrange(SURFACE_BYTES * j + 16, SURFACE_BYTES * j + 24) =~= prev
                    .subrange(SURFACE_BYTES * j + 16, SURFACE_BYTES * j + 24));
            }
            assert(r@.subrange(SURFACE_BYTES * i as int, SURFACE_BYTES * i as int + 16)
                =~= surfs@[i as int].uuid@);
            assert(r@.subrange(SURFACE_BYTES * i as int + 16, SURFACE_BYTES * i as int + 24)
                =~= surface_bytes@);
        }
        i = i + 1;
    }
    r
}

/// Serialize asset identifiers back to back.
pub fn encode_uuids(uuids: &Vec<Vec<u8>>) -> (r: Vec<u8>)
    requires
        forall|i: int| 0 <= i < uuids@.len() ==> (#[trigger] uuids@[i])@.len() == UUID_BYTES,
    ensures
        r@.len() == uuids@.len() * UUID_BYTES,
        forall|i: int|
            0 <= i < uuids@.len() ==> r@.subrange(UUID_BYTES * i, UUID_BYTES * i + 16) == (
            #[trigger] uuids@[i])@,
{
    let mut r: Vec<u8> = Vec::new();
    let mut i: usize = 0;
    while i < uuids.len()
        invariant
            i <= uuids@.len(),
            forall|k: int| 0 <= k < uuids@.len() ==> (#[trigger] uuids@[k])@.len() == UUID_BYTES,
            r@.len() == i * UUID_BYTES,
            forall|j: int|
                0 <= j < i ==> r@.subrange(UUID_BYTES * j, UUID_BYTES * j + 16) == (
                #[trigger] uuids@[j])@,
        decreases uuids@.len() - i,
    {
        let ghost prev = r@;
        append_bytes(&mut r, &uuids[i]);
        proof {
            assert forall|j: int| 0 <= j < i implies r@.subrange(
                UUID_BYTES * j,
                UUID_BYTES * j + 16,
            ) == (#[trigger] uuids@[j])@ by {
                assert(r@.subrange(UUID_BYTES * j, UUID_BYTES * j + 16) =~= prev.subrange(
                    UUID_BYTES * j,
                    UUID_BYTES * j + 16,
                ));
            }
            assert(r@.subrange(UUID_BYTES * i as int, UUID_BYTES * i as int + 16)
                =~= uuids@[i as int]@);
        }
        i = i + 1;
    }
    r
}

/// Build the command that standardizes the groups whose descriptors the
/// given compact pointers locate. The payload is the serialized pointer
/// list; one that exceeds the inline capacity is rejected whole.
pub fn standardize_groups_command(ptrs: &Vec<AssetPtr>) -> (r: Result<EngineCommand, SyncError>)
    ensures
        ptrs@.len() * PTR_BYTES > MAX_INLINE_DATA ==> r == Err::<EngineCommand, SyncError>(
            SyncError::BoundsError,
        ),
        ptrs@.len() * PTR_BYTES <= MAX_INLINE_DATA ==> (r matches Ok(cmd) && {
            &&& cmd.wf()
            &&& cmd.op_id == OP_STANDARDIZE_GROUPS
            &&& cmd.should_cache == 1
            &&& cmd.num_groups == ptrs@.len()
            &&& cmd.inline_data@.len() == ptrs@.len() * PTR_BYTES
            &&& forall|i: int|
                0 <= i < ptrs@.len() ==> {
                    &&& spec_u32_from_le_bytes(
                        cmd.inline_data@.subrange(PTR_BYTES * i, PTR_BYTES * i + 4),
                    ) == (#[trigger] ptrs@[i]).slab_index
                    &&& spec_u64_from_le_bytes(
                        cmd.inline_data@.subrange(PTR_BYTES * i + 4, PTR_BYTES * i + 12),
                    ) == ptrs@[i].offset
                }
        }),
{
    if ptrs.len() > MAX_INLINE_DATA {
        return Err(SyncError::BoundsError);
    }
    if (ptrs.len() as u64) * (PTR_BYTES as u64) > MAX_INLINE_DATA as u64 {
        return Err(SyncError::BoundsError);
    }
    let inline = encode_asset_ptrs(ptrs);
    let mut cmd = EngineCommand::new(OP_STANDARDIZE_GROUPS, ptrs.len() as u32);
    cmd.inline_data = inline;
    Ok(cmd)
}

/// Build the command that standardizes already-synced groups: one surface
/// assignment per asset, in the given order.
#[verifier::rlimit(100)]
#[verifier::spinoff_prover]
pub fn standardize_synced_groups_command(uuids: &Vec<Vec<u8>>, surface_types: &Vec<u32>) -> (r:
    Result<EngineCommand, SyncError>)
    requires
        uuids@.len() == surface_types@.len(),
        forall|i: int| 0 <= i < uuids@.len() ==> (#[trigger] uuids@[i])@.len() == UUID_BYTES,
    ensures
        uuids@.len() * SURFACE_BYTES > MAX_INLINE_DATA ==> r == Err::<EngineCommand, SyncError>(
            SyncError::BoundsError,
        ),
        uuids@.len() * SURFACE_BYTES <= MAX_INLINE_DATA ==> (r matches Ok(cmd) && {
            &&& cmd.wf()
            &&& cmd.op_id == OP_STANDARDIZE_SYNCED_GROUPS
            &&& cmd.should_cache == 1
            &&& cmd.num_groups == uuids@.len()
            &&& cmd.inline_data@.len() == uuids@.len() * SURFACE_BYTES
            &&& forall|i: int|
                0 <= i < uuids@.len() ==> {
                    &&& cmd.inline_data@.subrange(SURFACE_BYTES * i, SURFACE_BYTES * i + 16) == (
                    #[trigger] uuids@[i])@
                    &&& spec_u64_from_le_bytes(
                        cmd.inline_data@.subrange(SURFACE_BYTES * i + 16, SURFACE_BYTES * i + 24),
                    ) == surface_types@[i] as u64
                }
        }),
{
    if uuids.len() > MAX_INLINE_DATA {
        return Err(SyncError::BoundsError);
    }
    if (uuids.len() as u64) * (SURFACE_BYTES as u64) > MAX_INLINE_DATA as u64 {
        return Err(SyncError::BoundsError);
    }
    let mut surfs: Vec<AssetSurface> = Vec::new();
    let mut i: usize = 0;
    while i < uuids.len()
        invariant
            i <= uuids@.len(),
            uuids@.len() == surface_types@.len(),
            forall|k: int| 0 <= k < uuids@.len() ==> (#[trigger] uuids@[k])@.len() == UUID_BYTES,
            surfs@.len() == i,
            forall|j: int|
                0 <= j < i ==> {
                    &&& (#[trigger] surfs@[j]).wf()
                    &&& surfs@[j].uuid@ == uuids@[j]@
                    &&& surfs@[j].surface_type == surface_types@[j] as u64
                },
        decreases uuids@.len() - i,
    {
        let surf = AssetSurface::new(&uuids[i], surface_types[i] as u64);
        surfs.push(surf);
        i = i + 1;
    }
    let inline = encode_asset_surfaces(&surfs);
    let mut cmd = EngineCommand::new(OP_STANDARDIZE_SYNCED_GROUPS, uuids.len() as u32);
    cmd.inline_data = inline;
    proof {
        assert forall|k: int| 0 <= k < uuids@.len() implies {
            &&& cmd.inline_data@.subrange(SURFACE_BYTES * k, SURFACE_BYTES * k + 16) == (
            #[trigger] uuids@[k])@
            &&& spec_u64_from_le_bytes(
                cmd.inline_data@.subrange(SURFACE_BYTES * k + 16, SURFACE_BYTES * k + 24),
            ) == surface_types@[k] as u64
        } by {
            assert(surfs@[k].uuid@ == uuids@[k]@);
            assert(surfs@[k].surface_type == surface_types@[k] as u64);
            assert(cmd.inline_data@.subrange(SURFACE_BYTES * k, SURFACE_BYTES * k + 16) == (
            #[trigger] surfs@[k]).uuid@);
        }
    }
    Ok(cmd)
}

/// Build the command that assigns surface types: one assignment per
/// (identifier, surface type) pair, in the given order.
pub fn set_surface_types_command(assignments: &Vec<(Vec<u8>, i64)>) -> (r: Result<
    EngineCommand,
    SyncError,
>)
    requires
        forall|i: int| 0 <= i < assignments@.len() ==> (#[trigger] assignments@[i]).0@.len()
            == UUID_BYTES,
    ensures
        assignments@.len() * SURFACE_BYTES > MAX_INLINE_DATA ==> r == Err::<
            EngineCommand,
            SyncError,
        >(SyncError::BoundsError),
        assignments@.len() * SURFACE_BYTES <= MAX_INLINE_DATA ==> (r matches Ok(cmd) && {
            &&& cmd.wf()
            &&& cmd.op_id == OP_SET_SURFACE_TYPES
            &&& cmd.should_cache == 1
            &&& cmd.num_groups == assignments@.len()
            &&& cmd.inline_data@.len() == assignments@.len() * SURFACE_BYTES
            &&& forall|i: int|
                0 <= i < assignments@.len() ==> {
                    &&& cmd.inline_data@.subrange(SURFACE_BYTES * i, SURFACE_BYTES * i + 16) == (
                    #[trigger] assignments@[i]).0@
                    &&& spec_u64_from_le_bytes(
                        cmd.inline_data@.subrange(SURFACE_BYTES * i + 16, SURFACE_BYTES * i + 24),
                    ) == assignments@[i].1 as u64
                }
        }),
{
    if assignments.len() > MAX_INLINE_DATA {
        return Err(SyncError::BoundsError);
    }
    if (assignments.len() as u64) * (SURFACE_BYTES as u64) > MAX_INLINE_DATA as u64 {
        return Err(SyncError::BoundsError);
    }
    let mut surfs: Vec<AssetSurface> = Vec::new();
    let mut i: usize = 0;
    while i < assignments.len()
        invariant
            i <= assignments@.len(),
            forall|k: int| 0 <= k < assignments@.len() ==> (#[trigger] assignments@[k]).0@.len()
                == UUID_BYTES,
            surfs@.len() == i,
            forall|j: int|
                0 <= j < i ==> {
                    &&& (#[trigger] surfs@[j]).wf()
                    &&& surfs@[j].uuid@ == assignments@[j].0@
                    &&& surfs@[j].surface_type == assignments@[j].1 as u64
                },
        decreases assignments@.len() - i,
    {
        let surf = AssetSurface::new(&assignments[i].0, assignments[i].1 as u64);
        surfs.push(surf);
        i = i + 1;
    }
    let inline = encode_asset_surfaces(&surfs);
    let mut cmd = EngineCommand::new(OP_SET_SURFACE_TYPES, assignments.len() as u32);
    cmd.inline_data = inline;
    proof {
        assert forall|k: int| 0 <= k < assignments@.len() implies {
            &&& cmd.inline_data@.subrange(SURFACE_BYTES * k, SURFACE_BYTES * k + 16) == (
            #[trigger] assignments@[k]).0@
            &&& spec_u64_from_le_bytes(
                cmd.inline_data@.subrange(SURFACE_BYTES * k + 16, SURFACE_BYTES * k + 24),
            ) == assignments@[k].1 as u64
        } by {
            assert(surfs@[k].uuid@ == assignments@[k].0@);
            assert(surfs@[k].surface_type == assignments@[k].1 as u64);
            assert(cmd.inline_data@.subrange(SURFACE_BYTES * k, SURFACE_BYTES * k + 16) == (
            #[trigger] surfs@[k]).uuid@);
        }
    }
    Ok(cmd)
}

/// Build the command that drops the named groups: the identifiers back to
/// back, in the given order.
pub fn drop_groups_command(uuids: &Vec<Vec<u8>>) -> (r: Result<EngineCommand, SyncError>)
    requires
        forall|i: int| 0 <= i < uuids@.len() ==> (#[trigger] uuids@[i])@.len() == UUID_BYTES,
    ensures
        uuids@.len() * UUID_BYTES > MAX_INLINE_DATA ==> r == Err::<EngineCommand, SyncError>(
            SyncError::BoundsError,
        ),
        uuids@.len() * UUID_BYTES <= MAX_INLINE_DATA ==> (r matches Ok(cmd) && {
            &&& cmd.wf()
            &&& cmd.op_id == OP_DROP_GROUPS
            &&& cmd.should_cache == 1
            &&& cmd.num_groups == uuids@.len()
            &&& cmd.inline_data@.len() == uuids@.len() * UUID_BYTES
            &&& forall|i: int|
                0 <= i < uuids@.len() ==> cmd.inline_data@.subrange(
                    UUID_BYTES * i,
                    UUID_BYTES * i + 16,
                ) == (#[trigger] uuids@[i])@
        }),
{
    if uuids.len() > MAX_INLINE_DATA {
        return Err(SyncError::BoundsError);
    }
    if (uuids.len() as u64) * (UUID_BYTES as u64) > MAX_INLINE_DATA as u64 {
        return Err(SyncError::BoundsError);
    }
    let inline = encode_uuids(uuids);
    let mut cmd = EngineCommand::new(OP_DROP_GROUPS, uuids.len() as u32);
    cmd.inline_data = inline;
    Ok(cmd)
}

/// Build the command that asks the engine to organize objects. It carries
/// no payload.
pub fn organize_objects_command() -> (r: EngineCommand)
    ensures
        r.wf(),
        r.op_id == OP_ORGANIZE_OBJECTS,
        r.should_cache == 1,
        r.num_groups == 0,
        r.inline_data@.len() == 0,
{
    EngineCommand::new(OP_ORGANIZE_OBJECTS, 0)
}

/// Build the command that asks the engine for the current surface types.
/// It carries no payload.
pub fn get_surface_types_command() -> (r: EngineCommand)
    ensures
        r.wf(),
        r.op_id == OP_GET_SURFACE_TYPES,
        r.should_cache == 1,
        r.num_groups == 0,
        r.inline_data@.len() == 0,
{
    EngineCommand::new(OP_GET_SURFACE_TYPES, 0)
}

/// Build the dedicated stop command sent during shutdown. It carries no
/// payload.
pub fn stop_engine_command() -> (r: EngineCommand)
    ensures
        r.wf(),
        r.op_id == OP_STOP_ENGINE,
        r.should_cache == 1,
        r.num_groups == 0,
        r.inline_data@.len() == 0,
{
    EngineCommand::new(OP_STOP_ENGINE, 0)
}

/// The allocation request header: how many assets need backing memory
/// and where inside the inline payload the identifier table and the size
/// table start.
#[derive(Clone, Copy, Debug, PartialEq, Eq, Structural)]
pub struct AllocRequestMeta {
    pub count: u64,
    pub offset_uuids: u64,
    pub offset_sizes: u64,
}

impl AllocRequestMeta {
    /// The header for `count` assets: the identifier table follows the
    /// header directly and the size table follows the identifier table.
    pub fn new(count: u64) -> (r: Self)
        requires
            ALLOC_HEADER_BYTES + count * UUID_BYTES <= u64::MAX,
        ensures
            r.count == count,
            r.offset_uuids == ALLOC_HEADER_BYTES,
            r.offset_sizes == ALLOC_HEADER_BYTES + count * UUID_BYTES,
    {
        AllocRequestMeta {
            count,
            offset_uuids: ALLOC_HEADER_BYTES as u64,
            offset_sizes: (ALLOC_HEADER_BYTES as u64) + count * (UUID_BYTES as u64),
        }
    }
}

/// Build the memory-allocation request: the header, then the identifier
/// table, then the per-asset byte sizes as little-endian `u64`s.
pub fn request_memory_allocation(uuids: &Vec<Vec<u8>>, sizes: &Vec<u64>) -> (r: Result<
    EngineCommand,
    SyncError,
>)
    requires
        uuids@.len() == sizes@.len(),
        forall|i: int| 0 <= i < uuids@.len() ==> (#[trigger] uuids@[i])@.len() == UUID_BYTES,
    ensures
        ALLOC_HEADER_BYTES + uuids@.len() * (UUID_BYTES + 8) > MAX_INLINE_DATA ==> r == Err::<
            EngineCommand,
            SyncError,
        >(SyncError::BoundsError),
        ALLOC_HEADER_BYTES + uuids@.len() * (UUID_BYTES + 8) <= MAX_INLINE_DATA ==> (r matches Ok(
            cmd,
        ) && {
            let n = uuids@.len() as int;
            let b = cmd.inline_data@;
            &&& cmd.wf()
            &&& cmd.op_id == OP_ALLOC_MEM
            &&& cmd.should_cache == 1
            &&& cmd.num_groups == 1
            &&& b.len() == ALLOC_HEADER_BYTES + n * (UUID_BYTES + 8)
            &&& spec_u64_from_le_bytes(b.subrange(0, 8)) == n
            &&& spec_u64_from_le_bytes(b.subrange(8, 16)) == ALLOC_HEADER_BYTES
            &&& spec_u64_from_le_bytes(b.subrange(16, 24)) == ALLOC_HEADER_BYTES + n * UUID_BYTES
            &&& forall|i: int|
                0 <= i < n ==> b.subrange(
                    ALLOC_HEADER_BYTES + UUID_BYTES * i,
                    ALLOC_HEADER_BYTES + UUID_BYTES * i + 16,
                ) == (#[trigger] uuids@[i])@
            &&& forall|i: int|
                0 <= i < n ==> spec_u64_from_le_bytes(
                    b.subrange(
                        ALLOC_HEADER_BYTES + UUID_BYTES * n + 8 * i,
                        ALLOC_HEADER_BYTES + UUID_BYTES * n + 8 * i + 8,
                    ),
                ) == (#[trigger] sizes@[i])
        }),
{
    let n = uuids.len();
    if n > MAX_INLINE_DATA {
        return Err(SyncError::BoundsError);
    }
    if (ALLOC_HEADER_BYTES as u64) + (n as u64) * ((UUID_BYTES + 8) as u64) > MAX_INLINE_DATA as u64 {
        return Err(SyncError::BoundsError);
    }
    let req = AllocRequestMeta::new(n as u64);

    let mut inline = u64_to_le_bytes(n as u64);
    let off_uuids_bytes = u64_to_le_bytes(req.offset_uuids);
    let off_sizes_bytes = u64_to_le_bytes(req.offset_sizes);
    append_bytes(&mut inline, &off_uuids_bytes);
    append_bytes(&mut inline, &off_sizes_bytes);
    proof {
        lemma_auto_spec_u64_to_from_le_bytes();
        assert(inline@.subrange(0, 8) =~= spec_u64_to_le_bytes(n as u64));
        assert(inline@.subrange(8, 16) =~= spec_u64_to_le_bytes(req.offset_uuids));
        assert(inline@.subrange(16, 24) =~= spec_u64_to_le_bytes(req.offset_sizes));
    }

    let mut i: usize = 0;
    while i < n
        invariant
            i <= n,
            n == uuids@.len(),
            forall|k: int| 0 <= k < uuids@.len() ==> (#[trigger] uuids@[k])@.len() == UUID_BYTES,
            inline@.len() == ALLOC_HEADER_BYTES + i * UUID_BYTES,
            spec_u64_from_le_bytes(inline@.subrange(0, 8)) == n,
            spec_u64_from_le_bytes(inline@.subrange(8, 16)) == ALLOC_HEADER_BYTES,
            spec_u64_from_le_bytes(inline@.subrange(16, 24)) == ALLOC_HEADER_BYTES + n
                * UUID_BYTES,
            forall|j: int|
                0 <= j < i ==> inline@.subrange(
                    ALLOC_HEADER_BYTES + UUID_BYTES * j,
                    ALLOC_HEADER_BYTES + UUID_BYTES * j + 16,
                ) == (#[trigger] uuids@[j])@,
        decreases n - i,
    {
        let ghost prev = inline@;
        append_bytes(&mut inline, &uuids[i]);
        proof {
            assert(inline@.subrange(0, 8) =~= prev.subrange(0, 8));
            assert(inline@.subrange(8, 16) =~= prev.subrange(8, 16));
            assert(inline@.subrange(16, 24) =~= prev.subrange(16, 24));
            assert forall|j: int| 0 <= j < i implies inline@.subrange(
                ALLOC_HEADER_BYTES + UUID_BYTES * j,
                ALLOC_HEADER_BYTES + UUID_BYTES * j + 16,
            ) == (#[trigger] uuids@[j])@ by {
                assert(inline@.subrange(
                    ALLOC_HEADER_BYTES + UUID_BYTES * j,
                    ALLOC_HEADER_BYTES + UUID_BYTES * j + 16,
                ) =~= prev.subrange(
                    ALLOC_HEADER_BYTES + UUID_BYTES * j,
                    ALLOC_HEADER_BYTES + UUID_BYTES * j + 16,
                ));
            }
            assert(inline@.subrange(
                ALLOC_HEADER_BYTES + UUID_BYTES * i as int,
                ALLOC_HEADER_BYTES + UUID_BYTES * i as int + 16,
            ) =~= uuids@[i as int]@);
        }
        i = i + 1;
    }

    let mut i: usize = 0;
    while i < n
        invariant
            i <= n,
            n == uuids@.len(),
            n == sizes@.len(),
            inline@.len() == ALLOC_HEADER_BYTES + n * UUID_BYTES + i * 8,
            spec_u64_from_le_bytes(inline@.subrange(0, 8)) == n,
            spec_u64_from_le_bytes(inline@.subrange(8, 16)) == ALLOC_HEADER_BYTES,
            spec_u64_from_le_bytes(inline@.subrange(16, 24)) == ALLOC_HEADER_BYTES + n
                * UUID_BYTES,
            forall|j: int|
                0 <= j < n ==> inline@.subrange(
                    ALLOC_HEADER_BYTES + UUID_BYTES * j,
                    ALLOC_HEADER_BYTES + UUID_BYTES * j + 16,
                ) == (#[trigger] uuids@[j])@,
            forall|j: int|
                0 <= j < i ==> spec_u64_from_le_bytes(
                    inline@.subrange(
                        ALLOC_HEADER_BYTES + UUID_BYTES * (n as int) + 8 * j,
                        ALLOC_HEADER_BYTES + UUID_BYTES * (n as int) + 8 * j + 8,
                    ),
                ) == (#[trigger] sizes@[j]),
        decreases n - i,
    {
        let ghost prev = inline@;
        let size_bytes = u64_to_le_bytes(sizes[i]);
        append_bytes(&mut inline, &size_bytes);
        proof {
            lemma_auto_spec_u64_to_from_le_bytes();
            assert(inline@.subrange(0, 8) =~= prev.subrange(0, 8));
            assert(inline@.subrange(8, 16) =~= prev.subrange(8, 16));
            assert(inline@.subrange(16, 24) =~= prev.subrange(16, 24));
            assert forall|j: int| 0 <= j < n implies inline@.subrange(
                ALLOC_HEADER_BYTES + UUID_BYTES * j,
                ALLOC_HEADER_BYTES + UUID_BYTES * j + 16,
            ) == (#[trigger] uuids@[j])@ by {
                assert(inline@.subrange(
                    ALLOC_HEADER_BYTES + UUID_BYTES * j,
                    ALLOC_HEADER_BYTES + UUID_BYTES * j + 16,
                ) =~= prev.subrange(
                    ALLOC_HEADER_BYTES + UUID_BYTES * j,
                    ALLOC_HEADER_BYTES + UUID_BYTES * j + 16,
                ));
            }
            assert forall|j: int| 0 <= j < i implies spec_u64_from_le_bytes(
                inline@.subrange(
                    ALLOC_HEADER_BYTES + UUID_BYTES * (n as int) + 8 * j,
                    ALLOC_HEADER_BYTES + UUID_BYTES * (n as int) + 8 * j + 8,
                ),
            ) == (#[trigger] sizes@[j]) by {
                assert(inline@.subrange(
                    ALLOC_HEADER_BYTES + UUID_BYTES * (n as int) + 8 * j,
                    ALLOC_HEADER_BYTES + UUID_BYTES * (n as int) + 8 * j + 8,
                ) =~= prev.subrange(
                    ALLOC_HEADER_BYTES + UUID_BYTES * (n as int) + 8 * j,
                    ALLOC_HEADER_BYTES + UUID_BYTES * (n as int) + 8 * j + 8,
                ));
            }
            assert(inline@.subrange(
                ALLOC_HEADER_BYTES + UUID_BYTES * (n as int) + 8 * i as int,
                ALLOC_HEADER_BYTES + UUID_BYTES * (n as int) + 8 * i as int + 8,
            ) =~= size_bytes@);
        }
        i = i + 1;
    }

    let mut cmd = EngineCommand::new(OP_ALLOC_MEM, 1);
    cmd.inline_data = inline;
    Ok(cmd)
}

/// Decode the engine's allocation response payload: `count` identifiers
/// back to back, then `count` serialized compact pointers, pairing each
/// asset with the location the engine assigned to its descriptor.
pub fn to_alloc_response(inline: &Vec<u8>, count: u32) -> (r: Result<
    (Vec<Vec<u8>>, Vec<AssetPtr>),
    SyncError,
>)
    ensures
        count as int * UUID_BYTES + count as int * PTR_BYTES > inline@.len() ==> r == Err::<
            (Vec<Vec<u8>>, Vec<AssetPtr>),
            SyncError,
        >(SyncError::BoundsError),
        count as int * UUID_BYTES + count as int * PTR_BYTES <= inline@.len() ==> (r matches Ok(
            out,
        ) && {
            let n = count as int;
            &&& out.0@.len() == n
            &&& out.1@.len() == n
            &&& forall|i: int|
                0 <= i < n ==> (#[trigger] out.0@[i])@ == inline@.subrange(
                    UUID_BYTES * i,
                    UUID_BYTES * i + 16,
                )
            &&& forall|i: int|
                0 <= i < n ==> {
                    &&& (#[trigger] out.1@[i]).slab_index == spec_u32_from_le_bytes(
                        inline@.subrange(
                            UUID_BYTES * n + PTR_BYTES * i,
                            UUID_BYTES * n + PTR_BYTES * i + 4,
                        ),
                    )
                    &&& out.1@[i].offset == spec_u64_from_le_bytes(
                        inline@.subrange(
                            UUID_BYTES * n + PTR_BYTES * i + 4,
                            UUID_BYTES * n + PTR_BYTES * i + 12,
                        ),
                    )
                }
        }),
{
    let n = inline.len();
    let entry = (UUID_BYTES + PTR_BYTES) as u64;
    proof {
        vstd::arithmetic::div_mod::lemma_fundamental_div_mod(
            n as int,
            (UUID_BYTES + PTR_BYTES) as int,
        );
    }
    if (count as u64) > (n as u64) / entry {
        return Err(SyncError::BoundsError);
    }
    let count = count as usize;
    let mut uuids: Vec<Vec<u8>> = Vec::new();
    let mut i: usize = 0;
    while i < count
        invariant
            i <= count,
            count * UUID_BYTES + count * PTR_BYTES <= inline.len(),
            uuids@.len() == i,
            forall|j: int|
                0 <= j < i ==> (#[trigger] uuids@[j])@ == inline@.subrange(
                    UUID_BYTES * j,
                    UUID_BYTES * j + 16,
                ),
        decreases count - i,
    {
        let uuid = read_range(inline, UUID_BYTES * i, UUID_BYTES);
        uuids.push(uuid);
        i = i + 1;
    }
    let tail = count * UUID_BYTES;
    let mut ptrs: Vec<AssetPtr> = Vec::new();
    let mut i: usize = 0;
    while i < count
        invariant
            i <= count,
            count * UUID_BYTES + count * PTR_BYTES <= inline.len(),
            tail == count * UUID_BYTES,
            ptrs@.len() == i,
            forall|j: int|
                0 <= j < i ==> {
                    &&& (#[trigger] ptrs@[j]).slab_index == spec_u32_from_le_bytes(
                        inline@.subrange(
                            UUID_BYTES * (count as int) + PTR_BYTES * j,
                            UUID_BYTES * (count as int) + PTR_BYTES * j + 4,
                        ),
                    )
                    &&& ptrs@[j].offset == spec_u64_from_le_bytes(
                        inline@.subrange(
                            UUID_BYTES * (count as int) + PTR_BYTES * j + 4,
                            UUID_BYTES * (count as int) + PTR_BYTES * j + 12,
                        ),
                    )
                },
        decreases count - i,
    {
        let slab_index = crate::wire::read_u32_le(inline, tail + PTR_BYTES * i);
        let offset = crate::wire::read_u64_le(inline, tail + PTR_BYTES * i + 4);
        ptrs.push(AssetPtr { slab_index, offset });
        i = i + 1;
    }
    Ok((uuids, ptrs))
}

/// Plan the layout of every asset in a batch: one descriptor and one
/// total segment size per asset, in input order.
pub fn plan_asset_metas(
    vert_counts: &Vec<u32>,
    edge_counts: &Vec<u32>,
    object_counts: &Vec<u32>,
    surface_contexts: &Vec<u16>,
    group_names: &Vec<Vec<u8>>,
    uuids: &Vec<Vec<u8>>,
) -> (r: (Vec<AssetMeta>, Vec<u64>))
    requires
        vert_counts@.len() == uuids@.len(),
        edge_counts@.len() == uuids@.len(),
        object_counts@.len() == uuids@.len(),
        surface_contexts@.len() == uuids@.len(),
        group_names@.len() == uuids@.len(),
        forall|i: int| 0 <= i < uuids@.len() ==> (#[trigger] uuids@[i])@.len() == UUID_BYTES,
    ensures
        r.0@.len() == uuids@.len(),
        r.1@.len() == uuids@.len(),
        forall|i: int|
            0 <= i < uuids@.len() ==> {
                &&& (#[trigger] r.0@[i]).wf()
                &&& planned_layout(r.0@[i], r.1@[i])
                &&& r.0@[i].vert_count == vert_counts@[i]
                &&& r.0@[i].edge_count == edge_counts@[i]
                &&& r.0@[i].object_count == object_counts@[i]
                &&& r.0@[i].surface_context == surface_contexts@[i] as u32
                &&& r.0@[i].group_name@ == packed(group_names@[i]@, MAX_NAME_LEN as nat)
                &&& r.0@[i].uuid@ == uuids@[i]@
            },
{
    let mut metas: Vec<AssetMeta> = Vec::new();
    let mut sizes: Vec<u64> = Vec::new();
    let mut i: usize = 0;
    while i < uuids.len()
        invariant
            i <= uuids@.len(),
            vert_counts@.len() == uuids@.len(),
            edge_counts@.len() == uuids@.len(),
            object_counts@.len() == uuids@.len(),
            surface_contexts@.len() == uuids@.len(),
            group_names@.len() == uuids@.len(),
            forall|k: int| 0 <= k < uuids@.len() ==> (#[trigger] uuids@[k])@.len() == UUID_BYTES,
            metas@.len() == i,
            sizes@.len() == i,
            forall|j: int|
                0 <= j < i ==> {
                    &&& (#[trigger] metas@[j]).wf()
                    &&& planned_layout(metas@[j], sizes@[j])
                    &&& metas@[j].vert_count == vert_counts@[j]
                    &&& metas@[j].edge_count == edge_counts@[j]
                    &&& metas@[j].object_count == object_counts@[j]
                    &&& metas@[j].surface_context == surface_contexts@[j] as u32
                    &&& metas@[j].group_name@ == packed(group_names@[j]@, MAX_NAME_LEN as nat)
                    &&& metas@[j].uuid@ == uuids@[j]@
                },
        decreases uuids@.len() - i,
    {
        let (meta, total) = AssetMeta::new(
            vert_counts[i],
            edge_counts[i],
            object_counts[i],
            surface_contexts[i],
            &group_names[i],
            &uuids[i],
        );
        metas.push(meta);
        sizes.push(total);
        i = i + 1;
    }
    (metas, sizes)
}

/// Views `[0, upto)` were built for their descriptors at the locations
/// the pointers name: each pointer's record fits its slab, and the view
/// is the bounds-validated view of its descriptor over the space that
/// remains in the slab from the asset's base.
pub open spec fn asset_views_built(
    views: Seq<AssetDataSlices>,
    metas: Seq<AssetMeta>,
    ptrs: Seq<AssetPtr>,
    slabs: Seq<crate::view::Slab>,
    upto: int,
) -> bool {
    forall|j: int|
        0 <= j < upto ==> ({
            let idx = (#[trigger] ptrs[j]).slab_index as int;
            &&& idx < slabs.len()
            &&& ptrs[j].offset + META_BYTES <= slabs[idx].bytes@.len()
            &&& views[j].wf()
            &&& views[j].matches_meta(metas[j], views[j].seg_len)
            &&& views[j].seg_len == slabs[idx].bytes@.len() - ptrs[j].offset
        })
}

/// Descriptors `[0, upto)` stand serialized inside the slabs at the
/// locations the pointers name.
pub open spec fn asset_records_written(
    metas: Seq<AssetMeta>,
    ptrs: Seq<AssetPtr>,
    slabs: Seq<crate::view::Slab>,
    upto: int,
) -> bool {
    forall|j: int|
        0 <= j < upto ==> meta_recorded_at(
            slabs[(#[trigger] ptrs[j]).slab_index as int].bytes@,
            ptrs[j].offset as int,
            metas[j],
        )
}

/// Complete a memory allocation from the engine's reply: decode the
/// identifiers and compact pointers it assigned, hydrate the pointers
/// (mapping any newly advertised slabs), write each planned descriptor
/// record at its assigned location — into the slab model and, through
/// the write-back wrapper, into the live shared-memory segment, so the
/// engine sees it — and materialize the bounds-checked views over each
/// asset's regions.
///
/// The mapped slab set never shrinks, and every already mapped slab keeps
/// its name. The returned pointers are exactly the ones the reply's
/// payload carries; each returned view is the validated view of its
/// planned descriptor over the space remaining from the asset's base; and
/// when the engine's assignments do not overlap, every descriptor record
/// stands written at its assigned location. An assignment too small for
/// its asset is a bounds error.
pub fn allocate_memory(map: &mut SlabMap, reply: &EngineReply, metas: &Vec<AssetMeta>) -> (r:
    Result<(Vec<AssetDataSlices>, Vec<AssetPtr>), SyncError>)
    requires
        old(map).wf(),
        forall|i: int| 0 <= i < metas@.len() ==> (#[trigger] metas@[i]).wf(),
    ensures
        final(map).wf(),
        final(map).slabs@.len() >= old(map).slabs@.len(),
        forall|j: int|
            0 <= j < old(map).slabs@.len() ==> final(map).slabs@[j].name == old(
                map,
            ).slabs@[j].name,
        r matches Ok(out) ==> ({
            let n = metas@.len() as int;
            &&& out.0@.len() == n
            &&& out.1@.len() == n
            &&& reply.num_items == n
            &&& forall|i: int|
                0 <= i < n ==> {
                    &&& (#[trigger] out.1@[i]).slab_index == spec_u32_from_le_bytes(
                        reply.inline_data@.subrange(
                            UUID_BYTES * n + PTR_BYTES * i,
                            UUID_BYTES * n + PTR_BYTES * i + 4,
                        ),
                    )
                    &&& out.1@[i].offset == spec_u64_from_le_bytes(
                        reply.inline_data@.subrange(
                            UUID_BYTES * n + PTR_BYTES * i + 4,
                            UUID_BYTES * n + PTR_BYTES * i + 12,
                        ),
                    )
                }
            &&& asset_views_built(out.0@, metas@, out.1@, final(map).slabs@, n)
            &&& (records_disjoint(out.1@, META_BYTES as int) ==> asset_records_written(
                metas@,
                out.1@,
                final(map).slabs@,
                n,
            ))
        }),
        r matches Err(e) ==> (e == SyncError::BoundsError || e == SyncError::SlabMappingFailed),
{
    let (_uuids, ptrs) = match to_alloc_response(&reply.inline_data, reply.num_items) {
        Ok(out) => out,
        Err(e) => {
            return Err(e);
        },
    };
    if ptrs.len() != metas.len() {
        return Err(SyncError::BoundsError);
    }
    let refs = match map.hydrate(&ptrs, &reply.root_slab_handle, META_BYTES as u64) {
        Ok(refs) => refs,
        Err(e) => {
            return Err(e);
        },
    };
    let ghost hydrated = map.slabs@;
    let mut views: Vec<AssetDataSlices> = Vec::new();
    let mut i: usize = 0;
    while i < metas.len()
        invariant
            i <= metas@.len(),
            refs@.len() == metas@.len(),
            ptrs@.len() == metas@.len(),
            map.wf(),
            map.slabs@.len() == hydrated.len(),
            hydrated.len() >= old(map).slabs@.len(),
            forall|j: int|
                0 <= j < old(map).slabs@.len() ==> #[trigger] hydrated[j].name == old(
                    map,
                ).slabs@[j].name,
            forall|j: int| 0 <= j < metas@.len() ==> (#[trigger] metas@[j]).wf(),
            forall|j: int|
                0 <= j < hydrated.len() ==> #[trigger] map.slabs@[j].name == hydrated[j].name,
            forall|j: int|
                0 <= j < hydrated.len() ==> #[trigger] map.slabs@[j].bytes@.len()
                    == hydrated[j].bytes@.len(),
            forall|j: int|
                0 <= j < metas@.len() ==> {
                    &&& (#[trigger] refs@[j]).slab_index == ptrs@[j].slab_index
                    &&& refs@[j].offset == ptrs@[j].offset
                    &&& refs@[j].slab_index < hydrated.len()
                    &&& refs@[j].offset + META_BYTES <= hydrated[refs@[j].slab_index as int].bytes@.len()
                },
            views@.len() == i,
            asset_views_built(views@, metas@, ptrs@, map.slabs@, i as int),
            records_disjoint(ptrs@, META_BYTES as int) ==> asset_records_written(
                metas@,
                ptrs@,
                map.slabs@,
                i as int,
            ),
        decreases metas@.len() - i,
    {
        let idx = refs[i].slab_index as usize;
        let off = refs[i].offset;
        let encoded = encode_asset_meta(&metas[i]);
        let ghost before = map.slabs@;
        let wrote = map.write_record(idx, off, &encoded);
        match wrote {
            Ok(()) => {},
            Err(e) => {
                proof {
                    assert(false);
                }
                return Err(e);
            },
        }
        proof {
            lemma_meta_recorded_after_write(
                before[idx as int].bytes@,
                off as int,
                encoded@,
                metas@[i as int],
            );
            if records_disjoint(ptrs@, META_BYTES as int) {
                assert forall|j: int| 0 <= j < i + 1 implies meta_recorded_at(
                    map.slabs@[(#[trigger] ptrs@[j]).slab_index as int].bytes@,
                    ptrs@[j].offset as int,
                    metas@[j],
                ) by {
                    let jdx = ptrs@[j].slab_index as int;
                    assert(refs@[j].slab_index == ptrs@[j].slab_index);
                    assert(refs@[j].offset == ptrs@[j].offset);
                    if j == i as int {
                        assert(map.slabs@[jdx].bytes@ == crate::wire::overlay(
                            before[jdx].bytes@,
                            off as int,
                            encoded@,
                        ));
                    } else if jdx == idx as int {
                        assert((#[trigger] ptrs@[j]).slab_index != ptrs@[i as int].slab_index
                            || ptrs@[j].offset + META_BYTES <= ptrs@[i as int].offset
                            || ptrs@[i as int].offset + META_BYTES <= ptrs@[j].offset);
                        lemma_meta_record_preserved(
                            before[jdx].bytes@,
                            off as int,
                            encoded@,
                            ptrs@[j].offset as int,
                            metas@[j],
                        );
                        assert(map.slabs@[jdx].bytes@ == crate::wire::overlay(
                            before[jdx].bytes@,
                            off as int,
                            encoded@,
                        ));
                    } else {
                        assert(map.slabs@[jdx] == before[jdx]);
                    }
                }
                assert(asset_records_written(metas@, ptrs@, map.slabs@, i + 1));
            }
        }

        // Mirror the record into the live segment, so the engine sees
        // the descriptor the host wrote.
        let seg_name = decode_handle(&map.slabs[idx].name);
        match write_segment(&seg_name, off, &encoded) {
            Ok(()) => {},
            Err(_) => {
                return Err(SyncError::SlabMappingFailed);
            },
        }

        let slab_len = map.mapped_slab_len(idx);
        let avail = slab_len - off;
        let view = match AssetDataSlices::new(avail, &metas[i]) {
            Ok(v) => v,
            Err(e) => {
                return Err(e);
            },
        };
        let ghost prev_views = views@;
        views.push(view);
        proof {
            assert forall|j: int| 0 <= j < i + 1 implies ({
                let jdx = (#[trigger] ptrs@[j]).slab_index as int;
                &&& jdx < map.slabs@.len()
                &&& ptrs@[j].offset + META_BYTES <= map.slabs@[jdx].bytes@.len()
                &&& views@[j].wf()
                &&& views@[j].matches_meta(metas@[j], views@[j].seg_len)
                &&& views@[j].seg_len == map.slabs@[jdx].bytes@.len() - ptrs@[j].offset
            }) by {
                let jdx = ptrs@[j].slab_index as int;
                assert(refs@[j].slab_index == ptrs@[j].slab_index);
                assert(refs@[j].offset == ptrs@[j].offset);
                assert(map.slabs@[jdx].bytes@.len() == before[jdx].bytes@.len());
                if j < i as int {
                    assert(views@[j] == prev_views[j]);
                } else {
                    assert(views@[j] == view);
                    assert(view.matches_meta(metas@[i as int], avail));
                    assert(view.seg_len == avail);
                }
            }
            assert(asset_views_built(views@, metas@, ptrs@, map.slabs@, i + 1));
        }
        i = i + 1;
    }
    Ok((views, ptrs))
}

/// The descriptor and views prepared for one group: the descriptor's
/// fields are the planned layout for the given counts over the views'
/// segment size, the views are exactly the regions that layout
/// describes, and the descriptor's segment-handle field holds a fresh
/// 16-digit hexadecimal name, null-padded.
pub open spec fn prepared_group(
    g: GroupFull,
    views: GroupDataSlices,
    total_verts: u32,
    total_edges: u32,
    object_count: u32,
    surface_context: u32,
    name: Seq<u8>,
) -> bool {
    &&& g.wf()
    &&& views.wf()
    &&& g.object_count == object_count
    &&& g.surface_context == surface_context
    &&& g.group_name@ == packed(name, MAX_NAME_LEN as nat)
    &&& group_planned_layout(g, views.seg_len, total_verts, total_edges)
    &&& views.matches_group(g, total_verts, total_edges, views.seg_len)
    &&& forall|k: int| 0 <= k < 16 ==> is_ascii_hex_digit(#[trigger] g.mesh_shm_handle@[k])
    &&& forall|k: int| 16 <= k < MAX_HANDLE_LEN ==> #[trigger] g.mesh_shm_handle@[k] == 0
}

/// Prepare a batch of groups for standardization: plan each group's
/// layout, create a freshly named shared-memory segment of exactly the
/// planned size for it — the segment carries the name stored in the
/// descriptor's handle field and is zero-filled to the planned size —
/// and derive the bounds-checked views over the segment's regions. A
/// planned segment always holds its own regions, so view construction
/// cannot fail; only creating a segment can, which stops the batch early
/// with a mapping error.
pub fn prepare_standardize_groups(
    vert_counts: &Vec<u32>,
    edge_counts: &Vec<u32>,
    object_counts: &Vec<u32>,
    group_names: &Vec<Vec<u8>>,
    surface_contexts: &Vec<u32>,
) -> (r: Result<Vec<(GroupFull, GroupDataSlices)>, SyncError>)
    requires
        vert_counts@.len() == group_names@.len(),
        edge_counts@.len() == group_names@.len(),
        object_counts@.len() == group_names@.len(),
        surface_contexts@.len() == group_names@.len(),
    ensures
        r matches Ok(v) ==> {
            &&& v@.len() == group_names@.len()
            &&& forall|i: int|
                0 <= i < v@.len() ==> prepared_group(
                    (#[trigger] v@[i]).0,
                    v@[i].1,
                    vert_counts@[i],
                    edge_counts@[i],
                    object_counts@[i],
                    surface_contexts@[i],
                    group_names@[i]@,
                )
        },
        r matches Err(e) ==> (e == SyncError::SlabMappingFailed || e == SyncError::BoundsError),
{
    let mut out: Vec<(GroupFull, GroupDataSlices)> = Vec::new();
    let mut i: usize = 0;
    while i < group_names.len()
        invariant
            i <= group_names@.len(),
            vert_counts@.len() == group_names@.len(),
            edge_counts@.len() == group_names@.len(),
            object_counts@.len() == group_names@.len(),
            surface_contexts@.len() == group_names@.len(),
            out@.len() == i,
            forall|j: int|
                0 <= j < i ==> prepared_group(
                    (#[trigger] out@[j]).0,
                    out@[j].1,
                    vert_counts@[j],
                    edge_counts@[j],
                    object_counts@[j],
                    surface_contexts@[j],
                    group_names@[j]@,
                ),
        decreases group_names@.len() - i,
    {
        let handle = new_uid16();
        let (size, group_metadata) = GroupFull::new(
            vert_counts[i],
            edge_counts[i],
            object_counts[i],
            surface_contexts[i],
            &group_names[i],
            &handle,
        );
        if size > usize::MAX as u64 {
            return Err(SyncError::BoundsError);
        }
        let zeros = zero_bytes(size as usize);
        match create_segment(&handle, &zeros) {
            Ok(()) => {},
            Err(_) => {
                return Err(SyncError::SlabMappingFailed);
            },
        }
        proof {
            lemma_group_planned_views_fit(
                group_metadata,
                size,
                vert_counts@[i as int],
                edge_counts@[i as int],
                size as int,
            );
        }
        let slices = match GroupDataSlices::new(size, &group_metadata, vert_counts[i], edge_counts[i]) {
            Ok(s) => s,
            Err(e) => {
                proof {
                    assert(false);
                }
                return Err(e);
            },
        };
        proof {
            assert forall|k: int| 0 <= k < 16 implies is_ascii_hex_digit(
                #[trigger] group_metadata.mesh_shm_handle@[k],
            ) by {
                assert(group_metadata.mesh_shm_handle@[k] == handle@[k]);
            }
            assert(prepared_group(
                group_metadata,
                slices,
                vert_counts@[i as int],
                edge_counts@[i as int],
                object_counts@[i as int],
                surface_contexts@[i as int],
                group_names@[i as int]@,
            ));
        }
        let ghost prev_out = out@;
        out.push((group_metadata, slices));
        proof {
            assert forall|j: int| 0 <= j < i + 1 implies prepared_group(
                (#[trigger] out@[j]).0,
                out@[j].1,
                vert_counts@[j],
                edge_counts@[j],
                object_counts@[j],
                surface_contexts@[j],
                group_names@[j]@,
            ) by {
                if j < i as int {
                    assert(out@[j] == prev_out[j]);
                }
            }
        }
        i = i + 1;
    }
    Ok(out)
}


} // verus!
