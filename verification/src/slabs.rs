//! Slab registry and compact-pointer hydration.
//!
//! Both processes converge on a growable set of shared-memory slabs. A
//! registry record at the base of a well-known root slab advertises the
//! current total slab count and the name handle of every slab. Locations
//! inside shared memory cross the process boundary only as compact
//! (slab index, byte offset) pointers, which are resolved against the
//! locally mapped slab set with explicit bounds checks — never by
//! dereferencing an unchecked address.

use vstd::prelude::*;

use crate::errors::SyncError;
use crate::view::Slab;
use crate::wire::{
    append_bytes, decode_handle, pack_fixed, packed, read_range, read_u32_le, read_u64_le,
};
use vstd::arithmetic::div_mod::lemma_fundamental_div_mod;
use vstd::bytes::{
    lemma_auto_spec_u64_to_from_le_bytes, spec_u32_from_le_bytes, spec_u64_from_le_bytes,
    spec_u64_to_le_bytes, u32_to_le_bytes, u64_to_le_bytes,
};

use iceoryx2_bb_container::semantic_string::SemanticString;
use iceoryx2_bb_posix::shared_memory::{AccessMode, CreationMode, SharedMemoryBuilder};
use iceoryx2_bb_posix::permission::Permission;
use iceoryx2_bb_system_types::file_name::FileName;

verus! {

/// Capacity of one slab name entry in the registry record.
pub const SLAB_NAME_BYTES: usize = 32;

/// Bytes of the registry record header: the slab count.
pub const REGISTRY_HEADER_BYTES: usize = 8;

/// Size in bytes of one serialized compact pointer.
pub const PTR_BYTES: usize = 12;

/// A compact pointer: the only form in which a location inside shared
/// memory crosses the process boundary.
#[derive(Clone, Copy, Debug, PartialEq, Eq, Structural)]
pub struct AssetPtr {
    pub slab_index: u32,
    pub offset: u64,
}

/// A compact pointer that passed the bounds checks against the locally
/// mapped slab set: its slab index is below the mapped count and its
/// offset plus the requested record size stays within that slab.
#[derive(Clone, Copy, Debug, PartialEq, Eq, Structural)]
pub struct ResolvedRef {
    pub slab_index: u32,
    pub offset: u64,
}

/// The slab count advertised by a registry record.
pub open spec fn registry_count(b: Seq<u8>) -> nat
    recommends
        b.len() >= REGISTRY_HEADER_BYTES,
{
    spec_u64_from_le_bytes(b.subrange(0, 8)) as nat
}

/// The registry record is complete: it holds its header and one name
/// entry for every advertised slab.
pub open spec fn registry_wf(b: Seq<u8>) -> bool {
    &&& b.len() >= REGISTRY_HEADER_BYTES
    &&& REGISTRY_HEADER_BYTES + registry_count(b) * SLAB_NAME_BYTES as nat <= b.len()
}

/// The `i`-th slab name entry of a registry record.
pub open spec fn registry_name(b: Seq<u8>, i: int) -> Seq<u8> {
    b.subrange(
        REGISTRY_HEADER_BYTES + SLAB_NAME_BYTES * i,
        REGISTRY_HEADER_BYTES + SLAB_NAME_BYTES * i + SLAB_NAME_BYTES,
    )
}

/// Every pointer of `ptrs` was resolved into `refs`: index for index,
/// field for field, with its slab index below the mapped count and its
/// record of `record_size` bytes inside that slab.
pub open spec fn resolved_all(
    refs: Seq<ResolvedRef>,
    ptrs: Seq<AssetPtr>,
    slabs: Seq<crate::view::Slab>,
    record_size: u64,
) -> bool {
    &&& refs.len() == ptrs.len()
    &&& forall|i: int|
        0 <= i < ptrs.len() ==> {
            &&& (#[trigger] refs[i]).slab_index == ptrs[i].slab_index
            &&& refs[i].offset == ptrs[i].offset
            &&& ptrs[i].slab_index < slabs.len()
            &&& ptrs[i].offset + record_size <= slabs[ptrs[i].slab_index as int].bytes@.len()
        }
}

/// No two of the compact pointers locate overlapping `record_size`-byte
/// records: any two distinct pointers either name different slabs or
/// their records are wholly apart.
pub open spec fn records_disjoint(ptrs: Seq<AssetPtr>, record_size: int) -> bool {
    forall|i: int, j: int|
        0 <= i < ptrs.len() && 0 <= j < ptrs.len() && i != j ==> ((#[trigger] ptrs[i]).slab_index
            != (#[trigger] ptrs[j]).slab_index || ptrs[i].offset + record_size <= ptrs[j].offset
            || ptrs[j].offset + record_size <= ptrs[i].offset)
}

/// The advertised slab set read out of a registry record: one
/// fixed-capacity, null-terminated name handle per slab, in index order.
#[derive(Debug)]
pub struct SlabRegistry {
    pub names: Vec<Vec<u8>>,
}

impl SlabRegistry {
    pub open spec fn wf(&self) -> bool {
        forall|i: int| 0 <= i < self.names@.len() ==> (#[trigger] self.names@[i])@.len()
            == SLAB_NAME_BYTES
    }
}

/// Parse the registry record stored at the base of the root slab.
/// Exactly the complete records are accepted; an incomplete one is a
/// bounds error.
pub fn parse_registry(bytes: &Vec<u8>) -> (r: Result<SlabRegistry, SyncError>)
    ensures
        registry_wf(bytes@) ==> (r matches Ok(reg) && {
            &&& reg.wf()
            &&& reg.names@.len() == registry_count(bytes@)
            &&& forall|i: int|
                0 <= i < reg.names@.len() ==> (#[trigger] reg.names@[i])@ == registry_name(
                    bytes@,
                    i,
                )
        }),
        !registry_wf(bytes@) ==> r == Err::<SlabRegistry, SyncError>(SyncError::BoundsError),
{
    let n = bytes.len();
    if n < REGISTRY_HEADER_BYTES {
        return Err(SyncError::BoundsError);
    }
    let count = read_u64_le(bytes, 0);
    let budget = (n as u64 - REGISTRY_HEADER_BYTES as u64) / (SLAB_NAME_BYTES as u64);
    proof {
        lemma_fundamental_div_mod(n as int - REGISTRY_HEADER_BYTES as int, SLAB_NAME_BYTES as int);
    }
    if count > budget {
        return Err(SyncError::BoundsError);
    }
    let count = count as usize;
    let mut names: Vec<Vec<u8>> = Vec::new();
    let mut i: usize = 0;
    while i < count
        invariant
            i <= count,
            REGISTRY_HEADER_BYTES + count * SLAB_NAME_BYTES <= bytes.len(),
            names@.len() == i,
            forall|j: int|
                0 <= j < i ==> (#[trigger] names@[j])@ == registry_name(bytes@, j),
            forall|j: int|
                0 <= j < i ==> (#[trigger] names@[j])@.len() == SLAB_NAME_BYTES,
        decreases count - i,
    {
        let name = read_range(bytes, REGISTRY_HEADER_BYTES + SLAB_NAME_BYTES * i, SLAB_NAME_BYTES);
        names.push(name);
        i = i + 1;
    }
    Ok(SlabRegistry { names })
}

/// Serialize a registry record advertising `names`, in order: the count,
/// then one fixed-capacity name entry per slab.
pub fn encode_registry(names: &Vec<Vec<u8>>) -> (r: Vec<u8>)
    requires
        forall|i: int| 0 <= i < names@.len() ==> (#[trigger] names@[i])@.len() == SLAB_NAME_BYTES,
    ensures
        r@.len() == REGISTRY_HEADER_BYTES + names@.len() * SLAB_NAME_BYTES,
        registry_wf(r@),
        registry_count(r@) == names@.len(),
        forall|i: int|
            0 <= i < names@.len() ==> registry_name(r@, i) == (#[trigger] names@[i])@,
{
    let mut r = u64_to_le_bytes(names.len() as u64);
    let mut i: usize = 0;
    while i < names.len()
        invariant
            i <= names@.len(),
            forall|k: int|
                0 <= k < names@.len() ==> (#[trigger] names@[k])@.len() == SLAB_NAME_BYTES,
            r@.len() == REGISTRY_HEADER_BYTES + i * SLAB_NAME_BYTES,
            r@.subrange(0, 8) == spec_u64_to_le_bytes(names@.len() as u64),
            forall|j: int|
                0 <= j < i ==> registry_name(r@, j) == (#[trigger] names@[j])@,
        decreases names@.len() - i,
    {
        let ghost prev = r@;
        append_bytes(&mut r, &names[i]);
        proof {
            assert(r@.subrange(0, 8) =~= prev.subrange(0, 8));
            assert forall|j: int| 0 <= j < i implies registry_name(r@, j) == (
            #[trigger] names@[j])@ by {
                assert(registry_name(r@, j) =~= registry_name(prev, j));
            }
            assert(registry_name(r@, i as int) =~= names@[i as int]@);
        }
        i = i + 1;
    }
    proof {
        lemma_auto_spec_u64_to_from_le_bytes();
    }
    r
}

/// Serialize compact pointers for an inline payload: for each pointer the
/// slab index as a little-endian `u32` followed by the byte offset as a
/// little-endian `u64`.
pub fn encode_asset_ptrs(ptrs: &Vec<AssetPtr>) -> (r: Vec<u8>)
    ensures
        r@.len() == ptrs@.len() * PTR_BYTES,
        forall|i: int|
            0 <= i < ptrs@.len() ==> {
                &&& spec_u32_from_le_bytes(
                    r@.subrange(PTR_BYTES * i, PTR_BYTES * i + 4),
                ) == (#[trigger] ptrs@[i]).slab_index
                &&& spec_u64_from_le_bytes(
                    r@.subrange(PTR_BYTES * i + 4, PTR_BYTES * i + 12),
                ) == ptrs@[i].offset
            },
{
    let mut r: Vec<u8> = Vec::new();
    let mut i: usize = 0;
    while i < ptrs.len()
        invariant
            i <= ptrs@.len(),
            r@.len() == i * PTR_BYTES,
            forall|j: int|
                0 <= j < i ==> {
                    &&& spec_u32_from_le_bytes(
                        r@.subrange(PTR_BYTES * j, PTR_BYTES * j + 4),
                    ) == (#[trigger] ptrs@[j]).slab_index
                    &&& spec_u64_from_le_bytes(
                        r@.subrange(PTR_BYTES * j + 4, PTR_BYTES * j + 12),
                    ) == ptrs@[j].offset
                },
        decreases ptrs@.len() - i,
    {
        let ghost prev = r@;
        let idx_bytes = u32_to_le_bytes(ptrs[i].slab_index);
        let off_bytes = u64_to_le_bytes(ptrs[i].offset);
        append_bytes(&mut r, &idx_bytes);
        append_bytes(&mut r, &off_bytes);
        proof {
            vstd::bytes::lemma_auto_spec_u32_to_from_le_bytes();
            lemma_auto_spec_u64_to_from_le_bytes();
            assert forall|j: int| 0 <= j < i implies {
                &&& spec_u32_from_le_bytes(
                    r@.subrange(PTR_BYTES * j, PTR_BYTES * j + 4),
                ) == (#[trigger] ptrs@[j]).slab_index
                &&& spec_u64_from_le_bytes(
                    r@.subrange(PTR_BYTES * j + 4, PTR_BYTES * j + 12),
                ) == ptrs@[j].offset
            } by {
                assert(r@.subrange(PTR_BYTES * j, PTR_BYTES * j + 4) =~= prev.subrange(
                    PTR_BYTES * j,
                    PTR_BYTES * j + 4,
                ));
                assert(r@.subrange(PTR_BYTES * j + 4, PTR_BYTES * j + 12) =~= prev.subrange(
                    PTR_BYTES * j + 4,
                    PTR_BYTES * j + 12,
                ));
            }
            assert(r@.subrange(PTR_BYTES * i as int, PTR_BYTES * i as int + 4)
                =~= idx_bytes@);
            assert(r@.subrange(PTR_BYTES * i as int + 4, PTR_BYTES * i as int + 12)
                =~= off_bytes@);
        }
        i = i + 1;
    }
    r
}

/// Decode `count` compact pointers from an inline payload. A payload too
/// short for `count` pointers is a bounds error.
pub fn decode_asset_ptrs(bytes: &Vec<u8>, count: u32) -> (r: Result<Vec<AssetPtr>, SyncError>)
    ensures
        count as int * PTR_BYTES <= bytes@.len() ==> (r matches Ok(ptrs) && {
            &&& ptrs@.len() == count
            &&& forall|i: int|
                0 <= i < count ==> {
                    &&& (#[trigger] ptrs@[i]).slab_index == spec_u32_from_le_bytes(
                        bytes@.subrange(PTR_BYTES * i, PTR_BYTES * i + 4),
                    )
                    &&& ptrs@[i].offset == spec_u64_from_le_bytes(
                        bytes@.subrange(PTR_BYTES * i + 4, PTR_BYTES * i + 12),
                    )
                }
        }),
        count as int * PTR_BYTES > bytes@.len() ==> r == Err::<Vec<AssetPtr>, SyncError>(
            SyncError::BoundsError,
        ),
{
    let n = bytes.len();
    if count as u64 > (n as u64) / (PTR_BYTES as u64) {
        proof {
            lemma_fundamental_div_mod(n as int, PTR_BYTES as int);
        }
        return Err(SyncError::BoundsError);
    }
    proof {
        lemma_fundamental_div_mod(n as int, PTR_BYTES as int);
    }
    let count = count as usize;
    let mut ptrs: Vec<AssetPtr> = Vec::new();
    let mut i: usize = 0;
    while i < count
        invariant
            i <= count,
            count * PTR_BYTES <= bytes.len(),
            ptrs@.len() == i,
            forall|j: int|
                0 <= j < i ==> {
                    &&& (#[trigger] ptrs@[j]).slab_index == spec_u32_from_le_bytes(
                        bytes@.subrange(PTR_BYTES * j, PTR_BYTES * j + 4),
                    )
                    &&& ptrs@[j].offset == spec_u64_from_le_bytes(
                        bytes@.subrange(PTR_BYTES * j + 4, PTR_BYTES * j + 12),
                    )
                },
        decreases count - i,
    {
        let slab_index = read_u32_le(bytes, PTR_BYTES * i);
        let offset = read_u64_le(bytes, PTR_BYTES * i + 4);
        ptrs.push(AssetPtr { slab_index, offset });
        i = i + 1;
    }
    Ok(ptrs)
}

/// The locally mapped slab set. It only grows during a session — slabs
/// are never dropped or replaced while the session lives.
#[derive(Debug)]
pub struct SlabMap {
    pub slabs: Vec<Slab>,
}

impl SlabMap {
    pub open spec fn wf(&self) -> bool {
        forall|i: int| 0 <= i < self.slabs@.len() ==> (#[trigger] self.slabs@[i]).wf()
    }

    /// The mapped slab set only grew: no slab was dropped, every already
    /// mapped slab keeps its name, and only the root slab's bytes may
    /// have been refreshed from shared memory.
    pub open spec fn grew_from(&self, prior: SlabMap) -> bool {
        &&& prior.slabs@.len() <= self.slabs@.len()
        &&& forall|i: int|
            0 <= i < prior.slabs@.len() ==> #[trigger] self.slabs@[i].name
                == prior.slabs@[i].name
        &&& forall|i: int|
            1 <= i < prior.slabs@.len() ==> #[trigger] self.slabs@[i] == prior.slabs@[i]
    }

    pub fn new() -> (r: Self)
        ensures
            r.wf(),
            r.slabs@.len() == 0,
    {
        SlabMap { slabs: Vec::new() }
    }

    /// The number of locally mapped slabs.
    pub fn mapped_count(&self) -> (r: usize)
        ensures
            r == self.slabs@.len(),
    {
        self.slabs.len()
    }

    /// Resolve a compact pointer to a validated reference for a record of
    /// `size` bytes. A slab index at or above the locally mapped slab
    /// count is a bounds error — the pointer is never dereferenced — and
    /// so is an offset whose record would cross the slab's end.
    pub fn resolve(&self, ptr: &AssetPtr, size: u64) -> (r: Result<ResolvedRef, SyncError>)
        ensures
            ptr.slab_index as int >= self.slabs@.len() ==> r == Err::<ResolvedRef, SyncError>(
                SyncError::BoundsError,
            ),
            (ptr.slab_index as int) < self.slabs@.len() ==> ({
                let slab_len = self.slabs@[ptr.slab_index as int].bytes@.len() as int;
                &&& (ptr.offset + size <= slab_len ==> r == Ok::<ResolvedRef, SyncError>(
                    ResolvedRef { slab_index: ptr.slab_index, offset: ptr.offset },
                ))
                &&& (ptr.offset + size > slab_len ==> r == Err::<ResolvedRef, SyncError>(
                    SyncError::BoundsError,
                ))
            }),
    {
        let idx = ptr.slab_index as usize;
        if idx >= self.slabs.len() {
            return Err(SyncError::BoundsError);
        }
        let slab_len = self.slabs[idx].bytes.len() as u64;
        if ptr.offset > slab_len || size > slab_len - ptr.offset {
            return Err(SyncError::BoundsError);
        }
        Ok(ResolvedRef { slab_index: ptr.slab_index, offset: ptr.offset })
    }

    /// The byte length of the mapped slab `idx`.
    pub fn mapped_slab_len(&self, idx: usize) -> (r: u64)
        requires
            idx < self.slabs@.len(),
        ensures
            r == self.slabs@[idx as int].bytes@.len(),
    {
        self.slabs[idx].bytes.len() as u64
    }

    /// Write `data` into slab `idx` at byte offset `off`, in place: the
    /// slab's other bytes, its name, its length, and every other slab are
    /// unchanged. An out-of-range index or a write that would cross the
    /// slab's end is rejected without touching anything.
    pub fn write_record(&mut self, idx: usize, off: u64, data: &Vec<u8>) -> (r: Result<
        (),
        SyncError,
    >)
        requires
            old(self).wf(),
        ensures
            final(self).wf(),
            final(self).slabs@.len() == old(self).slabs@.len(),
            forall|j: int|
                0 <= j < old(self).slabs@.len() && j != idx ==> final(self).slabs@[j] == old(
                    self,
                ).slabs@[j],
            idx >= old(self).slabs@.len() ==> (r == Err::<(), SyncError>(
                SyncError::IndexOutOfRange,
            ) && final(self).slabs@ == old(self).slabs@),
            idx < old(self).slabs@.len() ==> ({
                let slab = old(self).slabs@[idx as int];
                &&& final(self).slabs@[idx as int].name == slab.name
                &&& final(self).slabs@[idx as int].bytes@.len() == slab.bytes@.len()
                &&& (off + data@.len() <= slab.bytes@.len() ==> (r == Ok::<(), SyncError>(())
                    && final(self).slabs@[idx as int].bytes@ == crate::wire::overlay(
                    slab.bytes@,
                    off as int,
                    data@,
                )))
                &&& (off + data@.len() > slab.bytes@.len() ==> (r == Err::<(), SyncError>(
                    SyncError::BoundsError,
                ) && final(self).slabs@[idx as int].bytes@ == slab.bytes@))
            }),
    {
        if idx >= self.slabs.len() {
            return Err(SyncError::IndexOutOfRange);
        }
        let n = self.slabs[idx].bytes.len();
        if off > n as u64 || (data.len() as u64) > n as u64 - off {
            return Err(SyncError::BoundsError);
        }
        let mut bytes = read_range(&self.slabs[idx].bytes, 0, n);
        proof {
            assert(old(self).slabs@[idx as int].bytes@.subrange(0, n as int) =~= old(
                self,
            ).slabs@[idx as int].bytes@);
        }
        crate::wire::write_into(&mut bytes, off as usize, data);
        self.slabs[idx].bytes = bytes;
        Ok(())
    }

    /// Map the slabs the registry advertises that are not yet mapped
    /// locally, in index order, then resolve every compact pointer in
    /// `ptrs` for a record of `record_size` bytes.
    ///
    /// The slab named by `root_handle` is opened on every call — it
    /// becomes slab 0 the first time, and its bytes are refreshed after
    /// that, since the other process may have grown the registry. The
    /// registry record at its base gives the advertised total; slabs are
    /// opened until the local count reaches it, so one call maps exactly
    /// the advertised slabs that were missing and a repeated call maps
    /// none. The mapped set only grows, whether or not the call
    /// succeeds; a failed open stops hydration early with a mapping
    /// error and keeps the partial result.
    pub fn hydrate(
        &mut self,
        ptrs: &Vec<AssetPtr>,
        root_handle: &Vec<u8>,
        record_size: u64,
    ) -> (r: Result<Vec<ResolvedRef>, SyncError>)
        requires
            old(self).wf(),
        ensures
            final(self).wf(),
            final(self).grew_from(*old(self)),
            r matches Err(e) ==> (e == SyncError::SlabMappingFailed || e
                == SyncError::BoundsError),
            r matches Ok(refs) ==> final(self).slabs@.len() >= 1,
            r matches Ok(refs) ==> registry_wf(final(self).slabs@[0].bytes@),
            r matches Ok(refs) ==> final(self).slabs@.len() == vstd::math::max(
                vstd::math::max(old(self).slabs@.len() as int, 1),
                registry_count(final(self).slabs@[0].bytes@) as int,
            ),
            r matches Ok(refs) ==> forall|j: int|
                (vstd::math::max(old(self).slabs@.len() as int, 1) <= j
                    && j < final(self).slabs@.len()) ==> (#[trigger] final(self).slabs@[j]).name@
                    == packed(
                    registry_name(final(self).slabs@[0].bytes@, j),
                    SLAB_NAME_BYTES as nat,
                ),
            (old(self).slabs@.len() == 0 && r matches Ok(refs))
                ==> final(self).slabs@[0].name@ == packed(root_handle@, SLAB_NAME_BYTES as nat),
            r matches Ok(refs) ==> resolved_all(refs@, ptrs@, final(self).slabs@, record_size),
    {
        let name = decode_handle(root_handle);
        let bytes = match open_segment(&name) {
            Ok(b) => b,
            Err(_) => {
                return Err(SyncError::SlabMappingFailed);
            },
        };
        if self.slabs.len() == 0 {
            let slab = Slab { name: pack_fixed(root_handle, SLAB_NAME_BYTES), bytes };
            self.slabs.push(slab);
        } else {
            self.slabs[0].bytes = bytes;
        }
        let ghost entry_len = self.slabs@.len() as int;
        let ghost root_bytes = self.slabs@[0].bytes@;
        proof {
            assert(entry_len == vstd::math::max(old(self).slabs@.len() as int, 1));
        }
        let reg = match parse_registry(&self.slabs[0].bytes) {
            Ok(reg) => reg,
            Err(e) => {
                return Err(e);
            },
        };
        let total = reg.names.len();
        while self.slabs.len() < total
            invariant
                self.wf(),
                1 <= entry_len <= self.slabs@.len(),
                self.slabs@[0].bytes@ == root_bytes,
                reg.wf(),
                total == reg.names@.len(),
                self.slabs@.len() <= vstd::math::max(entry_len, total as int),
                self.grew_from(*old(self)),
                old(self).slabs@.len() == 0 ==> self.slabs@[0].name@ == packed(
                    root_handle@,
                    SLAB_NAME_BYTES as nat,
                ),
                forall|j: int|
                    0 <= j < reg.names@.len() ==> (#[trigger] reg.names@[j])@ == registry_name(
                        root_bytes,
                        j,
                    ),
                forall|j: int|
                    entry_len <= j < self.slabs@.len() ==> (#[trigger] self.slabs@[j]).name@
                        == packed(registry_name(root_bytes, j), SLAB_NAME_BYTES as nat),
            decreases total - self.slabs@.len(),
        {
            let next = self.slabs.len();
            let name = decode_handle(&reg.names[next]);
            let bytes = match open_segment(&name) {
                Ok(b) => b,
                Err(_) => {
                    return Err(SyncError::SlabMappingFailed);
                },
            };
            let slab = Slab { name: pack_fixed(&reg.names[next], SLAB_NAME_BYTES), bytes };
            self.slabs.push(slab);
        }
        proof {
            assert(self.slabs@.len() == vstd::math::max(
                vstd::math::max(old(self).slabs@.len() as int, 1),
                registry_count(root_bytes) as int,
            ));
        }
        let mut refs: Vec<ResolvedRef> = Vec::new();
        let mut i: usize = 0;
        while i < ptrs.len()
            invariant
                i <= ptrs@.len(),
                refs@.len() == i,
                self.wf(),
                self.grew_from(*old(self)),
                self.slabs@.len() >= 1,
                self.slabs@[0].bytes@ == root_bytes,
                registry_wf(root_bytes),
                old(self).slabs@.len() == 0 ==> self.slabs@[0].name@ == packed(
                    root_handle@,
                    SLAB_NAME_BYTES as nat,
                ),
                forall|j: int|
                    entry_len <= j < self.slabs@.len() ==> (#[trigger] self.slabs@[j]).name@
                        == packed(registry_name(root_bytes, j), SLAB_NAME_BYTES as nat),
                self.slabs@.len() == vstd::math::max(
                    vstd::math::max(old(self).slabs@.len() as int, 1),
                    registry_count(root_bytes) as int,
                ),
                forall|j: int|
                    0 <= j < i ==> {
                        &&& (#[trigger] refs@[j]).slab_index == ptrs@[j].slab_index
                        &&& refs@[j].offset == ptrs@[j].offset
                        &&& ptrs@[j].slab_index < self.slabs@.len()
                        &&& ptrs@[j].offset + record_size <= self.slabs@[ptrs@[j].slab_index as int].bytes@.len()
                    },
            decreases ptrs@.len() - i,
        {
            let rref = match self.resolve(&ptrs[i], record_size) {
                Ok(rr) => rr,
                Err(e) => {
                    return Err(e);
                },
            };
            let ghost prev_refs = refs@;
            refs.push(rref);
            proof {
                assert forall|j: int| 0 <= j <= i as int implies {
                    &&& (#[trigger] refs@[j]).slab_index == ptrs@[j].slab_index
                    &&& refs@[j].offset == ptrs@[j].offset
                    &&& ptrs@[j].slab_index < self.slabs@.len()
                    &&& ptrs@[j].offset + record_size <= self.slabs@[ptrs@[j].slab_index as int].bytes@.len()
                } by {
                    if j < i as int {
                        assert(refs@[j] == prev_refs[j]);
                        assert((#[trigger] prev_refs[j]).slab_index == ptrs@[j].slab_index);
                    } else {
                        assert(refs@[j] == rref);
                    }
                }
            }
            i = i + 1;
        }
        proof {
            assert forall|k: int| 0 <= k < ptrs@.len() implies {
                &&& (#[trigger] refs@[k]).slab_index == ptrs@[k].slab_index
                &&& refs@[k].offset == ptrs@[k].offset
                &&& ptrs@[k].slab_index < self.slabs@.len()
                &&& ptrs@[k].offset + record_size <= self.slabs@[ptrs@[k].slab_index as int].bytes@.len()
            } by {
                assert((#[trigger] refs@[k]).slab_index == ptrs@[k].slab_index);
            }
            assert(resolved_all(refs@, ptrs@, self.slabs@, record_size));
        }
        Ok(refs)
    }
}

/// Hydration converges on the advertised slab set. With `k` slabs
/// advertised by the registry and `j` already mapped locally, a
/// successful call leaves `max(j, k)` slabs mapped: exactly `k - j` new
/// slabs when `j < k`, and zero — a repeated call against the same
/// registry — when `j >= k`.
pub proof fn lemma_hydration_converges(j: int, k: int)
    requires
        1 <= j,
        0 <= k,
    ensures
        j < k ==> vstd::math::max(vstd::math::max(j, 1), k) - j == k - j,
        j >= k ==> vstd::math::max(vstd::math::max(j, 1), k) - j == 0,
{
}

/// Relies on `iceoryx2_bb_posix`'s `SharedMemoryBuilder::open_existing`:
/// opens the POSIX shared-memory segment named `name` read-write and
/// copies its mapped bytes out. What the segment holds is outside state
/// another process fills, so nothing is promised of the bytes.
#[verifier::external_body]
fn open_segment(name: &Vec<u8>) -> (r: Result<Vec<u8>, String>) {
    let file_name = FileName::new(name.as_slice()).map_err(
        |e| format!("invalid segment name: {:?}", e),
    )?;
    let shm = SharedMemoryBuilder::new(&file_name).open_existing(AccessMode::ReadWrite).map_err(
        |e| format!("failed to open shared memory: {:?}", e),
    )?;
    Ok(shm.as_slice().to_vec())
}

/// Relies on `iceoryx2_bb_posix`'s `SharedMemoryBuilder::open_existing`
/// and `as_mut_slice`: writes `bytes` at byte offset `offset` of the live
/// mapping of the POSIX shared-memory segment named `name`, so the other
/// process sees the write. A write that would cross the mapping's end is
/// refused as an error rather than performed partially. The segment is
/// outside state, so nothing is promised of it afterwards.
#[verifier::external_body]
pub(crate) fn write_segment(name: &Vec<u8>, offset: u64, bytes: &Vec<u8>) -> (r: Result<(), String>) {
    let file_name = FileName::new(name.as_slice()).map_err(
        |e| format!("invalid segment name: {:?}", e),
    )?;
    let mut shm = SharedMemoryBuilder::new(&file_name).open_existing(AccessMode::ReadWrite)
        .map_err(|e| format!("failed to open shared memory: {:?}", e))?;
    let mapping = shm.as_mut_slice();
    let start = usize::try_from(offset).map_err(|e| format!("offset out of range: {}", e))?;
    let end = start.checked_add(bytes.len()).ok_or("offset out of range")?;
    if end > mapping.len() {
        return Err(format!("write of {} bytes at {} crosses segment end {}", bytes.len(), start, mapping.len()));
    }
    mapping[start..end].copy_from_slice(bytes.as_slice());
    Ok(())
}

/// Relies on `iceoryx2_bb_posix`'s `SharedMemoryCreationBuilder::create`:
/// creates the POSIX shared-memory segment named `name` (purging any
/// leftover one), sized and filled with `contents`, and leaves it alive
/// for other processes. The segment is outside state, so nothing is
/// promised of it afterwards.
#[verifier::external_body]
pub(crate) fn create_segment(name: &Vec<u8>, contents: &Vec<u8>) -> (r: Result<(), String>) {
    let file_name = FileName::new(name.as_slice()).map_err(
        |e| format!("invalid segment name: {:?}", e),
    )?;
    let mut shm = SharedMemoryBuilder::new(&file_name).is_memory_locked(false).creation_mode(
        CreationMode::PurgeAndCreate,
    ).size(contents.len()).permission(Permission::OWNER_ALL | Permission::GROUP_ALL).zero_memory(
        true,
    ).has_ownership(false).create().map_err(
        |e| format!("failed to create shared memory: {:?}", e),
    )?;
    shm.as_mut_slice().copy_from_slice(contents.as_slice());
    Ok(())
}

} // verus!
