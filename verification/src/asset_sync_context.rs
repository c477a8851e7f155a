//! The per-batch synchronization context a host holds while it fills
//! asset buffers: the validated views over every asset in the batch and
//! the compact pointers to finalize once the data is written.
//!
//! Writing the geometry and then finalizing is the ordering barrier of
//! the protocol: the command built here tells the engine the shared
//! regions are ready.

use vstd::prelude::*;

use crate::com_types::{EngineCommand, MAX_INLINE_DATA};
use crate::commands::standardize_groups_command;
use crate::errors::SyncError;
use crate::slabs::{AssetPtr, PTR_BYTES};
use crate::view::AssetDataSlices;
use vstd::bytes::{spec_u32_from_le_bytes, spec_u64_from_le_bytes};

verus! {

/// The state of one in-flight asset synchronization batch.
#[derive(Debug)]
pub struct AssetSyncContext {
    /// One validated view per asset in the batch.
    pub asset_slices: Vec<AssetDataSlices>,
    /// The compact pointers to hand to the engine on finalize; consumed
    /// by the first finalize, so a second call has nothing to send.
    pub shm_offsets: Option<Vec<AssetPtr>>,
}

impl AssetSyncContext {
    pub fn new(asset_slices: Vec<AssetDataSlices>, shm_offsets: Vec<AssetPtr>) -> (r: Self)
        ensures
            r.asset_slices == asset_slices,
            r.shm_offsets == Some(shm_offsets),
    {
        AssetSyncContext { asset_slices, shm_offsets: Some(shm_offsets) }
    }

    /// The view of the `i`-th asset of the batch. An out-of-range index
    /// is an explicit error, never a panic.
    pub fn buffers(&self, i: usize) -> (r: Result<&AssetDataSlices, SyncError>)
        ensures
            i < self.asset_slices@.len() ==> r == Ok::<&AssetDataSlices, SyncError>(
                &self.asset_slices@[i as int],
            ),
            i >= self.asset_slices@.len() ==> r == Err::<&AssetDataSlices, SyncError>(
                SyncError::IndexOutOfRange,
            ),
    {
        if i >= self.asset_slices.len() {
            return Err(SyncError::IndexOutOfRange);
        }
        Ok(&self.asset_slices[i])
    }

    /// Build the command that finalizes the batch: the standardization
    /// request carrying this context's compact pointers. The pointers are
    /// consumed, so the first call yields the command and every later
    /// call yields nothing.
    pub fn finalize(&mut self) -> (r: Result<Option<EngineCommand>, SyncError>)
        ensures
            final(self).asset_slices == old(self).asset_slices,
            final(self).shm_offsets is None,
            old(self).shm_offsets is None ==> r == Ok::<Option<EngineCommand>, SyncError>(None),
            old(self).shm_offsets matches Some(offsets) ==> {
                &&& (offsets@.len() * PTR_BYTES > MAX_INLINE_DATA ==> r == Err::<
                    Option<EngineCommand>,
                    SyncError,
                >(SyncError::BoundsError))
                &&& (offsets@.len() * PTR_BYTES <= MAX_INLINE_DATA ==> (r matches Ok(Some(cmd)) && {
                    &&& cmd.wf()
                    &&& cmd.op_id == crate::com_types::OP_STANDARDIZE_GROUPS
                    &&& cmd.should_cache == 1
                    &&& cmd.num_groups == offsets@.len()
                    &&& cmd.inline_data@.len() == offsets@.len() * PTR_BYTES
                    &&& forall|i: int|
                        0 <= i < offsets@.len() ==> {
                            &&& spec_u32_from_le_bytes(
                                cmd.inline_data@.subrange(PTR_BYTES * i, PTR_BYTES * i + 4),
                            ) == (#[trigger] offsets@[i]).slab_index
                            &&& spec_u64_from_le_bytes(
                                cmd.inline_data@.subrange(PTR_BYTES * i + 4, PTR_BYTES * i + 12),
                            ) == offsets@[i].offset
                        }
                }))
            },
    {
        let offsets = match self.shm_offsets.take() {
            None => {
                return Ok(None);
            },
            Some(offsets) => offsets,
        };
        match standardize_groups_command(&offsets) {
            Ok(cmd) => Ok(Some(cmd)),
            Err(e) => Err(e),
        }
    }
}

} // verus!
