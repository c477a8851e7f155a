//! Engine session: the mutex-guarded state both workers and callers
//! share, modelled as one explicit session value, and the lifecycle
//! decisions around it.
//!
//! The unverified shell owns the child process, the real channels and
//! the worker threads; it mirrors every decision made here. Starting an
//! already running session is a no-op, stopping never fails observably,
//! and stopping an already stopped session changes nothing.

use vstd::prelude::*;

use crate::com_types::EngineCommand;
use crate::dispatch::CommandQueue;
use crate::errors::SyncError;
use crate::layout::{meta_recorded_at, parse_asset_meta, AssetMeta, META_BYTES};
use crate::listener::UpdateBuffer;
use crate::slabs::{decode_asset_ptrs, SlabMap, PTR_BYTES};
use crate::view::AssetDataSlices;
use vstd::bytes::{spec_u32_from_le_bytes, spec_u64_from_le_bytes};

verus! {

/// How many accepted-but-unsent commands the session holds at most; past
/// this bound submission waits. This is the system's backpressure
/// boundary.
pub const QUEUE_CAPACITY: usize = 10;

/// One engine session: whether the engine is running, the configured
/// installation directory, the bounded command queue, the buffered mesh
/// updates, and the locally mapped slab set.
///
/// At most one session is active at a time; the unverified shell guards
/// the session value with a mutex that is held only to read or install
/// state, never across a blocking wait.
#[derive(Debug)]
pub struct EngineSession {
    pub running: bool,
    pub engine_dir: Option<Vec<u8>>,
    pub queue: CommandQueue,
    pub updates: UpdateBuffer,
    pub slabs: SlabMap,
}

impl EngineSession {
    pub open spec fn wf(&self) -> bool {
        &&& self.queue.wf()
        &&& self.slabs.wf()
    }

    /// A stopped session with nothing queued, nothing buffered and no
    /// slab mapped.
    pub fn new() -> (r: Self)
        ensures
            r.wf(),
            !r.running,
            r.engine_dir is None,
            r.queue.items@.len() == 0,
            r.queue.capacity == QUEUE_CAPACITY,
            r.updates.items@.len() == 0,
            r.slabs.slabs@.len() == 0,
    {
        EngineSession {
            running: false,
            engine_dir: None,
            queue: CommandQueue::new(QUEUE_CAPACITY),
            updates: UpdateBuffer::new(),
            slabs: SlabMap::new(),
        }
    }
}

/// Start the session. A session that is already running is left exactly
/// as it is and the call still succeeds. Otherwise the engine binary must
/// have been resolved; without one the session stays stopped and the
/// error says so. With one, the session becomes running — the unverified
/// shell then spawns the child process and the two workers.
pub fn start_engine(session: &mut EngineSession, engine_path: Option<Vec<u8>>) -> (r: Result<
    (),
    SyncError,
>)
    requires
        old(session).wf(),
    ensures
        final(session).wf(),
        old(session).running ==> {
            &&& r == Ok::<(), SyncError>(())
            &&& *final(session) == *old(session)
        },
        !old(session).running && engine_path is None ==> {
            &&& r == Err::<(), SyncError>(SyncError::EngineNotFound)
            &&& *final(session) == *old(session)
        },
        !old(session).running && engine_path is Some ==> {
            &&& r == Ok::<(), SyncError>(())
            &&& final(session).running
            &&& final(session).engine_dir == old(session).engine_dir
            &&& final(session).queue == old(session).queue
            &&& final(session).updates == old(session).updates
            &&& final(session).slabs == old(session).slabs
        },
{
    if session.running {
        return Ok(());
    }
    match engine_path {
        None => Err(SyncError::EngineNotFound),
        Some(_) => {
            session.running = true;
            Ok(())
        },
    }
}

/// Stop the session. Stopping always reports success: a running session
/// becomes stopped — the unverified shell sends the dedicated stop
/// command best-effort, force-kills the child on failure, sets the shared
/// shutdown flag and joins both workers — and a session that is already
/// stopped is left exactly as it is, so a second call in succession is a
/// no-op that also succeeds.
pub fn stop_engine(session: &mut EngineSession) -> (r: Result<(), SyncError>)
    requires
        old(session).wf(),
    ensures
        final(session).wf(),
        r == Ok::<(), SyncError>(()),
        !final(session).running,
        !old(session).running ==> *final(session) == *old(session),
        final(session).engine_dir == old(session).engine_dir,
        final(session).queue == old(session).queue,
        final(session).updates == old(session).updates,
        final(session).slabs == old(session).slabs,
{
    if session.running {
        session.running = false;
    }
    Ok(())
}

/// Submit a command for dispatch. Without a running session this is
/// refused outright. With one, the command joins the back of the bounded
/// queue when there is room — `Ok(true)` — or is not accepted when the
/// queue is full — `Ok(false)` — in which case the caller waits and
/// retries; that wait is the backpressure boundary.
pub fn send_command(session: &mut EngineSession, cmd: EngineCommand) -> (r: Result<
    bool,
    SyncError,
>)
    requires
        old(session).wf(),
    ensures
        final(session).wf(),
        !old(session).running ==> {
            &&& r == Err::<bool, SyncError>(SyncError::SessionNotStarted)
            &&& *final(session) == *old(session)
        },
        old(session).running ==> {
            &&& final(session).running == old(session).running
            &&& final(session).engine_dir == old(session).engine_dir
            &&& final(session).updates == old(session).updates
            &&& final(session).slabs == old(session).slabs
            &&& final(session).queue.capacity == old(session).queue.capacity
            &&& (old(session).queue.items@.len() < old(session).queue.capacity ==> {
                &&& r == Ok::<bool, SyncError>(true)
                &&& final(session).queue.items@ == old(session).queue.items@.push(cmd)
            })
            &&& (old(session).queue.items@.len() >= old(session).queue.capacity ==> {
                &&& r == Ok::<bool, SyncError>(false)
                &&& final(session).queue.items@ == old(session).queue.items@
            })
        },
{
    if !session.running {
        return Err(SyncError::SessionNotStarted);
    }
    let accepted = session.queue.try_submit(cmd);
    Ok(accepted)
}

/// Record where the engine installation lives; later starts resolve the
/// binary under this directory.
pub fn set_engine_dir(session: &mut EngineSession, path: Vec<u8>)
    requires
        old(session).wf(),
    ensures
        final(session).wf(),
        final(session).engine_dir == Some(path),
        final(session).running == old(session).running,
        final(session).queue == old(session).queue,
        final(session).updates == old(session).updates,
        final(session).slabs == old(session).slabs,
{
    session.engine_dir = Some(path);
}

/// The configured engine installation directory, if any.
pub fn stored_engine_dir(session: &EngineSession) -> (r: &Option<Vec<u8>>)
    ensures
        *r == session.engine_dir,
{
    &session.engine_dir
}

/// Pointers `[0, upto)` are the ones serialized in `inline`: entry `j`
/// holds the little-endian slab index and byte offset of the `j`-th
/// serialized compact pointer.
pub open spec fn ptrs_decoded(ptrs: Seq<crate::slabs::AssetPtr>, inline: Seq<u8>, upto: int) -> bool {
    forall|j: int|
        0 <= j < upto ==> {
            &&& (#[trigger] ptrs[j]).slab_index == spec_u32_from_le_bytes(
                inline.subrange(PTR_BYTES * j, PTR_BYTES * j + 4),
            )
            &&& ptrs[j].offset == spec_u64_from_le_bytes(
                inline.subrange(PTR_BYTES * j + 4, PTR_BYTES * j + 12),
            )
        }
}

/// Views `[0, upto)` were decoded against their witness descriptors:
/// entry `j` of `metas` is a well-formed descriptor recorded at the
/// location pointer `j` names, and view `j` is its bounds-validated view
/// over the space remaining in that slab from the asset's base.
pub open spec fn views_decoded_upto(
    views: Seq<AssetDataSlices>,
    metas: Seq<AssetMeta>,
    ptrs: Seq<crate::slabs::AssetPtr>,
    slabs: Seq<crate::view::Slab>,
    upto: int,
) -> bool {
    forall|j: int|
        0 <= j < upto ==> ({
            let jdx = (#[trigger] ptrs[j]).slab_index as int;
            &&& jdx < slabs.len()
            &&& ptrs[j].offset + META_BYTES <= slabs[jdx].bytes@.len()
            &&& meta_recorded_at(slabs[jdx].bytes@, ptrs[j].offset as int, metas[j])
            &&& metas[j].wf()
            &&& views[j].wf()
            &&& views[j].matches_meta(metas[j], views[j].seg_len)
            &&& views[j].seg_len == slabs[jdx].bytes@.len() - ptrs[j].offset
        })
}

/// Each polled view is the view of the descriptor recorded at the
/// location its compact pointer names: for some witness descriptors and
/// the pointers serialized in the update's payload, pointer `j` decodes
/// to a slab index and byte offset, a well-formed descriptor stands
/// recorded there, and view `j` is that descriptor's bounds-validated
/// view over the space remaining in the slab from the asset's base.
pub open spec fn polled_views(
    views: Seq<AssetDataSlices>,
    inline: Seq<u8>,
    slabs: Seq<crate::view::Slab>,
) -> bool {
    exists|metas: Seq<AssetMeta>, ptrs: Seq<crate::slabs::AssetPtr>|
        {
            &&& metas.len() == views.len()
            &&& ptrs.len() == views.len()
            &&& #[trigger] views_decoded_upto(views, metas, ptrs, slabs, views.len() as int)
            &&& ptrs_decoded(ptrs, inline, views.len() as int)
        }
}

/// Poll for one buffered mesh update without blocking and turn it into
/// bounds-checked asset views. Without a running session this is refused.
/// An empty buffer is `Ok(None)` — not an error. For a buffered update,
/// its compact pointers are decoded, hydrated against the slab set the
/// update's root handle names (mapping newly advertised slabs), each
/// asset's descriptor record is parsed from its slab, and the views it
/// describes are validated against the space remaining from the asset's
/// base. Every failure is an explicit error value; the slab set only
/// grows, whether or not the call succeeds.
pub fn poll_mesh_sync(session: &mut EngineSession) -> (r: Result<
    Option<Vec<AssetDataSlices>>,
    SyncError,
>)
    requires
        old(session).wf(),
    ensures
        final(session).wf(),
        final(session).running == old(session).running,
        final(session).engine_dir == old(session).engine_dir,
        final(session).queue == old(session).queue,
        final(session).slabs.slabs@.len() >= old(session).slabs.slabs@.len(),
        !old(session).running ==> {
            &&& r == Err::<Option<Vec<AssetDataSlices>>, SyncError>(SyncError::SessionNotStarted)
            &&& *final(session) == *old(session)
        },
        old(session).running && old(session).updates.items@.len() == 0 ==> {
            &&& r == Ok::<Option<Vec<AssetDataSlices>>, SyncError>(None)
            &&& final(session).updates.items@ == old(session).updates.items@
            &&& final(session).slabs == old(session).slabs
        },
        old(session).running && old(session).updates.items@.len() > 0 ==> ({
            let update = old(session).updates.items@[0];
            &&& final(session).updates.items@ == old(session).updates.items@.skip(1)
            &&& (update.num_items as int * PTR_BYTES > update.inline_data@.len() ==> r == Err::<
                Option<Vec<AssetDataSlices>>,
                SyncError,
            >(SyncError::BoundsError))
            &&& (r matches Ok(out) ==> (out matches Some(views) && {
                &&& views@.len() == update.num_items
                &&& polled_views(views@, update.inline_data@, final(session).slabs.slabs@)
            }))
            &&& (r matches Err(e) ==> (e == SyncError::BoundsError || e
                == SyncError::SlabMappingFailed))
        }),
{
    if !session.running {
        return Err(SyncError::SessionNotStarted);
    }
    let update = match session.updates.poll_update() {
        None => {
            return Ok(None);
        },
        Some(update) => update,
    };
    let ptrs = match decode_asset_ptrs(&update.inline_data, update.num_items) {
        Ok(ptrs) => ptrs,
        Err(e) => {
            return Err(e);
        },
    };
    let refs = match session.slabs.hydrate(&ptrs, &update.root_slab_handle, META_BYTES as u64) {
        Ok(refs) => refs,
        Err(e) => {
            return Err(e);
        },
    };
    let ghost hydrated = session.slabs.slabs@;
    let ghost mut metas_seen: Seq<AssetMeta> = Seq::empty();
    let mut views: Vec<AssetDataSlices> = Vec::new();
    let mut i: usize = 0;
    while i < refs.len()
        invariant
            i <= refs@.len(),
            ptrs@.len() == refs@.len(),
            old(session).running,
            old(session).updates.items@.len() > 0,
            refs@.len() == old(session).updates.items@[0].num_items,
            session.running == old(session).running,
            session.engine_dir == old(session).engine_dir,
            session.queue == old(session).queue,
            session.queue.wf(),
            session.updates.items@ == old(session).updates.items@.skip(1),
            hydrated.len() >= old(session).slabs.slabs@.len(),
            session.slabs.wf(),
            session.slabs.slabs@ == hydrated,
            update == old(session).updates.items@[0],
            forall|j: int|
                0 <= j < refs@.len() ==> {
                    &&& (#[trigger] refs@[j]).slab_index == ptrs@[j].slab_index
                    &&& refs@[j].offset == ptrs@[j].offset
                    &&& refs@[j].slab_index < hydrated.len()
                    &&& refs@[j].offset + META_BYTES <= hydrated[refs@[j].slab_index as int].bytes@.len()
                },
            ptrs_decoded(ptrs@, update.inline_data@, ptrs@.len() as int),
            views@.len() == i,
            metas_seen.len() == i,
            views_decoded_upto(views@, metas_seen, ptrs@, session.slabs.slabs@, i as int),
        decreases refs@.len() - i,
    {
        let idx = refs[i].slab_index as usize;
        let off = refs[i].offset;
        let meta = match parse_asset_meta(&session.slabs.slabs[idx].bytes, off) {
            Ok(meta) => meta,
            Err(e) => {
                proof {
                    assert(false);
                }
                return Err(e);
            },
        };
        let slab_len = session.slabs.mapped_slab_len(idx);
        let avail = slab_len - off;
        let view = match AssetDataSlices::new(avail, &meta) {
            Ok(v) => v,
            Err(e) => {
                return Err(e);
            },
        };
        let ghost prev_views = views@;
        let ghost prev_metas = metas_seen;
        views.push(view);
        proof {
            metas_seen = metas_seen.push(meta);
            assert forall|j: int| 0 <= j < i as int + 1 implies ({
                let jdx = (#[trigger] ptrs@[j]).slab_index as int;
                &&& jdx < session.slabs.slabs@.len()
                &&& ptrs@[j].offset + META_BYTES <= session.slabs.slabs@[jdx].bytes@.len()
                &&& meta_recorded_at(
                    session.slabs.slabs@[jdx].bytes@,
                    ptrs@[j].offset as int,
                    metas_seen[j],
                )
                &&& metas_seen[j].wf()
                &&& views@[j].wf()
                &&& views@[j].matches_meta(metas_seen[j], views@[j].seg_len)
                &&& views@[j].seg_len == session.slabs.slabs@[jdx].bytes@.len() - ptrs@[j].offset
            }) by {
                if j < i as int {
                    assert(views@[j] == prev_views[j]);
                    assert(metas_seen[j] == prev_metas[j]);
                } else {
                    assert(views@[j] == view);
                    assert(metas_seen[j] == meta);
                    assert(ptrs@[j].slab_index == refs@[j].slab_index);
                    assert(ptrs@[j].offset == refs@[j].offset);
                    assert(meta_recorded_at(
                        session.slabs.slabs@[idx as int].bytes@,
                        off as int,
                        meta,
                    ));
                    assert(view.matches_meta(meta, avail));
                    assert(view.seg_len == avail);
                }
            }
            assert(views_decoded_upto(
                views@,
                metas_seen,
                ptrs@,
                session.slabs.slabs@,
                i as int + 1,
            ));
        }
        i = i + 1;
    }
    proof {
        assert(views_decoded_upto(
            views@,
            metas_seen,
            ptrs@,
            session.slabs.slabs@,
            views@.len() as int,
        ));
        assert(ptrs_decoded(ptrs@, update.inline_data@, views@.len() as int));
        assert(polled_views(views@, update.inline_data@, session.slabs.slabs@));
    }
    Ok(Some(views))
}

} // verus!
