//! Mesh update listener model: the record published for each mesh
//! update, the unbounded FIFO buffer the background listener fills, and
//! the decision table of the listener worker.
//!
//! The listener opens its own transport ports — never sharing the
//! dispatcher's client — so update delivery is never coupled to command
//! latency. The unverified worker thread drives [`listener_step`] with
//! the events it observes and performs the returned actions; each
//! forwarded record lands in an [`UpdateBuffer`] that the session polls
//! without blocking.

use vstd::prelude::*;

use crate::com_types::{MAX_HANDLE_LEN, MAX_INLINE_DATA};

verus! {

/// One mesh update notification: how many asset records its payload
/// carries, the handle of the root slab to hydrate against, and the
/// inline payload of serialized compact pointers.
#[derive(Debug)]
pub struct MeshPublish {
    pub num_items: u32,
    pub root_slab_handle: Vec<u8>,
    pub inline_data: Vec<u8>,
}

impl MeshPublish {
    pub open spec fn wf(&self) -> bool {
        &&& self.root_slab_handle@.len() == MAX_HANDLE_LEN
        &&& self.inline_data@.len() <= MAX_INLINE_DATA
    }
}

/// The unbounded FIFO buffer of mesh updates drained from the
/// subscription and not yet polled by the session. Nothing bounds its
/// growth but the consumer's polling rate.
#[derive(Debug)]
pub struct UpdateBuffer {
    pub items: Vec<MeshPublish>,
}

impl UpdateBuffer {
    pub fn new() -> (r: Self)
        ensures
            r.items@.len() == 0,
    {
        UpdateBuffer { items: Vec::new() }
    }

    /// Append one decoded update at the back of the buffer.
    pub fn push_update(&mut self, update: MeshPublish)
        ensures
            final(self).items@ == old(self).items@.push(update),
    {
        self.items.push(update);
    }

    /// Remove and return the oldest buffered update without blocking;
    /// `None` when nothing is buffered, which is not an error.
    pub fn poll_update(&mut self) -> (r: Option<MeshPublish>)
        ensures
            old(self).items@.len() == 0 ==> {
                &&& r is None
                &&& final(self).items@ == old(self).items@
            },
            old(self).items@.len() > 0 ==> {
                &&& r == Some(old(self).items@[0])
                &&& final(self).items@ == old(self).items@.skip(1)
            },
    {
        if self.items.len() == 0 {
            None
        } else {
            let update = self.items.remove(0);
            proof {
                assert(self.items@ =~= old(self).items@.skip(1));
            }
            Some(update)
        }
    }
}

/// Where the listener worker stands.
#[derive(Clone, Copy, Debug, PartialEq, Eq, Structural)]
pub enum ListenerPhase {
    /// Waiting for the update and notification services to be
    /// registered; retried with a fixed backoff, bounded only by session
    /// shutdown.
    Discovering,
    /// Connected: blocking on the event listener with a bounded timeout,
    /// then draining every available sample.
    Listening,
}

/// What the listener worker observed at its current wait.
#[derive(Debug)]
pub enum ListenerEvent {
    /// Both update services opened.
    ServicesUp,
    /// At least one update service is not registered yet.
    ServicesDown,
    /// The session's shutdown flag was seen set.
    ShutdownSeen,
    /// A sample was available on the subscription.
    Sample(MeshPublish),
    /// No further sample is currently available.
    NoSample,
}

/// What the listener worker must do next.
#[derive(Debug)]
pub enum ListenerAction {
    /// Sleep the fixed discovery backoff and try opening the services
    /// again.
    RetryAfterDelay,
    /// Block on the event listener with the bounded timeout, then drain.
    AwaitSignal,
    /// Append the decoded record to the update buffer and keep draining.
    Forward(MeshPublish),
    /// Leave the worker loop.
    Exit,
    /// The event cannot occur in this phase; keep waiting.
    Ignore,
}

/// The listener worker's decision table: from the current phase and the
/// observed event to the next phase and the action to perform.
pub open spec fn listener_transition(phase: ListenerPhase, event: ListenerEvent) -> (
    ListenerPhase,
    ListenerAction,
) {
    match (phase, event) {
        (_, ListenerEvent::ShutdownSeen) => (phase, ListenerAction::Exit),
        (ListenerPhase::Discovering, ListenerEvent::ServicesUp) => (
            ListenerPhase::Listening,
            ListenerAction::AwaitSignal,
        ),
        (ListenerPhase::Discovering, ListenerEvent::ServicesDown) => (
            ListenerPhase::Discovering,
            ListenerAction::RetryAfterDelay,
        ),
        (ListenerPhase::Listening, ListenerEvent::Sample(update)) => (
            ListenerPhase::Listening,
            ListenerAction::Forward(update),
        ),
        (ListenerPhase::Listening, ListenerEvent::NoSample) => (
            ListenerPhase::Listening,
            ListenerAction::AwaitSignal,
        ),
        (_, _) => (phase, ListenerAction::Ignore),
    }
}

/// Take one step of the listener worker's decision table.
pub fn listener_step(phase: ListenerPhase, event: ListenerEvent) -> (r: (
    ListenerPhase,
    ListenerAction,
))
    ensures
        r == listener_transition(phase, event),
{
    match (phase, event) {
        (_, ListenerEvent::ShutdownSeen) => (phase, ListenerAction::Exit),
        (ListenerPhase::Discovering, ListenerEvent::ServicesUp) => (
            ListenerPhase::Listening,
            ListenerAction::AwaitSignal,
        ),
        (ListenerPhase::Discovering, ListenerEvent::ServicesDown) => (
            ListenerPhase::Discovering,
            ListenerAction::RetryAfterDelay,
        ),
        (ListenerPhase::Listening, ListenerEvent::Sample(update)) => (
            ListenerPhase::Listening,
            ListenerAction::Forward(update),
        ),
        (ListenerPhase::Listening, ListenerEvent::NoSample) => (
            ListenerPhase::Listening,
            ListenerAction::AwaitSignal,
        ),
        (p, _) => (p, ListenerAction::Ignore),
    }
}

} // verus!
