//! Command dispatcher model: the bounded FIFO work queue, the order in
//! which queued commands reach the transport, and the decision table of
//! the single background dispatch worker.
//!
//! The worker serializes all command traffic through one transport
//! client: at most one request is in flight at any instant, and queued
//! commands are transmitted strictly in submission order. The unverified
//! worker thread drives [`dispatch_step`] with the events it observes and
//! performs the returned actions.

use vstd::prelude::*;

use crate::com_types::{EngineCommand, EngineResponse};
use crate::errors::SyncError;

verus! {

/// The bounded queue of commands accepted but not yet transmitted. Its
/// capacity bounds outstanding unsent commands and is the system's
/// backpressure boundary: a submitter whose command does not fit waits
/// and retries.
#[derive(Debug)]
pub struct CommandQueue {
    pub items: Vec<EngineCommand>,
    pub capacity: usize,
}

impl CommandQueue {
    pub open spec fn wf(&self) -> bool {
        self.items@.len() <= self.capacity
    }

    pub fn new(capacity: usize) -> (r: Self)
        ensures
            r.wf(),
            r.capacity == capacity,
            r.items@.len() == 0,
    {
        CommandQueue { items: Vec::new(), capacity }
    }

    /// Append `cmd` at the back of the queue when there is room; a full
    /// queue rejects the command so the submitter can wait and retry.
    pub fn try_submit(&mut self, cmd: EngineCommand) -> (accepted: bool)
        requires
            old(self).wf(),
        ensures
            final(self).wf(),
            final(self).capacity == old(self).capacity,
            accepted <==> old(self).items@.len() < old(self).capacity,
            accepted ==> final(self).items@ == old(self).items@.push(cmd),
            !accepted ==> final(self).items@ == old(self).items@,
    {
        if self.items.len() < self.capacity {
            self.items.push(cmd);
            true
        } else {
            false
        }
    }

    /// Remove and return the oldest queued command, if any: the queue is
    /// strictly first-in, first-out.
    pub fn take_next(&mut self) -> (r: Option<EngineCommand>)
        ensures
            final(self).capacity == old(self).capacity,
            old(self).items@.len() == 0 ==> {
                &&& r is None
                &&& final(self).items@ == old(self).items@
            },
            old(self).items@.len() > 0 ==> {
                &&& r == Some(old(self).items@[0])
                &&& final(self).items@ == old(self).items@.skip(1)
            },
    {
        if self.items.len() == 0 {
            None
        } else {
            let cmd = self.items.remove(0);
            proof {
                assert(self.items@ =~= old(self).items@.skip(1));
            }
            Some(cmd)
        }
    }
}

/// The sequence of commands the transport has observed, in transmission
/// order.
#[derive(Debug)]
pub struct TransportLog {
    pub observed: Vec<EngineCommand>,
}

impl TransportLog {
    pub fn new() -> (r: Self)
        ensures
            r.observed@.len() == 0,
    {
        TransportLog { observed: Vec::new() }
    }
}

/// Transmit the oldest queued command, if any: it leaves the front of the
/// queue and is appended to the transport's observed sequence.
pub fn transmit_next(queue: &mut CommandQueue, log: &mut TransportLog) -> (sent: bool)
    ensures
        final(queue).capacity == old(queue).capacity,
        sent <==> old(queue).items@.len() > 0,
        sent ==> {
            &&& final(queue).items@ == old(queue).items@.skip(1)
            &&& final(log).observed@ == old(log).observed@.push(old(queue).items@[0])
        },
        !sent ==> {
            &&& final(queue).items@ == old(queue).items@
            &&& final(log).observed@ == old(log).observed@
        },
{
    match queue.take_next() {
        Some(cmd) => {
            log.observed.push(cmd);
            true
        },
        None => false,
    }
}

/// Transmit every queued command. The transport observes the commands in
/// exactly the order they were enqueued: the observed sequence grows by
/// the queue's contents, in submission order, however many submitters
/// interleaved while filling the queue.
pub fn drain_queue(queue: &mut CommandQueue, log: &mut TransportLog)
    ensures
        final(queue).capacity == old(queue).capacity,
        final(queue).items@.len() == 0,
        final(log).observed@ == old(log).observed@ + old(queue).items@,
{
    proof {
        assert(old(log).observed@ + old(queue).items@.take(0) =~= old(log).observed@);
    }
    let mut moved: usize = 0;
    while queue.items.len() > 0
        invariant
            queue.capacity == old(queue).capacity,
            moved + queue.items.len() == old(queue).items.len(),
            queue.items@ == old(queue).items@.skip(moved as int),
            log.observed@ == old(log).observed@ + old(queue).items@.take(moved as int),
        decreases queue.items@.len(),
    {
        let sent = transmit_next(queue, log);
        proof {
            assert(old(queue).items@.skip(moved as int).skip(1) =~= old(queue).items@.skip(
                moved as int + 1,
            ));
            assert(old(log).observed@ + old(queue).items@.take(moved as int + 1) =~= (old(
                log,
            ).observed@ + old(queue).items@.take(moved as int)).push(
                old(queue).items@[moved as int],
            ));
        }
        moved = moved + 1;
    }
    proof {
        assert(old(queue).items@.take(moved as int) =~= old(queue).items@);
    }
}

/// Where the dispatch worker stands.
#[derive(Clone, Copy, Debug, PartialEq, Eq, Structural)]
pub enum DispatchPhase {
    /// Waiting for the command and command-event services to be
    /// registered; retried with a fixed backoff, bounded only by session
    /// shutdown.
    Discovering,
    /// Connected, waiting (with a bounded timeout, so shutdown is
    /// noticed) for the next queued work item.
    WaitingForWork,
    /// Exactly one request has been sent and its response has not yet
    /// arrived.
    AwaitingResponse,
}

/// What the worker observed at its current wait.
#[derive(Debug)]
pub enum DispatchEvent {
    /// Both command services opened.
    ServicesUp,
    /// At least one command service is not registered yet.
    ServicesDown,
    /// The session's shutdown flag was seen set.
    ShutdownSeen,
    /// A queued work item arrived.
    Work(EngineCommand),
    /// The bounded queue wait timed out with no work.
    NoWork,
    /// The pending response arrived.
    Response(EngineResponse),
    /// The pending response has not arrived yet.
    ResponsePending,
    /// Loaning, sending or signalling the request failed.
    SendFailure,
    /// Polling the pending response failed.
    ReceiveFailure,
}

/// What the worker must do next.
#[derive(Debug)]
pub enum DispatchAction {
    /// Sleep the fixed discovery backoff and try opening the services
    /// again.
    RetryAfterDelay,
    /// Wait (bounded) for the next work item.
    AwaitWork,
    /// Copy the command into a loaned transport buffer, submit it and
    /// signal the paired event channel.
    SendAndNotify(EngineCommand),
    /// Sleep briefly and poll the pending response again.
    PollResponse,
    /// Deliver the response through the work item's one-shot reply
    /// channel.
    DeliverOk(EngineResponse),
    /// Deliver the error through the work item's one-shot reply channel;
    /// terminal for this command only.
    DeliverErr(SyncError),
    /// Leave the worker loop.
    Exit,
    /// The event cannot occur in this phase; keep waiting.
    Ignore,
}

/// The dispatch worker's decision table: from the current phase and the
/// observed event to the next phase and the action to perform.
pub open spec fn dispatch_transition(phase: DispatchPhase, event: DispatchEvent) -> (
    DispatchPhase,
    DispatchAction,
) {
    match (phase, event) {
        // An in-flight command is never cancelled: shutdown exits only
        // from the discovery and queue waits, while a pending response
        // is still polled to completion.
        (DispatchPhase::AwaitingResponse, DispatchEvent::ShutdownSeen) => (
            DispatchPhase::AwaitingResponse,
            DispatchAction::PollResponse,
        ),
        (_, DispatchEvent::ShutdownSeen) => (phase, DispatchAction::Exit),
        (DispatchPhase::Discovering, DispatchEvent::ServicesUp) => (
            DispatchPhase::WaitingForWork,
            DispatchAction::AwaitWork,
        ),
        (DispatchPhase::Discovering, DispatchEvent::ServicesDown) => (
            DispatchPhase::Discovering,
            DispatchAction::RetryAfterDelay,
        ),
        (DispatchPhase::WaitingForWork, DispatchEvent::Work(cmd)) => (
            DispatchPhase::AwaitingResponse,
            DispatchAction::SendAndNotify(cmd),
        ),
        (DispatchPhase::WaitingForWork, DispatchEvent::NoWork) => (
            DispatchPhase::WaitingForWork,
            DispatchAction::AwaitWork,
        ),
        (DispatchPhase::AwaitingResponse, DispatchEvent::Response(resp)) => (
            DispatchPhase::WaitingForWork,
            DispatchAction::DeliverOk(resp),
        ),
        (DispatchPhase::AwaitingResponse, DispatchEvent::ResponsePending) => (
            DispatchPhase::AwaitingResponse,
            DispatchAction::PollResponse,
        ),
        (DispatchPhase::AwaitingResponse, DispatchEvent::SendFailure) => (
            DispatchPhase::WaitingForWork,
            DispatchAction::DeliverErr(SyncError::SendFailed),
        ),
        (DispatchPhase::AwaitingResponse, DispatchEvent::ReceiveFailure) => (
            DispatchPhase::WaitingForWork,
            DispatchAction::DeliverErr(SyncError::ReceiveFailed),
        ),
        (_, _) => (phase, DispatchAction::Ignore),
    }
}

/// Take one step of the dispatch worker's decision table.
pub fn dispatch_step(phase: DispatchPhase, event: DispatchEvent) -> (r: (
    DispatchPhase,
    DispatchAction,
))
    ensures
        r == dispatch_transition(phase, event),
{
    match (phase, event) {
        // An in-flight command is never cancelled: shutdown exits only
        // from the discovery and queue waits, while a pending response
        // is still polled to completion.
        (DispatchPhase::AwaitingResponse, DispatchEvent::ShutdownSeen) => (
            DispatchPhase::AwaitingResponse,
            DispatchAction::PollResponse,
        ),
        (_, DispatchEvent::ShutdownSeen) => (phase, DispatchAction::Exit),
        (DispatchPhase::Discovering, DispatchEvent::ServicesUp) => (
            DispatchPhase::WaitingForWork,
            DispatchAction::AwaitWork,
        ),
        (DispatchPhase::Discovering, DispatchEvent::ServicesDown) => (
            DispatchPhase::Discovering,
            DispatchAction::RetryAfterDelay,
        ),
        (DispatchPhase::WaitingForWork, DispatchEvent::Work(cmd)) => (
            DispatchPhase::AwaitingResponse,
            DispatchAction::SendAndNotify(cmd),
        ),
        (DispatchPhase::WaitingForWork, DispatchEvent::NoWork) => (
            DispatchPhase::WaitingForWork,
            DispatchAction::AwaitWork,
        ),
        (DispatchPhase::AwaitingResponse, DispatchEvent::Response(resp)) => (
            DispatchPhase::WaitingForWork,
            DispatchAction::DeliverOk(resp),
        ),
        (DispatchPhase::AwaitingResponse, DispatchEvent::ResponsePending) => (
            DispatchPhase::AwaitingResponse,
            DispatchAction::PollResponse,
        ),
        (DispatchPhase::AwaitingResponse, DispatchEvent::SendFailure) => (
            DispatchPhase::WaitingForWork,
            DispatchAction::DeliverErr(SyncError::SendFailed),
        ),
        (DispatchPhase::AwaitingResponse, DispatchEvent::ReceiveFailure) => (
            DispatchPhase::WaitingForWork,
            DispatchAction::DeliverErr(SyncError::ReceiveFailed),
        ),
        (p, _) => (p, DispatchAction::Ignore),
    }
}

/// At most one request is ever in flight: a request is launched only from
/// the idle phase and launching it enters the in-flight phase; the
/// in-flight phase is left exactly by delivering one reply — a response
/// or an error — through the command's one-shot channel.
pub proof fn lemma_single_in_flight(phase: DispatchPhase, event: DispatchEvent)
    ensures
        ({
            let (next, action) = dispatch_transition(phase, event);
            &&& (action matches DispatchAction::SendAndNotify(_)) ==> (phase
                is WaitingForWork && next is AwaitingResponse)
            &&& ((action matches DispatchAction::DeliverOk(_)) || (action
                matches DispatchAction::DeliverErr(_))) ==> (phase is AwaitingResponse && next
                is WaitingForWork)
            &&& (phase is AwaitingResponse && next is WaitingForWork) ==> ((action
                matches DispatchAction::DeliverOk(_)) || (action
                matches DispatchAction::DeliverErr(_)))
        }),
{
}

} // verus!
