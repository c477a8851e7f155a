use pivot_sync::com_types::{EngineCommand, EngineResponse};
use pivot_sync::dispatch::{
    dispatch_step, drain_queue, transmit_next, CommandQueue, DispatchAction, DispatchEvent,
    DispatchPhase, TransportLog,
};
use pivot_sync::errors::SyncError;
use pivot_sync::listener::{
    listener_step, ListenerAction, ListenerEvent, ListenerPhase, MeshPublish, UpdateBuffer,
};

fn cmd(op: u16) -> EngineCommand {
    EngineCommand::new(op, 0)
}

#[test]
fn transport_observes_submission_order() {
    // Several independent submitters interleave; the transport observes
    // the commands in exactly the order they were enqueued.
    let mut queue = CommandQueue::new(10);
    for op in [4u16, 1, 3, 2, 5] {
        assert!(queue.try_submit(cmd(op)));
    }
    let mut log = TransportLog::new();
    drain_queue(&mut queue, &mut log);
    assert_eq!(queue.items.len(), 0);
    let observed: Vec<u16> = log.observed.iter().map(|c| c.op_id).collect();
    assert_eq!(observed, vec![4, 1, 3, 2, 5]);
}

#[test]
fn queue_capacity_is_the_backpressure_boundary() {
    let mut queue = CommandQueue::new(2);
    assert!(queue.try_submit(cmd(1)));
    assert!(queue.try_submit(cmd(2)));
    // A full queue does not accept a third command; the submitter waits.
    assert!(!queue.try_submit(cmd(3)));
    assert_eq!(queue.items.len(), 2);

    // Draining one makes room again.
    let mut log = TransportLog::new();
    assert!(transmit_next(&mut queue, &mut log));
    assert!(queue.try_submit(cmd(3)));
    drain_queue(&mut queue, &mut log);
    let observed: Vec<u16> = log.observed.iter().map(|c| c.op_id).collect();
    assert_eq!(observed, vec![1, 2, 3]);
}

#[test]
fn take_next_is_fifo() {
    let mut queue = CommandQueue::new(4);
    queue.try_submit(cmd(7));
    queue.try_submit(cmd(8));
    assert_eq!(queue.take_next().unwrap().op_id, 7);
    assert_eq!(queue.take_next().unwrap().op_id, 8);
    assert!(queue.take_next().is_none());
}

#[test]
fn dispatch_worker_discovery_and_send() {
    // Discovery retries with a fixed delay until both services open.
    let (p, a) = dispatch_step(DispatchPhase::Discovering, DispatchEvent::ServicesDown);
    assert_eq!(p, DispatchPhase::Discovering);
    assert!(matches!(a, DispatchAction::RetryAfterDelay));

    let (p, a) = dispatch_step(DispatchPhase::Discovering, DispatchEvent::ServicesUp);
    assert_eq!(p, DispatchPhase::WaitingForWork);
    assert!(matches!(a, DispatchAction::AwaitWork));

    // A work item launches exactly one request.
    let (p, a) = dispatch_step(DispatchPhase::WaitingForWork, DispatchEvent::Work(cmd(3)));
    assert_eq!(p, DispatchPhase::AwaitingResponse);
    match a {
        DispatchAction::SendAndNotify(c) => assert_eq!(c.op_id, 3),
        _ => panic!("expected a send"),
    }

    // While the response is pending the worker polls; the response
    // delivers exactly one reply and frees the single in-flight slot.
    let (p, a) = dispatch_step(DispatchPhase::AwaitingResponse, DispatchEvent::ResponsePending);
    assert_eq!(p, DispatchPhase::AwaitingResponse);
    assert!(matches!(a, DispatchAction::PollResponse));

    let resp = EngineResponse { status: 0 };
    let (p, a) = dispatch_step(DispatchPhase::AwaitingResponse, DispatchEvent::Response(resp));
    assert_eq!(p, DispatchPhase::WaitingForWork);
    match a {
        DispatchAction::DeliverOk(r) => assert_eq!(r.status, 0),
        _ => panic!("expected a delivery"),
    }

    // A send failure is terminal for that command only.
    let (p, a) = dispatch_step(DispatchPhase::AwaitingResponse, DispatchEvent::SendFailure);
    assert_eq!(p, DispatchPhase::WaitingForWork);
    match a {
        DispatchAction::DeliverErr(e) => assert_eq!(e, SyncError::SendFailed),
        _ => panic!("expected an error delivery"),
    }

    // So is a failure while polling for the response.
    let (p, a) = dispatch_step(DispatchPhase::AwaitingResponse, DispatchEvent::ReceiveFailure);
    assert_eq!(p, DispatchPhase::WaitingForWork);
    match a {
        DispatchAction::DeliverErr(e) => assert_eq!(e, SyncError::ReceiveFailed),
        _ => panic!("expected an error delivery"),
    }

    // Shutdown exits from the discovery and queue waits, but never
    // cancels an in-flight command: a pending response is still polled.
    let (_, a) = dispatch_step(DispatchPhase::WaitingForWork, DispatchEvent::ShutdownSeen);
    assert!(matches!(a, DispatchAction::Exit));
    let (p, a) = dispatch_step(DispatchPhase::AwaitingResponse, DispatchEvent::ShutdownSeen);
    assert_eq!(p, DispatchPhase::AwaitingResponse);
    assert!(matches!(a, DispatchAction::PollResponse));
}

fn update(n: u32) -> MeshPublish {
    MeshPublish { num_items: n, root_slab_handle: vec![0u8; 32], inline_data: Vec::new() }
}

#[test]
fn update_buffer_is_fifo_and_nonblocking() {
    let mut buf = UpdateBuffer::new();
    assert!(buf.poll_update().is_none());
    buf.push_update(update(1));
    buf.push_update(update(2));
    assert_eq!(buf.poll_update().unwrap().num_items, 1);
    assert_eq!(buf.poll_update().unwrap().num_items, 2);
    assert!(buf.poll_update().is_none());
}

#[test]
fn listener_worker_transitions() {
    let (p, a) = listener_step(ListenerPhase::Discovering, ListenerEvent::ServicesDown);
    assert_eq!(p, ListenerPhase::Discovering);
    assert!(matches!(a, ListenerAction::RetryAfterDelay));

    let (p, a) = listener_step(ListenerPhase::Discovering, ListenerEvent::ServicesUp);
    assert_eq!(p, ListenerPhase::Listening);
    assert!(matches!(a, ListenerAction::AwaitSignal));

    let (p, a) = listener_step(ListenerPhase::Listening, ListenerEvent::Sample(update(4)));
    assert_eq!(p, ListenerPhase::Listening);
    match a {
        ListenerAction::Forward(m) => assert_eq!(m.num_items, 4),
        _ => panic!("expected a forward"),
    }

    let (p, a) = listener_step(ListenerPhase::Listening, ListenerEvent::NoSample);
    assert_eq!(p, ListenerPhase::Listening);
    assert!(matches!(a, ListenerAction::AwaitSignal));

    let (_, a) = listener_step(ListenerPhase::Listening, ListenerEvent::ShutdownSeen);
    assert!(matches!(a, ListenerAction::Exit));
}
