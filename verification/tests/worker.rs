use std::sync::Arc;
use std::time::SystemTime;
use std::time::UNIX_EPOCH;

use cross_domain::atomic_memory_sentinel_manager::AtomicMemorySentinelThread;
use cross_domain::atomic_memory_sentinel_manager::SentinelAction;
use cross_domain::atomic_memory_sentinel_manager::SentinelPhase;
use cross_domain::common::add_item;
use cross_domain::common::ContextResource;
use cross_domain::common::ContextResources;
use cross_domain::common::CrossDomainItem;
use cross_domain::common::CrossDomainItems;
use cross_domain::common::CrossDomainJob;
use cross_domain::common::CrossDomainState;
use cross_domain::common::NextJob;
use cross_domain::common::RingWrite;
use cross_domain::component::CrossDomain;
use cross_domain::context::CrossDomainContext;
use cross_domain::cross_domain_protocol::CrossDomainHeader;
use cross_domain::cross_domain_protocol::CrossDomainInit;
use cross_domain::cross_domain_protocol::CrossDomainReadWrite;
use cross_domain::cross_domain_protocol::CrossDomainSendReceive;
use cross_domain::cross_domain_protocol::CrossDomainSignalAtomicMemorySentinel;
use cross_domain::cross_domain_protocol::CROSS_DOMAIN_CMD_READ;
use cross_domain::cross_domain_protocol::CROSS_DOMAIN_CMD_RECEIVE;
use cross_domain::cross_domain_protocol::CROSS_DOMAIN_ID_TYPE_EVENT;
use cross_domain::cross_domain_protocol::CROSS_DOMAIN_ID_TYPE_SOCKET;
use cross_domain::cross_domain_protocol::CROSS_DOMAIN_ID_TYPE_VIRTGPU_BLOB;
use cross_domain::cross_domain_protocol::CROSS_DOMAIN_ID_TYPE_WRITE_PIPE;
use cross_domain::handle::MagmaGpuHandle;
use cross_domain::platform::DescriptorType;
use cross_domain::platform::WaitEvent;
use cross_domain::platform::MAGMA_GPU_HANDLE_TYPE_SIGNAL_EVENT_FD;
use cross_domain::rutabaga_utils::MagmaGpuError;
use cross_domain::rutabaga_utils::MesaError;
use cross_domain::rutabaga_utils::RutabagaError;
use cross_domain::rutabaga_utils::RutabagaFence;
use cross_domain::rutabaga_utils::RutabagaIovec;
use cross_domain::wire::ByteOrder;
use cross_domain::wire::Wire;
use cross_domain::worker::CrossDomainWorker;
use cross_domain::worker::FenceRoute;
use cross_domain::worker::ItemRead;
use cross_domain::worker::SentinelTurn;
use cross_domain::worker::WorkerAction;
use cross_domain::worker::CROSS_DOMAIN_MAX_SEND_RECV_SIZE;

use magma_gpu::util::create_pipe;
use magma_gpu::util::AsBorrowedDescriptor;
use magma_gpu::util::Event;
use magma_gpu::util::Listener;
use magma_gpu::util::OwnedDescriptor;
use magma_gpu::util::SharedMemory;
use magma_gpu::util::Tube;
use magma_gpu::util::TubeType;

const FENCE: RutabagaFence = RutabagaFence { flags: 1, fence_id: 42, ctx_id: 3, ring_idx: 1 };

fn memory(size: u64) -> OwnedDescriptor {
    SharedMemory::new("test", size).unwrap().into()
}

fn event_descriptor() -> OwnedDescriptor {
    Event::new().unwrap().as_borrowed_descriptor().try_clone().unwrap()
}

fn tube_pair() -> (Tube, Tube) {
    let now = SystemTime::now().duration_since(UNIX_EPOCH).unwrap().as_nanos();
    let name = format!("/tmp/cross_domain_worker_{now}");
    let listener = Listener::bind(name.as_str()).unwrap();
    let near = Tube::new(name.as_str(), TubeType::Packet).unwrap();
    (near, listener.accept().unwrap())
}

fn socket() -> OwnedDescriptor {
    tube_pair().0.as_borrowed_descriptor().try_clone().unwrap()
}

fn wait_event(connection_id: u64, readable: bool, hung_up: bool) -> WaitEvent {
    WaitEvent { connection_id, hung_up, readable }
}

fn initialised_context() -> CrossDomainContext<u32> {
    let mut ctx: CrossDomainContext<u32> = CrossDomain::init(None, true).create_context();
    ctx.states.push(CrossDomainState::new(5, 6, None));
    ctx
}

fn next_job(ctx: &mut CrossDomainContext<u32>) -> NextJob {
    ctx.states.last_mut().unwrap().wait_for_job()
}

fn worker_with_fence() -> CrossDomainWorker {
    let mut worker = CrossDomainWorker::new(0);
    let items = CrossDomainItems::default();
    assert!(matches!(
        worker.run(&items, CrossDomainJob::HandleFence(FENCE)),
        Ok(WorkerAction::HandleFence)
    ));
    worker
}

#[test]
fn worker_starts_with_an_empty_buffer() {
    let worker = CrossDomainWorker::new(0);
    assert_eq!(worker.receive_buf.len(), 3744);
    assert!(worker.receive_buf.iter().all(|b| *b == 0));
    assert!(worker.fence.is_none());
}

#[test]
fn jobs_name_what_is_polled() {
    let mut worker = CrossDomainWorker::new(0);
    let mut items = CrossDomainItems::default();
    let (read_pipe, _write_pipe) = create_pipe().unwrap();
    let pipe_id = add_item(&mut items, CrossDomainItem::WaylandReadPipe(read_pipe));
    let event_id = add_item(&mut items, CrossDomainItem::Event(Event::new().unwrap()));
    assert!(matches!(
        worker.run(&items, CrossDomainJob::AddReadPipe(pipe_id)),
        Ok(WorkerAction::WatchPipe(0x8000_0001, _))
    ));
    assert!(matches!(
        worker.run(&items, CrossDomainJob::AddReadEvent(event_id)),
        Ok(WorkerAction::WatchEvent(2, _))
    ));
    assert!(matches!(
        worker.run(&items, CrossDomainJob::AddReadPipe(event_id)),
        Err(RutabagaError::InvalidCrossDomainItemType)
    ));
    assert!(matches!(
        worker.run(&items, CrossDomainJob::AddReadEvent(pipe_id)),
        Err(RutabagaError::InvalidCrossDomainItemType)
    ));
    assert!(matches!(
        worker.run(&items, CrossDomainJob::AddReadPipe(9)),
        Err(RutabagaError::InvalidCrossDomainItemId)
    ));
    assert!(matches!(
        worker.run(&items, CrossDomainJob::AddReadEvent(9)),
        Err(RutabagaError::InvalidCrossDomainItemId)
    ));
    let evt = Event::new().unwrap();
    assert!(matches!(
        worker.run(&items, CrossDomainJob::AddAtomicMemorySentinel(0x4000_0000, evt)),
        Ok(WorkerAction::WatchSentinel(0x4000_0000, _))
    ));
    assert!(matches!(worker.run(&items, CrossDomainJob::Finish), Ok(WorkerAction::Stop)));
    assert!(worker.fence.is_none());
}

#[test]
fn events_are_routed_by_their_connection() {
    let mut worker = worker_with_fence();
    let mut route = |id: u64| worker.handle_fence(&[wait_event(id, true, false)]);
    assert!(matches!(route(1), Ok(FenceRoute::Receive)));
    assert!(matches!(route(2), Ok(FenceRoute::Resample)));
    assert!(matches!(route(3), Ok(FenceRoute::Kill)));
    assert!(matches!(route(0), Ok(FenceRoute::Item(0))));
    assert!(matches!(route(4), Ok(FenceRoute::Item(4))));
    assert!(matches!(route(0x3fff_ffff), Ok(FenceRoute::Item(0x3fff_ffff))));
    assert!(matches!(route(0x4000_0000), Ok(FenceRoute::Sentinel(0x4000_0000))));
    assert!(matches!(route(0x7fff_ffff), Ok(FenceRoute::Sentinel(0x7fff_ffff))));
    assert!(matches!(route(0x8000_0000), Ok(FenceRoute::Item(0x8000_0000))));
    assert!(matches!(route(0xffff_ffff), Ok(FenceRoute::Item(0xffff_ffff))));
    assert!(matches!(
        route(0x1_0000_0000),
        Err(RutabagaError::MagmaGpuError(MagmaGpuError::TryFromIntError(_)))
    ));
}

#[test]
fn only_the_first_event_counts() {
    let mut worker = worker_with_fence();
    let events = [wait_event(1, true, false), wait_event(3, true, false)];
    assert!(matches!(worker.handle_fence(&events), Ok(FenceRoute::Receive)));
    assert_eq!(worker.fence, Some(FENCE));
    assert!(matches!(worker.handle_fence(&[]), Ok(FenceRoute::Idle)));
    assert!(worker.fence.is_none());
}

#[test]
fn fence_is_signalled_or_queued_again() {
    let mut worker = worker_with_fence();
    assert_eq!(worker.signal_fence(), FENCE);
    assert!(worker.fence.is_none());

    let mut ctx = initialised_context();
    ctx.queue_job(CrossDomainJob::AddReadPipe(0x8000_0001));
    let mut worker = worker_with_fence();
    worker.requeue_fence(&mut ctx);
    assert!(worker.fence.is_none());
    assert!(matches!(
        next_job(&mut ctx),
        NextJob::Job(CrossDomainJob::AddReadPipe(0x8000_0001))
    ));
    assert!(matches!(
        next_job(&mut ctx),
        NextJob::Job(CrossDomainJob::HandleFence(fence)) if fence == FENCE
    ));
    assert!(matches!(next_job(&mut ctx), NextJob::Wait));
}

#[test]
fn worker_keeps_its_own_queue() {
    let mut ctx = initialised_context();
    let (near, _far) = tube_pair();
    let waiting = RutabagaFence { fence_id: 41, ..FENCE };
    ctx.queue_job(CrossDomainJob::HandleFence(waiting));
    let cmd_init = CrossDomainInit {
        query_ring_id: 7,
        channel_ring_id: 8,
        ..CrossDomainInit::default()
    };
    let second = ctx.connected(
        &cmd_init,
        Arc::new(near),
        Event::new().unwrap(),
        Event::new().unwrap(),
    );
    assert_eq!(second, 1);
    let mut first_worker = worker_with_fence();
    let second_worker = CrossDomainWorker::new(second);
    ctx.queue_job(CrossDomainJob::AddReadPipe(0x8000_0001));
    first_worker.requeue_fence(&mut ctx);

    assert_eq!(first_worker.channel_ring_id(&ctx), 6);
    assert_eq!(second_worker.channel_ring_id(&ctx), 8);
    assert!(matches!(
        first_worker.receive_msg(&ctx),
        Err(RutabagaError::InvalidCrossDomainChannel)
    ));
    assert!(second_worker.receive_msg(&ctx).is_ok());
    assert!(matches!(
        first_worker.wait_for_job(&mut ctx),
        NextJob::Job(CrossDomainJob::HandleFence(fence)) if fence == waiting
    ));
    assert!(matches!(
        first_worker.wait_for_job(&mut ctx),
        NextJob::Job(CrossDomainJob::HandleFence(fence)) if fence == FENCE
    ));
    assert!(matches!(first_worker.wait_for_job(&mut ctx), NextJob::Wait));
    assert!(matches!(
        second_worker.wait_for_job(&mut ctx),
        NextJob::Job(CrossDomainJob::AddReadPipe(0x8000_0001))
    ));
    assert!(matches!(second_worker.wait_for_job(&mut ctx), NextJob::Wait));
}

#[test]
fn sentinel_reports_until_it_is_shut_down() {
    let mut ctx = initialised_context();
    ctx.sentinel_manager.add_watcher(0x4000_0000, 77, Event::new().unwrap());
    match CrossDomainWorker::handle_sentinel_event(&ctx, 0x4000_0000) {
        SentinelTurn::Report(cmd) => assert_eq!(
            cmd,
            CrossDomainSignalAtomicMemorySentinel {
                hdr: CrossDomainHeader { cmd: 9, ring_idx: 0, cmd_size: 0, pad: 0 },
                id: 0x4000_0000,
                pad: 0,
            }
        ),
        SentinelTurn::Forget => panic!("the watcher is running"),
    }
    ctx.sentinel_manager.destroy_watcher(0x4000_0000).unwrap();
    assert!(matches!(
        CrossDomainWorker::handle_sentinel_event(&ctx, 0x4000_0000),
        SentinelTurn::Forget
    ));
    assert!(matches!(
        CrossDomainWorker::handle_sentinel_event(&ctx, 0x4000_0001),
        SentinelTurn::Forget
    ));
    let mut worker = worker_with_fence();
    let removed = worker.sentinel_forgotten(&mut ctx, 0x4000_0000).unwrap();
    assert_eq!(removed.worker, 77);
    assert!(removed.is_shutdown());
    assert!(ctx.sentinel_manager.get_event(0x4000_0000).is_none());
    assert!(matches!(
        next_job(&mut ctx),
        NextJob::Job(CrossDomainJob::HandleFence(fence)) if fence == FENCE
    ));
}

#[test]
fn sentinel_thread_waits_against_what_it_loaded() {
    let mut thread = AtomicMemorySentinelThread::new(5);
    assert_eq!(thread.phase, SentinelPhase::Starting);
    // It does not matter whether the first signal succeeds.
    assert_eq!(thread.next_action(), SentinelAction::Signal);
    thread.signalled(false);
    assert_eq!(thread.next_action(), SentinelAction::Wait(5));
    thread.run(6, false);
    assert_eq!(thread.next_action(), SentinelAction::Signal);
    thread.signalled(true);
    assert_eq!(thread.next_action(), SentinelAction::Wait(6));
    // The shutdown is signalled as well.
    thread.run(7, true);
    assert_eq!(thread.next_action(), SentinelAction::Signal);
    thread.signalled(true);
    assert_eq!(thread.next_action(), SentinelAction::Stop);
    assert_eq!(thread.val, 7);
}

#[test]
fn sentinel_thread_ends_where_it_cannot_signal() {
    let mut thread = AtomicMemorySentinelThread::new(5);
    thread.signalled(true);
    thread.run(5, false);
    thread.signalled(false);
    assert_eq!(thread.phase, SentinelPhase::Ended);
    assert_eq!(thread.next_action(), SentinelAction::Stop);
}

#[test]
fn route_says_what_becomes_of_the_fence() {
    for route in [FenceRoute::Receive, FenceRoute::Kill, FenceRoute::Item(4)] {
        let mut ctx = initialised_context();
        let mut worker = worker_with_fence();
        assert_eq!(worker.settle_fence(&mut ctx, route), Some(FENCE));
        assert!(worker.fence.is_none());
        assert!(matches!(next_job(&mut ctx), NextJob::Wait));
    }

    let mut ctx = initialised_context();
    let mut worker = worker_with_fence();
    assert!(matches!(worker.handle_fence(&[]), Ok(FenceRoute::Idle)));
    assert_eq!(worker.settle_fence(&mut ctx, FenceRoute::Idle), None);
    assert!(matches!(next_job(&mut ctx), NextJob::Wait));

    let mut worker = worker_with_fence();
    ctx.queue_job(CrossDomainJob::AddReadPipe(0x8000_0001));
    assert_eq!(worker.settle_fence(&mut ctx, FenceRoute::Resample), None);
    assert!(worker.fence.is_none());
    assert!(matches!(
        next_job(&mut ctx),
        NextJob::Job(CrossDomainJob::AddReadPipe(0x8000_0001))
    ));
    assert!(matches!(
        next_job(&mut ctx),
        NextJob::Job(CrossDomainJob::HandleFence(fence)) if fence == FENCE
    ));
    assert!(matches!(next_job(&mut ctx), NextJob::Wait));
}

#[test]
fn fence_of_a_sentinel_depends_on_its_shutdown() {
    let mut ctx = initialised_context();
    ctx.sentinel_manager.add_watcher(0x4000_0000, 77, Event::new().unwrap());
    let route = FenceRoute::Sentinel(0x4000_0000);
    let mut worker = worker_with_fence();
    assert_eq!(worker.settle_fence(&mut ctx, route), Some(FENCE));
    assert!(ctx.sentinel_manager.get_event(0x4000_0000).is_some());
    assert!(matches!(next_job(&mut ctx), NextJob::Wait));

    ctx.sentinel_manager.destroy_watcher(0x4000_0000).unwrap();
    let mut worker = worker_with_fence();
    assert_eq!(worker.settle_fence(&mut ctx, route), None);
    assert!(worker.fence.is_none());
    assert!(ctx.sentinel_manager.get_event(0x4000_0000).is_none());
    assert!(matches!(
        next_job(&mut ctx),
        NextJob::Job(CrossDomainJob::HandleFence(fence)) if fence == FENCE
    ));
}

#[test]
fn items_are_read_under_their_identifier() {
    let mut items = CrossDomainItems::default();
    let (read_pipe, write_pipe) = create_pipe().unwrap();
    let pipe_id = add_item(&mut items, CrossDomainItem::WaylandReadPipe(read_pipe));
    let event_id = add_item(&mut items, CrossDomainItem::Event(Event::new().unwrap()));
    let other_id = add_item(&mut items, CrossDomainItem::WaylandWritePipe(write_pipe));
    match CrossDomainWorker::handle_item_event(&items, pipe_id) {
        Ok(ItemRead::Pipe(_, cmd)) => {
            assert_eq!(cmd.hdr.cmd, CROSS_DOMAIN_CMD_READ);
            assert_eq!(cmd.identifier, pipe_id);
            assert_eq!((cmd.hang_up, cmd.opaque_data_size, cmd.pad), (0, 0, 0));
        }
        _ => panic!("not a pipe"),
    }
    assert!(matches!(
        CrossDomainWorker::handle_item_event(&items, event_id),
        Ok(ItemRead::Event(_, cmd)) if cmd.identifier == event_id
    ));
    assert!(matches!(
        CrossDomainWorker::handle_item_event(&items, other_id),
        Err(RutabagaError::InvalidCrossDomainItemType)
    ));
    assert!(matches!(
        CrossDomainWorker::handle_item_event(&items, 99),
        Err(RutabagaError::InvalidCrossDomainItemId)
    ));
}

#[test]
fn what_is_polled_leads_back_to_itself() {
    let mut items = CrossDomainItems::default();
    let (read_pipe, write_pipe) = create_pipe().unwrap();
    let id = add_item(&mut items, CrossDomainItem::WaylandReadPipe(read_pipe));
    let mut worker = CrossDomainWorker::new(0);
    let connection_id = match worker.run(&items, CrossDomainJob::AddReadPipe(id)) {
        Ok(WorkerAction::WatchPipe(connection_id, _)) => connection_id,
        _ => panic!("no pipe to poll"),
    };
    write_pipe.write(&[1, 2]).unwrap();
    let mut worker = worker_with_fence();
    let routed = match worker.handle_fence(&[wait_event(connection_id, true, false)]) {
        Ok(FenceRoute::Item(routed)) => routed,
        _ => panic!("not an item"),
    };
    match CrossDomainWorker::handle_item_event(&items, routed) {
        Ok(ItemRead::Pipe(read_pipe, _)) => {
            let mut buffer = [0u8; 4];
            assert_eq!(read_pipe.read(&mut buffer).unwrap(), 2);
        }
        _ => panic!("not the pipe"),
    }
}

#[test]
fn item_is_removed_at_its_end() {
    let mut items = CrossDomainItems::default();
    let id = add_item(&mut items, CrossDomainItem::Event(Event::new().unwrap()));
    for (hung_up, bytes_read) in [(false, 0), (false, 8), (true, 8)] {
        let event = wait_event(id as u64, true, hung_up);
        assert!(!CrossDomainWorker::is_item_done(&event, bytes_read));
        CrossDomainWorker::item_event_done(&mut items, id, &event, bytes_read);
        assert!(items.table.contains_key(&id));
    }
    let event = wait_event(id as u64, false, true);
    assert!(CrossDomainWorker::is_item_done(&event, 0));
    CrossDomainWorker::item_event_done(&mut items, id, &event, 0);
    assert!(items.table.is_empty());
}

// ---- rings ----

#[test]
fn ring_is_the_first_memory_of_its_resource() {
    let mut resources = ContextResources::new();
    assert!(matches!(
        CrossDomainState::ring_memory(&resources, 5),
        Err(RutabagaError::InvalidResourceId)
    ));
    resources.insert(5, ContextResource { handle: None, backing_iovecs: None });
    assert!(matches!(
        CrossDomainState::ring_memory(&resources, 5),
        Err(RutabagaError::InvalidIovec)
    ));
    let first = RutabagaIovec { base: 0x1000, len: 4096 };
    let second = RutabagaIovec { base: 0x9000, len: 1 };
    resources.insert(
        5,
        ContextResource { handle: None, backing_iovecs: Some(vec![first, second]) },
    );
    assert_eq!(CrossDomainState::ring_memory(&resources, 5).unwrap(), first);
}

#[test]
fn command_and_data_are_written_to_the_ring() {
    let cmd = CrossDomainReadWrite { identifier: 9, ..CrossDomainReadWrite::default() };
    let mut ring = vec![0xaau8; 32];
    assert_eq!(
        CrossDomainState::write_to_ring(
            ByteOrder::Little,
            RingWrite::Write(cmd, Some(&[1, 2, 3])),
            &mut ring,
        )
        .unwrap(),
        0
    );
    assert_eq!(CrossDomainReadWrite::read_from_prefix(ByteOrder::Little, &ring), Some(cmd));
    assert_eq!(&ring[24..], &[1, 2, 3, 0xaa, 0xaa, 0xaa, 0xaa, 0xaa]);

    let mut ring = vec![0xaau8; 26];
    assert!(matches!(
        CrossDomainState::write_to_ring(
            ByteOrder::Little,
            RingWrite::Write(cmd, Some(&[1, 2, 3])),
            &mut ring,
        ),
        Err(RutabagaError::InvalidIovec)
    ));
    assert_eq!(CrossDomainReadWrite::read_from_prefix(ByteOrder::Little, &ring), Some(cmd));
    assert_eq!(&ring[24..], &[0xaa, 0xaa]);
    let mut ring = vec![0xaau8; 23];
    assert!(matches!(
        CrossDomainState::write_to_ring(ByteOrder::Little, RingWrite::Write(cmd, None), &mut ring),
        Err(RutabagaError::InvalidIovec)
    ));
    assert_eq!(ring, vec![0xaau8; 23]);
}

#[test]
fn pipe_header_tells_what_was_read() {
    let cmd = CrossDomainReadWrite { identifier: 9, ..CrossDomainReadWrite::default() };
    for (read, size, hang_up) in [(Some(3usize), 3u32, 0u32), (Some(0), 0, 1), (None, 0, 1)] {
        let mut ring = vec![0xaau8; 30];
        let write: RingWrite<CrossDomainReadWrite> = RingWrite::WriteFromPipe(cmd, read);
        assert_eq!(
            CrossDomainState::write_to_ring(ByteOrder::Little, write, &mut ring).unwrap(),
            size as usize
        );
        let header = CrossDomainReadWrite::read_from_prefix(ByteOrder::Little, &ring).unwrap();
        assert_eq!(header, CrossDomainReadWrite { hang_up, opaque_data_size: size, ..cmd });
        assert_eq!(&ring[24..], &[0xaa; 6]);
    }
    let mut ring = vec![0u8; 23];
    let write: RingWrite<CrossDomainReadWrite> = RingWrite::WriteFromPipe(cmd, Some(1));
    assert!(matches!(
        CrossDomainState::write_to_ring(ByteOrder::Little, write, &mut ring),
        Err(RutabagaError::InvalidIovec)
    ));
    let mut ring = vec![0u8; 24];
    let write: RingWrite<CrossDomainReadWrite> =
        RingWrite::WriteFromPipe(cmd, Some(0x1_0000_0000));
    assert!(matches!(
        CrossDomainState::write_to_ring(ByteOrder::Little, write, &mut ring),
        Err(RutabagaError::MesaError(MesaError::TryFromIntError(_)))
    ));
    assert!(CrossDomainState::check_read_room(24).is_ok());
    assert!(matches!(
        CrossDomainState::check_read_room(23),
        Err(RutabagaError::InvalidIovec)
    ));
}

#[test]
fn event_value_is_written_behind_the_header() {
    let cmd = CrossDomainReadWrite { identifier: 9, ..CrossDomainReadWrite::default() };
    let mut ring = vec![0xaau8; 34];
    let write: RingWrite<CrossDomainReadWrite> =
        RingWrite::WriteFromEvent(cmd, Some(0x0102_0304_0506_0708));
    assert_eq!(CrossDomainState::write_to_ring(ByteOrder::Little, write, &mut ring).unwrap(), 8);
    let header = CrossDomainReadWrite::read_from_prefix(ByteOrder::Little, &ring).unwrap();
    assert_eq!(header, CrossDomainReadWrite { opaque_data_size: 8, ..cmd });
    assert_eq!(&ring[24..], &[8, 7, 6, 5, 4, 3, 2, 1, 0xaa, 0xaa]);
    // The value has its least significant byte first on every host, the header has not.
    let mut ring = vec![0xaau8; 34];
    let write: RingWrite<CrossDomainReadWrite> =
        RingWrite::WriteFromEvent(cmd, Some(0x0102_0304_0506_0708));
    assert_eq!(CrossDomainState::write_to_ring(ByteOrder::Big, write, &mut ring).unwrap(), 8);
    assert_eq!(&ring[8..12], &[0, 0, 0, 9]);
    assert_eq!(&ring[24..32], &[8, 7, 6, 5, 4, 3, 2, 1]);
    let mut ring = vec![0xaau8; 24];
    let write: RingWrite<CrossDomainReadWrite> = RingWrite::WriteFromEvent(cmd, None);
    assert_eq!(CrossDomainState::write_to_ring(ByteOrder::Little, write, &mut ring).unwrap(), 0);
    assert_eq!(CrossDomainReadWrite::read_from_prefix(ByteOrder::Little, &ring), Some(cmd));
}

// ---- received messages ----

#[test]
fn received_descriptors_become_items() {
    assert_eq!(
        MAGMA_GPU_HANDLE_TYPE_SIGNAL_EVENT_FD,
        magma_gpu::util::MAGMA_GPU_HANDLE_TYPE_SIGNAL_EVENT_FD
    );
    let mut items = CrossDomainItems::default();
    let (read_pipe, write_pipe) = create_pipe().unwrap();
    let event = Event::new().unwrap();
    let files = vec![
        event.as_borrowed_descriptor().try_clone().unwrap(),
        memory(8192),
        write_pipe.as_borrowed_descriptor().try_clone().unwrap(),
        socket(),
    ];
    let cmd = CrossDomainWorker::process_receive(&mut items, 100, files).unwrap();
    assert_eq!(cmd.hdr.cmd, CROSS_DOMAIN_CMD_RECEIVE);
    assert_eq!((cmd.num_identifiers, cmd.opaque_data_size), (4, 100));
    assert_eq!(&cmd.identifiers[..5], &[2, 3, 4, 5, 0]);
    assert_eq!(
        &cmd.identifier_types[..5],
        &[
            CROSS_DOMAIN_ID_TYPE_EVENT,
            CROSS_DOMAIN_ID_TYPE_VIRTGPU_BLOB,
            CROSS_DOMAIN_ID_TYPE_WRITE_PIPE,
            CROSS_DOMAIN_ID_TYPE_SOCKET,
            0
        ]
    );
    assert_eq!(&cmd.identifier_sizes[..5], &[0, 8192, 0, 0, 0]);
    // The items are the descriptors that were received.
    event.add(3).unwrap();
    match items.table.get(&2) {
        Some(CrossDomainItem::Event(item)) => assert_eq!(item.wait().unwrap(), 3),
        _ => panic!("not an event"),
    }
    match items.table.get(&3) {
        Some(CrossDomainItem::Blob(handle)) => assert_eq!(handle.handle_type, 4),
        _ => panic!("not memory"),
    }
    match items.table.get(&4) {
        Some(CrossDomainItem::WaylandWritePipe(pipe)) => {
            pipe.write(&[7]).unwrap();
            let mut buffer = [0u8; 4];
            assert_eq!(read_pipe.read(&mut buffer).unwrap(), 1);
            assert_eq!(buffer[0], 7);
        }
        _ => panic!("not a pipe"),
    }
    assert!(matches!(items.table.get(&5), Some(CrossDomainItem::Socket(_))));
}

#[test]
fn descriptor_that_can_be_no_item_fails_the_message() {
    let mut items = CrossDomainItems::default();
    let (read_pipe, _write_pipe) = create_pipe().unwrap();
    let files = vec![
        event_descriptor(),
        read_pipe.as_borrowed_descriptor().try_clone().unwrap(),
        memory(1),
    ];
    assert!(matches!(
        CrossDomainWorker::process_receive(&mut items, 1, files),
        Err(RutabagaError::MagmaGpuError(MagmaGpuError::IoError(_)))
    ));
    assert_eq!(items.table.len(), 1);
    assert!(items.table.contains_key(&2));
    assert!(matches!(
        CrossDomainWorker::receive_as(memory(1), DescriptorType::Unknown),
        Err(RutabagaError::InvalidCrossDomainItemType)
    ));
}

#[test]
fn descriptors_are_taken_for_what_they_are() {
    let received =
        CrossDomainWorker::receive_as(memory(1), DescriptorType::Memory(4096, 2)).unwrap();
    assert_eq!((received.identifier_type, received.identifier_size), (1, 4096));
    assert!(matches!(received.item, CrossDomainItem::Blob(MagmaGpuHandle { handle_type: 2, .. })));
    let received =
        CrossDomainWorker::receive_as(socket(), DescriptorType::Socket).unwrap();
    assert_eq!((received.identifier_type, received.identifier_size), (7, 0));
}

#[test]
fn no_more_descriptors_are_entered_than_fit() {
    let mut items = CrossDomainItems::default();
    let mut files: Vec<OwnedDescriptor> = Vec::new();
    for _ in 0..30 {
        files.push(event_descriptor());
    }
    let cmd = CrossDomainWorker::process_receive(&mut items, 0, files).unwrap();
    assert_eq!(cmd.num_identifiers, 30);
    assert_eq!(cmd.identifiers[27], 29);
    assert_eq!(items.table.len(), 28);
}

#[test]
fn longest_message_fits_a_ring() {
    let cmd = CrossDomainSendReceive::default();
    let data = vec![1u8; CROSS_DOMAIN_MAX_SEND_RECV_SIZE];
    let mut ring = vec![0u8; 4096];
    assert!(CrossDomainState::write_to_ring(
        ByteOrder::Little,
        RingWrite::Write(cmd, Some(&data)),
        &mut ring,
    )
    .is_ok());
    assert_eq!(ring[351], 0);
    assert_eq!(ring[352], 1);
    assert_eq!(ring[4095], 1);
    let longer = vec![1u8; CROSS_DOMAIN_MAX_SEND_RECV_SIZE + 1];
    assert!(matches!(
        CrossDomainState::write_to_ring(
            ByteOrder::Little,
            RingWrite::Write(cmd, Some(&longer)),
            &mut ring,
        ),
        Err(RutabagaError::InvalidIovec)
    ));
}

#[test]
fn message_too_long_to_count_is_refused() {
    let mut items = CrossDomainItems::default();
    assert!(matches!(
        CrossDomainWorker::process_receive(&mut items, 0x1_0000_0000, vec![event_descriptor()]),
        Err(RutabagaError::MagmaGpuError(MagmaGpuError::TryFromIntError(_)))
    ));
    assert!(items.table.is_empty());
}
