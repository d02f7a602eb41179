//! What the operations promise: statements about whatever a call of one may return and leave
//! behind.

use std::sync::Arc;

use magma_gpu::util::Event;
use magma_gpu::util::OwnedDescriptor;
use magma_gpu::util::ReadPipe;
use magma_gpu::util::Tube;
use magma_gpu::util::WritePipe;

use vstd::prelude::*;

use crate::atomic_memory_sentinel_manager::AtomicMemorySentinelManager;
use crate::atomic_memory_sentinel_manager::AtomicMemorySentinelThread;
use crate::atomic_memory_sentinel_manager::SentinelAction;
use crate::atomic_memory_sentinel_manager::SentinelInstance;
use crate::atomic_memory_sentinel_manager::WatchedMemory;
use crate::command::CrossDomainCommand;
use crate::common;
use crate::common::add_item;
use crate::common::ContextResources;
use crate::common::CrossDomainItem;
use crate::common::CrossDomainItems;
use crate::common::CrossDomainJob;
use crate::common::CrossDomainState;
use crate::common::ItemsModel;
use crate::common::NextJob;
use crate::common::RingWrite;
use crate::component;
use crate::component::CrossDomain;
use crate::context;
use crate::context::BlobAction;
use crate::context::ContextModel;
use crate::context::CrossDomainContext;
use crate::context::FenceAction;
use crate::context::InitAction;
use crate::context::InternalSockets;
use crate::context::PendingModel;
use crate::context::PendingSend;
use crate::context::SendAction;
use crate::context::Supply;
use crate::context::WriteAction;
use crate::cross_domain_protocol::CROSS_DOMAIN_CMD_READ;
use crate::cross_domain_protocol::CROSS_DOMAIN_CMD_SIGNAL_ATOMIC_MEMORY_SENTINEL;
use crate::cross_domain_protocol::CROSS_DOMAIN_ID_TYPE_EVENT;
use crate::cross_domain_protocol::CROSS_DOMAIN_ID_TYPE_READ_PIPE;
use crate::cross_domain_protocol::CROSS_DOMAIN_ID_TYPE_SOCKET;
use crate::cross_domain_protocol::CROSS_DOMAIN_ID_TYPE_VIRTGPU_BLOB;
use crate::cross_domain_protocol::CROSS_DOMAIN_ID_TYPE_VIRTIO_FS_BLOB;
use crate::cross_domain_protocol::CROSS_DOMAIN_ID_TYPE_WRITE_PIPE;
use crate::cross_domain_protocol::CrossDomainAssignSocketUuid;
use crate::cross_domain_protocol::CrossDomainCreateAtomicMemorySentinel;
use crate::cross_domain_protocol::CrossDomainCreateEvent;
use crate::cross_domain_protocol::CrossDomainDestroyAtomicMemorySentinel;
use crate::cross_domain_protocol::CrossDomainGetImageRequirements;
use crate::cross_domain_protocol::CrossDomainImageRequirements;
use crate::cross_domain_protocol::CrossDomainImportVirtioFsHandle;
use crate::cross_domain_protocol::CrossDomainInit;
use crate::cross_domain_protocol::CrossDomainReadWrite;
use crate::cross_domain_protocol::CrossDomainSendReceive;
use crate::cross_domain_protocol::CrossDomainSignalAtomicMemorySentinel;
use crate::dispatch;
use crate::dispatch::CommandAction;
use crate::handle::AhbInfo;
use crate::handle::MagmaGpuHandle;
use crate::handle::RutabagaHandle;
use crate::laws;
use crate::layouts;
use crate::platform;
use crate::platform::DescriptorType;
use crate::platform::WaitEvent;
use crate::rutabaga_utils::ImageAllocationInfo;
use crate::rutabaga_utils::ImageMemoryRequirements;
use crate::rutabaga_utils::MagmaGpuError;
use crate::rutabaga_utils::MesaError;
use crate::rutabaga_utils::Resource3DInfo;
use crate::rutabaga_utils::ResourceCreateBlob;
use crate::rutabaga_utils::RUTABAGA_MAP_ACCESS_RW;
use crate::rutabaga_utils::RUTABAGA_MAP_CACHE_CACHED;
use crate::rutabaga_utils::RutabagaComponentType;
use crate::rutabaga_utils::RutabagaError;
use crate::rutabaga_utils::RutabagaFence;
use crate::rutabaga_utils::RutabagaIovec;
use crate::rutabaga_utils::RutabagaPath;
use crate::rutabaga_utils::RutabagaResource;
use crate::wire;
use crate::wire::ByteOrder;
use crate::wire::Wire;
use crate::worker::CrossDomainWorker;
use crate::worker::FenceRoute;
use crate::worker::ItemRead;
use crate::worker::ReceivedItem;
use crate::worker::SentinelTurn;
use crate::worker::WorkerAction;

verus! {

/// A watcher is there and was not shut down.
pub open spec fn is_running<W>(ctx: ContextModel<W>, id: u32) -> bool {
    ctx.sentinels.watchers.contains_key(id) && !ctx.sentinels.watchers[id].shutdown
}

/// The queue of the state `n` has one job more than before, at its end, and no other state differs.
pub open spec fn has_one_more_job<W>(
    before: ContextModel<W>,
    after: ContextModel<W>,
    n: int,
    job: CrossDomainJob,
) -> bool {
    &&& after.states.len() == before.states.len()
    &&& after.states[n].query_ring_id == before.states[n].query_ring_id
    &&& after.states[n].channel_ring_id == before.states[n].channel_ring_id
    &&& after.states[n].connection == before.states[n].connection
    &&& match (before.states[n].jobs, after.states[n].jobs) {
        (Some(old_queue), Some(queue)) => {
            &&& queue.len() == old_queue.len() + 1
            &&& queue.last() == job
            &&& forall|k: int| 0 <= k < old_queue.len() ==> #[trigger] queue[k] == old_queue[k]
        },
        (None, None) => true,
        _ => false,
    }
    &&& forall|k: int|
        0 <= k < before.states.len() && k != n ==> #[trigger] after.states[k] == before.states[k]
}

/// Nothing but the states differs.
pub open spec fn differs_in_states<W>(before: ContextModel<W>, after: ContextModel<W>) -> bool {
    &&& after.paths == before.paths
    &&& after.resources == before.resources
    &&& after.items == before.items
    &&& after.sentinels == before.sentinels
    &&& after.virtiofs_lookup == before.virtiofs_lookup
    &&& after.resample_evt == before.resample_evt
    &&& after.kill_evt == before.kill_evt
}

/// Nothing but the items differs.
pub open spec fn differs_in_items<W>(before: ContextModel<W>, after: ContextModel<W>) -> bool {
    &&& after.paths == before.paths
    &&& after.states == before.states
    &&& after.resources == before.resources
    &&& after.sentinels == before.sentinels
    &&& after.virtiofs_lookup == before.virtiofs_lookup
    &&& after.resample_evt == before.resample_evt
    &&& after.kill_evt == before.kill_evt
}

// ---- fences ----

/// The fence in hand is signalled under every route under which something was written for the
/// guest, whatever it was: a message, any item, a running watcher. It is signalled to end the
/// worker, too. The context stays as it is then. It is queued again for a resample and for a
/// watcher that is not running, and only then: behind all jobs of the same worker, and the watcher,
/// but no other, is gone. Without an event nothing happens to it. Afterwards no fence is in hand.
pub proof fn law_route_decides_the_fence<W>(
    worker: &mut CrossDomainWorker,
    ctx: &mut CrossDomainContext<W>,
    route: FenceRoute,
    r: Option<RutabagaFence>,
    fence: RutabagaFence,
)
    requires
        call_ensures(CrossDomainWorker::settle_fence::<W>, (worker, ctx, route), r),
        route !is Idle ==> old(worker).fence == Some(fence),
        old(worker).state < old(ctx)@.states.len(),
    ensures
        final(worker).fence is None,
        final(worker).state == old(worker).state,
        final(worker).receive_buf == old(worker).receive_buf,
        ({
            let (before, after) = (old(ctx)@, final(ctx)@);
            let n = old(worker).state as int;
            let job = CrossDomainJob::HandleFence(fence);
            match route {
                FenceRoute::Receive | FenceRoute::Kill | FenceRoute::Item(_) => {
                    &&& r == Some(fence)
                    &&& after == before
                },
                FenceRoute::Idle => r is None && after == before,
                FenceRoute::Resample => {
                    &&& r is None
                    &&& has_one_more_job(before, after, n, job)
                    &&& differs_in_states(before, after)
                },
                FenceRoute::Sentinel(id) => if is_running(before, id) {
                    &&& r == Some(fence)
                    &&& after == before
                } else {
                    &&& r is None
                    &&& has_one_more_job(before, after, n, job)
                    &&& forall|k: u32| #[trigger]
                        after.sentinels.watchers.contains_key(k)
                            <==> before.sentinels.watchers.contains_key(k) && k != id
                    &&& forall|k: u32| #[trigger]
                        after.sentinels.watchers.contains_key(k) ==> after.sentinels.watchers[k]
                            == before.sentinels.watchers[k]
                    &&& after.sentinels.virtiofs_lookup == before.sentinels.virtiofs_lookup
                    &&& differs_in_states(
                        ContextModel { sentinels: after.sentinels, ..before },
                        after,
                    )
                },
            }
        }),
{
}

/// The three ways out for a fence that is taken in hand on their own: it is handed out as it is, or
/// queued again behind all jobs of the same worker, with or without a watcher that is removed.
pub proof fn law_fence_leaves_the_hand_once<W>(
    worker: &mut CrossDomainWorker,
    signalled: RutabagaFence,
    requeuing: &mut CrossDomainWorker,
    ctx: &mut CrossDomainContext<W>,
    unit: (),
)
    requires
        call_ensures(CrossDomainWorker::signal_fence, (worker,), signalled),
        call_ensures(CrossDomainWorker::requeue_fence::<W>, (requeuing, ctx), unit),
        old(requeuing).state < old(ctx)@.states.len(),
        old(requeuing).fence is Some,
    ensures
        old(worker).fence == Some(signalled),
        final(worker).fence is None,
        final(worker).state == old(worker).state,
        final(worker).receive_buf == old(worker).receive_buf,
        final(requeuing).fence is None,
        final(requeuing).state == old(requeuing).state,
        final(requeuing).receive_buf == old(requeuing).receive_buf,
        has_one_more_job(
            old(ctx)@,
            final(ctx)@,
            old(requeuing).state as int,
            CrossDomainJob::HandleFence(old(requeuing).fence->Some_0),
        ),
        differs_in_states(old(ctx)@, final(ctx)@),
{
}

/// Only the first of the events that were waited for counts, and of that only its connection. Each
/// connection has one route: the channel, the two events of the worker, a watcher or an item; the
/// route to a watcher or an item names the connection itself. A connection that is no 32-bit number
/// is refused. Without an event there is nothing to do, and the fence is given up; otherwise it
/// stays in hand.
pub proof fn law_first_event_decides_the_route(
    worker: &mut CrossDomainWorker,
    events: &[WaitEvent],
    r: Result<FenceRoute, RutabagaError>,
)
    requires
        call_ensures(CrossDomainWorker::handle_fence, (worker, events), r),
        old(worker).fence is Some,
    ensures
        r == Ok::<FenceRoute, RutabagaError>(FenceRoute::Idle) <==> events@.len() == 0,
        final(worker).fence is None <==> events@.len() == 0,
        final(worker).fence is Some ==> final(worker).fence == old(worker).fence,
        final(worker).state == old(worker).state,
        final(worker).receive_buf == old(worker).receive_buf,
        events@.len() > 0 ==> {
            let id = events@[0].connection_id;
            &&& r == Ok::<FenceRoute, RutabagaError>(FenceRoute::Receive) <==> id == 1
            &&& r == Ok::<FenceRoute, RutabagaError>(FenceRoute::Resample) <==> id == 2
            &&& r == Ok::<FenceRoute, RutabagaError>(FenceRoute::Kill) <==> id == 3
            &&& (r matches Ok(FenceRoute::Sentinel(_))) <==> 0x4000_0000 <= id < 0x8000_0000
            &&& r matches Ok(FenceRoute::Sentinel(k)) ==> k == id
            &&& r matches Ok(FenceRoute::Item(k)) ==> k == id
            &&& r is Err <==> id > 0xffff_ffff
            &&& r matches Err(e) ==> e matches RutabagaError::MagmaGpuError(
                MagmaGpuError::TryFromIntError(_),
            )
        },
{
}

// ---- jobs ----

/// A job is what its worker does next: a fence is taken in hand; a pipe, an event or a watcher that
/// was added is polled, itself, under its own identifier; the last job ends the worker. A job fails
/// only where its item is not there, or is no such item. What is in hand besides stays.
pub proof fn law_job_is_carried_out<'a>(
    worker: &mut CrossDomainWorker,
    items: &'a CrossDomainItems,
    job: CrossDomainJob,
    r: Result<WorkerAction<'a>, RutabagaError>,
)
    requires
        call_ensures(CrossDomainWorker::run, (worker, items, job), r),
        old(worker).fence is None,
    ensures
        final(worker).state == old(worker).state,
        final(worker).receive_buf == old(worker).receive_buf,
        (job matches CrossDomainJob::HandleFence(_)) <==> final(worker).fence is Some,
        match job {
            CrossDomainJob::HandleFence(fence) => {
                &&& r matches Ok(WorkerAction::HandleFence)
                &&& final(worker).fence == Some(fence)
            },
            CrossDomainJob::AddReadPipe(id) => match r {
                Ok(WorkerAction::WatchPipe(connection, pipe)) => {
                    &&& connection == id
                    &&& items@.table.contains_key(id)
                    &&& items@.table[id] == CrossDomainItem::WaylandReadPipe(*pipe)
                },
                Err(e) => if items@.table.contains_key(id) {
                    &&& !(items@.table[id] is WaylandReadPipe)
                    &&& e == RutabagaError::InvalidCrossDomainItemType
                } else {
                    e == RutabagaError::InvalidCrossDomainItemId
                },
                _ => false,
            },
            CrossDomainJob::AddReadEvent(id) => match r {
                Ok(WorkerAction::WatchEvent(connection, event)) => {
                    &&& connection == id
                    &&& items@.table.contains_key(id)
                    &&& items@.table[id] == CrossDomainItem::Event(*event)
                },
                Err(e) => if items@.table.contains_key(id) {
                    &&& !(items@.table[id] is Event)
                    &&& e == RutabagaError::InvalidCrossDomainItemType
                } else {
                    e == RutabagaError::InvalidCrossDomainItemId
                },
                _ => false,
            },
            CrossDomainJob::AddAtomicMemorySentinel(id, evt) => match r {
                Ok(WorkerAction::WatchSentinel(connection, polled)) => connection == id && polled
                    == evt,
                _ => false,
            },
            CrossDomainJob::Finish => r matches Ok(WorkerAction::Stop),
        },
{
}

/// Taking a job takes the oldest one of the worker's own queue and nothing else: put before what is
/// left, it makes the queue that there was. There is one to take wherever the queue is not empty.
pub proof fn law_oldest_job_is_taken<W>(
    worker: &CrossDomainWorker,
    ctx: &mut CrossDomainContext<W>,
    r: NextJob,
)
    requires
        call_ensures(CrossDomainWorker::wait_for_job::<W>, (worker, ctx), r),
        worker.state < old(ctx)@.states.len(),
    ensures
        ({
            let (before, after) = (old(ctx)@, final(ctx)@);
            let n = worker.state as int;
            &&& differs_in_states(before, after)
            &&& after.states.len() == before.states.len()
            &&& forall|k: int|
                0 <= k < before.states.len() && k != n ==> #[trigger] after.states[k]
                    == before.states[k]
            &&& after.states[n].query_ring_id == before.states[n].query_ring_id
            &&& after.states[n].channel_ring_id == before.states[n].channel_ring_id
            &&& after.states[n].connection == before.states[n].connection
            &&& r is Closed <==> before.states[n].jobs is None
            &&& match r {
                NextJob::Job(job) => before.states[n].jobs == Some(
                    seq![job] + after.states[n].jobs->Some_0,
                ) && after.states[n].jobs is Some,
                NextJob::Wait => before.states[n].jobs == Some(Seq::<CrossDomainJob>::empty())
                    && after == before,
                NextJob::Closed => after == before,
            }
        }),
{
    let n = worker.state as int;
    let (before, after) = (old(ctx)@, final(ctx)@);
    if let NextJob::Job(job) = r {
        assert(before.states[n].jobs->Some_0 =~= seq![job] + after.states[n].jobs->Some_0);
    } else if r is Wait {
        assert(before.states[n].jobs->Some_0 =~= Seq::<CrossDomainJob>::empty());
    }
}

// ---- the worker and its state ----

/// A worker that was started for a new channel receives from that channel, writes to the ring that
/// the init command names, and finds the jobs that are queued from then on, in an empty queue.
pub proof fn law_worker_serves_the_channel_it_was_started_for<W>(
    ctx: &mut CrossDomainContext<W>,
    cmd_init: &CrossDomainInit,
    connection: Arc<Tube>,
    resample_evt: Event,
    kill_evt: Event,
    n: usize,
    worker: CrossDomainWorker,
    later: &CrossDomainContext<W>,
    channel: Result<Arc<Tube>, RutabagaError>,
    ring_id: u32,
)
    requires
        call_ensures(
            CrossDomainContext::<W>::connected,
            (ctx, cmd_init, connection, resample_evt, kill_evt),
            n,
        ),
        call_ensures(CrossDomainWorker::new, (n,), worker),
        later@.states.len() >= final(ctx)@.states.len(),
        later@.states[n as int] == final(ctx)@.states[n as int],
        call_ensures(CrossDomainWorker::receive_msg::<W>, (&worker, later), channel),
        call_ensures(CrossDomainWorker::channel_ring_id::<W>, (&worker, later), ring_id),
    ensures
        worker.state == n,
        worker.fence is None,
        worker.receive_buf@.len() == 4096 - 352,
        channel == Ok::<Arc<Tube>, RutabagaError>(connection),
        ring_id == cmd_init.channel_ring_id,
        n == old(ctx)@.states.len(),
        ({
            let (before, after) = (old(ctx)@, final(ctx)@);
            &&& after.states.len() == n + 1
            &&& after.states.drop_last() == before.states
            &&& after.states.last().query_ring_id == cmd_init.query_ring_id
            &&& after.states.last().jobs == Some(Seq::<CrossDomainJob>::empty())
            &&& after.resample_evt == Some(resample_evt)
            &&& after.kill_evt == Some(kill_evt)
            &&& after.paths == before.paths
            &&& after.resources == before.resources
            &&& after.items == before.items
            &&& after.sentinels == before.sentinels
            &&& after.virtiofs_lookup == before.virtiofs_lookup
        }),
{
    assert(final(ctx)@.states.drop_last() =~= old(ctx)@.states);
}

/// A watcher that woke up is reported to the guest under its own identifier exactly while it runs.
pub proof fn law_running_watcher_is_reported<W>(
    ctx: &CrossDomainContext<W>,
    id: u32,
    turn: SentinelTurn,
)
    requires
        call_ensures(CrossDomainWorker::handle_sentinel_event::<W>, (ctx, id), turn),
    ensures
        is_running(ctx@, id) <==> turn is Report,
        turn matches SentinelTurn::Report(cmd) ==> {
            &&& cmd.id == id
            &&& cmd.pad == 0
            &&& cmd.hdr.cmd == CROSS_DOMAIN_CMD_SIGNAL_ATOMIC_MEMORY_SENTINEL
            &&& cmd.hdr.ring_idx == 0
            &&& cmd.hdr.cmd_size == 0
            &&& cmd.hdr.pad == 0
        },
{
}

/// A watcher that is forgotten is handed out and gone, no other is; the fence in hand is queued
/// again.
pub proof fn law_forgotten_watcher_is_gone<W>(
    worker: &mut CrossDomainWorker,
    ctx: &mut CrossDomainContext<W>,
    id: u32,
    r: Option<SentinelInstance<W>>,
)
    requires
        call_ensures(CrossDomainWorker::sentinel_forgotten::<W>, (worker, ctx, id), r),
        old(worker).fence is Some,
        old(worker).state < old(ctx)@.states.len(),
    ensures
        final(worker).fence is None,
        ({
            let (before, after) = (old(ctx)@, final(ctx)@);
            &&& r is Some <==> before.sentinels.watchers.contains_key(id)
            &&& r matches Some(watcher) ==> watcher == before.sentinels.watchers[id]
            &&& forall|k: u32| #[trigger]
                after.sentinels.watchers.contains_key(k)
                    <==> before.sentinels.watchers.contains_key(k) && k != id
            &&& forall|k: u32| #[trigger]
                after.sentinels.watchers.contains_key(k) ==> after.sentinels.watchers[k]
                    == before.sentinels.watchers[k]
            &&& after.sentinels.virtiofs_lookup == before.sentinels.virtiofs_lookup
            &&& has_one_more_job(
                before,
                after,
                old(worker).state as int,
                CrossDomainJob::HandleFence(old(worker).fence->Some_0),
            )
            &&& differs_in_states(ContextModel { sentinels: after.sentinels, ..before }, after)
        }),
{
}

/// What can be read is the item with the identifier, if it is a pipe or an event, and the command
/// that goes before the data names it. Everything else is refused.
pub proof fn law_item_is_read_under_its_identifier<'a>(
    items: &'a CrossDomainItems,
    id: u32,
    r: Result<ItemRead<'a>, RutabagaError>,
)
    requires
        call_ensures(CrossDomainWorker::handle_item_event, (items, id), r),
    ensures
        match r {
            Ok(ItemRead::Pipe(pipe, cmd)) => {
                &&& items@.table.contains_key(id)
                &&& items@.table[id] == CrossDomainItem::WaylandReadPipe(*pipe)
                &&& is_plain_read(cmd, id)
            },
            Ok(ItemRead::Event(event, cmd)) => {
                &&& items@.table.contains_key(id)
                &&& items@.table[id] == CrossDomainItem::Event(*event)
                &&& is_plain_read(cmd, id)
            },
            Err(e) => if items@.table.contains_key(id) {
                &&& !(items@.table[id] is WaylandReadPipe)
                &&& !(items@.table[id] is Event)
                &&& e == RutabagaError::InvalidCrossDomainItemType
            } else {
                e == RutabagaError::InvalidCrossDomainItemId
            },
        },
{
}

/// A read command that names an item and says nothing else yet.
pub open spec fn is_plain_read(cmd: CrossDomainReadWrite, id: u32) -> bool {
    &&& cmd.identifier == id
    &&& cmd.hang_up == 0
    &&& cmd.opaque_data_size == 0
    &&& cmd.pad == 0
    &&& cmd.hdr.cmd == CROSS_DOMAIN_CMD_READ
    &&& cmd.hdr.ring_idx == 0
    &&& cmd.hdr.cmd_size == 0
    &&& cmd.hdr.pad == 0
}

/// An item is removed when it was hung up and nothing more could be read from it, and only then;
/// no other item is touched.
pub proof fn law_item_is_removed_at_its_end(
    items: &mut CrossDomainItems,
    id: u32,
    event: &WaitEvent,
    bytes_read: usize,
    unit: (),
    done: bool,
)
    requires
        call_ensures(CrossDomainWorker::item_event_done, (items, id, event, bytes_read), unit),
        call_ensures(CrossDomainWorker::is_item_done, (event, bytes_read), done),
    ensures
        done <==> event.hung_up && bytes_read == 0,
        forall|k: u32| #[trigger]
            final(items)@.table.contains_key(k) <==> old(items)@.table.contains_key(k) && !(done
                && k == id),
        forall|k: u32| #[trigger]
            final(items)@.table.contains_key(k) ==> final(items)@.table[k]
                == old(items)@.table[k],
        final(items)@.descriptor_id == old(items)@.descriptor_id,
        final(items)@.read_pipe_id == old(items)@.read_pipe_id,
{
}

// ---- received descriptors ----

/// What the guest is told of a received descriptor, and what becomes of it, where the system says
/// that it stands for `desc_type`: an event, a write pipe and a socket are told as such and have no
/// size; memory is told with the very size that the system gave. The item is for the descriptor
/// itself.
pub open spec fn is_told(
    item: CrossDomainItem,
    identifier_type: u32,
    identifier_size: u32,
    file: OwnedDescriptor,
    desc_type: DescriptorType,
) -> bool {
    &&& desc_type is Event ==> {
        &&& item matches CrossDomainItem::Event(event)
        &&& platform::event_object(event) == platform::descriptor_object(file)
        &&& identifier_type == CROSS_DOMAIN_ID_TYPE_EVENT
    }
    &&& desc_type is WritePipe ==> {
        &&& item matches CrossDomainItem::WaylandWritePipe(pipe)
        &&& platform::write_pipe_object(pipe) == platform::descriptor_object(file)
        &&& identifier_type == CROSS_DOMAIN_ID_TYPE_WRITE_PIPE
    }
    &&& desc_type is Socket ==> {
        &&& item == CrossDomainItem::Socket(file)
        &&& identifier_type == CROSS_DOMAIN_ID_TYPE_SOCKET
    }
    &&& !(desc_type is Memory) ==> identifier_size == 0
    &&& desc_type matches DescriptorType::Memory(size, handle_type) ==> {
        &&& item matches CrossDomainItem::Blob(handle)
        &&& handle.os_handle == file
        &&& handle.handle_type == handle_type
        &&& identifier_type == CROSS_DOMAIN_ID_TYPE_VIRTGPU_BLOB
        &&& identifier_size == size
    }
    &&& !(desc_type is Unknown)
}

/// A descriptor becomes an item of the kind that it stands for, wherever there is one.
pub proof fn law_descriptor_is_told_as_its_type(
    file: OwnedDescriptor,
    desc_type: DescriptorType,
    r: Result<ReceivedItem, RutabagaError>,
)
    requires
        call_ensures(CrossDomainWorker::receive_as, (file, desc_type), r),
    ensures
        match r {
            Ok(received) => is_told(
                received.item,
                received.identifier_type,
                received.identifier_size,
                file,
                desc_type,
            ),
            Err(e) => desc_type is Unknown && e == RutabagaError::InvalidCrossDomainItemType,
        },
{
}

// ---- init ----

/// The path at `i` is the first that serves a channel type.
pub open spec fn is_first_path(paths: Seq<RutabagaPath>, channel_type: u32, i: int) -> bool {
    &&& 0 <= i < paths.len()
    &&& paths[i].path_type == channel_type
    &&& forall|j: int| 0 <= j < i ==> (#[trigger] paths[j]).path_type != channel_type
}

proof fn lemma_first_path(paths: Seq<RutabagaPath>, channel_type: u32)
    ensures
        match context::first_path(paths, channel_type) {
            Some(path) => exists|i: int| #[trigger]
                is_first_path(paths, channel_type, i) && paths[i].path == path,
            None => forall|i: int|
                0 <= i < paths.len() ==> (#[trigger] paths[i]).path_type != channel_type,
        },
    decreases paths.len(),
{
    if paths.len() > 0 {
        let rest = paths.skip(1);
        assert(forall|j: int| 0 < j < paths.len() ==> #[trigger] paths[j] == rest[j - 1]);
        lemma_first_path(rest, channel_type);
        if paths[0].path_type == channel_type {
            assert(is_first_path(paths, channel_type, 0));
        } else if let Some(path) = context::first_path(rest, channel_type) {
            let i = choose|i: int| #[trigger]
                is_first_path(rest, channel_type, i) && rest[i].path == path;
            assert(paths[i + 1] == rest[i]);
            assert(is_first_path(paths, channel_type, i + 1));
        }
    }
}

/// An init command gets what it asks for, and changes no more than it has to.
pub open spec fn gets_its_channel<W>(
    before: ContextModel<W>,
    after: ContextModel<W>,
    sockets: Map<u128, Tube>,
    sockets_after: Map<u128, Tube>,
    cmd_init: CrossDomainInit,
    r: Result<InitAction, RutabagaError>,
) -> bool {
    let uuid = wire::le_u128(cmd_init.internal_socket_uuid@, 0);
    let has_rings = before.resources.contains_key(cmd_init.query_ring_id) && (
    cmd_init.channel_type == 0 || before.resources.contains_key(cmd_init.channel_ring_id));
    let wants_path = has_rings && cmd_init.channel_type != 0 && cmd_init.channel_type
        != 0xffff_ffff;
    &&& r == Err::<InitAction, RutabagaError>(RutabagaError::InvalidResourceId)
        <==> !has_rings
    &&& r == Ok::<InitAction, RutabagaError>(InitAction::Ready) <==> has_rings
        && cmd_init.channel_type == 0
    &&& has_rings && cmd_init.channel_type == 0xffff_ffff ==> if sockets.contains_key(uuid) {
        r == Ok::<InitAction, RutabagaError>(InitAction::Attach(sockets[uuid]))
    } else {
        r == Err::<InitAction, RutabagaError>(
            RutabagaError::InvalidCrossDomainInternalSocketUuid,
        )
    }
    &&& wants_path ==> match r {
        Ok(InitAction::Connect(path)) => {
            &&& before.paths matches Some(paths)
            &&& exists|i: int| #[trigger]
                is_first_path(paths, cmd_init.channel_type, i) && paths[i].path == path
        },
        Err(e) => {
            &&& e == RutabagaError::InvalidCrossDomainChannel
            &&& before.paths matches Some(paths) ==> forall|i: int|
                0 <= i < paths.len() ==> (#[trigger] paths[i]).path_type
                    != cmd_init.channel_type
        },
        _ => false,
    }
    &&& after.paths == (if wants_path {
        None
    } else {
        before.paths
    })
    &&& r matches Ok(InitAction::Ready) ==> {
        &&& after.states.len() == before.states.len() + 1
        &&& after.states.drop_last() == before.states
        &&& after.states.last().query_ring_id == cmd_init.query_ring_id
        &&& after.states.last().channel_ring_id == cmd_init.channel_ring_id
        &&& after.states.last().connection is None
        &&& after.states.last().jobs == Some(Seq::<CrossDomainJob>::empty())
    }
    &&& !(r matches Ok(InitAction::Ready)) ==> after.states == before.states
    &&& after.resources == before.resources
    &&& after.items == before.items
    &&& after.sentinels == before.sentinels
    &&& after.virtiofs_lookup == before.virtiofs_lookup
    &&& after.resample_evt == before.resample_evt
    &&& after.kill_evt == before.kill_evt
    &&& forall|k: u128| #[trigger]
        sockets_after.contains_key(k) <==> sockets.contains_key(k) && !(k == uuid
            && (r matches Ok(InitAction::Attach(_))))
    &&& forall|k: u128| #[trigger]
        sockets_after.contains_key(k) ==> sockets_after[k] == sockets[k]
}

proof fn lemma_gets_its_channel<W>(
    before: ContextModel<W>,
    sockets: Map<u128, Tube>,
    cmd_init: CrossDomainInit,
)
    ensures
        ({
            let (after, sockets_after, r) = context::initialized(before, sockets, cmd_init);
            gets_its_channel(before, after, sockets, sockets_after, cmd_init, r)
        }),
{
    let (after, sockets_after, r) = context::initialized(before, sockets, cmd_init);
    if let Some(paths) = before.paths {
        lemma_first_path(paths, cmd_init.channel_type);
    }
    if r matches Ok(InitAction::Ready) {
        assert(after.states.drop_last() =~= before.states);
    }
}

/// What an init command asks for decides what it gets. Its rings have to be attached. Without a
/// channel it is done: there is a state with its rings, no channel and no job. The internal socket
/// under its identifier is taken. For any other channel type the first path that serves it is to be
/// connected to, and the paths are used up, whether one of them does or not. Nothing else changes.
pub proof fn law_init_gets_the_channel_it_asks_for<W>(
    ctx: &mut CrossDomainContext<W>,
    cmd_init: &CrossDomainInit,
    sockets: &mut InternalSockets,
    r: Result<InitAction, RutabagaError>,
)
    requires
        call_ensures(CrossDomainContext::<W>::initialize, (ctx, cmd_init, sockets), r),
    ensures
        gets_its_channel(
            old(ctx)@,
            final(ctx)@,
            old(sockets)@,
            final(sockets)@,
            *cmd_init,
            r,
        ),
{
    lemma_gets_its_channel(old(ctx)@, old(sockets)@, *cmd_init);
}

/// The first path that serves a channel type is found wherever there is one, once.
pub proof fn law_connection_is_the_first_path<W>(
    ctx: &mut CrossDomainContext<W>,
    cmd_init: &CrossDomainInit,
    r: Result<Vec<u8>, RutabagaError>,
)
    requires
        call_ensures(CrossDomainContext::<W>::get_connection, (ctx, cmd_init), r),
    ensures
        final(ctx)@.paths is None,
        final(ctx)@ == (ContextModel { paths: None, ..old(ctx)@ }),
        match r {
            Ok(path) => {
                &&& old(ctx)@.paths matches Some(paths)
                &&& exists|i: int| #[trigger]
                    is_first_path(paths, cmd_init.channel_type, i) && paths[i].path == path
            },
            Err(e) => {
                &&& e == RutabagaError::InvalidCrossDomainChannel
                &&& old(ctx)@.paths matches Some(paths) ==> forall|i: int|
                    0 <= i < paths.len() ==> (#[trigger] paths[i]).path_type
                        != cmd_init.channel_type
            },
        },
{
    if let Some(paths) = old(ctx)@.paths {
        lemma_first_path(paths, cmd_init.channel_type);
    }
}

/// A socket is put up under the number that its identifier spells, and taken from under it once;
/// the other sockets stay.
pub proof fn law_socket_is_found_where_it_was_put_up<W>(
    sockets: &mut InternalSockets,
    cmd_exp_socket: &CrossDomainAssignSocketUuid,
    socket: Tube,
    unit: (),
    later: &mut InternalSockets,
    uuid: u128,
    r: Result<Tube, RutabagaError>,
)
    requires
        call_ensures(InternalSockets::assign, (sockets, cmd_exp_socket, socket), unit),
        old(later)@ == final(sockets)@,
        call_ensures(
            CrossDomainContext::<W>::get_internal_socket_connection,
            (later, uuid),
            r,
        ),
    ensures
        ({
            let put = wire::le_u128(cmd_exp_socket.socket_uuid@, 0);
            &&& uuid == put ==> r == Ok::<Tube, RutabagaError>(socket)
            &&& uuid != put ==> r == (if old(sockets)@.contains_key(uuid) {
                Ok(old(sockets)@[uuid])
            } else {
                Err(RutabagaError::InvalidCrossDomainInternalSocketUuid)
            })
            &&& forall|k: u128| #[trigger]
                final(later)@.contains_key(k) <==> k != uuid && (k == put || old(
                    sockets
                )@.contains_key(k))
            &&& forall|k: u128| #[trigger]
                final(later)@.contains_key(k) ==> final(later)@[k] == (if k == put {
                    socket
                } else {
                    old(sockets)@[k]
                })
        }),
{
}

// ---- queues ----

/// A job of the guest goes to the queue of the last state, behind all others, and to no other. The
/// worker is to be woken exactly where there is such a queue.
pub proof fn law_job_is_queued_for_the_last_state<W>(
    ctx: &mut CrossDomainContext<W>,
    job: CrossDomainJob,
    notify: bool,
)
    requires
        call_ensures(CrossDomainContext::<W>::queue_job, (ctx, job), notify),
    ensures
        differs_in_states(old(ctx)@, final(ctx)@),
        old(ctx)@.states.len() == 0 ==> !notify && final(ctx)@ == old(ctx)@,
        old(ctx)@.states.len() > 0 ==> {
            &&& notify <==> old(ctx)@.states.last().jobs is Some
            &&& has_one_more_job(old(ctx)@, final(ctx)@, old(ctx)@.states.len() - 1, job)
        },
{
}

/// A job that is queued for a state goes to the queue of that state, behind all others, and to no
/// other.
pub proof fn law_job_is_queued_for_its_state<W>(
    ctx: &mut CrossDomainContext<W>,
    n: usize,
    job: CrossDomainJob,
    notify: bool,
)
    requires
        call_ensures(CrossDomainContext::<W>::queue_job_at, (ctx, n, job), notify),
        n < old(ctx)@.states.len(),
    ensures
        differs_in_states(old(ctx)@, final(ctx)@),
        notify <==> old(ctx)@.states[n as int].jobs is Some,
        has_one_more_job(old(ctx)@, final(ctx)@, n as int, job),
{
}

/// The state that the commands of the guest use is the last one.
pub proof fn law_last_state_is_used<W>(
    ctx: &CrossDomainContext<W>,
    r: Option<&CrossDomainState>,
)
    requires
        call_ensures(CrossDomainContext::<W>::state, (ctx,), r),
    ensures
        r is Some <==> ctx@.states.len() > 0,
        r matches Some(state) ==> state@ == ctx@.states.last(),
{
}

/// A new state has its rings, its channel and an empty queue; both directions of the channel are
/// that channel, and without one there is none.
pub proof fn law_state_has_its_channel(
    query_ring_id: u32,
    channel_ring_id: u32,
    connection: Option<Arc<Tube>>,
    state: CrossDomainState,
    sent_on: Result<Arc<Tube>, RutabagaError>,
    received_from: Result<Arc<Tube>, RutabagaError>,
)
    requires
        call_ensures(
            CrossDomainState::new,
            (query_ring_id, channel_ring_id, connection),
            state,
        ),
        call_ensures(CrossDomainState::send_msg, (&state,), sent_on),
        call_ensures(CrossDomainState::receive_msg, (&state,), received_from),
    ensures
        state@.query_ring_id == query_ring_id,
        state@.channel_ring_id == channel_ring_id,
        state@.connection == connection,
        state@.jobs == Some(Seq::<CrossDomainJob>::empty()),
        match connection {
            Some(channel) => sent_on == Ok::<Arc<Tube>, RutabagaError>(channel) && received_from
                == Ok::<Arc<Tube>, RutabagaError>(channel),
            None => sent_on == Err::<Arc<Tube>, RutabagaError>(
                RutabagaError::InvalidCrossDomainChannel,
            ) && received_from == Err::<Arc<Tube>, RutabagaError>(
                RutabagaError::InvalidCrossDomainChannel,
            ),
        },
{
}

/// The jobs of a state leave it in the order in which they came: a job that is added is the last,
/// and the one that is taken was the first.
pub proof fn law_queue_is_served_in_order(
    adding: &mut CrossDomainState,
    job: CrossDomainJob,
    notify: bool,
    taking: &mut CrossDomainState,
    r: NextJob,
)
    requires
        call_ensures(CrossDomainState::add_job, (adding, job), notify),
        call_ensures(CrossDomainState::wait_for_job, (taking,), r),
    ensures
        notify <==> old(adding)@.jobs is Some,
        match (old(adding)@.jobs, final(adding)@.jobs) {
            (Some(before), Some(after)) => after == before + seq![job],
            (None, None) => true,
            _ => false,
        },
        final(adding)@.query_ring_id == old(adding)@.query_ring_id,
        final(adding)@.channel_ring_id == old(adding)@.channel_ring_id,
        final(adding)@.connection == old(adding)@.connection,
        r is Closed <==> old(taking)@.jobs is None,
        match r {
            NextJob::Job(first) => {
                &&& final(taking)@.jobs matches Some(rest)
                &&& old(taking)@.jobs == Some(seq![first] + rest)
            },
            NextJob::Wait => old(taking)@.jobs == Some(Seq::<CrossDomainJob>::empty())
                && final(taking)@ == old(taking)@,
            NextJob::Closed => final(taking)@ == old(taking)@,
        },
        final(taking)@.query_ring_id == old(taking)@.query_ring_id,
        final(taking)@.channel_ring_id == old(taking)@.channel_ring_id,
        final(taking)@.connection == old(taking)@.connection,
{
    if let Some(before) = old(adding)@.jobs {
        assert(before.push(job) =~= before + seq![job]);
    }
    if let Some(before) = old(taking)@.jobs {
        if before.len() > 0 {
            assert(before =~= seq![before[0]] + before.skip(1));
        } else {
            assert(before =~= Seq::<CrossDomainJob>::empty());
        }
    }
}

// ---- items ----

/// The number that the next read pipe gets: the next one, but none in the lower half.
pub open spec fn pipe_number(items: ItemsModel) -> int {
    if items.read_pipe_id + 1 < 0x8000_0000 {
        0x8000_0000
    } else {
        items.read_pipe_id + 1
    }
}

/// An item that is added gets the next number of its kind, where it is found. Read pipes have
/// numbers of their own, in the upper half. No other item changes, and no other number is used up.
pub proof fn law_item_gets_the_next_number(
    items: &mut CrossDomainItems,
    item: CrossDomainItem,
    id: u32,
)
    requires
        call_ensures(add_item, (items, item), id),
        old(items)@.has_id_for(item),
    ensures
        ({
            let (before, after) = (old(items)@, final(items)@);
            &&& after.table.contains_key(id) && after.table[id] == item
            &&& forall|k: u32| #[trigger]
                after.table.contains_key(k) <==> before.table.contains_key(k) || k == id
            &&& forall|k: u32| k != id ==> #[trigger] after.table[k] == before.table[k]
            &&& item is WaylandReadPipe ==> {
                &&& id == pipe_number(before)
                &&& after.read_pipe_id == before.read_pipe_id + 1
                &&& after.descriptor_id == before.descriptor_id
            }
            &&& !(item is WaylandReadPipe) ==> {
                &&& id == before.descriptor_id + 1
                &&& after.descriptor_id == id
                &&& after.read_pipe_id == before.read_pipe_id
            }
        }),
{
}

/// There are no items at first. The numbers of descriptors start behind 1, those of read pipes in
/// the upper half.
pub proof fn law_items_start_empty(items: CrossDomainItems)
    requires
        call_ensures(CrossDomainItems::default, (), items),
    ensures
        items@.table == Map::<u32, CrossDomainItem>::empty(),
        items@.descriptor_id == 1,
        items@.read_pipe_id == 0x8000_0000,
{
}

// ---- images and blobs ----

/// One item more is there than before, under `id`, which is the next number of descriptors; no
/// other item and no other number differs.
pub open spec fn has_one_more_item(
    before: ItemsModel,
    after: ItemsModel,
    id: u32,
    item: CrossDomainItem,
) -> bool {
    &&& id == before.descriptor_id + 1
    &&& after.descriptor_id == id
    &&& after.read_pipe_id == before.read_pipe_id
    &&& after.table.contains_key(id) && after.table[id] == item
    &&& forall|k: u32| #[trigger]
        after.table.contains_key(k) <==> before.table.contains_key(k) || k == id
    &&& forall|k: u32| k != id ==> #[trigger] after.table[k] == before.table[k]
}

/// The item under `id` is gone, if there was one; no other item and no number differs.
pub open spec fn lacks_item(before: ItemsModel, after: ItemsModel, id: u32) -> bool {
    &&& after.descriptor_id == before.descriptor_id
    &&& after.read_pipe_id == before.read_pipe_id
    &&& forall|k: u32| #[trigger]
        after.table.contains_key(k) <==> before.table.contains_key(k) && k != id
    &&& forall|k: u32| #[trigger] after.table.contains_key(k) ==> after.table[k] == before.table[k]
}

/// What is asked of the allocator is the image of the query, in all its parts.
pub proof fn law_image_is_asked_about_as_it_is(
    cmd: &CrossDomainGetImageRequirements,
    info: ImageAllocationInfo,
)
    requires
        call_ensures(context::image_allocation_info, (cmd,), info),
    ensures
        info.width == cmd.width,
        info.height == cmd.height,
        info.drm_format == cmd.drm_format,
        info.flags == cmd.flags,
{
}

/// The answer to an image query tells the guest the requirements as they are, and goes to the ring
/// for queries; the requirements are kept as an item under the identifier in the answer. Without a
/// state there is no answer and nothing is kept.
pub proof fn law_image_answer_tells_the_requirements<W>(
    ctx: &mut CrossDomainContext<W>,
    reqs: ImageMemoryRequirements,
    r: Result<(u32, CrossDomainImageRequirements), RutabagaError>,
)
    requires
        call_ensures(CrossDomainContext::<W>::get_image_requirements, (ctx, reqs), r),
        old(ctx)@.states.len() > 0 ==> old(ctx)@.items.descriptor_id < u32::MAX,
    ensures
        ({
            let (before, after) = (old(ctx)@, final(ctx)@);
            &&& r is Ok <==> before.states.len() > 0
            &&& differs_in_items(before, after)
            &&& match r {
                Ok((ring_id, answer)) => {
                    &&& ring_id == before.states.last().query_ring_id
                    &&& answer.strides == reqs.strides
                    &&& answer.offsets == reqs.offsets
                    &&& answer.modifier == reqs.modifier
                    &&& answer.size == reqs.size
                    &&& answer.map_info == reqs.map_info
                    &&& reqs.vulkan_info is None ==> answer.memory_idx == -1
                    &&& reqs.vulkan_info matches Some(vk_info) ==> answer.memory_idx
                        == vk_info.memory_idx as i32
                    &&& answer.physical_device_idx == -1
                    &&& has_one_more_item(
                        before.items,
                        after.items,
                        answer.blob_id,
                        CrossDomainItem::ImageRequirements(reqs),
                    )
                },
                Err(e) => e == RutabagaError::InvalidCrossDomainState && after == before,
            }
        }),
{
}

/// A resource that is made of an image has the layout that the guest was told in the answer to its
/// query, and the access that the answer told with leave to read and to write.
pub proof fn law_image_resource_is_what_the_answer_told<W>(
    ctx: &mut CrossDomainContext<W>,
    reqs: ImageMemoryRequirements,
    ring_id: u32,
    answer: CrossDomainImageRequirements,
    later: &mut CrossDomainContext<W>,
    resource_id: u32,
    create: &ResourceCreateBlob,
    handle: RutabagaHandle,
    r: Result<BlobAction, RutabagaError>,
)
    requires
        call_ensures(
            CrossDomainContext::<W>::get_image_requirements,
            (ctx, reqs),
            Ok((ring_id, answer)),
        ),
        old(ctx)@.items.descriptor_id < u32::MAX,
        old(later)@ == final(ctx)@,
        create.blob_id == answer.blob_id,
        create.size == answer.size,
        call_ensures(
            CrossDomainContext::<W>::context_create_blob,
            (later, resource_id, create, Some(handle)),
            r,
        ),
    ensures
        final(later)@ == old(later)@,
        r matches Ok(BlobAction::Created(resource)) && {
            &&& resource.resource_id == resource_id
            &&& resource.handle == Some(Arc::new(handle))
            &&& resource.size == answer.size
            &&& resource.map_info == Some(answer.map_info | RUTABAGA_MAP_ACCESS_RW)
            &&& resource.info_3d matches Some(info)
            &&& info.strides == answer.strides
            &&& info.offsets == answer.offsets
            &&& info.modifier == answer.modifier
            &&& info.width == reqs.info.width
            &&& info.height == reqs.info.height
            &&& info.drm_fourcc == reqs.info.drm_format
        },
{
    assert(answer.blob_id as u64 as u32 == answer.blob_id);
    assert(final(later)@ =~= old(later)@);
}

/// The low half of a blob identifier, which names an item.
pub open spec fn item_of_blob(blob_id: u64) -> u32 {
    (blob_id % 0x1_0000_0000) as u32
}

/// What a blob resource is made of. Requirements of an image are used for an image of their size,
/// with the memory that is given, or else memory is to be allocated to them; they stay. Received
/// memory becomes the resource as it is, cached and with the access that the system reports of it,
/// and is used up; where the access cannot be found out, it is used up as well. Any other item is
/// used up in vain, and without an item there is nothing.
pub proof fn law_blob_is_made_of_its_item<W>(
    ctx: &mut CrossDomainContext<W>,
    resource_id: u32,
    create: &ResourceCreateBlob,
    handle_opt: Option<RutabagaHandle>,
    r: Result<BlobAction, RutabagaError>,
)
    requires
        call_ensures(
            CrossDomainContext::<W>::context_create_blob,
            (ctx, resource_id, create, handle_opt),
            r,
        ),
    ensures
        ({
            let (before, after) = (old(ctx)@, final(ctx)@);
            let id = item_of_blob(create.blob_id);
            &&& differs_in_items(before, after)
            &&& r matches Ok(BlobAction::Created(resource)) ==> {
                &&& resource.resource_id == resource_id
                &&& resource.blob
                &&& resource.blob_mem == create.blob_mem
                &&& resource.blob_flags == create.blob_flags
                &&& resource.backing_iovecs is None
                &&& resource.component_mask == 8
                &&& resource.size == create.size
            }
            &&& if !before.items.table.contains_key(id) {
                &&& r == Err::<BlobAction, RutabagaError>(RutabagaError::InvalidCrossDomainItemId)
                &&& after == before
            } else {
                match before.items.table[id] {
                    CrossDomainItem::ImageRequirements(reqs) => {
                        &&& after == before
                        &&& r is Err <==> reqs.size != create.size
                        &&& match r {
                            Ok(BlobAction::Created(resource)) => {
                                &&& handle_opt is Some
                                &&& resource.handle == Some(Arc::new(handle_opt->Some_0))
                                &&& resource.map_info == Some(
                                    reqs.map_info | RUTABAGA_MAP_ACCESS_RW,
                                )
                                &&& resource.vulkan_info == reqs.vulkan_info
                                &&& resource.info_3d is Some
                                &&& is_layout_of(resource.info_3d->Some_0, reqs)
                            },
                            Ok(BlobAction::Allocate(asked)) => handle_opt is None && asked == reqs,
                            Ok(BlobAction::Import(_)) => false,
                            Err(e) => e == RutabagaError::MesaError(
                                MesaError::WithContext("blob size mismatch"),
                            ),
                        }
                    },
                    CrossDomainItem::Blob(memory) => {
                        &&& lacks_item(before.items, after.items, id)
                        &&& match r {
                            Ok(BlobAction::Created(resource)) => {
                                &&& resource.handle == Some(
                                    Arc::new(RutabagaHandle::MagmaGpuHandle(memory)),
                                )
                                &&& resource.info_3d is None
                                &&& resource.vulkan_info is None
                                &&& is_mapped_as_reported(resource.map_info, memory.os_handle)
                            },
                            Err(RutabagaError::MesaError(MesaError::IoError(e))) =>
                                platform::reports_access(memory.os_handle, Err(e)),
                            _ => false,
                        }
                    },
                    _ => {
                        &&& lacks_item(before.items, after.items, id)
                        &&& r == Err::<BlobAction, RutabagaError>(
                            RutabagaError::InvalidCrossDomainItemType,
                        )
                    },
                }
            }
        }),
{
    let blob_id = create.blob_id;
    assert(blob_id as u32 == blob_id % 0x1_0000_0000) by (bit_vector);
    let (before, after) = (old(ctx)@, final(ctx)@);
    let id = item_of_blob(blob_id);
    let access = choose|access: Result<u32, std::io::Error>|
        #![trigger context::blob_created(before.items, resource_id, *create, handle_opt, access)]
        {
            let (items, action) = context::blob_created(
                before.items,
                resource_id,
                *create,
                handle_opt,
                access,
            );
            &&& after == before.with_items(items)
            &&& r == action
            &&& before.items.table.contains_key(create.blob_id as u32) ==> (
            before.items.table[create.blob_id as u32] matches CrossDomainItem::Blob(handle)
                ==> platform::reports_access(handle.os_handle, access))
        };
    let (items, action) = context::blob_created(
        before.items,
        resource_id,
        *create,
        handle_opt,
        access,
    );
    if before.items.table.contains_key(id) {
        if let CrossDomainItem::Blob(memory) = before.items.table[id] {
            assert(platform::reports_access(memory.os_handle, access));
            if let Ok(bits) = access {
                assert(platform::reports_access(memory.os_handle, Ok(bits)));
                assert(is_mapped_as_reported(
                    Some(RUTABAGA_MAP_CACHE_CACHED | bits),
                    memory.os_handle,
                ));
            }
        }
    }
    if items == before.items {
        assert(after =~= before);
    }
}

/// The item that a blob resource is made of is found by the low half of the blob identifier:
/// requirements of an image stay and ask for their size, received memory is handed over and is
/// gone.
pub proof fn law_item_of_a_blob_is_found<W>(
    ctx: &mut CrossDomainContext<W>,
    resource_id: u32,
    create: &ResourceCreateBlob,
    handle_opt: Option<RutabagaHandle>,
    r: Result<BlobAction, RutabagaError>,
)
    requires
        call_ensures(
            CrossDomainContext::<W>::find_blob,
            (ctx, resource_id, create, handle_opt),
            r,
        ),
    ensures
        ({
            let (before, after) = (old(ctx)@, final(ctx)@);
            let id = item_of_blob(create.blob_id);
            &&& differs_in_items(before, after)
            &&& if !before.items.table.contains_key(id) {
                &&& r == Err::<BlobAction, RutabagaError>(RutabagaError::InvalidCrossDomainItemId)
                &&& after == before
            } else {
                match before.items.table[id] {
                    CrossDomainItem::ImageRequirements(reqs) => {
                        &&& after == before
                        &&& match r {
                            Ok(BlobAction::Created(resource)) => {
                                &&& reqs.size == create.size && handle_opt is Some
                                &&& resource.handle == Some(Arc::new(handle_opt->Some_0))
                                &&& resource.resource_id == resource_id
                                &&& resource.size == create.size
                                &&& resource.info_3d is Some
                                &&& is_layout_of(resource.info_3d->Some_0, reqs)
                            },
                            Ok(BlobAction::Allocate(asked)) => {
                                &&& reqs.size == create.size && handle_opt is None
                                &&& asked == reqs
                            },
                            Ok(BlobAction::Import(_)) => false,
                            Err(e) => {
                                &&& reqs.size != create.size
                                &&& e == RutabagaError::MesaError(
                                    MesaError::WithContext("blob size mismatch"),
                                )
                            },
                        }
                    },
                    CrossDomainItem::Blob(memory) => {
                        &&& lacks_item(before.items, after.items, id)
                        &&& r == Ok::<BlobAction, RutabagaError>(BlobAction::Import(memory))
                    },
                    _ => {
                        &&& lacks_item(before.items, after.items, id)
                        &&& r == Err::<BlobAction, RutabagaError>(
                            RutabagaError::InvalidCrossDomainItemType,
                        )
                    },
                }
            }
        }),
{
    let blob_id = create.blob_id;
    assert(blob_id as u32 == blob_id % 0x1_0000_0000) by (bit_vector);
    let (before, after) = (old(ctx)@, final(ctx)@);
    if before.items == after.items {
        assert(after =~= before);
    }
}

/// A layout is that of the requirements of an image, in all its parts.
pub open spec fn is_layout_of(info: Resource3DInfo, reqs: ImageMemoryRequirements) -> bool {
    &&& info.width == reqs.info.width
    &&& info.height == reqs.info.height
    &&& info.drm_fourcc == reqs.info.drm_format
    &&& info.strides == reqs.strides
    &&& info.offsets == reqs.offsets
    &&& info.modifier == reqs.modifier
}

/// Memory is mapped cached, with exactly the access that the system reported of it.
pub open spec fn is_mapped_as_reported(map_info: Option<u32>, memory: OwnedDescriptor) -> bool {
    exists|bits: u32| #[trigger]
        platform::reports_access(memory, Ok(bits)) && map_info == Some(0x01 | bits)
}

/// The two ways to make a resource agree with what it is made of.
pub proof fn law_resource_is_what_it_is_made_of(
    resource_id: u32,
    create: &ResourceCreateBlob,
    reqs: &ImageMemoryRequirements,
    handle: RutabagaHandle,
    image: RutabagaResource,
    memory: MagmaGpuHandle,
    map_access: u32,
    imported: RutabagaResource,
)
    requires
        call_ensures(context::image_resource, (resource_id, create, reqs, handle), image),
        call_ensures(
            context::imported_resource,
            (resource_id, create, memory, map_access),
            imported,
        ),
    ensures
        image.resource_id == resource_id && imported.resource_id == resource_id,
        image.blob && imported.blob,
        image.blob_mem == create.blob_mem && imported.blob_mem == create.blob_mem,
        image.blob_flags == create.blob_flags && imported.blob_flags == create.blob_flags,
        image.size == create.size && imported.size == create.size,
        image.backing_iovecs is None && imported.backing_iovecs is None,
        image.component_mask == 8 && imported.component_mask == 8,
        image.handle == Some(Arc::new(handle)),
        image.map_info == Some(reqs.map_info | 0x30),
        image.info_3d matches Some(info) && is_layout_of(info, *reqs),
        image.vulkan_info == reqs.vulkan_info,
        imported.handle == Some(Arc::new(RutabagaHandle::MagmaGpuHandle(memory))),
        imported.map_info == Some(0x01 | map_access),
        imported.info_3d is None && imported.vulkan_info is None,
{
}

// ---- write ----

/// A write command takes out what it writes to.
pub open spec fn takes_its_item<W>(
    before: ContextModel<W>,
    after: ContextModel<W>,
    cmd: CrossDomainReadWrite,
    data: Seq<u8>,
    r: Result<WriteAction, RutabagaError>,
) -> bool {
    let id = cmd.identifier;
    &&& differs_in_items(before, after)
    &&& lacks_item(before.items, after.items, id)
    &&& match r {
        Ok(WriteAction::Pipe(pipe, to_write)) => {
            &&& before.items.table.contains_key(id)
            &&& before.items.table[id] == CrossDomainItem::WaylandWritePipe(pipe)
            &&& to_write <==> cmd.opaque_data_size != 0
        },
        Ok(WriteAction::Event(event, value)) => {
            &&& before.items.table.contains_key(id)
            &&& before.items.table[id] == CrossDomainItem::Event(event)
            &&& data.len() == 8
            &&& value == data[0] + 0x100 * data[1] + 0x1_0000 * data[2] + 0x100_0000
                * data[3] + 0x1_0000_0000 * data[4] + 0x100_0000_0000 * data[5]
                + 0x1_0000_0000_0000 * data[6] + 0x100_0000_0000_0000 * data[7]
        },
        Err(e) => if !before.items.table.contains_key(id) {
            e == RutabagaError::InvalidCrossDomainItemId
        } else if before.items.table[id] is Event {
            &&& data.len() != 8
            &&& e == RutabagaError::InvalidCrossDomainWriteLength
        } else {
            &&& !(before.items.table[id] is WaylandWritePipe)
            &&& e == RutabagaError::InvalidCrossDomainItemType
        },
    }
}

/// A write command writes to its own item. The data of a pipe is to be written exactly where there
/// is any; that of an event has eight bytes, which are the value, the least significant first.
/// Whatever is under the identifier is taken out for the time being, or for good where it cannot be
/// written to. Nothing else is touched.
pub proof fn law_write_takes_its_item<W>(
    ctx: &mut CrossDomainContext<W>,
    cmd: &CrossDomainReadWrite,
    data: &[u8],
    r: Result<WriteAction, RutabagaError>,
)
    requires
        call_ensures(CrossDomainContext::<W>::write, (ctx, cmd, data), r),
    ensures
        takes_its_item(old(ctx)@, final(ctx)@, *cmd, data@, r),
{
    assert(final(ctx)@.items =~= old(ctx)@.items.without_item(cmd.identifier));
}

/// Whether a write command hangs up makes no difference to what is written: two that differ in
/// nothing else, and in their headers, begin alike.
pub proof fn law_hang_up_does_not_change_what_is_written<W>(
    ctx: &mut CrossDomainContext<W>,
    cmd: &CrossDomainReadWrite,
    other: &mut CrossDomainContext<W>,
    other_cmd: &CrossDomainReadWrite,
    data: &[u8],
    r: Result<WriteAction, RutabagaError>,
    other_r: Result<WriteAction, RutabagaError>,
)
    requires
        old(other)@ == old(ctx)@,
        other_cmd.identifier == cmd.identifier,
        other_cmd.opaque_data_size == cmd.opaque_data_size,
        call_ensures(CrossDomainContext::<W>::write, (ctx, cmd, data), r),
        call_ensures(CrossDomainContext::<W>::write, (other, other_cmd, data), other_r),
    ensures
        r == other_r,
        final(ctx)@ == final(other)@,
{
}

/// After the data is written, the items are what they were before the command; where it hangs up,
/// its item is gone.
pub proof fn law_written_item_comes_back<W>(
    ctx: &mut CrossDomainContext<W>,
    cmd: &CrossDomainReadWrite,
    data: &[u8],
    action: WriteAction,
    later: &mut CrossDomainContext<W>,
    unit: (),
)
    requires
        call_ensures(CrossDomainContext::<W>::write, (ctx, cmd, data), Ok(action)),
        old(later)@ == final(ctx)@,
        call_ensures(CrossDomainContext::<W>::write_done, (later, cmd, action), unit),
    ensures
        cmd.hang_up == 0 ==> final(later)@ == old(ctx)@,
        cmd.hang_up != 0 ==> {
            &&& differs_in_items(old(ctx)@, final(later)@)
            &&& lacks_item(old(ctx)@.items, final(later)@.items, cmd.identifier)
        },
{
    if cmd.hang_up == 0 {
        assert(final(later)@.items =~= old(ctx)@.items);
        assert(final(later)@ =~= old(ctx)@);
    }
}

/// What is put back after a write is the pipe or the event that was written to, under its
/// identifier, whatever is there by then.
pub proof fn law_item_is_put_back<W>(
    ctx: &mut CrossDomainContext<W>,
    cmd: &CrossDomainReadWrite,
    action: WriteAction,
    unit: (),
)
    requires
        call_ensures(CrossDomainContext::<W>::write_done, (ctx, cmd, action), unit),
    ensures
        ({
            let (before, after) = (old(ctx)@, final(ctx)@);
            &&& cmd.hang_up != 0 ==> after == before
            &&& cmd.hang_up == 0 ==> {
                &&& differs_in_items(before, after)
                &&& after.items.descriptor_id == before.items.descriptor_id
                &&& after.items.read_pipe_id == before.items.read_pipe_id
                &&& after.items.table.contains_key(cmd.identifier)
                &&& match action {
                    WriteAction::Pipe(pipe, _) => after.items.table[cmd.identifier]
                        == CrossDomainItem::WaylandWritePipe(pipe),
                    WriteAction::Event(event, _) => after.items.table[cmd.identifier]
                        == CrossDomainItem::Event(event),
                }
                &&& forall|k: u32|
                    k != cmd.identifier ==> (#[trigger] after.items.table.contains_key(k)
                        <==> before.items.table.contains_key(k))
                &&& forall|k: u32|
                    k != cmd.identifier ==> #[trigger] after.items.table[k]
                        == before.items.table[k]
            }
        }),
{
    if cmd.hang_up != 0 {
        assert(final(ctx)@ =~= old(ctx)@);
    }
}

// ---- send ----

/// One of the first `n` identifiers of a send command asks for a pipe.
pub open spec fn asks_before(cmd: CrossDomainSendReceive, n: int) -> bool {
    exists|j: int|
        0 <= j < n && #[trigger] cmd.identifier_types@[j] == CROSS_DOMAIN_ID_TYPE_READ_PIPE
}

/// One of the first `n` identifiers of a send command names the file `id`.
pub open spec fn names_file_before(cmd: CrossDomainSendReceive, n: int, id: u32) -> bool {
    exists|j: int|
        0 <= j < n && #[trigger] cmd.identifier_types@[j] == CROSS_DOMAIN_ID_TYPE_VIRTIO_FS_BLOB
            && cmd.identifiers@[j] == id
}

/// The identifier `i` of a send command names something that can be sent: the memory of an attached
/// resource; a file that none before it names; or one pipe, under the number that it will get.
pub open spec fn is_found<W>(ctx: ContextModel<W>, cmd: CrossDomainSendReceive, i: int) -> bool {
    let id = cmd.identifiers@[i];
    let id_type = cmd.identifier_types@[i];
    ||| id_type == CROSS_DOMAIN_ID_TYPE_VIRTGPU_BLOB && ctx.resources.contains_key(id)
        && ctx.resources[id].handle is Some && *ctx.resources[id].handle->Some_0 is MagmaGpuHandle
    ||| id_type == CROSS_DOMAIN_ID_TYPE_READ_PIPE && !asks_before(cmd, i) && id
        == pipe_number(ctx.items)
    ||| id_type == CROSS_DOMAIN_ID_TYPE_VIRTIO_FS_BLOB && ctx.items.table.contains_key(id)
        && ctx.items.table[id] is RegularFile && !names_file_before(cmd, i, id) && !(asks_before(
        cmd,
        i,
    ) && id == pipe_number(ctx.items))
}

/// The identifier `i` of a send command fails it with `e`: it names nothing that can be sent, or
/// the system refuses what is needed for it.
pub open spec fn fails_at<W>(
    ctx: ContextModel<W>,
    cmd: CrossDomainSendReceive,
    i: int,
    e: RutabagaError,
) -> bool {
    let id = cmd.identifiers@[i];
    let id_type = cmd.identifier_types@[i];
    if id_type == CROSS_DOMAIN_ID_TYPE_VIRTGPU_BLOB {
        if !ctx.resources.contains_key(id) {
            e == RutabagaError::InvalidResourceId
        } else if !is_found(ctx, cmd, i) {
            e == RutabagaError::MesaError(MesaError::InvalidMesaHandle)
        } else {
            &&& e matches RutabagaError::MesaError(MesaError::IoError(refusal))
            &&& *ctx.resources[id].handle->Some_0 matches RutabagaHandle::MagmaGpuHandle(memory)
            &&& platform::duplicates(memory.os_handle, Err(refusal))
        }
    } else if id_type == CROSS_DOMAIN_ID_TYPE_READ_PIPE {
        if asks_before(cmd, i) {
            e == RutabagaError::MesaError(MesaError::WithContext("expected just one pipe pair"))
        } else {
            ||| e matches RutabagaError::MesaError(MesaError::Util(refusal))
                && platform::makes_ends(Err(refusal))
            ||| e matches RutabagaError::MesaError(MesaError::IoError(refusal))
                && is_write_end_refused(refusal)
            ||| e == RutabagaError::InvalidCrossDomainItemId && !is_found(ctx, cmd, i)
        }
    } else if id_type == CROSS_DOMAIN_ID_TYPE_VIRTIO_FS_BLOB {
        e == RutabagaError::InvalidCrossDomainItemId && !is_found(ctx, cmd, i)
    } else {
        e == RutabagaError::InvalidCrossDomainItemType
    }
}

/// The system made a pipe and refused to duplicate the descriptor of its write end.
pub open spec fn is_write_end_refused(refusal: std::io::Error) -> bool {
    exists|ends: (ReadPipe, WritePipe)| #[trigger]
        platform::makes_ends(Ok(ends)) && platform::duplicates_object(
            platform::write_pipe_object(ends.1),
            Err(refusal),
        )
}

/// What a send command whose first `n` identifiers were looked at does to the items: it may use up
/// the files that they name, and a pipe that they ask for may be there under its number. Everything
/// else stays.
pub open spec fn only_named_items_differ<W>(
    before: ContextModel<W>,
    after: ContextModel<W>,
    cmd: CrossDomainSendReceive,
    n: int,
) -> bool {
    &&& differs_in_items(before, after)
    &&& after.items.descriptor_id == before.items.descriptor_id
    &&& after.items.read_pipe_id == before.items.read_pipe_id || asks_before(cmd, n)
        && after.items.read_pipe_id == before.items.read_pipe_id + 1
    &&& forall|id: u32| #[trigger]
        after.items.table.contains_key(id) ==> before.items.table.contains_key(id)
            && after.items.table[id] == before.items.table[id] || id == pipe_number(before.items)
            && after.items.read_pipe_id == before.items.read_pipe_id + 1
            && after.items.table[id] is WaylandReadPipe
    &&& forall|id: u32| #[trigger]
        before.items.table.contains_key(id) && !after.items.table.contains_key(id)
            ==> names_file_before(cmd, n, id)
}

/// What is so once the descriptors for the first `n` identifiers of a send command are collected.
pub open spec fn is_collected<W>(
    before: ContextModel<W>,
    after: ContextModel<W>,
    cmd: CrossDomainSendReceive,
    n: int,
    pending: PendingModel,
) -> bool {
    &&& pending.descriptors.len() == n
    &&& forall|j: int| 0 <= j < n ==> #[trigger] is_found(before, cmd, j)
    &&& only_named_items_differ(before, after, cmd, n)
    &&& pending.write_pipe is Some <==> asks_before(cmd, n)
    &&& pending.read_pipe_id == (if asks_before(cmd, n) {
        Some(pipe_number(before.items) as u32)
    } else {
        None
    })
    &&& asks_before(cmd, n) ==> {
        &&& after.items.read_pipe_id == before.items.read_pipe_id + 1
        &&& after.items.table.contains_key(pipe_number(before.items) as u32)
        &&& after.items.table[pipe_number(before.items) as u32] is WaylandReadPipe
    }
    &&& !asks_before(cmd, n) ==> after.items.read_pipe_id == before.items.read_pipe_id
    &&& forall|id: u32| #[trigger]
        after.items.table.contains_key(id) <==> before.items.table.contains_key(id)
            && !names_file_before(cmd, n, id) || asks_before(cmd, n) && id
            == pipe_number(before.items)
}

/// The first `n` identifiers of a send command fail it with `e`: one of them does, and those before
/// it are found.
pub open spec fn fails_before<W>(
    ctx: ContextModel<W>,
    cmd: CrossDomainSendReceive,
    n: int,
    e: RutabagaError,
) -> bool {
    exists|i: int|
        0 <= i < n && #[trigger] fails_at(ctx, cmd, i, e) && forall|j: int|
            0 <= j < i ==> #[trigger] is_found(ctx, cmd, j)
}

/// If a send command comes to make a pipe, there is a number for it.
pub open spec fn pipe_can_be_numbered<W>(
    ctx: ContextModel<W>,
    cmd: CrossDomainSendReceive,
) -> bool {
    forall|i: int|
        0 <= i < cmd.num_identifiers && #[trigger] is_first_pipe(ctx, cmd, i)
            ==> ctx.items.read_pipe_id < u32::MAX
}

proof fn lemma_before_next(cmd: CrossDomainSendReceive, n: int)
    requires
        0 <= n < 28,
    ensures
        asks_before(cmd, n + 1) <==> asks_before(cmd, n) || cmd.identifier_types@[n]
            == CROSS_DOMAIN_ID_TYPE_READ_PIPE,
        forall|id: u32| #[trigger]
            names_file_before(cmd, n + 1, id) <==> names_file_before(cmd, n, id) || (
            cmd.identifier_types@[n] == CROSS_DOMAIN_ID_TYPE_VIRTIO_FS_BLOB
                && cmd.identifiers@[n] == id),
{
    if cmd.identifier_types@[n] == CROSS_DOMAIN_ID_TYPE_READ_PIPE {
        assert(asks_before(cmd, n + 1));
    }
    assert forall|id: u32| #[trigger]
        names_file_before(cmd, n + 1, id) <==> names_file_before(cmd, n, id) || (
        cmd.identifier_types@[n] == CROSS_DOMAIN_ID_TYPE_VIRTIO_FS_BLOB && cmd.identifiers@[n]
            == id) by {
        if cmd.identifier_types@[n] == CROSS_DOMAIN_ID_TYPE_VIRTIO_FS_BLOB && cmd.identifiers@[n]
            == id {
            assert(cmd.identifier_types@[n] == CROSS_DOMAIN_ID_TYPE_VIRTIO_FS_BLOB);
        }
    }
}

proof fn lemma_collected<W>(
    ctx: ContextModel<W>,
    cmd: CrossDomainSendReceive,
    supplies: Seq<Supply>,
)
    requires
        context::are_supplies_for(supplies, ctx, cmd),
        supplies.len() <= cmd.num_identifiers <= 28,
        pipe_can_be_numbered(ctx, cmd),
    ensures
        ({
            let n = supplies.len() as int;
            let (after, sent) = context::identifiers_sent(ctx, cmd, supplies);
            &&& only_named_items_differ(ctx, after, cmd, n)
            &&& match sent {
                Ok(pending) => is_collected(ctx, after, cmd, n, pending),
                Err(e) => fails_before(ctx, cmd, n, e),
            }
        }),
    decreases supplies.len(),
{
    if supplies.len() == 0 {
    } else {
        let n = supplies.len() - 1;
        let shorter = supplies.drop_last();
        lemma_collected(ctx, cmd, shorter);
        lemma_before_next(cmd, n);
        let (before, sent) = context::identifiers_sent(ctx, cmd, shorter);
        let (after, next) = context::identifiers_sent(ctx, cmd, supplies);
        match sent {
            Err(e) => {
                let i = choose|i: int|
                    0 <= i < n && #[trigger] fails_at(ctx, cmd, i, e) && forall|j: int|
                        0 <= j < i ==> #[trigger] is_found(ctx, cmd, j);
                assert(fails_at(ctx, cmd, i, e));
            },
            Ok(pending) => {
                let supply = supplies.last();
                if cmd.identifier_types@[n] == CROSS_DOMAIN_ID_TYPE_READ_PIPE
                    && pending.write_pipe is None {
                    assert(is_first_pipe(ctx, cmd, n));
                }
                assert(context::is_supply_for(
                    supply,
                    context::next_looked_up(before, pending, cmd).1,
                ));
                if let Err(e) = next {
                    if cmd.identifier_types@[n] == CROSS_DOMAIN_ID_TYPE_READ_PIPE
                        && pending.write_pipe is None {
                        if let Ok(ends) = supply.pipe {
                            assert(platform::makes_ends(Ok(ends)));
                        }
                    }
                    assert(fails_at(ctx, cmd, n, e));
                } else {
                    assert(is_found(ctx, cmd, n));
                }
            },
        }
    }
}

/// A send command collects what its identifiers name, or fails for the reason that there is.
pub open spec fn collects_what_is_named<W>(
    before: ContextModel<W>,
    after: ContextModel<W>,
    cmd: CrossDomainSendReceive,
    r: Result<(Arc<Tube>, PendingModel), RutabagaError>,
) -> bool {
    let n = cmd.num_identifiers as int;
    if n > 28 {
        &&& after == before
        &&& r == Err::<(Arc<Tube>, PendingModel), RutabagaError>(
            RutabagaError::MesaError(
                MesaError::WithContext("max cross domain identifiers exceeded"),
            ),
        )
    } else {
        &&& only_named_items_differ(before, after, cmd, n)
        &&& match r {
            Ok((connection, pending)) => {
                &&& is_collected(before, after, cmd, n, pending)
                &&& before.states.len() > 0 && before.resample_evt is Some
                &&& before.states.last().connection == Some(connection)
                &&& forall|i: int|
                    0 <= i < n ==> laws::is_sent_for(
                        #[trigger] pending.descriptors[i],
                        pending.write_pipe,
                        cmd.identifiers@[i],
                        cmd.identifier_types@[i],
                        before,
                        after,
                    )
            },
            Err(e) => {
                ||| fails_before(before, cmd, n, e)
                ||| {
                    &&& forall|j: int| 0 <= j < n ==> #[trigger] is_found(before, cmd, j)
                    &&& if before.states.len() == 0 || before.resample_evt is None {
                        e == RutabagaError::InvalidCrossDomainState
                    } else {
                        &&& before.states.last().connection is None
                        &&& e == RutabagaError::InvalidCrossDomainChannel
                    }
                }
            },
        }
    }
}

proof fn lemma_collects_what_is_named<W>(
    before: ContextModel<W>,
    cmd: CrossDomainSendReceive,
    supplies: Seq<Supply>,
    after: ContextModel<W>,
    r: Result<(Arc<Tube>, PendingModel), RutabagaError>,
)
    requires
        context::send_run(before, cmd, supplies, after, r),
        cmd.num_identifiers <= 28 ==> pipe_can_be_numbered(before, cmd),
    ensures
        collects_what_is_named(before, after, cmd, r),
{
    if cmd.num_identifiers <= 28 {
        lemma_collected(before, cmd, supplies);
        let n = cmd.num_identifiers as int;
        match context::identifiers_sent(before, cmd, supplies).1 {
            Ok(model) => {
                if let Ok((connection, pending)) = r {
                    assert forall|i: int| 0 <= i < n implies laws::is_sent_for(
                        #[trigger] pending.descriptors[i],
                        pending.write_pipe,
                        cmd.identifiers@[i],
                        cmd.identifier_types@[i],
                        before,
                        after,
                    ) by {
                        laws::law_send_carries_what_the_identifiers_name(
                            before,
                            cmd,
                            supplies,
                            after,
                            connection,
                            pending,
                            i,
                        );
                    }
                }
            },
            Err(e) => {
                let m = supplies.len() as int;
                let i = choose|i: int|
                    0 <= i < m && #[trigger] fails_at(before, cmd, i, e) && forall|j: int|
                        0 <= j < i ==> #[trigger] is_found(before, cmd, j);
                assert(fails_at(before, cmd, i, e));
                assert(asks_before(cmd, m) ==> asks_before(cmd, n));
                assert forall|id: u32| names_file_before(cmd, m, id) implies #[trigger]
                    names_file_before(cmd, n, id) by {}
            },
        }
    }
}

/// A send command collects a descriptor for each of its identifiers, if each names something that
/// can be sent and the system refuses nothing; then the channel of the last state is the one to
/// send on. It fails at the first identifier that does not, for the reason that it has, or for want
/// of a channel. The files that were named are used up, and a pipe that was asked for is an item
/// under the number that the command named; no other item is touched.
pub proof fn law_send_collects_what_is_named<W>(
    ctx: &mut CrossDomainContext<W>,
    cmd: &CrossDomainSendReceive,
    r: Result<(Arc<Tube>, PendingSend), RutabagaError>,
)
    requires
        call_ensures(CrossDomainContext::<W>::send, (ctx, cmd), r),
        cmd.num_identifiers <= 28 ==> pipe_can_be_numbered(old(ctx)@, *cmd),
    ensures
        collects_what_is_named(old(ctx)@, final(ctx)@, *cmd, context::sent_view(r)),
{
    let (before, after) = (old(ctx)@, final(ctx)@);
    let supplies = choose|supplies: Seq<Supply>| #[trigger]
        context::send_run(before, *cmd, supplies, after, context::sent_view(r));
    assert(context::send_run(before, *cmd, supplies, after, context::sent_view(r)));
    lemma_collects_what_is_named(before, *cmd, supplies, after, context::sent_view(r));
}

/// After a message was sent, the worker is to poll exactly the pipe of that message, and is woken
/// for it: one job more is queued, which names it. Without a pipe nothing is left to do.
pub proof fn law_sent_pipe_is_queued<W>(
    ctx: &mut CrossDomainContext<W>,
    pending: &PendingSend,
    resample: bool,
)
    requires
        call_ensures(CrossDomainContext::<W>::send_complete, (ctx, pending), resample),
    ensures
        resample <==> pending.read_pipe_id is Some,
        pending.read_pipe_id is None || old(ctx)@.states.len() == 0 ==> final(ctx)@ == old(ctx)@,
        differs_in_states(old(ctx)@, final(ctx)@),
        pending.read_pipe_id matches Some(id) ==> (old(ctx)@.states.len() > 0 ==> has_one_more_job(
            old(ctx)@,
            final(ctx)@,
            old(ctx)@.states.len() - 1,
            CrossDomainJob::AddReadPipe(id),
        )),
{
}

/// The pipe that a send command makes is the one that the worker polls for it: the last job that is
/// queued has the worker watch, under the number that the command named for the pipe, the very end
/// that belongs to the end that was sent.
pub proof fn law_sent_pipe_is_polled<W>(
    ctx: &mut CrossDomainContext<W>,
    cmd: &CrossDomainSendReceive,
    connection: Arc<Tube>,
    pending: PendingSend,
    i: int,
    later: &mut CrossDomainContext<W>,
    resample: bool,
    worker: &mut CrossDomainWorker,
    items: &'static CrossDomainItems,
    action: Result<WorkerAction<'static>, RutabagaError>,
)
    requires
        call_ensures(CrossDomainContext::<W>::send, (ctx, cmd), Ok((connection, pending))),
        old(ctx)@.items.read_pipe_id < u32::MAX,
        0 <= i < cmd.num_identifiers,
        cmd.identifier_types@[i] == CROSS_DOMAIN_ID_TYPE_READ_PIPE,
        old(later)@ == final(ctx)@,
        old(later)@.states.last().jobs is Some,
        call_ensures(CrossDomainContext::<W>::send_complete, (later, &pending), resample),
        old(worker).fence is None,
        items@ == final(later)@.items,
        call_ensures(
            CrossDomainWorker::run,
            (worker, items, final(later)@.states.last().jobs->Some_0.last()),
            action,
        ),
    ensures
        resample,
        action matches Ok(WorkerAction::WatchPipe(watched, read_pipe)) && {
            &&& watched == cmd.identifiers@[i]
            &&& platform::pipe_of(platform::read_pipe_object(*read_pipe)) == platform::pipe_of(
                platform::descriptor_object(pending@.descriptors[i]),
            )
            &&& platform::read_pipe_object(*read_pipe) != platform::descriptor_object(
                pending@.descriptors[i],
            )
        },
{
    law_send_collects_what_is_named(ctx, cmd, Ok((connection, pending)));
    law_sent_pipe_is_queued(later, &pending, resample);
    let n = cmd.num_identifiers as int;
    assert(asks_before(*cmd, n));
    assert(is_found(old(ctx)@, *cmd, i));
    assert(laws::is_sent_for(
        pending@.descriptors[i],
        pending@.write_pipe,
        cmd.identifiers@[i],
        cmd.identifier_types@[i],
        old(ctx)@,
        final(ctx)@,
    ));
}

/// Nothing is collected at first. What an identifier names is looked up without anything being
/// done but that a file, or whatever else is there in its place, is taken out.
pub proof fn law_identifier_is_looked_up<W>(
    pending: PendingSend,
    ctx: &mut CrossDomainContext<W>,
    id: u32,
    id_type: u32,
    has_pipe: bool,
    r: Result<SendAction, RutabagaError>,
)
    requires
        call_ensures(PendingSend::new, (), pending),
        call_ensures(
            CrossDomainContext::<W>::send_identifier,
            (ctx, id, id_type, has_pipe),
            r,
        ),
    ensures
        pending@.descriptors.len() == 0,
        pending@.write_pipe is None && pending@.read_pipe_id is None,
        ({
            let (before, after) = (old(ctx)@, final(ctx)@);
            &&& differs_in_items(before, after)
            &&& id_type != CROSS_DOMAIN_ID_TYPE_VIRTIO_FS_BLOB ==> after == before
            &&& id_type == CROSS_DOMAIN_ID_TYPE_VIRTIO_FS_BLOB ==> lacks_item(
                before.items,
                after.items,
                id,
            )
            &&& match r {
                Ok(SendAction::Attach(file)) => {
                    &&& id_type == CROSS_DOMAIN_ID_TYPE_VIRTIO_FS_BLOB
                    &&& before.items.table.contains_key(id)
                    &&& before.items.table[id] == CrossDomainItem::RegularFile(file)
                },
                Ok(SendAction::Duplicate(handle)) => {
                    &&& id_type == CROSS_DOMAIN_ID_TYPE_VIRTGPU_BLOB
                    &&& before.resources.contains_key(id)
                    &&& before.resources[id].handle == Some(handle)
                    &&& *handle is MagmaGpuHandle
                },
                Ok(SendAction::CreatePipe) => {
                    &&& id_type == CROSS_DOMAIN_ID_TYPE_READ_PIPE
                    &&& !has_pipe
                },
                Err(e) => if id_type == CROSS_DOMAIN_ID_TYPE_VIRTGPU_BLOB {
                    if before.resources.contains_key(id) {
                        &&& e == RutabagaError::MesaError(MesaError::InvalidMesaHandle)
                        &&& before.resources[id].handle matches Some(handle)
                            ==> *handle is AhbInfo
                    } else {
                        e == RutabagaError::InvalidResourceId
                    }
                } else if id_type == CROSS_DOMAIN_ID_TYPE_READ_PIPE {
                    &&& has_pipe
                    &&& e == RutabagaError::MesaError(
                        MesaError::WithContext("expected just one pipe pair"),
                    )
                } else if id_type == CROSS_DOMAIN_ID_TYPE_VIRTIO_FS_BLOB {
                    &&& e == RutabagaError::InvalidCrossDomainItemId
                    &&& before.items.table.contains_key(id) ==> !(
                    before.items.table[id] is RegularFile)
                } else {
                    e == RutabagaError::InvalidCrossDomainItemType
                },
            }
        }),
{
    assert(final(ctx)@.items =~= old(ctx)@.items || final(ctx)@.items
        =~= old(ctx)@.items.without_item(id));
}

/// A new pipe becomes an item under the next number, whether or not that was guessed. If it was,
/// the duplicate of its write end is sent behind what was collected, and the write end is kept.
pub proof fn law_new_pipe_is_entered<W>(
    ctx: &mut CrossDomainContext<W>,
    pending: PendingSend,
    guess: u32,
    read_pipe: ReadPipe,
    write_pipe: WritePipe,
    write_end: OwnedDescriptor,
    r: Result<PendingSend, RutabagaError>,
)
    requires
        call_ensures(
            CrossDomainContext::<W>::send_pipe,
            (ctx, pending, guess, read_pipe, write_pipe, write_end),
            r,
        ),
        old(ctx)@.items.read_pipe_id < u32::MAX,
    ensures
        ({
            let (before, after) = (old(ctx)@, final(ctx)@);
            let id = pipe_number(before.items) as u32;
            &&& differs_in_items(before, after)
            &&& after.items.read_pipe_id == before.items.read_pipe_id + 1
            &&& after.items.descriptor_id == before.items.descriptor_id
            &&& after.items.table.contains_key(id)
            &&& after.items.table[id] == CrossDomainItem::WaylandReadPipe(read_pipe)
            &&& forall|k: u32| #[trigger]
                after.items.table.contains_key(k) <==> before.items.table.contains_key(k) || k
                    == id
            &&& forall|k: u32|
                k != id ==> #[trigger] after.items.table[k] == before.items.table[k]
            &&& r is Ok <==> guess == id
            &&& match r {
                Ok(more) => {
                    &&& more@.descriptors == pending@.descriptors + seq![write_end]
                    &&& more@.write_pipe == Some(write_pipe)
                    &&& more@.read_pipe_id == Some(id)
                },
                Err(e) => e == RutabagaError::InvalidCrossDomainItemId,
            }
        }),
{
    assert(pending@.descriptors.push(write_end) =~= pending@.descriptors + seq![write_end]);
}

proof fn lemma_reaches_pipe<W>(
    start: ContextModel<W>,
    ctx: ContextModel<W>,
    cmd: CrossDomainSendReceive,
    n: int,
)
    requires
        0 <= n <= cmd.num_identifiers <= 28,
        ctx.resources == start.resources,
        forall|id: u32| #[trigger]
            ctx.items.table.contains_key(id) <==> start.items.table.contains_key(id)
                && !names_file_before(cmd, n, id),
        forall|id: u32| #[trigger]
            ctx.items.table.contains_key(id) ==> ctx.items.table[id] == start.items.table[id],
        !asks_before(cmd, n),
        forall|j: int| 0 <= j < n ==> #[trigger] is_found(start, cmd, j),
    ensures
        context::reaches_pipe(ctx, cmd, n) <==> exists|i: int|
            0 <= i < cmd.num_identifiers && #[trigger] is_first_pipe(start, cmd, i),
    decreases cmd.num_identifiers - n,
{
    if n < cmd.num_identifiers {
        lemma_before_next(cmd, n);
        let id = cmd.identifiers@[n];
        let id_type = cmd.identifier_types@[n];
        let (looked_up, action) = context::identifier_looked_up(ctx, id, id_type, false);
        if id_type == CROSS_DOMAIN_ID_TYPE_READ_PIPE {
            assert(is_first_pipe(start, cmd, n));
        } else if action is Ok {
            assert(is_found(start, cmd, n));
            lemma_reaches_pipe(start, looked_up, cmd, n + 1);
        } else {
            assert(!is_found(start, cmd, n));
            assert forall|i: int| 0 <= i < cmd.num_identifiers implies !#[trigger] is_first_pipe(
                start,
                cmd,
                i,
            ) by {
                if i <= n {
                    if i < n {
                        assert(cmd.identifier_types@[i] != CROSS_DOMAIN_ID_TYPE_READ_PIPE);
                    }
                } else if is_first_pipe(start, cmd, i) {
                    assert(is_found(start, cmd, n));
                }
            }
        }
    } else {
        assert forall|i: int| 0 <= i < cmd.num_identifiers implies !#[trigger] is_first_pipe(
            start,
            cmd,
            i,
        ) by {
            assert(cmd.identifier_types@[i] != CROSS_DOMAIN_ID_TYPE_READ_PIPE);
        }
    }
}

/// The identifier `i` of a send command is the first that asks for a pipe, and those before it name
/// something that can be sent.
pub open spec fn is_first_pipe<W>(
    ctx: ContextModel<W>,
    cmd: CrossDomainSendReceive,
    i: int,
) -> bool {
    &&& cmd.identifier_types@[i] == CROSS_DOMAIN_ID_TYPE_READ_PIPE
    &&& !asks_before(cmd, i)
    &&& forall|j: int| 0 <= j < i ==> #[trigger] is_found(ctx, cmd, j)
}

/// A send command comes to make a pipe where it asks for one and everything before that can be
/// sent, and only there.
pub proof fn law_pipe_is_made_where_it_is_reached<W>(
    ctx: &CrossDomainContext<W>,
    cmd: &CrossDomainSendReceive,
    r: bool,
)
    requires
        call_ensures(CrossDomainContext::<W>::makes_pipe, (ctx, cmd), r),
    ensures
        r <==> cmd.num_identifiers <= 28 && exists|i: int|
            0 <= i < cmd.num_identifiers && #[trigger] is_first_pipe(ctx@, *cmd, i),
{
    if cmd.num_identifiers <= 28 {
        lemma_reaches_pipe(ctx@, ctx@, *cmd, 0);
    }
}

// ---- events, files and sockets ----

/// An event that is there is polled under its own identifier by the worker of the last state;
/// nothing else can be. An item is not touched.
pub proof fn law_event_is_polled<W>(
    ctx: &mut CrossDomainContext<W>,
    cmd: &CrossDomainCreateEvent,
    r: Result<(), RutabagaError>,
    asking: &CrossDomainContext<W>,
    can: bool,
)
    requires
        call_ensures(CrossDomainContext::<W>::read_event_new, (ctx, cmd), r),
        call_ensures(CrossDomainContext::<W>::can_poll_event, (asking, cmd), can),
    ensures
        ({
            let (before, after) = (old(ctx)@, final(ctx)@);
            let table = before.items.table;
            &&& differs_in_states(before, after)
            &&& match r {
                Ok(_) => {
                    &&& table.contains_key(cmd.id) && table[cmd.id] is Event
                    &&& before.states.len() > 0 ==> has_one_more_job(
                        before,
                        after,
                        before.states.len() - 1,
                        CrossDomainJob::AddReadEvent(cmd.id),
                    )
                },
                Err(e) => {
                    &&& after == before
                    &&& if table.contains_key(cmd.id) {
                        !(table[cmd.id] is Event) && e == RutabagaError::InvalidCrossDomainItemType
                    } else {
                        e == RutabagaError::InvalidCrossDomainItemId
                    }
                },
            }
        }),
        ({
            let table = asking@.items.table;
            !can <==> table.contains_key(cmd.id) && table[cmd.id] is Event && (
            asking@.states.len() == 0 || asking@.resample_evt is None)
        }),
{
}

/// A file is asked for by the file system and the handle that the guest named, where its identifier
/// is free and files can be looked up; what is found is the item under that identifier.
pub proof fn law_imported_file_is_the_item<W>(
    ctx: &CrossDomainContext<W>,
    cmd: &CrossDomainImportVirtioFsHandle,
    r: Result<(u64, u64), RutabagaError>,
    later: &mut CrossDomainContext<W>,
    file: OwnedDescriptor,
    unit: (),
)
    requires
        call_ensures(CrossDomainContext::<W>::import_virtiofs_handle, (ctx, cmd), r),
        call_ensures(
            CrossDomainContext::<W>::imported_virtiofs_handle,
            (later, cmd, file),
            unit,
        ),
    ensures
        match r {
            Ok((fs_id, handle)) => {
                &&& fs_id == cmd.fs_id && handle == cmd.handle
                &&& !ctx@.items.table.contains_key(cmd.id)
                &&& ctx@.virtiofs_lookup
            },
            Err(e) => if ctx@.items.table.contains_key(cmd.id) {
                e == RutabagaError::InvalidCrossDomainItemId
            } else {
                &&& !ctx@.virtiofs_lookup
                &&& e == RutabagaError::InvalidCrossDomainState
            },
        },
        ({
            let (before, after) = (old(later)@, final(later)@);
            &&& differs_in_items(before, after)
            &&& after.items.descriptor_id == before.items.descriptor_id
            &&& after.items.read_pipe_id == before.items.read_pipe_id
            &&& after.items.table.contains_key(cmd.id)
            &&& after.items.table[cmd.id] == CrossDomainItem::RegularFile(file)
            &&& forall|k: u32|
                k != cmd.id ==> (#[trigger] after.items.table.contains_key(k)
                    <==> before.items.table.contains_key(k))
            &&& forall|k: u32|
                k != cmd.id ==> #[trigger] after.items.table[k] == before.items.table[k]
        }),
{
}

/// A socket is put up, or there is a reason why not.
pub open spec fn puts_its_socket_up<W>(
    before: ContextModel<W>,
    after: ContextModel<W>,
    sockets: Map<u128, Tube>,
    sockets_after: Map<u128, Tube>,
    cmd: CrossDomainAssignSocketUuid,
    r: Result<(), RutabagaError>,
) -> bool {
    let table = before.items.table;
    let uuid = wire::le_u128(cmd.socket_uuid@, 0);
    &&& differs_in_items(before, after)
    &&& lacks_item(before.items, after.items, cmd.id)
    &&& match r {
        Ok(_) => {
            &&& table.contains_key(cmd.id) && table[cmd.id] is Socket
            &&& sockets_after.contains_key(uuid)
            &&& platform::makes_tube(table[cmd.id]->Socket_0, Ok(sockets_after[uuid]))
            &&& platform::tube_object(sockets_after[uuid])
                == platform::descriptor_object(table[cmd.id]->Socket_0)
            &&& forall|k: u128|
                k != uuid ==> (#[trigger] sockets_after.contains_key(k)
                    <==> sockets.contains_key(k))
            &&& forall|k: u128|
                k != uuid ==> #[trigger] sockets_after[k] == sockets[k]
        },
        Err(e) => {
            &&& sockets_after == sockets
            &&& if !table.contains_key(cmd.id) {
                e == RutabagaError::InvalidCrossDomainItemId
            } else if !(table[cmd.id] is Socket) {
                e == RutabagaError::InvalidCrossDomainItemType
            } else {
                &&& e matches RutabagaError::MesaError(MesaError::Util(refusal))
                &&& platform::makes_tube(table[cmd.id]->Socket_0, Err(refusal))
            }
        },
    }
}

/// A received socket is put up for others as it is, under the number that its identifier spells;
/// whatever is under the identifier of the item is used up. It fails where there is no socket, and
/// where the system does not take the socket for a channel. The other sockets stay.
pub proof fn law_received_socket_is_put_up<W>(
    ctx: &mut CrossDomainContext<W>,
    cmd: &CrossDomainAssignSocketUuid,
    sockets: &mut InternalSockets,
    r: Result<(), RutabagaError>,
)
    requires
        call_ensures(CrossDomainContext::<W>::socket_assign_uuid, (ctx, cmd, sockets), r),
    ensures
        puts_its_socket_up(
            old(ctx)@,
            final(ctx)@,
            old(sockets)@,
            final(sockets)@,
            *cmd,
            r,
        ),
{
}

/// A socket is taken out from under its identifier; any other item there is used up.
pub proof fn law_socket_is_taken_out<W>(
    ctx: &mut CrossDomainContext<W>,
    id: u32,
    r: Result<OwnedDescriptor, RutabagaError>,
)
    requires
        call_ensures(CrossDomainContext::<W>::take_socket, (ctx, id), r),
    ensures
        differs_in_items(old(ctx)@, final(ctx)@),
        lacks_item(old(ctx)@.items, final(ctx)@.items, id),
        match r {
            Ok(socket) => old(ctx)@.items.table.contains_key(id) && old(ctx)@.items.table[id]
                == CrossDomainItem::Socket(socket),
            Err(e) => if old(ctx)@.items.table.contains_key(id) {
                !(old(ctx)@.items.table[id] is Socket) && e
                    == RutabagaError::InvalidCrossDomainItemType
            } else {
                e == RutabagaError::InvalidCrossDomainItemId
            },
        },
{
}

// ---- atomic memory sentinels ----

/// A watcher can be created under an identifier that is free, where files can be looked up. It
/// watches the first word of the file that the guest named, which it maps cached, to be read and
/// written.
pub proof fn law_new_watcher_watches_the_named_file<W>(
    ctx: &CrossDomainContext<W>,
    cmd: &CrossDomainCreateAtomicMemorySentinel,
    r: Result<WatchedMemory, RutabagaError>,
    manager: &AtomicMemorySentinelManager<W>,
    managed: Result<WatchedMemory, RutabagaError>,
)
    requires
        call_ensures(CrossDomainContext::<W>::atomic_memory_sentinel_new, (ctx, cmd), r),
        manager@ == ctx@.sentinels,
        call_ensures(
            AtomicMemorySentinelManager::<W>::create_watcher,
            (manager, cmd.id, cmd.fs_id, cmd.handle),
            managed,
        ),
    ensures
        managed == r,
        match r {
            Ok(watched) => {
                &&& watched.fs_id == cmd.fs_id
                &&& watched.handle == cmd.handle
                &&& watched.size == 4
                &&& watched.map_info == 0x31
                &&& !ctx@.sentinels.watchers.contains_key(cmd.id)
                &&& ctx@.sentinels.virtiofs_lookup
            },
            Err(e) => if ctx@.sentinels.watchers.contains_key(cmd.id) {
                e == RutabagaError::AlreadyInUse
            } else {
                &&& !ctx@.sentinels.virtiofs_lookup
                &&& e == RutabagaError::InvalidCrossDomainItemId
            },
        },
{
    assert(0x30u32 | 0x01u32 == 0x31u32) by (bit_vector);
}

/// A watcher that was created runs under its identifier, with its worker and its event, and the
/// event is polled by the worker of the last state under the same identifier. Without a state it
/// stays, and is not polled. No other watcher changes.
pub proof fn law_created_watcher_runs_and_is_polled<W>(
    ctx: &mut CrossDomainContext<W>,
    cmd: &CrossDomainCreateAtomicMemorySentinel,
    worker: W,
    evt: Event,
    polled_evt: Event,
    r: Result<(), RutabagaError>,
)
    requires
        call_ensures(
            CrossDomainContext::<W>::atomic_memory_sentinel_created,
            (ctx, cmd, worker, evt, polled_evt),
            r,
        ),
    ensures
        ({
            let (before, after) = (old(ctx)@, final(ctx)@);
            &&& is_running(after, cmd.id)
            &&& after.sentinels.watchers[cmd.id].worker == worker
            &&& after.sentinels.watchers[cmd.id].evt == evt
            &&& after.sentinels.virtiofs_lookup == before.sentinels.virtiofs_lookup
            &&& forall|k: u32| #[trigger]
                after.sentinels.watchers.contains_key(k)
                    <==> before.sentinels.watchers.contains_key(k) || k == cmd.id
            &&& forall|k: u32|
                k != cmd.id ==> #[trigger] after.sentinels.watchers[k]
                    == before.sentinels.watchers[k]
            &&& differs_in_states(ContextModel { sentinels: after.sentinels, ..before }, after)
            &&& r == (if before.states.len() > 0 {
                Ok(())
            } else {
                Err(RutabagaError::InvalidCrossDomainState)
            })
            &&& before.states.len() == 0 ==> after.states == before.states
            &&& before.states.len() > 0 ==> has_one_more_job(
                before,
                after,
                before.states.len() - 1,
                CrossDomainJob::AddAtomicMemorySentinel(cmd.id, polled_evt),
            )
        }),
{
}

/// A command to signal or to shut down a watcher is about the watcher with its identifier, and
/// fails where there is none. Shutting it down only marks it; no other watcher changes.
pub proof fn law_watcher_is_signalled_and_shut_down<W>(
    ctx: &CrossDomainContext<W>,
    signal: &CrossDomainSignalAtomicMemorySentinel,
    worker: Result<&W, RutabagaError>,
    later: &mut CrossDomainContext<W>,
    destroy: &CrossDomainDestroyAtomicMemorySentinel,
    r: Result<(), RutabagaError>,
)
    requires
        call_ensures(
            CrossDomainContext::<W>::atomic_memory_sentinel_signal,
            (ctx, signal),
            worker,
        ),
        call_ensures(
            CrossDomainContext::<W>::atomic_memory_sentinel_destroy,
            (later, destroy),
            r,
        ),
    ensures
        match worker {
            Ok(w) => {
                &&& ctx@.sentinels.watchers.contains_key(signal.id)
                &&& *w == ctx@.sentinels.watchers[signal.id].worker
            },
            Err(e) => {
                &&& !ctx@.sentinels.watchers.contains_key(signal.id)
                &&& e == RutabagaError::InvalidCrossDomainItemId
            },
        },
        ({
            let (before, after) = (old(later)@, final(later)@);
            let (old_watchers, watchers) = (before.sentinels.watchers, after.sentinels.watchers);
            &&& r == (if old_watchers.contains_key(destroy.id) {
                Ok(())
            } else {
                Err(RutabagaError::InvalidCrossDomainItemId)
            })
            &&& !is_running(after, destroy.id)
            &&& forall|k: u32| #[trigger]
                watchers.contains_key(k) <==> old_watchers.contains_key(k)
            &&& forall|k: u32| #[trigger]
                watchers.contains_key(k) ==> {
                    &&& watchers[k].worker == old_watchers[k].worker
                    &&& watchers[k].evt == old_watchers[k].evt
                    &&& k != destroy.id ==> watchers[k].shutdown == old_watchers[k].shutdown
                }
            &&& after == (ContextModel { sentinels: after.sentinels, ..before })
            &&& after.sentinels.virtiofs_lookup == before.sentinels.virtiofs_lookup
        }),
{
}

// ---- resources ----

/// Guest memory that is attached moves to the context, and a handle is shared with it, under the
/// identifier of the resource; a resource with neither is not attached. No other resource changes,
/// and nothing of the attached one but that its guest memory has moved.
pub proof fn law_resource_is_attached<W>(
    ctx: &mut CrossDomainContext<W>,
    resource: &mut RutabagaResource,
    unit: (),
)
    requires
        call_ensures(CrossDomainContext::<W>::attach, (ctx, resource), unit),
    ensures
        ({
            let (before, after) = (old(ctx)@, final(ctx)@);
            let id = old(resource).resource_id;
            let is_guest = old(resource).blob_mem == 1;
            &&& after == (ContextModel { resources: after.resources, ..before })
            &&& is_guest || old(resource).handle is Some ==> {
                &&& after.resources.contains_key(id)
                &&& after.resources[id].handle == (if is_guest {
                    None
                } else {
                    old(resource).handle
                })
                &&& after.resources[id].backing_iovecs == (if is_guest {
                    old(resource).backing_iovecs
                } else {
                    None
                })
                &&& forall|k: u32| #[trigger]
                    after.resources.contains_key(k) <==> before.resources.contains_key(k) || k
                        == id
                &&& forall|k: u32|
                    k != id ==> #[trigger] after.resources[k] == before.resources[k]
            }
            &&& !is_guest && old(resource).handle is None ==> after == before
            &&& *final(resource) == (RutabagaResource {
                backing_iovecs: final(resource).backing_iovecs,
                ..*old(resource)
            })
            &&& final(resource).backing_iovecs == (if is_guest {
                None
            } else {
                old(resource).backing_iovecs
            })
        }),
{
}

/// The resource that is detached is gone, and no other.
pub proof fn law_resource_is_detached<W>(
    ctx: &mut CrossDomainContext<W>,
    resource: &RutabagaResource,
    unit: (),
)
    requires
        call_ensures(CrossDomainContext::<W>::detach, (ctx, resource), unit),
    ensures
        ({
            let (before, after) = (old(ctx)@, final(ctx)@);
            &&& after == (ContextModel { resources: after.resources, ..before })
            &&& forall|k: u32| #[trigger]
                after.resources.contains_key(k) <==> before.resources.contains_key(k) && k
                    != resource.resource_id
            &&& forall|k: u32| #[trigger]
                after.resources.contains_key(k) ==> after.resources[k] == before.resources[k]
        }),
{
}

// ---- new fences and the end ----

/// A new fence on the ring for queries is to be signalled at once, as it is. One on the ring of the
/// channel waits for the worker of the last state, behind all its jobs. On any other ring it is
/// refused.
pub proof fn law_ring_decides_the_new_fence<W>(
    ctx: &mut CrossDomainContext<W>,
    fence: RutabagaFence,
    r: Result<FenceAction, RutabagaError>,
)
    requires
        call_ensures(CrossDomainContext::<W>::context_create_fence, (ctx, fence), r),
    ensures
        ({
            let (before, after) = (old(ctx)@, final(ctx)@);
            &&& fence.ring_idx == 0 ==> {
                &&& r == Ok::<FenceAction, RutabagaError>(FenceAction::Signal(fence))
                &&& after == before
            }
            &&& fence.ring_idx == 1 ==> {
                &&& r == Ok::<FenceAction, RutabagaError>(FenceAction::Queued)
                &&& differs_in_states(before, after)
                &&& before.states.len() == 0 ==> after == before
                &&& before.states.len() > 0 ==> has_one_more_job(
                    before,
                    after,
                    before.states.len() - 1,
                    CrossDomainJob::HandleFence(fence),
                )
            }
            &&& fence.ring_idx > 1 ==> {
                &&& r == Err::<FenceAction, RutabagaError>(
                    RutabagaError::MesaError(MesaError::WithContext("unexpected ring type")),
                )
                &&& after == before
            }
        }),
{
}

/// At the end the worker of the last state finds a last job behind all others, and its event is
/// handed out, once, to be signalled.
pub proof fn law_end_reaches_the_worker<W>(
    ctx: &mut CrossDomainContext<W>,
    r: Option<Event>,
    asking: &CrossDomainContext<W>,
    component: RutabagaComponentType,
)
    requires
        call_ensures(CrossDomainContext::<W>::finish, (ctx,), r),
        call_ensures(CrossDomainContext::<W>::component_type, (asking,), component),
    ensures
        component is CrossDomain,
        r == old(ctx)@.kill_evt,
        final(ctx)@.kill_evt is None,
        differs_in_states(
            ContextModel { kill_evt: None, ..old(ctx)@ },
            final(ctx)@,
        ),
        old(ctx)@.states.len() == 0 ==> final(ctx)@.states == old(ctx)@.states,
        old(ctx)@.states.len() > 0 ==> has_one_more_job(
            old(ctx)@,
            final(ctx)@,
            old(ctx)@.states.len() - 1,
            CrossDomainJob::Finish,
        ),
{
}

// ---- commands ----

/// Each command does to the context, to the internal sockets and for the host what its operation
/// promises, with the command and its data handed on as they are; commands that only ask leave
/// everything as it is.
pub proof fn law_command_is_its_operation<'a, W>(
    ctx: &mut CrossDomainContext<W>,
    sockets: &mut InternalSockets,
    command: CrossDomainCommand<&'a [u8]>,
    r: Result<CommandAction<'a>, RutabagaError>,
)
    requires
        call_ensures(CrossDomainContext::<W>::begin_command, (ctx, sockets, command), r),
        command matches CrossDomainCommand::Send(c, _) ==> (c.num_identifiers <= 28
            ==> pipe_can_be_numbered(old(ctx)@, c)),
    ensures
        ({
            let (before, after) = (old(ctx)@, final(ctx)@);
            let only_asks = after == before && final(sockets)@ == old(sockets)@;
            let (table, watchers) = (before.items.table, before.sentinels.watchers);
            &&& !(command is Init) && !(command is AssignSocketUuid) ==> final(sockets)@ == old(
                sockets
            )@
            &&& match command {
                CrossDomainCommand::Init(c) => gets_its_channel(
                    before,
                    after,
                    old(sockets)@,
                    final(sockets)@,
                    c,
                    match r {
                        Ok(CommandAction::Init(_, action)) => Ok(action),
                        Ok(_) => arbitrary(),
                        Err(e) => Err(e),
                    },
                ) && (r matches Ok(action) ==> action matches CommandAction::Init(begun, _) && begun
                    == c),
                CrossDomainCommand::GetImageRequirements(c) => {
                    &&& only_asks
                    &&& r matches Ok(CommandAction::GetImageRequirements(info))
                    &&& info.width == c.width && info.height == c.height
                    &&& info.drm_format == c.drm_format && info.flags == c.flags
                },
                CrossDomainCommand::Send(c, data) => collects_what_is_named(
                    before,
                    after,
                    c,
                    match r {
                        Ok(CommandAction::Send(connection, pending, _)) => Ok(
                            (connection, pending@),
                        ),
                        Ok(_) => arbitrary(),
                        Err(e) => Err(e),
                    },
                ) && (r matches Ok(action) ==> action matches CommandAction::Send(_, _, given)
                    && given == data),
                CrossDomainCommand::Poll => only_asks && r matches Ok(CommandAction::Done),
                CrossDomainCommand::Write(c, data) => takes_its_item(
                    before,
                    after,
                    c,
                    data@,
                    match r {
                        Ok(CommandAction::Write(_, action, _)) => Ok(action),
                        Ok(_) => arbitrary(),
                        Err(e) => Err(e),
                    },
                ) && (r matches Ok(action) ==> action matches CommandAction::Write(begun, _, given)
                    && begun == c && given == data),
                CrossDomainCommand::CreateAtomicMemorySentinel(c) => {
                    &&& only_asks
                    &&& match r {
                        Ok(CommandAction::CreateAtomicMemorySentinel(begun, watched)) => {
                            &&& begun == c
                            &&& watched.fs_id == c.fs_id && watched.handle == c.handle
                            &&& watched.size == 4 && watched.map_info == 0x31
                            &&& !watchers.contains_key(c.id) && before.sentinels.virtiofs_lookup
                        },
                        Err(e) => if watchers.contains_key(c.id) {
                            e == RutabagaError::AlreadyInUse
                        } else {
                            &&& e == RutabagaError::InvalidCrossDomainItemId
                            &&& !before.sentinels.virtiofs_lookup
                        },
                        _ => false,
                    }
                },
                CrossDomainCommand::SignalAtomicMemorySentinel(c) => {
                    &&& only_asks
                    &&& match r {
                        Ok(CommandAction::SignalAtomicMemorySentinel(id)) => id == c.id
                            && watchers.contains_key(c.id),
                        Err(e) => e == RutabagaError::InvalidCrossDomainItemId
                            && !watchers.contains_key(c.id),
                        _ => false,
                    }
                },
                CrossDomainCommand::DestroyAtomicMemorySentinel(c) => {
                    let after_watchers = after.sentinels.watchers;
                    &&& match r {
                        Ok(CommandAction::DestroyAtomicMemorySentinel(id)) => id == c.id
                            && watchers.contains_key(c.id),
                        Err(e) => e == RutabagaError::InvalidCrossDomainItemId
                            && !watchers.contains_key(c.id),
                        _ => false,
                    }
                    &&& !is_running(after, c.id)
                    &&& forall|k: u32| #[trigger]
                        after_watchers.contains_key(k) <==> watchers.contains_key(k)
                    &&& forall|k: u32| #[trigger]
                        after_watchers.contains_key(k) ==> {
                            &&& after_watchers[k].worker == watchers[k].worker
                            &&& after_watchers[k].evt == watchers[k].evt
                            &&& k != c.id ==> after_watchers[k].shutdown == watchers[k].shutdown
                        }
                    &&& after == (ContextModel { sentinels: after.sentinels, ..before })
                    &&& after.sentinels.virtiofs_lookup == before.sentinels.virtiofs_lookup
                },
                CrossDomainCommand::ReadCreateEvent(c) => {
                    &&& differs_in_states(before, after)
                    &&& match r {
                        Ok(CommandAction::ReadCreateEvent) => {
                            &&& table.contains_key(c.id) && table[c.id] is Event
                            &&& before.states.len() > 0 ==> has_one_more_job(
                                before,
                                after,
                                before.states.len() - 1,
                                CrossDomainJob::AddReadEvent(c.id),
                            )
                        },
                        Err(e) => {
                            &&& after == before
                            &&& if table.contains_key(c.id) {
                                !(table[c.id] is Event) && e
                                    == RutabagaError::InvalidCrossDomainItemType
                            } else {
                                e == RutabagaError::InvalidCrossDomainItemId
                            }
                        },
                        _ => false,
                    }
                },
                CrossDomainCommand::AssignSocketUuid(c) => puts_its_socket_up(
                    before,
                    after,
                    old(sockets)@,
                    final(sockets)@,
                    c,
                    match r {
                        Ok(_) => Ok(()),
                        Err(e) => Err(e),
                    },
                ) && (r matches Ok(action) ==> action is Done),
                CrossDomainCommand::ImportVirtioFsHandle(c) => {
                    &&& only_asks
                    &&& match r {
                        Ok(CommandAction::ImportVirtioFsHandle(begun, fs_id, handle)) => {
                            &&& begun == c && fs_id == c.fs_id && handle == c.handle
                            &&& !table.contains_key(c.id) && before.virtiofs_lookup
                        },
                        Err(e) => if table.contains_key(c.id) {
                            e == RutabagaError::InvalidCrossDomainItemId
                        } else {
                            e == RutabagaError::InvalidCrossDomainState && !before.virtiofs_lookup
                        },
                        _ => false,
                    }
                },
            }
        }),
{
    let (before, after) = (old(ctx)@, final(ctx)@);
    assert(0x30u32 | 0x01u32 == 0x31u32) by (bit_vector);
    match command {
        CrossDomainCommand::Init(c) => {
            let (_, _, action) = context::initialized(before, old(sockets)@, c);
            lemma_gets_its_channel(before, old(sockets)@, c);
        },
        CrossDomainCommand::Send(c, data) => {
            let (supplies, sent): (
                Seq<Supply>,
                Result<(Arc<Tube>, PendingModel), RutabagaError>,
            ) = choose|
                supplies: Seq<Supply>,
                sent: Result<(Arc<Tube>, PendingModel), RutabagaError>,
            | #[trigger]
                context::send_run(before, c, supplies, after, sent) && dispatch::is_left_to_send(
                    r,
                    sent,
                    data,
                );
            lemma_collects_what_is_named(before, c, supplies, after, sent);
        },
        CrossDomainCommand::Write(c, data) => {
            assert(after.items =~= before.items.without_item(c.identifier));
        },
        _ => {},
    }
}

/// A command can be begun unless it comes to make a pipe where the numbers of pipes are used up, or
/// has an event polled where there is no worker.
pub proof fn law_command_can_be_begun<'a, W>(
    ctx: &CrossDomainContext<W>,
    command: &CrossDomainCommand<&'a [u8]>,
    r: bool,
)
    requires
        call_ensures(CrossDomainContext::<W>::can_begin, (ctx, command), r),
    ensures
        !r <==> match *command {
            CrossDomainCommand::Send(c, _) => {
                &&& ctx@.items.read_pipe_id == 0xffff_ffff
                &&& c.num_identifiers <= 28
                &&& exists|i: int|
                    0 <= i < c.num_identifiers && #[trigger] is_first_pipe(ctx@, c, i)
            },
            CrossDomainCommand::ReadCreateEvent(c) => {
                &&& ctx@.items.table.contains_key(c.id) && ctx@.items.table[c.id] is Event
                &&& ctx@.states.len() == 0 || ctx@.resample_evt is None
            },
            _ => false,
        },
{
    if let CrossDomainCommand::Send(c, _) = *command {
        if c.num_identifiers <= 28 {
            lemma_reaches_pipe(ctx@, ctx@, c, 0);
        }
    }
}

// ---- watchers ----

/// The turns of a watcher thread. It signals once before it waits for what was loaded first,
/// whatever comes of that signal. What it loads after a wait is what it waits for next; it signals
/// after each load, and ends after that exactly where it was shut down or the signal failed.
pub proof fn law_watcher_thread_turns(
    initial_value: u32,
    new: AtomicMemorySentinelThread,
    first: SentinelAction,
    starting: &mut AtomicMemorySentinelThread,
    first_success: bool,
    unit: (),
    waiting: &mut AtomicMemorySentinelThread,
    loaded: u32,
    shutdown: bool,
    woken: &mut AtomicMemorySentinelThread,
    success: bool,
    started: SentinelAction,
    after_wake: SentinelAction,
    next: SentinelAction,
)
    requires
        call_ensures(AtomicMemorySentinelThread::new, (initial_value,), new),
        call_ensures(AtomicMemorySentinelThread::next_action, (&new,), first),
        *old(starting) == new,
        call_ensures(AtomicMemorySentinelThread::signalled, (starting, first_success), unit),
        call_ensures(AtomicMemorySentinelThread::next_action, (&*final(starting),), started),
        old(waiting).next() is Wait,
        call_ensures(AtomicMemorySentinelThread::run, (waiting, loaded, shutdown), unit),
        call_ensures(AtomicMemorySentinelThread::next_action, (&*final(waiting),), after_wake),
        *old(woken) == *final(waiting),
        call_ensures(AtomicMemorySentinelThread::signalled, (woken, success), unit),
        call_ensures(AtomicMemorySentinelThread::next_action, (&*final(woken),), next),
    ensures
        first is Signal,
        started == SentinelAction::Wait(initial_value),
        after_wake is Signal,
        shutdown || !success ==> next is Stop,
        !shutdown && success ==> next == SentinelAction::Wait(loaded),
{
}

/// What becomes of a watcher in the books: it is entered running; it is found with its worker and
/// its event; it is reported while it runs; it is marked when it is shut down, and gone when it is
/// removed. The other watchers are not touched by any of it.
pub proof fn law_watchers_are_kept<W>(
    has_files: bool,
    new: AtomicMemorySentinelManager<W>,
    adding: &mut AtomicMemorySentinelManager<W>,
    id: u32,
    worker: W,
    evt: Event,
    unit: (),
    removing: &mut AtomicMemorySentinelManager<W>,
    removed: Option<SentinelInstance<W>>,
    destroying: &mut AtomicMemorySentinelManager<W>,
    destroyed: Result<(), RutabagaError>,
)
    requires
        call_ensures(AtomicMemorySentinelManager::<W>::new, (has_files,), new),
        call_ensures(
            AtomicMemorySentinelManager::<W>::add_watcher,
            (adding, id, worker, evt),
            unit,
        ),
        call_ensures(AtomicMemorySentinelManager::<W>::remove_watcher, (removing, id), removed),
        call_ensures(
            AtomicMemorySentinelManager::<W>::destroy_watcher,
            (destroying, id),
            destroyed,
        ),
    ensures
        new@.watchers == Map::<u32, SentinelInstance<W>>::empty(),
        new@.virtiofs_lookup == has_files,
        ({
            let (before, after) = (old(adding)@, final(adding)@);
            &&& after.virtiofs_lookup == before.virtiofs_lookup
            &&& after.watchers.contains_key(id)
            &&& after.watchers[id].worker == worker
            &&& after.watchers[id].evt == evt
            &&& !after.watchers[id].shutdown
            &&& forall|k: u32| #[trigger]
                after.watchers.contains_key(k) <==> before.watchers.contains_key(k) || k == id
            &&& forall|k: u32| k != id ==> #[trigger] after.watchers[k] == before.watchers[k]
        }),
        ({
            let (before, after) = (old(removing)@, final(removing)@);
            &&& after.virtiofs_lookup == before.virtiofs_lookup
            &&& removed is Some <==> before.watchers.contains_key(id)
            &&& removed matches Some(watcher) ==> watcher == before.watchers[id]
            &&& forall|k: u32| #[trigger]
                after.watchers.contains_key(k) <==> before.watchers.contains_key(k) && k != id
            &&& forall|k: u32| #[trigger]
                after.watchers.contains_key(k) ==> after.watchers[k] == before.watchers[k]
        }),
        ({
            let (before, after) = (old(destroying)@, final(destroying)@);
            &&& after.virtiofs_lookup == before.virtiofs_lookup
            &&& destroyed == (if before.watchers.contains_key(id) {
                Ok(())
            } else {
                Err(RutabagaError::InvalidCrossDomainItemId)
            })
            &&& forall|k: u32| #[trigger]
                after.watchers.contains_key(k) <==> before.watchers.contains_key(k)
            &&& forall|k: u32| #[trigger]
                after.watchers.contains_key(k) ==> {
                    &&& after.watchers[k].worker == before.watchers[k].worker
                    &&& after.watchers[k].evt == before.watchers[k].evt
                    &&& after.watchers[k].shutdown == (k == id || before.watchers[k].shutdown)
                }
        }),
{
}

/// What is said of a watcher is about the one with its identifier. One that is not there counts as
/// shut down, has no worker and no event, and cannot be reported; one that was shut down is not
/// reported.
pub proof fn law_watchers_are_found<W>(
    manager: &AtomicMemorySentinelManager<W>,
    id: u32,
    is_shutdown: bool,
    evt: Option<&Event>,
    worker: Result<&W, RutabagaError>,
    report: Result<Option<CrossDomainSignalAtomicMemorySentinel>, RutabagaError>,
)
    requires
        call_ensures(AtomicMemorySentinelManager::<W>::is_shutdown, (manager, id), is_shutdown),
        call_ensures(AtomicMemorySentinelManager::<W>::get_event, (manager, id), evt),
        call_ensures(AtomicMemorySentinelManager::<W>::signal_watcher, (manager, id), worker),
        call_ensures(AtomicMemorySentinelManager::<W>::handle_event, (manager, id), report),
    ensures
        ({
            let watchers = manager@.watchers;
            &&& is_shutdown <==> !(watchers.contains_key(id) && !watchers[id].shutdown)
            &&& evt is Some <==> watchers.contains_key(id)
            &&& evt matches Some(e) ==> *e == watchers[id].evt
            &&& worker is Ok <==> watchers.contains_key(id)
            &&& worker matches Ok(w) ==> *w == watchers[id].worker
            &&& worker matches Err(e) ==> e == RutabagaError::InvalidCrossDomainItemId
            &&& report is Ok <==> watchers.contains_key(id)
            &&& report matches Err(e) ==> e == RutabagaError::InvalidCrossDomainItemId
            &&& report matches Ok(told) ==> (told is Some <==> !is_shutdown)
            &&& report matches Ok(Some(cmd)) ==> {
                &&& cmd.id == id && cmd.pad == 0
                &&& cmd.hdr.cmd == CROSS_DOMAIN_CMD_SIGNAL_ATOMIC_MEMORY_SENTINEL
                &&& cmd.hdr.ring_idx == 0 && cmd.hdr.cmd_size == 0 && cmd.hdr.pad == 0
            }
        }),
{
}

/// A watcher is shut down once it was marked so, and not before.
pub proof fn law_watcher_is_marked<W>(
    watcher: &mut SentinelInstance<W>,
    unit: (),
    asked: &SentinelInstance<W>,
    r: bool,
)
    requires
        call_ensures(SentinelInstance::<W>::shutdown, (watcher,), unit),
        call_ensures(SentinelInstance::<W>::is_shutdown, (asked,), r),
    ensures
        final(watcher).shutdown,
        final(watcher).worker == old(watcher).worker,
        final(watcher).evt == old(watcher).evt,
        r == asked.shutdown,
{
}

// ---- rings ----

/// The memory of a ring is the first stretch behind its resource. It is missing where the resource
/// is, or has nothing behind it.
pub proof fn law_ring_is_the_first_stretch(
    resources: &ContextResources,
    ring_id: u32,
    r: Result<RutabagaIovec, RutabagaError>,
    len: usize,
    room: Result<(), RutabagaError>,
)
    requires
        call_ensures(CrossDomainState::ring_memory, (resources, ring_id), r),
        call_ensures(CrossDomainState::check_read_room, (len,), room),
    ensures
        match r {
            Ok(ring) => {
                &&& resources@.contains_key(ring_id)
                &&& resources@[ring_id].backing_iovecs matches Some(iovecs) && ring == iovecs@[0]
            },
            Err(RutabagaError::InvalidResourceId) => !resources@.contains_key(ring_id),
            Err(e) => {
                &&& e == RutabagaError::InvalidIovec
                &&& resources@.contains_key(ring_id)
                &&& resources@[ring_id].backing_iovecs is None
            },
        },
        room is Ok <==> len >= 24,
        room matches Err(e) ==> e == RutabagaError::InvalidIovec,
{
}

/// A ring is as it was from `at` on.
pub open spec fn is_kept_from(before: Seq<u8>, after: Seq<u8>, at: int) -> bool {
    after.len() == before.len() && forall|k: int|
        at <= k < before.len() ==> #[trigger] after[k] == before[k]
}

/// The ring starts with the header of a read: the one given, but for the size, which is that of
/// what was read, and for the hang-up.
pub open spec fn starts_with_read(
    order: ByteOrder,
    ring: Seq<u8>,
    cmd_read: CrossDomainReadWrite,
    hang_up: u32,
    size: int,
) -> bool {
    &&& layouts::lies_as_header(order, ring, cmd_read.hdr)
    &&& layouts::is_32_at(order, ring, 8, cmd_read.identifier)
    &&& layouts::is_32_at(order, ring, 12, hang_up)
    &&& exists|n: u32| n == size && #[trigger] layouts::is_32_at(order, ring, 16, n)
    &&& layouts::is_32_at(order, ring, 20, cmd_read.pad)
}

proof fn lemma_starts_with_read(
    order: ByteOrder,
    before: Seq<u8>,
    after: Seq<u8>,
    header: CrossDomainReadWrite,
    cmd_read: CrossDomainReadWrite,
)
    requires
        before.len() >= 24,
        after == common::overlay(before, 0, header.encoded(order)),
        header.hdr == cmd_read.hdr && header.identifier == cmd_read.identifier,
        header.pad == cmd_read.pad,
    ensures
        starts_with_read(order, after, cmd_read, header.hang_up, header.opaque_data_size as int),
        is_kept_from(before, after, 24),
{
    header.decode_encoded(order, before.skip(24));
    assert(after =~= header.encoded(order) + before.skip(24));
    layouts::lemma_lies_as_read_write(order, after);
}

/// A ring takes a command and the data behind it, or as much of that as there is room for, and
/// tells when there was not enough; or the header of a read that tells how many bytes were read,
/// and that this was all where there were none, and the value of an event behind it. The rest of
/// the ring stays as it was.
pub proof fn law_ring_takes_what_is_written<'a, T: Wire>(
    order: ByteOrder,
    ring_write: RingWrite<'a, T>,
    ring: &mut [u8],
    r: Result<usize, RutabagaError>,
)
    requires
        call_ensures(CrossDomainState::write_to_ring::<T>, (order, ring_write, ring), r),
        ring_write matches RingWrite::WriteFromEvent(_, Some(_)) ==> old(ring)@.len() < 24 || old(
            ring
        )@.len() >= 32,
    ensures
        ({
            let (before, after) = (old(ring)@, final(ring)@);
            &&& after.len() == before.len()
            &&& match ring_write {
                RingWrite::Write(cmd, data) => {
                    let size = T::wire_size() as int;
                    let data_len = match data {
                        Some(data) => data@.len() as int,
                        None => 0,
                    };
                    &&& before.len() < size ==> after == before
                    &&& before.len() >= size ==> T::decoded(order, after) == cmd
                    &&& match r {
                        Ok(n) => {
                            &&& n == 0 && size + data_len <= before.len()
                            &&& data matches Some(data) ==> layouts::are_at(after, size, data@)
                            &&& is_kept_from(before, after, size + data_len)
                        },
                        Err(e) => {
                            &&& e == RutabagaError::InvalidIovec
                            &&& size + data_len > before.len()
                            &&& is_kept_from(before, after, size)
                        },
                    }
                },
                RingWrite::WriteFromPipe(cmd_read, read) => {
                    let bytes_read = match read {
                        Some(n) => n as int,
                        None => 0,
                    };
                    &&& is_kept_from(before, after, 24)
                    &&& match r {
                        Ok(n) => {
                            let hang_up = if bytes_read == 0 {
                                1
                            } else {
                                cmd_read.hang_up
                            };
                            &&& n == bytes_read && before.len() >= 24
                            &&& starts_with_read(order, after, cmd_read, hang_up, bytes_read)
                        },
                        Err(RutabagaError::InvalidIovec) => before.len() < 24 && after == before,
                        Err(RutabagaError::MesaError(MesaError::TryFromIntError(_))) => {
                            &&& before.len() >= 24 && after == before
                            &&& bytes_read > u32::MAX
                        },
                        Err(_) => false,
                    }
                },
                RingWrite::WriteFromEvent(cmd_read, value) => match r {
                    Ok(n) => {
                        &&& before.len() >= 24
                        &&& starts_with_read(
                            order,
                            after,
                            cmd_read,
                            cmd_read.hang_up,
                            n as int,
                        )
                        &&& match value {
                            Some(v) => {
                                &&& n == 8
                                &&& layouts::is_64_at(ByteOrder::Little, after, 24, v)
                                &&& is_kept_from(before, after, 32)
                            },
                            None => n == 0 && is_kept_from(before, after, 24),
                        }
                    },
                    Err(e) => {
                        &&& e == RutabagaError::InvalidIovec
                        &&& before.len() < 24 && after == before
                    },
                },
            }
        }),
{
    broadcast use wire::group_bytes_len;

    let (before, after) = (old(ring)@, final(ring)@);
    match ring_write {
        RingWrite::Write(cmd, data) => {
            let size = T::wire_size() as int;
            if before.len() >= size {
                cmd.decode_encoded(order, after.skip(size));
                assert(after =~= cmd.encoded(order) + after.skip(size));
            }
        },
        RingWrite::WriteFromPipe(cmd_read, read) => {
            let bytes_read: usize = match read {
                Some(n) => n,
                None => 0,
            };
            if before.len() >= 24 && bytes_read <= u32::MAX {
                let header = common::read_header(cmd_read, bytes_read == 0, bytes_read as int);
                lemma_starts_with_read(order, before, after, header, cmd_read);
            }
        },
        RingWrite::WriteFromEvent(cmd_read, value) => if before.len() >= 24 {
            match value {
                Some(v) => {
                    let with_value = common::overlay(
                        before,
                        24,
                        wire::u64_bytes(ByteOrder::Little, v),
                    );
                    let header = common::read_header(cmd_read, false, 8);
                    lemma_starts_with_read(order, with_value, after, header, cmd_read);
                    assert(after.subrange(24, 32) =~= wire::u64_bytes(ByteOrder::Little, v));
                    wire::lemma_read_u64(ByteOrder::Little, after, 24, v);
                    layouts::lemma_64_at(ByteOrder::Little, after, 24);
                },
                None => {
                    let header = common::read_header(cmd_read, false, 0);
                    lemma_starts_with_read(order, before, after, header, cmd_read);
                },
            }
        },
    }
}

// ---- the component ----

/// A component has the paths and the look-up that it was started with, and a context of it has the
/// same paths and the same look-up, and nothing else.
pub proof fn law_context_starts_with_the_paths_only<W>(
    paths: Option<Vec<RutabagaPath>>,
    has_files: bool,
    component: CrossDomain,
    ctx: CrossDomainContext<W>,
)
    requires
        call_ensures(CrossDomain::init, (paths, has_files), component),
        call_ensures(CrossDomain::create_context::<W>, (&component,), ctx),
    ensures
        paths is Some <==> ctx.paths is Some,
        paths matches Some(given) ==> ctx.paths matches Some(kept) && {
            &&& kept@.len() == given@.len()
            &&& forall|i: int|
                0 <= i < given@.len() ==> (#[trigger] kept@[i]).path@ == given@[i].path@
                    && kept@[i].path_type == given@[i].path_type
        },
        ctx@.virtiofs_lookup == has_files,
        ctx@.sentinels.virtiofs_lookup == has_files,
        forall|k: u32| !(#[trigger] ctx@.sentinels.watchers.contains_key(k)),
        forall|k: u32| !(#[trigger] ctx@.items.table.contains_key(k)),
        forall|k: u32| !(#[trigger] ctx@.resources.contains_key(k)),
        ctx@.items.descriptor_id == 1,
        ctx@.items.read_pipe_id == 0x8000_0000,
        ctx@.states.len() == 0,
        ctx@.resample_evt is None && ctx@.kill_evt is None,
{
}

/// The capability set has the announced size. The guest finds in it the version, the flags of the
/// allocator, and the bit of a channel exactly where a path serves it.
pub proof fn law_capset_tells_what_is_offered(
    component: &CrossDomain,
    capset_id: u32,
    info: (u32, u32),
    version: u32,
    dmabuf: bool,
    external: bool,
    order: ByteOrder,
    capset: Vec<u8>,
    channel_type: u32,
)
    requires
        call_ensures(CrossDomain::get_capset_info, (component, capset_id), info),
        call_ensures(
            CrossDomain::get_capset,
            (component, capset_id, version, dmabuf, external, order),
            capset,
        ),
        component.paths matches Some(paths) ==> forall|i: int|
            0 <= i < paths@.len() ==> (#[trigger] paths@[i]).path_type < 32,
        channel_type < 32,
    ensures
        info.0 == 0,
        info.1 == capset@.len() == 16,
        layouts::is_32_at(order, capset@, 0, 1),
        exists|channels: u32| #[trigger]
            layouts::is_32_at(order, capset@, 4, channels) && (channels & (1u32 << channel_type)
                != 0 <==> {
                &&& component.paths matches Some(paths)
                &&& exists|i: int|
                    0 <= i < paths@.len() && (#[trigger] paths@[i]).path_type == channel_type
            }),
        layouts::is_32_at(
            order,
            capset@,
            8,
            if dmabuf {
                1
            } else {
                0
            },
        ),
        layouts::is_32_at(
            order,
            capset@,
            12,
            if external {
                1
            } else {
                0
            },
        ),
{
    let caps = component::capabilities(component.paths, dmabuf, external);
    caps.decode_encoded(order, Seq::empty());
    assert(capset@ + Seq::empty() =~= capset@);
    layouts::lemma_lies_as_capabilities(order, capset@);
    let channels = caps.supported_channels;
    assert(layouts::is_32_at(order, capset@, 4, channels));
    match component.paths {
        Some(paths) => laws::law_supported_channels_are_those_of_the_paths(paths@, channel_type),
        None => assert(0u32 & (1u32 << channel_type) == 0) by (bit_vector),
    }
}

/// The component makes resources of the guest's memory, or of what can be mapped, with everything
/// that it was given; it refuses others.
pub proof fn law_guest_memory_is_a_resource(
    component: &CrossDomain,
    resource_id: u32,
    blob: &ResourceCreateBlob,
    iovecs: Option<Vec<RutabagaIovec>>,
    r: Result<RutabagaResource, RutabagaError>,
)
    requires
        call_ensures(CrossDomain::create_blob, (component, resource_id, blob, iovecs), r),
    ensures
        match r {
            Ok(resource) => {
                &&& blob.blob_mem == 1 || blob.blob_flags == 1
                &&& resource.resource_id == resource_id
                &&& resource.backing_iovecs == iovecs
                &&& resource.blob && resource.blob_mem == blob.blob_mem
                &&& resource.blob_flags == blob.blob_flags && resource.size == blob.size
                &&& resource.handle is None && resource.map_info is None
                &&& resource.info_3d is None && resource.vulkan_info is None
                &&& resource.component_mask == 0x08
            },
            Err(e) => {
                &&& blob.blob_mem != 1 && blob.blob_flags != 1
                &&& e == RutabagaError::MagmaGpuError(
                    MagmaGpuError::WithContext("expected only guest memory blobs"),
                )
            },
        },
{
}

// ---- handles ----

/// A copy of a handle is of the same kind, with the same type or metadata, and its descriptors are
/// for the same objects in the same order. There is none only where the system refused one of them.
pub proof fn law_copied_handle_is_for_the_same(
    handle: &RutabagaHandle,
    r: Result<RutabagaHandle, RutabagaError>,
    memory: &MagmaGpuHandle,
    memory_copy: Result<MagmaGpuHandle, RutabagaError>,
    buffer: &AhbInfo,
    buffer_copy: Result<AhbInfo, RutabagaError>,
)
    requires
        call_ensures(RutabagaHandle::try_clone, (handle,), r),
        call_ensures(MagmaGpuHandle::try_clone, (memory,), memory_copy),
        call_ensures(AhbInfo::try_clone, (buffer,), buffer_copy),
    ensures
        match (*handle, r) {
            (RutabagaHandle::MagmaGpuHandle(h), Ok(RutabagaHandle::MagmaGpuHandle(c))) =>
                is_same_memory(h, c),
            (RutabagaHandle::AhbInfo(h), Ok(RutabagaHandle::AhbInfo(c))) => is_same_buffer(h, c),
            (_, Ok(_)) => false,
            (RutabagaHandle::MagmaGpuHandle(h), Err(e)) => {
                &&& is_invalid_handle(e)
                &&& platform::is_refused(h.os_handle)
            },
            (RutabagaHandle::AhbInfo(h), Err(e)) => {
                &&& is_invalid_handle(e)
                &&& exists|i: int|
                    0 <= i < h.fds@.len() && platform::is_refused(#[trigger] h.fds@[i])
            },
        },
        match memory_copy {
            Ok(c) => is_same_memory(*memory, c),
            Err(e) => is_invalid_handle(e) && platform::is_refused(memory.os_handle),
        },
        match buffer_copy {
            Ok(c) => is_same_buffer(*buffer, c),
            Err(e) => {
                &&& is_invalid_handle(e)
                &&& exists|i: int|
                    0 <= i < buffer.fds@.len() && platform::is_refused(#[trigger] buffer.fds@[i])
            },
        },
{
}

/// Two handles are for the same memory, and of the same type.
pub open spec fn is_same_memory(a: MagmaGpuHandle, b: MagmaGpuHandle) -> bool {
    &&& a.handle_type == b.handle_type
    &&& platform::descriptor_object(a.os_handle) == platform::descriptor_object(b.os_handle)
}

/// Two handles are for the same buffer.
pub open spec fn is_same_buffer(a: AhbInfo, b: AhbInfo) -> bool {
    &&& a.metadata@.len() == b.metadata@.len()
    &&& forall|i: int| 0 <= i < a.metadata@.len() ==> #[trigger] a.metadata@[i] == b.metadata@[i]
    &&& a.fds@.len() == b.fds@.len()
    &&& forall|i: int|
        0 <= i < a.fds@.len() ==> platform::descriptor_object(#[trigger] a.fds@[i])
            == platform::descriptor_object(b.fds@[i])
}

/// The error is the one for an invalid handle.
pub open spec fn is_invalid_handle(e: RutabagaError) -> bool {
    e == RutabagaError::MagmaGpuError(MagmaGpuError::InvalidMagmaHandle)
}

/// A handle that was turned into the general form comes back as it was, and not as the other kind.
pub proof fn law_handle_comes_back(
    memory: MagmaGpuHandle,
    of_memory: RutabagaHandle,
    memory_back: Result<MagmaGpuHandle, MagmaGpuError>,
    memory_other: Result<AhbInfo, MagmaGpuError>,
    seen: Option<&MagmaGpuHandle>,
    buffer: AhbInfo,
    of_buffer: RutabagaHandle,
    buffer_back: Result<AhbInfo, MagmaGpuError>,
    buffer_other: Result<MagmaGpuHandle, MagmaGpuError>,
    unseen: Option<&MagmaGpuHandle>,
)
    requires
        call_ensures(<RutabagaHandle as From<MagmaGpuHandle>>::from, (memory,), of_memory),
        call_ensures(
            <MagmaGpuHandle as TryFrom<RutabagaHandle>>::try_from,
            (of_memory,),
            memory_back,
        ),
        call_ensures(<AhbInfo as TryFrom<RutabagaHandle>>::try_from, (of_memory,), memory_other),
        call_ensures(RutabagaHandle::as_mesa_handle, (&of_memory,), seen),
        call_ensures(<RutabagaHandle as From<AhbInfo>>::from, (buffer,), of_buffer),
        call_ensures(<AhbInfo as TryFrom<RutabagaHandle>>::try_from, (of_buffer,), buffer_back),
        call_ensures(
            <MagmaGpuHandle as TryFrom<RutabagaHandle>>::try_from,
            (of_buffer,),
            buffer_other,
        ),
        call_ensures(RutabagaHandle::as_mesa_handle, (&of_buffer,), unseen),
    ensures
        memory_back == Ok::<MagmaGpuHandle, MagmaGpuError>(memory),
        memory_other == Err::<AhbInfo, MagmaGpuError>(MagmaGpuError::InvalidMagmaHandle),
        seen matches Some(h) && *h == memory,
        buffer_back == Ok::<AhbInfo, MagmaGpuError>(buffer),
        buffer_other == Err::<MagmaGpuHandle, MagmaGpuError>(MagmaGpuError::InvalidMagmaHandle),
        unseen is None,
{
}

/// No socket is up at first.
pub proof fn law_no_socket_is_up_at_first(sockets: InternalSockets)
    requires
        call_ensures(InternalSockets::new, (), sockets),
    ensures
        forall|uuid: u128| !(#[trigger] sockets@.contains_key(uuid)),
{
}

} // verus!
