//! The worker of a context: how it turns jobs and polled events into answers to the guest.

use std::sync::Arc;

use magma_gpu::util::Event;
use magma_gpu::util::OwnedDescriptor;
use magma_gpu::util::ReadPipe;
use magma_gpu::util::Tube;

use vstd::prelude::*;

use crate::atomic_memory_sentinel_manager;
use crate::atomic_memory_sentinel_manager::SentinelInstance;
use crate::common::add_item;
use crate::common::CrossDomainItem;
use crate::common::CrossDomainItems;
use crate::common::CrossDomainJob;
use crate::common::ItemsModel;
use crate::common::NextJob;
use crate::common::StateModel;
use crate::common::CROSS_DOMAIN_CONTEXT_CHANNEL_ID;
use crate::common::CROSS_DOMAIN_KILL_ID;
use crate::common::CROSS_DOMAIN_RESAMPLE_ID;
use crate::context::ContextModel;
use crate::context::CrossDomainContext;
use crate::cross_domain_protocol;
use crate::cross_domain_protocol::CrossDomainHeader;
use crate::cross_domain_protocol::CrossDomainReadWrite;
use crate::cross_domain_protocol::CrossDomainSendReceive;
use crate::cross_domain_protocol::CrossDomainSignalAtomicMemorySentinel;
use crate::cross_domain_protocol::CROSS_DOMAIN_ATOMIC_MEMORY_SENTINEL_START;
use crate::cross_domain_protocol::CROSS_DOMAIN_CMD_READ;
use crate::cross_domain_protocol::CROSS_DOMAIN_CMD_RECEIVE;
use crate::cross_domain_protocol::CROSS_DOMAIN_ID_TYPE_EVENT;
use crate::cross_domain_protocol::CROSS_DOMAIN_ID_TYPE_SOCKET;
use crate::cross_domain_protocol::CROSS_DOMAIN_ID_TYPE_VIRTGPU_BLOB;
use crate::cross_domain_protocol::CROSS_DOMAIN_ID_TYPE_WRITE_PIPE;
use crate::cross_domain_protocol::CROSS_DOMAIN_MAX_IDENTIFIERS;
use crate::cross_domain_protocol::CROSS_DOMAIN_PIPE_READ_START;
use crate::handle::MagmaGpuHandle;
use crate::platform;
use crate::platform::event_from_handle;
use crate::platform::report_type;
use crate::platform::write_pipe_from_descriptor;
use crate::platform::DescriptorType;
use crate::platform::WaitEvent;
use crate::platform::MAGMA_GPU_HANDLE_TYPE_SIGNAL_EVENT_FD;
use crate::rutabaga_utils;
use crate::rutabaga_utils::MagmaGpuError;
use crate::rutabaga_utils::RutabagaError;
use crate::rutabaga_utils::RutabagaFence;

verus! {

pub const CROSS_DOMAIN_DEFAULT_BUFFER_SIZE: usize = 4096;

/// The longest message that fits a buffer behind its command.
pub const CROSS_DOMAIN_MAX_SEND_RECV_SIZE: usize = CROSS_DOMAIN_DEFAULT_BUFFER_SIZE - 352;

/// The worker, with the number of the state that it was started for, the fence that it is handling
/// and the buffer that it receives messages into.
pub struct CrossDomainWorker {
    pub state: usize,
    pub fence: Option<RutabagaFence>,
    pub receive_buf: Vec<u8>,
}

// ---- jobs ----

/// What a job comes to.
pub enum WorkerAction<'a> {
    /// Wait for events, and give them to `handle_fence`.
    HandleFence,
    /// Poll this pipe under this connection.
    WatchPipe(u64, &'a ReadPipe),
    /// Poll this event under this connection.
    WatchEvent(u64, &'a Event),
    /// Poll the event of a new watcher under this connection.
    WatchSentinel(u64, Event),
    /// Nothing more: the worker ends.
    Stop,
}

/// What a job comes to. An item is polled under its own identifier.
pub open spec fn job_action(items: ItemsModel, job: CrossDomainJob) -> Result<
    WorkerAction<'static>,
    RutabagaError,
> {
    match job {
        CrossDomainJob::HandleFence(_) => Ok(WorkerAction::HandleFence),
        CrossDomainJob::AddReadPipe(id) => if !items.table.contains_key(id) {
            Err(RutabagaError::InvalidCrossDomainItemId)
        } else {
            match items.table[id] {
                CrossDomainItem::WaylandReadPipe(read_pipe) => Ok(
                    WorkerAction::WatchPipe(id as u64, &read_pipe),
                ),
                _ => Err(RutabagaError::InvalidCrossDomainItemType),
            }
        },
        CrossDomainJob::AddReadEvent(id) => if !items.table.contains_key(id) {
            Err(RutabagaError::InvalidCrossDomainItemId)
        } else {
            match items.table[id] {
                CrossDomainItem::Event(event) => Ok(WorkerAction::WatchEvent(id as u64, &event)),
                _ => Err(RutabagaError::InvalidCrossDomainItemType),
            }
        },
        CrossDomainJob::AddAtomicMemorySentinel(id, evt) => Ok(
            WorkerAction::WatchSentinel(id as u64, evt),
        ),
        CrossDomainJob::Finish => Ok(WorkerAction::Stop),
    }
}

impl CrossDomainWorker {
    /// A worker for the state `state` of its context.
    pub fn new(state: usize) -> (r: CrossDomainWorker)
        ensures
            r.state == state,
            r.fence is None,
            r.receive_buf@ == Seq::new(CROSS_DOMAIN_MAX_SEND_RECV_SIZE as nat, |i: int| 0u8),
    {
        CrossDomainWorker {
            state,
            fence: None,
            receive_buf: vec![0u8; CROSS_DOMAIN_MAX_SEND_RECV_SIZE],
        }
    }

    /// Takes the oldest job of the worker.
    pub fn wait_for_job<W>(&self, ctx: &mut CrossDomainContext<W>) -> (r: NextJob)
        requires
            self.state < old(ctx)@.states.len(),
        ensures
            ({
                let n = self.state as int;
                let state = old(ctx)@.states[n];
                match state.jobs {
                    None => r is Closed && final(ctx)@ == old(ctx)@,
                    Some(queue) => if queue.len() == 0 {
                        r is Wait && final(ctx)@ == old(ctx)@
                    } else {
                        &&& r == NextJob::Job(queue[0])
                        &&& final(ctx)@ == (ContextModel {
                            states: old(ctx)@.states.update(
                                n,
                                StateModel { jobs: Some(queue.skip(1)), ..state },
                            ),
                            ..old(ctx)@
                        })
                    },
                }
            }),
    {
        let r = ctx.states[self.state].wait_for_job();
        assert(ctx@ =~= (ContextModel {
            states: old(ctx)@.states.update(self.state as int, ctx@.states[self.state as int]),
            ..old(ctx)@
        }));
        r
    }

    /// The channel from which the worker receives messages.
    pub fn receive_msg<W>(&self, ctx: &CrossDomainContext<W>) -> (r: Result<
        Arc<Tube>,
        RutabagaError,
    >)
        requires
            self.state < ctx@.states.len(),
        ensures
            r == (match ctx@.states[self.state as int].connection {
                Some(connection) => Ok(connection),
                None => Err(RutabagaError::InvalidCrossDomainChannel),
            }),
    {
        ctx.states[self.state].receive_msg()
    }

    /// The ring to which the worker writes.
    pub fn channel_ring_id<W>(&self, ctx: &CrossDomainContext<W>) -> (r: u32)
        requires
            self.state < ctx@.states.len(),
        ensures
            r == ctx@.states[self.state as int].channel_ring_id,
    {
        ctx.states[self.state].channel_ring_id
    }

    /// One turn of the worker, on a job from the queue. A fence is taken in hand. An error ends
    /// the worker.
    pub fn run<'a>(&mut self, items: &'a CrossDomainItems, job: CrossDomainJob) -> (r: Result<
        WorkerAction<'a>,
        RutabagaError,
    >)
        requires
            old(self).fence is None,
        ensures
            r == job_action(items@, job),
            *final(self) == (CrossDomainWorker {
                fence: match job {
                    CrossDomainJob::HandleFence(fence) => Some(fence),
                    _ => None,
                },
                ..*old(self)
            }),
    {
        match job {
            CrossDomainJob::HandleFence(fence) => {
                self.fence = Some(fence);
                Ok(WorkerAction::HandleFence)
            },
            CrossDomainJob::AddReadPipe(read_pipe_id) => match items.table.get(&read_pipe_id) {
                None => Err(RutabagaError::InvalidCrossDomainItemId),
                Some(CrossDomainItem::WaylandReadPipe(read_pipe)) => Ok(
                    WorkerAction::WatchPipe(read_pipe_id as u64, read_pipe),
                ),
                Some(_) => Err(RutabagaError::InvalidCrossDomainItemType),
            },
            CrossDomainJob::AddReadEvent(efd_id) => match items.table.get(&efd_id) {
                None => Err(RutabagaError::InvalidCrossDomainItemId),
                Some(CrossDomainItem::Event(event)) => Ok(
                    WorkerAction::WatchEvent(efd_id as u64, event),
                ),
                Some(_) => Err(RutabagaError::InvalidCrossDomainItemType),
            },
            CrossDomainJob::AddAtomicMemorySentinel(id, recv) => Ok(
                WorkerAction::WatchSentinel(id as u64, recv),
            ),
            CrossDomainJob::Finish => Ok(WorkerAction::Stop),
        }
    }
}

// ---- fences ----

/// What is to be done about the first of the events that were waited for. Only one event can be
/// processed at a time, because it is answered with the one fence at hand: signalling the fence
/// lets the guest access the ring, so the guest has to make a new fence before polling can go on.
/// Once it is done, `settle_fence` says what becomes of the fence.
#[derive(Copy, Clone, Debug, PartialEq, Eq)]
pub enum FenceRoute {
    /// There was no event: the fence is given up.
    Idle,
    /// A message can be received: give it to `process_receive` and write the answer to the channel
    /// ring.
    Receive,
    /// Descriptors are to be added to the polled ones: clear the resample event.
    Resample,
    /// The worker is to end.
    Kill,
    /// The watcher with this identifier woke up: see `handle_sentinel_event`.
    Sentinel(u32),
    /// The item with this identifier can be read or was hung up: see `handle_item_event`.
    Item(u32),
}

/// What is to be done about a connection on which something happened.
pub open spec fn connection_route(connection_id: u64) -> Result<FenceRoute, RutabagaError> {
    if connection_id == CROSS_DOMAIN_CONTEXT_CHANNEL_ID {
        Ok(FenceRoute::Receive)
    } else if connection_id == CROSS_DOMAIN_RESAMPLE_ID {
        Ok(FenceRoute::Resample)
    } else if connection_id == CROSS_DOMAIN_KILL_ID {
        Ok(FenceRoute::Kill)
    } else if CROSS_DOMAIN_ATOMIC_MEMORY_SENTINEL_START <= connection_id
        < CROSS_DOMAIN_PIPE_READ_START {
        Ok(FenceRoute::Sentinel(connection_id as u32))
    } else {
        match rutabaga_utils::u32_of_u64(connection_id) {
            Ok(id) => Ok(FenceRoute::Item(id)),
            Err(e) => Err(RutabagaError::MagmaGpuError(MagmaGpuError::TryFromIntError(e))),
        }
    }
}

/// What becomes of the context and of the fence in hand of the worker of the state `n`, once what a
/// route asks for is done. Where something was written for the guest, or the worker is to end, the
/// fence is signalled; otherwise it is queued again behind all other jobs of the worker. A watcher
/// that was shut down is removed.
pub open spec fn fence_settled<W>(
    ctx: ContextModel<W>,
    n: int,
    fence: RutabagaFence,
    route: FenceRoute,
) -> (ContextModel<W>, Option<RutabagaFence>) {
    let requeued = ctx.with_job_at(n, CrossDomainJob::HandleFence(fence));
    match route {
        FenceRoute::Idle => (ctx, None),
        FenceRoute::Receive => (ctx, Some(fence)),
        FenceRoute::Resample => (requeued, None),
        FenceRoute::Kill => (ctx, Some(fence)),
        FenceRoute::Sentinel(id) => if ctx.sentinels.is_shutdown(id) {
            (ContextModel { sentinels: ctx.sentinels.without_watcher(id), ..requeued }, None)
        } else {
            (ctx, Some(fence))
        },
        FenceRoute::Item(_) => (ctx, Some(fence)),
    }
}

/// What is to be done about a watcher that woke up.
pub enum SentinelTurn {
    /// It was shut down: stop polling its event, where there is one.
    Forget,
    /// Clear its event and write the command to the channel ring.
    Report(CrossDomainSignalAtomicMemorySentinel),
}

/// An item that is to be read into the channel ring, with the command to write before the data.
pub enum ItemRead<'a> {
    Pipe(&'a ReadPipe, CrossDomainReadWrite),
    Event(&'a Event, CrossDomainReadWrite),
}

/// The command for data that was read from the item `id`.
pub open spec fn read_command(id: u32) -> CrossDomainReadWrite {
    CrossDomainReadWrite {
        hdr: CrossDomainHeader {
            cmd: CROSS_DOMAIN_CMD_READ,
            ..cross_domain_protocol::zero_header()
        },
        identifier: id,
        hang_up: 0,
        opaque_data_size: 0,
        pad: 0,
    }
}

/// How an item is read.
pub open spec fn item_read(items: ItemsModel, id: u32) -> Result<ItemRead<'static>, RutabagaError> {
    if !items.table.contains_key(id) {
        Err(RutabagaError::InvalidCrossDomainItemId)
    } else {
        match items.table[id] {
            CrossDomainItem::WaylandReadPipe(read_pipe) => Ok(
                ItemRead::Pipe(&read_pipe, read_command(id)),
            ),
            CrossDomainItem::Event(event) => Ok(ItemRead::Event(&event, read_command(id))),
            _ => Err(RutabagaError::InvalidCrossDomainItemType),
        }
    }
}

impl CrossDomainWorker {
    /// Decides what to do about the events that were waited for.
    pub fn handle_fence(&mut self, events: &[WaitEvent]) -> (r: Result<FenceRoute, RutabagaError>)
        requires
            old(self).fence is Some,
        ensures
            if events@.len() == 0 {
                &&& r == Ok::<FenceRoute, RutabagaError>(FenceRoute::Idle)
                &&& *final(self) == (CrossDomainWorker { fence: None, ..*old(self) })
            } else {
                &&& r == connection_route(events@[0].connection_id)
                &&& *final(self) == *old(self)
            },
    {
        if events.len() == 0 {
            self.fence = None;
            return Ok(FenceRoute::Idle);
        }
        let id: u64 = events[0].connection_id;
        if id == CROSS_DOMAIN_CONTEXT_CHANNEL_ID {
            Ok(FenceRoute::Receive)
        } else if id == CROSS_DOMAIN_RESAMPLE_ID {
            Ok(FenceRoute::Resample)
        } else if id == CROSS_DOMAIN_KILL_ID {
            Ok(FenceRoute::Kill)
        } else if id >= CROSS_DOMAIN_ATOMIC_MEMORY_SENTINEL_START as u64 && id
            < CROSS_DOMAIN_PIPE_READ_START as u64 {
            Ok(FenceRoute::Sentinel(id as u32))
        } else {
            match u32::try_from(id) {
                Ok(item_id) => Ok(FenceRoute::Item(item_id)),
                Err(e) => Err(RutabagaError::MagmaGpuError(MagmaGpuError::TryFromIntError(e))),
            }
        }
    }

    /// Decides what to do about a watcher that woke up.
    pub fn handle_sentinel_event<W>(ctx: &CrossDomainContext<W>, id: u32) -> (r: SentinelTurn)
        ensures
            r == (if ctx@.sentinels.is_shutdown(id) {
                SentinelTurn::Forget
            } else {
                SentinelTurn::Report(atomic_memory_sentinel_manager::signal_command(id))
            }),
    {
        if ctx.sentinel_manager.is_shutdown(id) {
            return SentinelTurn::Forget;
        }
        match ctx.sentinel_manager.handle_event(id) {
            Ok(Some(cmd_memory_watcher)) => SentinelTurn::Report(cmd_memory_watcher),
            _ => SentinelTurn::Forget,
        }
    }

    /// The fence in hand, which is to be signalled now: what the guest waits for is in its ring.
    pub fn signal_fence(&mut self) -> (r: RutabagaFence)
        requires
            old(self).fence is Some,
        ensures
            old(self).fence == Some(r),
            *final(self) == (CrossDomainWorker { fence: None, ..*old(self) }),
    {
        self.fence.take().unwrap()
    }

    /// Queues the fence in hand again, behind all other jobs of the worker: nothing was written for
    /// the guest.
    pub fn requeue_fence<W>(&mut self, ctx: &mut CrossDomainContext<W>)
        requires
            old(self).fence is Some,
            old(self).state < old(ctx)@.states.len(),
        ensures
            *final(self) == (CrossDomainWorker { fence: None, ..*old(self) }),
            final(ctx)@ == old(ctx)@.with_job_at(
                old(self).state as int,
                CrossDomainJob::HandleFence(old(self).fence->Some_0),
            ),
    {
        let fence = self.fence.take().unwrap();
        ctx.queue_job_at(self.state, CrossDomainJob::HandleFence(fence));
    }

    /// Removes a watcher that was shut down and is no longer polled. Nothing was written for the
    /// guest, so the fence is queued again.
    pub fn sentinel_forgotten<W>(&mut self, ctx: &mut CrossDomainContext<W>, id: u32) -> (r: Option<
        SentinelInstance<W>,
    >)
        requires
            old(self).fence is Some,
            old(self).state < old(ctx)@.states.len(),
        ensures
            *final(self) == (CrossDomainWorker { fence: None, ..*old(self) }),
            final(ctx)@ == (ContextModel {
                sentinels: old(ctx)@.sentinels.without_watcher(id),
                ..old(ctx)@.with_job_at(
                    old(self).state as int,
                    CrossDomainJob::HandleFence(old(self).fence->Some_0),
                )
            }),
            r == (if old(ctx)@.sentinels.watchers.contains_key(id) {
                Some(old(ctx)@.sentinels.watchers[id])
            } else {
                None
            }),
    {
        self.requeue_fence(ctx);
        ctx.sentinel_manager.remove_watcher(id)
    }

    /// Settles the fence in hand, once what `route` asks for is done. Returns the fence, where it
    /// is to be signalled now.
    pub fn settle_fence<W>(&mut self, ctx: &mut CrossDomainContext<W>, route: FenceRoute) -> (r:
        Option<RutabagaFence>)
        requires
            route !is Idle ==> old(self).fence is Some,
            old(self).state < old(ctx)@.states.len(),
        ensures
            *final(self) == (CrossDomainWorker { fence: None, ..*old(self) }),
            (final(ctx)@, r) == fence_settled(
                old(ctx)@,
                old(self).state as int,
                old(self).fence->Some_0,
                route,
            ),
    {
        match route {
            FenceRoute::Idle => {
                self.fence = None;
                None
            },
            FenceRoute::Resample => {
                self.requeue_fence(ctx);
                None
            },
            FenceRoute::Sentinel(id) => {
                match Self::handle_sentinel_event(ctx, id) {
                    SentinelTurn::Forget => {
                        self.sentinel_forgotten(ctx, id);
                        None
                    },
                    SentinelTurn::Report(_) => Some(self.signal_fence()),
                }
            },
            FenceRoute::Receive | FenceRoute::Kill | FenceRoute::Item(_) => Some(
                self.signal_fence(),
            ),
        }
    }

    /// Finds the item on which something happened.
    pub fn handle_item_event<'a>(items: &'a CrossDomainItems, id: u32) -> (r: Result<
        ItemRead<'a>,
        RutabagaError,
    >)
        ensures
            r == item_read(items@, id),
    {
        let mut cmd_read = CrossDomainReadWrite::default();
        cmd_read.hdr.cmd = CROSS_DOMAIN_CMD_READ;
        cmd_read.identifier = id;
        match items.table.get(&id) {
            None => Err(RutabagaError::InvalidCrossDomainItemId),
            Some(CrossDomainItem::WaylandReadPipe(read_pipe)) => Ok(
                ItemRead::Pipe(read_pipe, cmd_read),
            ),
            Some(CrossDomainItem::Event(event)) => Ok(ItemRead::Event(event, cmd_read)),
            Some(_) => Err(RutabagaError::InvalidCrossDomainItemType),
        }
    }

    /// Whether an item is done with after `bytes_read` bytes were read: zero bytes after a hang-up
    /// are the end of it. A pipe that is done with is no longer to be polled.
    pub fn is_item_done(event: &WaitEvent, bytes_read: usize) -> (r: bool)
        ensures
            r == (event.hung_up && bytes_read == 0),
    {
        event.hung_up && bytes_read == 0
    }

    /// Removes an item that is done with.
    pub fn item_event_done(
        items: &mut CrossDomainItems,
        id: u32,
        event: &WaitEvent,
        bytes_read: usize,
    )
        ensures
            final(items)@ == (if event.hung_up && bytes_read == 0 {
                old(items)@.without_item(id)
            } else {
                old(items)@
            }),
    {
        if Self::is_item_done(event, bytes_read) {
            items.table.remove(&id);
        }
    }
}

// ---- received messages ----

/// A received descriptor as an item, with what the guest is told of it.
pub struct ReceivedItem {
    pub item: CrossDomainItem,
    pub identifier_type: u32,
    pub identifier_size: u32,
}

/// `received` is `file` as an item, if it stands for `desc_type`.
pub open spec fn is_received_as(
    received: ReceivedItem,
    file: OwnedDescriptor,
    desc_type: DescriptorType,
) -> bool {
    match desc_type {
        DescriptorType::Event => {
            &&& received.item matches CrossDomainItem::Event(event)
            &&& platform::event_object(event) == platform::descriptor_object(file)
            &&& received.identifier_type == CROSS_DOMAIN_ID_TYPE_EVENT
            &&& received.identifier_size == 0
        },
        DescriptorType::Memory(size, handle_type) => received == (ReceivedItem {
            item: CrossDomainItem::Blob(MagmaGpuHandle { os_handle: file, handle_type }),
            identifier_type: CROSS_DOMAIN_ID_TYPE_VIRTGPU_BLOB,
            identifier_size: size,
        }),
        DescriptorType::WritePipe => {
            &&& received.item matches CrossDomainItem::WaylandWritePipe(write_pipe)
            &&& platform::write_pipe_object(write_pipe) == platform::descriptor_object(file)
            &&& received.identifier_type == CROSS_DOMAIN_ID_TYPE_WRITE_PIPE
            &&& received.identifier_size == 0
        },
        DescriptorType::Socket => received == (ReceivedItem {
            item: CrossDomainItem::Socket(file),
            identifier_type: CROSS_DOMAIN_ID_TYPE_SOCKET,
            identifier_size: 0,
        }),
        DescriptorType::Unknown => false,
    }
}

/// Making an item of `file` came to `r`, where the system says `answer` of what `file` stands for.
pub open spec fn is_received_for(
    r: Result<ReceivedItem, RutabagaError>,
    file: OwnedDescriptor,
    answer: Result<DescriptorType, std::io::Error>,
) -> bool {
    match answer {
        Ok(desc_type) => match r {
            Ok(received) => is_received_as(received, file, desc_type),
            Err(e) => desc_type is Unknown && e == RutabagaError::InvalidCrossDomainItemType,
        },
        Err(refusal) => r == Err::<ReceivedItem, RutabagaError>(
            RutabagaError::MagmaGpuError(MagmaGpuError::IoError(refusal)),
        ),
    }
}

/// Making an item of `file` came to `r`, for what the system said that it stands for.
pub open spec fn is_received(
    r: Result<ReceivedItem, RutabagaError>,
    file: OwnedDescriptor,
) -> bool {
    exists|answer: Result<DescriptorType, std::io::Error>|
        #[trigger] platform::reports_type(file, answer) && is_received_for(r, file, answer)
}

/// The errors for a descriptor that can be no item: it is of another type, or the system does not
/// say of which.
pub open spec fn is_refusal(e: RutabagaError) -> bool {
    ||| e == RutabagaError::InvalidCrossDomainItemType
    ||| e matches RutabagaError::MagmaGpuError(MagmaGpuError::IoError(_))
}

/// The items with those added that were received, in their order.
pub open spec fn with_received(items: ItemsModel, received: Seq<ReceivedItem>) -> ItemsModel
    decreases received.len(),
{
    if received.len() == 0 {
        items
    } else {
        with_received(items, received.drop_last()).with_item(received.last().item)
    }
}

/// The identifiers that they get.
pub open spec fn received_ids(items: ItemsModel, received: Seq<ReceivedItem>) -> Seq<u32> {
    Seq::new(
        received.len(),
        |i: int| with_received(items, received.take(i)).next_id(received[i].item),
    )
}

/// A table of a command: the values, then zeros.
pub open spec fn padded(values: Seq<u32>) -> Seq<u32> {
    Seq::new(
        CROSS_DOMAIN_MAX_IDENTIFIERS as nat,
        |i: int|
            if i < values.len() {
                values[i]
            } else {
                0
            },
    )
}

/// `cmd` announces a message of `len` bytes and `num_files` descriptors, of which `received`
/// became items under `ids`.
pub open spec fn announces(
    cmd: CrossDomainSendReceive,
    num_files: int,
    len: int,
    received: Seq<ReceivedItem>,
    ids: Seq<u32>,
) -> bool {
    &&& cmd.hdr == (CrossDomainHeader {
        cmd: CROSS_DOMAIN_CMD_RECEIVE,
        ..cross_domain_protocol::zero_header()
    })
    &&& cmd.num_identifiers == num_files
    &&& cmd.opaque_data_size == len
    &&& cmd.identifiers@ == padded(ids)
    &&& cmd.identifier_types@ == padded(
        Seq::new(received.len(), |i: int| received[i].identifier_type),
    )
    &&& cmd.identifier_sizes@ == padded(
        Seq::new(received.len(), |i: int| received[i].identifier_size),
    )
}

/// How many of the descriptors of a message have a place in its command.
pub open spec fn num_entered(num_files: int) -> int {
    if num_files < CROSS_DOMAIN_MAX_IDENTIFIERS {
        num_files
    } else {
        CROSS_DOMAIN_MAX_IDENTIFIERS as int
    }
}

/// The error for a message where the number of its descriptors, or else its length, does not fit
/// its command.
pub open spec fn size_error(num_files: usize, len: usize) -> Option<std::num::TryFromIntError> {
    match (rutabaga_utils::u32_of_usize(num_files), rutabaga_utils::u32_of_usize(len)) {
        (Err(e), _) => Some(e),
        (_, Err(e)) => Some(e),
        _ => None,
    }
}

/// A message of `len` bytes with the descriptors `files`, of which `received` became items, takes
/// `items` to `after` with the result `r`. A descriptor that can be no item fails the message; the
/// items before it stay.
pub open spec fn receive_run(
    items: ItemsModel,
    len: usize,
    files: Seq<OwnedDescriptor>,
    received: Seq<ReceivedItem>,
    after: ItemsModel,
    r: Result<CrossDomainSendReceive, RutabagaError>,
) -> bool {
    if let Some(e) = size_error(files.len() as usize, len) {
        &&& after == items
        &&& r == Err::<CrossDomainSendReceive, RutabagaError>(
            RutabagaError::MagmaGpuError(MagmaGpuError::TryFromIntError(e)),
        )
    } else {
        &&& received.len() <= num_entered(files.len() as int)
        &&& forall|i: int|
            0 <= i < received.len() ==> is_received(Ok(#[trigger] received[i]), files[i])
        &&& after == with_received(items, received)
        &&& match r {
            Ok(cmd) => {
                &&& received.len() == num_entered(files.len() as int)
                &&& announces(
                    cmd,
                    files.len() as int,
                    len as int,
                    received,
                    received_ids(items, received),
                )
            },
            Err(e) => {
                &&& received.len() < num_entered(files.len() as int)
                &&& is_received(Err(e), files[received.len() as int])
                &&& is_refusal(e)
            },
        }
    }
}

impl CrossDomainWorker {
    /// Makes an item of a received descriptor that stands for `desc_type`.
    pub fn receive_as(file: OwnedDescriptor, desc_type: DescriptorType) -> (r: Result<
        ReceivedItem,
        RutabagaError,
    >)
        ensures
            match r {
                Ok(received) => is_received_as(received, file, desc_type),
                Err(e) => {
                    &&& desc_type is Unknown
                    &&& e == RutabagaError::InvalidCrossDomainItemType
                },
            },
    {
        match desc_type {
            DescriptorType::Event => {
                let handle = MagmaGpuHandle {
                    os_handle: file,
                    handle_type: MAGMA_GPU_HANDLE_TYPE_SIGNAL_EVENT_FD,
                };
                match event_from_handle(handle) {
                    Ok(event) => Ok(
                        ReceivedItem {
                            item: CrossDomainItem::Event(event),
                            identifier_type: CROSS_DOMAIN_ID_TYPE_EVENT,
                            identifier_size: 0,
                        },
                    ),
                    Err(e) => Err(RutabagaError::MagmaGpuError(MagmaGpuError::Util(e))),
                }
            },
            DescriptorType::Memory(size, handle_type) => Ok(
                ReceivedItem {
                    item: CrossDomainItem::Blob(MagmaGpuHandle { os_handle: file, handle_type }),
                    identifier_type: CROSS_DOMAIN_ID_TYPE_VIRTGPU_BLOB,
                    identifier_size: size,
                },
            ),
            DescriptorType::WritePipe => Ok(
                ReceivedItem {
                    item: CrossDomainItem::WaylandWritePipe(write_pipe_from_descriptor(file)),
                    identifier_type: CROSS_DOMAIN_ID_TYPE_WRITE_PIPE,
                    identifier_size: 0,
                },
            ),
            DescriptorType::Socket => Ok(
                ReceivedItem {
                    item: CrossDomainItem::Socket(file),
                    identifier_type: CROSS_DOMAIN_ID_TYPE_SOCKET,
                    identifier_size: 0,
                },
            ),
            DescriptorType::Unknown => Err(RutabagaError::InvalidCrossDomainItemType),
        }
    }

    fn receive_file(file: OwnedDescriptor) -> (r: Result<ReceivedItem, RutabagaError>)
        ensures
            is_received(r, file),
    {
        let answer = report_type(&file);
        assert(platform::reports_type(file, answer));
        match answer {
            Ok(desc_type) => Self::receive_as(file, desc_type),
            Err(e) => Err(RutabagaError::MagmaGpuError(MagmaGpuError::IoError(e))),
        }
    }

    /// Makes items of the descriptors that came with a message of `len` bytes. Returns the command
    /// to write to the channel ring before the message.
    pub fn process_receive(
        items: &mut CrossDomainItems,
        len: usize,
        files: Vec<OwnedDescriptor>,
    ) -> (r: Result<CrossDomainSendReceive, RutabagaError>)
        requires
            old(items)@.descriptor_id + num_entered(files@.len() as int) <= u32::MAX,
        ensures
            exists|received: Seq<ReceivedItem>|
                #[trigger] receive_run(
                    old(items)@,
                    len,
                    files@,
                    received,
                    final(items)@,
                    r,
                ),
    {
        let num_files: usize = files.len();
        let ghost all = files@;
        let ghost mut received = Seq::<ReceivedItem>::empty();
        let mut cmd_receive = CrossDomainSendReceive::default();
        cmd_receive.hdr.cmd = CROSS_DOMAIN_CMD_RECEIVE;
        match u32::try_from(num_files) {
            Ok(num_identifiers) => cmd_receive.num_identifiers = num_identifiers,
            Err(e) => {
                let r: Result<CrossDomainSendReceive, RutabagaError> = Err(
                    RutabagaError::MagmaGpuError(MagmaGpuError::TryFromIntError(e)),
                );
                assert(receive_run(items@, len, all, received, items@, r));
                return r;
            },
        }
        match u32::try_from(len) {
            Ok(opaque_data_size) => cmd_receive.opaque_data_size = opaque_data_size,
            Err(e) => {
                let r: Result<CrossDomainSendReceive, RutabagaError> = Err(
                    RutabagaError::MagmaGpuError(MagmaGpuError::TryFromIntError(e)),
                );
                assert(receive_run(items@, len, all, received, items@, r));
                return r;
            },
        }
        let mut rest = files;
        let mut i: usize = 0;
        proof {
            assert(rest@ =~= all.skip(0));
            lemma_announces_none(cmd_receive, num_files as int, len as int, items@);
        }
        while i < num_files && i < CROSS_DOMAIN_MAX_IDENTIFIERS
            invariant
                0 <= i <= num_files,
                i <= CROSS_DOMAIN_MAX_IDENTIFIERS,
                num_files == all.len(),
                all == files@,
                num_files <= u32::MAX,
                len <= u32::MAX,
                rest@ == all.skip(i as int),
                old(items)@.descriptor_id + num_entered(num_files as int) <= u32::MAX,
                received.len() == i,
                forall|k: int|
                    0 <= k < received.len() ==> is_received(Ok(#[trigger] received[k]), all[k]),
                items@ == with_received(old(items)@, received),
                items@.descriptor_id == old(items)@.descriptor_id + i,
                announces(
                    cmd_receive,
                    num_files as int,
                    len as int,
                    received,
                    received_ids(old(items)@, received),
                ),
            decreases num_files - i,
        {
            let file = rest.remove(0);
            assert(rest@ =~= all.skip(i + 1));
            match Self::receive_file(file) {
                Err(e) => {
                    assert(receive_run(old(items)@, len, all, received, items@, Err(e)));
                    return Err(e);
                },
                Ok(next) => {
                    let ghost before = cmd_receive;
                    cmd_receive.identifier_types[i] = next.identifier_type;
                    cmd_receive.identifier_sizes[i] = next.identifier_size;
                    let ghost entered = next;
                    cmd_receive.identifiers[i] = add_item(items, next.item);
                    proof {
                        lemma_announces_next(
                            before,
                            cmd_receive,
                            num_files as int,
                            len as int,
                            old(items)@,
                            received,
                            entered,
                        );
                        assert(received.push(entered).drop_last() =~= received);
                        received = received.push(entered);
                    }
                },
            }
            i += 1;
        }
        assert(receive_run(old(items)@, len, all, received, items@, Ok(cmd_receive)));
        Ok(cmd_receive)
    }
}

proof fn lemma_announces_none(
    cmd: CrossDomainSendReceive,
    num_files: int,
    len: int,
    items: ItemsModel,
)
    requires
        cmd.hdr == (CrossDomainHeader {
            cmd: CROSS_DOMAIN_CMD_RECEIVE,
            ..cross_domain_protocol::zero_header()
        }),
        cmd.num_identifiers == num_files,
        cmd.opaque_data_size == len,
        cmd.identifiers@ == Seq::new(28, |i: int| 0u32),
        cmd.identifier_types@ == Seq::new(28, |i: int| 0u32),
        cmd.identifier_sizes@ == Seq::new(28, |i: int| 0u32),
    ensures
        announces(cmd, num_files, len, Seq::empty(), received_ids(items, Seq::empty())),
{
    let none = Seq::<ReceivedItem>::empty();
    assert(cmd.identifiers@ =~= padded(received_ids(items, none)));
    assert(cmd.identifier_types@ =~= padded(
        Seq::new(none.len(), |i: int| none[i].identifier_type),
    ));
    assert(cmd.identifier_sizes@ =~= padded(
        Seq::new(none.len(), |i: int| none[i].identifier_size),
    ));
}

proof fn lemma_announces_next(
    before: CrossDomainSendReceive,
    cmd: CrossDomainSendReceive,
    num_files: int,
    len: int,
    items: ItemsModel,
    received: Seq<ReceivedItem>,
    next: ReceivedItem,
)
    requires
        received.len() < CROSS_DOMAIN_MAX_IDENTIFIERS,
        announces(before, num_files, len, received, received_ids(items, received)),
        cmd.hdr == before.hdr,
        cmd.num_identifiers == before.num_identifiers,
        cmd.opaque_data_size == before.opaque_data_size,
        cmd.identifiers@ == before.identifiers@.update(
            received.len() as int,
            with_received(items, received).next_id(next.item),
        ),
        cmd.identifier_types@ == before.identifier_types@.update(
            received.len() as int,
            next.identifier_type,
        ),
        cmd.identifier_sizes@ == before.identifier_sizes@.update(
            received.len() as int,
            next.identifier_size,
        ),
    ensures
        announces(
            cmd,
            num_files,
            len,
            received.push(next),
            received_ids(items, received.push(next)),
        ),
{
    let more = received.push(next);
    let ids = received_ids(items, received);
    let more_ids = received_ids(items, more);
    assert forall|i: int| 0 <= i < received.len() implies more_ids[i] == ids[i] by {
        assert(more.take(i) =~= received.take(i));
    }
    assert(more.take(received.len() as int) =~= received);
    assert(cmd.identifiers@ =~= padded(more_ids));
    assert(cmd.identifier_types@ =~= padded(
        Seq::new(more.len(), |i: int| more[i].identifier_type),
    ));
    assert(cmd.identifier_sizes@ =~= padded(
        Seq::new(more.len(), |i: int| more[i].identifier_size),
    ));
}

} // verus!
