//! The context of one guest client: what each of its commands does to the items, resources,
//! watchers and jobs, and which work on the host it asks for.

use std::collections::BTreeMap;
use std::sync::Arc;

use magma_gpu::util::Event;
use magma_gpu::util::OwnedDescriptor;
use magma_gpu::util::ReadPipe;
use magma_gpu::util::Tube;
use magma_gpu::util::WritePipe;

use vstd::prelude::*;

use crate::atomic_memory_sentinel_manager;
use crate::atomic_memory_sentinel_manager::AtomicMemorySentinelManager;
use crate::atomic_memory_sentinel_manager::ManagerModel;
use crate::atomic_memory_sentinel_manager::WatchedMemory;
use crate::common::add_item;
use crate::common::ContextResource;
use crate::common::ContextResources;
use crate::common::CrossDomainItem;
use crate::common::CrossDomainItems;
use crate::common::CrossDomainJob;
use crate::common::CrossDomainState;
use crate::common::ItemsModel;
use crate::common::StateModel;
use crate::cross_domain_protocol::CrossDomainAssignSocketUuid;
use crate::cross_domain_protocol::CrossDomainCreateAtomicMemorySentinel;
use crate::cross_domain_protocol::CrossDomainCreateEvent;
use crate::cross_domain_protocol::CrossDomainDestroyAtomicMemorySentinel;
use crate::cross_domain_protocol::CrossDomainGetImageRequirements;
use crate::cross_domain_protocol::CrossDomainImageRequirements;
use crate::cross_domain_protocol::CrossDomainImportVirtioFsHandle;
use crate::cross_domain_protocol::CrossDomainInit;
use crate::cross_domain_protocol::CrossDomainReadWrite;
use crate::cross_domain_protocol::CrossDomainSendReceive;
use crate::cross_domain_protocol::CrossDomainSignalAtomicMemorySentinel;
use crate::cross_domain_protocol::CROSS_DOMAIN_CHANNEL_RING;
use crate::cross_domain_protocol::CROSS_DOMAIN_CHANNEL_TYPE_INTERNAL_SOCKET;
use crate::cross_domain_protocol::CROSS_DOMAIN_ID_TYPE_READ_PIPE;
use crate::cross_domain_protocol::CROSS_DOMAIN_ID_TYPE_VIRTGPU_BLOB;
use crate::cross_domain_protocol::CROSS_DOMAIN_ID_TYPE_VIRTIO_FS_BLOB;
use crate::cross_domain_protocol::CROSS_DOMAIN_MAX_IDENTIFIERS;
use crate::cross_domain_protocol::CROSS_DOMAIN_QUERY_RING;
use crate::handle::MagmaGpuHandle;
use crate::handle::RutabagaHandle;
use crate::platform;
use crate::platform::duplicate;
use crate::platform::make_ends;
use crate::platform::make_tube;
use crate::platform::report_access;
use crate::platform::write_pipe_descriptor;
use crate::rutabaga_utils;
use crate::rutabaga_utils::ImageAllocationInfo;
use crate::rutabaga_utils::ImageMemoryRequirements;
use crate::rutabaga_utils::MesaError;
use crate::rutabaga_utils::Resource3DInfo;
use crate::rutabaga_utils::ResourceCreateBlob;
use crate::rutabaga_utils::RutabagaComponentType;
use crate::rutabaga_utils::RutabagaError;
use crate::rutabaga_utils::RutabagaFence;
use crate::rutabaga_utils::RutabagaPath;
use crate::rutabaga_utils::RutabagaResource;
use crate::rutabaga_utils::CROSS_DOMAIN_COMPONENT_MASK;
use crate::rutabaga_utils::RUTABAGA_BLOB_MEM_GUEST;
use crate::rutabaga_utils::RUTABAGA_MAP_ACCESS_RW;
use crate::rutabaga_utils::RUTABAGA_MAP_CACHE_CACHED;
use crate::wire;
use crate::wire::ByteOrder;

verus! {

/// The sockets that one context has put up for others, by their identifiers.
pub struct InternalSockets {
    pub table: BTreeMap<u128, Tube>,
}

impl View for InternalSockets {
    type V = Map<u128, Tube>;

    open spec fn view(&self) -> Map<u128, Tube> {
        self.table@
    }
}

impl InternalSockets {
    pub fn new() -> (r: InternalSockets)
        ensures
            r@ == Map::<u128, Tube>::empty(),
    {
        InternalSockets { table: BTreeMap::new() }
    }

    /// Puts the socket up under the identifier that the command names.
    pub fn assign(&mut self, cmd_exp_socket: &CrossDomainAssignSocketUuid, socket: Tube)
        ensures
            final(self)@ == old(self)@.insert(
                wire::le_u128(cmd_exp_socket.socket_uuid@, 0),
                socket,
            ),
    {
        let uuid: u128 = wire::read_le_u128(&cmd_exp_socket.socket_uuid, 0);
        self.table.insert(uuid, socket);
    }
}

/// The state of a context. `W` is whatever runs a memory watcher. Each init command adds a state
/// with its channel and jobs: the commands of the guest use the last one, and a worker keeps to the
/// one that it was started for.
pub struct CrossDomainContext<W> {
    pub paths: Option<Vec<RutabagaPath>>,
    pub states: Vec<CrossDomainState>,
    pub context_resources: ContextResources,
    pub item_state: CrossDomainItems,
    pub sentinel_manager: AtomicMemorySentinelManager<W>,
    pub virtiofs_lookup: bool,
    pub resample_evt: Option<Event>,
    pub kill_evt: Option<Event>,
}

/// What `CrossDomainContext` holds.
#[verifier::ext_equal]
pub struct ContextModel<W> {
    pub paths: Option<Seq<RutabagaPath>>,
    pub states: Seq<StateModel>,
    pub resources: Map<u32, ContextResource>,
    pub items: ItemsModel,
    pub sentinels: ManagerModel<W>,
    pub virtiofs_lookup: bool,
    pub resample_evt: Option<Event>,
    pub kill_evt: Option<Event>,
}

impl<W> View for CrossDomainContext<W> {
    type V = ContextModel<W>;

    open spec fn view(&self) -> ContextModel<W> {
        ContextModel {
            paths: match self.paths {
                Some(paths) => Some(paths@),
                None => None,
            },
            states: Seq::new(self.states@.len(), |i: int| self.states@[i]@),
            resources: self.context_resources@,
            items: self.item_state@,
            sentinels: self.sentinel_manager@,
            virtiofs_lookup: self.virtiofs_lookup,
            resample_evt: self.resample_evt,
            kill_evt: self.kill_evt,
        }
    }
}

impl<W> ContextModel<W> {
    /// The state that the commands of the guest use, if the context is initialised.
    pub open spec fn state(self) -> Option<StateModel> {
        if self.states.len() == 0 {
            None
        } else {
            Some(self.states.last())
        }
    }

    /// The context with a new state for the commands of the guest.
    pub open spec fn with_state(self, state: StateModel) -> ContextModel<W> {
        ContextModel { states: self.states.push(state), ..self }
    }

    /// The context with `job` queued for the worker of the state `n`.
    pub open spec fn with_job_at(self, n: int, job: CrossDomainJob) -> ContextModel<W> {
        ContextModel { states: self.states.update(n, self.states[n].with_job(job)), ..self }
    }

    /// The context with `job` queued; one that is not initialised takes no job.
    pub open spec fn with_job(self, job: CrossDomainJob) -> ContextModel<W> {
        if self.states.len() == 0 {
            self
        } else {
            self.with_job_at(self.states.len() - 1, job)
        }
    }

    /// The context with other items.
    pub open spec fn with_items(self, items: ItemsModel) -> ContextModel<W> {
        ContextModel { items, ..self }
    }
}

// ---- init ----

/// The path of the first socket that serves a channel type.
pub open spec fn first_path(paths: Seq<RutabagaPath>, channel_type: u32) -> Option<Vec<u8>>
    decreases paths.len(),
{
    if paths.len() == 0 {
        None
    } else if paths[0].path_type == channel_type {
        Some(paths[0].path)
    } else {
        first_path(paths.skip(1), channel_type)
    }
}

fn take_first_path(paths: Vec<RutabagaPath>, channel_type: u32) -> (r: Option<Vec<u8>>)
    ensures
        r == first_path(paths@, channel_type),
{
    let ghost all = paths@;
    let mut rest = paths;
    let mut i: usize = 0;
    assert(all.skip(0) =~= all);
    while i < rest.len()
        invariant
            0 <= i <= rest@.len(),
            rest@ == all,
            all == paths@,
            first_path(all, channel_type) == first_path(all.skip(i as int), channel_type),
        decreases rest@.len() - i,
    {
        assert(all.skip(i as int)[0] == all[i as int]);
        assert(all.skip(i as int).skip(1) =~= all.skip(i + 1));
        if rest[i].path_type == channel_type {
            let found = rest.remove(i);
            return Some(found.path);
        }
        i += 1;
    }
    None
}

/// How a new channel is to be made.
pub enum InitAction {
    /// There is nothing left to do: no channel was asked for.
    Ready,
    /// The channel is this socket.
    Attach(Tube),
    /// The channel is a new connection to the socket at this path.
    Connect(Vec<u8>),
}

/// What an init command does to the context and the internal sockets, and what it leaves to do.
pub open spec fn initialized<W>(
    ctx: ContextModel<W>,
    sockets: Map<u128, Tube>,
    cmd_init: CrossDomainInit,
) -> (ContextModel<W>, Map<u128, Tube>, Result<InitAction, RutabagaError>) {
    let uuid = wire::le_u128(cmd_init.internal_socket_uuid@, 0);
    if !ctx.resources.contains_key(cmd_init.query_ring_id) {
        (ctx, sockets, Err(RutabagaError::InvalidResourceId))
    } else if cmd_init.channel_type == 0 {
        (
            ctx.with_state(
                StateModel::initial(cmd_init.query_ring_id, cmd_init.channel_ring_id, None),
            ),
            sockets,
            Ok(InitAction::Ready),
        )
    } else if !ctx.resources.contains_key(cmd_init.channel_ring_id) {
        (ctx, sockets, Err(RutabagaError::InvalidResourceId))
    } else if cmd_init.channel_type == CROSS_DOMAIN_CHANNEL_TYPE_INTERNAL_SOCKET {
        if sockets.contains_key(uuid) {
            (ctx, sockets.remove(uuid), Ok(InitAction::Attach(sockets[uuid])))
        } else {
            (ctx, sockets, Err(RutabagaError::InvalidCrossDomainInternalSocketUuid))
        }
    } else {
        match ctx.paths {
            None => (ctx, sockets, Err(RutabagaError::InvalidCrossDomainChannel)),
            Some(paths) => (
                ContextModel { paths: None, ..ctx },
                sockets,
                match first_path(paths, cmd_init.channel_type) {
                    Some(path) => Ok(InitAction::Connect(path)),
                    None => Err(RutabagaError::InvalidCrossDomainChannel),
                },
            ),
        }
    }
}

/// The context with a new channel and the events of its worker.
pub open spec fn channel_entered<W>(
    ctx: ContextModel<W>,
    cmd_init: CrossDomainInit,
    connection: Arc<Tube>,
    resample_evt: Event,
    kill_evt: Event,
) -> ContextModel<W> {
    ContextModel {
        resample_evt: Some(resample_evt),
        kill_evt: Some(kill_evt),
        ..ctx.with_state(
            StateModel::initial(
                cmd_init.query_ring_id,
                cmd_init.channel_ring_id,
                Some(connection),
            ),
        )
    }
}

impl<W> CrossDomainContext<W> {
    /// The path to which to connect for the channel type. The paths are used up by the first
    /// attempt.
    pub fn get_connection(&mut self, cmd_init: &CrossDomainInit) -> (r: Result<
        Vec<u8>,
        RutabagaError,
    >)
        ensures
            final(self)@ == (ContextModel { paths: None, ..old(self)@ }),
            r == (match old(self)@.paths {
                None => Err(RutabagaError::InvalidCrossDomainChannel),
                Some(paths) => match first_path(paths, cmd_init.channel_type) {
                    Some(path) => Ok(path),
                    None => Err(RutabagaError::InvalidCrossDomainChannel),
                },
            }),
    {
        match self.paths.take() {
            None => Err(RutabagaError::InvalidCrossDomainChannel),
            Some(paths) => match take_first_path(paths, cmd_init.channel_type) {
                Some(path) => Ok(path),
                None => Err(RutabagaError::InvalidCrossDomainChannel),
            },
        }
    }

    /// Takes the socket that was put up under `uuid`.
    pub fn get_internal_socket_connection(sockets: &mut InternalSockets, uuid: u128) -> (r: Result<
        Tube,
        RutabagaError,
    >)
        ensures
            final(sockets)@ == old(sockets)@.remove(uuid),
            r == (if old(sockets)@.contains_key(uuid) {
                Ok(old(sockets)@[uuid])
            } else {
                Err(RutabagaError::InvalidCrossDomainInternalSocketUuid)
            }),
    {
        match sockets.table.remove(&uuid) {
            Some(socket) => Ok(socket),
            None => Err(RutabagaError::InvalidCrossDomainInternalSocketUuid),
        }
    }

    /// Checks an init command and finds the channel that it asks for.
    pub fn initialize(&mut self, cmd_init: &CrossDomainInit, sockets: &mut InternalSockets) -> (r:
        Result<InitAction, RutabagaError>)
        ensures
            (final(self)@, final(sockets)@, r) == initialized(
                old(self)@,
                old(sockets)@,
                *cmd_init,
            ),
    {
        if !self.context_resources.contains_key(&cmd_init.query_ring_id) {
            return Err(RutabagaError::InvalidResourceId);
        }
        // Zero means no requested channel.
        if cmd_init.channel_type == 0 {
            self.states.push(
                CrossDomainState::new(cmd_init.query_ring_id, cmd_init.channel_ring_id, None),
            );
            return Ok(InitAction::Ready);
        }
        if !self.context_resources.contains_key(&cmd_init.channel_ring_id) {
            return Err(RutabagaError::InvalidResourceId);
        }
        if cmd_init.channel_type == CROSS_DOMAIN_CHANNEL_TYPE_INTERNAL_SOCKET {
            let uuid: u128 = wire::read_le_u128(&cmd_init.internal_socket_uuid, 0);
            match Self::get_internal_socket_connection(sockets, uuid) {
                Ok(socket) => Ok(InitAction::Attach(socket)),
                Err(e) => {
                    assert(sockets@ =~= old(sockets)@);
                    Err(e)
                },
            }
        } else {
            match self.get_connection(cmd_init) {
                Ok(path) => Ok(InitAction::Connect(path)),
                Err(e) => Err(e),
            }
        }
    }

    /// Enters the channel that was made for an init command, and the events of its worker. Returns
    /// the number of the state that the worker is to be started for.
    pub fn connected(
        &mut self,
        cmd_init: &CrossDomainInit,
        connection: Arc<Tube>,
        resample_evt: Event,
        kill_evt: Event,
    ) -> (n: usize)
        ensures
            n == old(self)@.states.len(),
            final(self)@ == channel_entered(
                old(self)@,
                *cmd_init,
                connection,
                resample_evt,
                kill_evt,
            ),
    {
        let n: usize = self.states.len();
        self.states.push(
            CrossDomainState::new(
                cmd_init.query_ring_id,
                cmd_init.channel_ring_id,
                Some(connection),
            ),
        );
        self.resample_evt = Some(resample_evt);
        self.kill_evt = Some(kill_evt);
        n
    }

    /// The state that the commands of the guest use, if the context is initialised.
    pub fn state(&self) -> (r: Option<&CrossDomainState>)
        ensures
            match r {
                Some(state) => self@.state() == Some(state@),
                None => self@.state() is None,
            },
    {
        let n: usize = self.states.len();
        if n == 0 {
            None
        } else {
            Some(&self.states[n - 1])
        }
    }

    /// Queues a job for the worker of the state `n`. Returns whether a waiting worker is to be
    /// woken.
    pub fn queue_job_at(&mut self, n: usize, job: CrossDomainJob) -> (notify: bool)
        requires
            n < old(self)@.states.len(),
        ensures
            final(self)@ == old(self)@.with_job_at(n as int, job),
            notify == old(self)@.states[n as int].jobs is Some,
    {
        let notify: bool = self.states[n].add_job(job);
        assert(self@ =~= old(self)@.with_job_at(n as int, job));
        notify
    }

    /// Queues a job, where there is a queue. Returns whether a waiting worker is to be woken.
    pub fn queue_job(&mut self, job: CrossDomainJob) -> (notify: bool)
        ensures
            final(self)@ == old(self)@.with_job(job),
            notify == (old(self)@.state() matches Some(state) && state.jobs is Some),
    {
        let n: usize = self.states.len();
        if n == 0 {
            false
        } else {
            self.queue_job_at(n - 1, job)
        }
    }
}

// ---- image requirements ----

/// The image that a query asks about.
pub open spec fn image_asked_about(cmd_get_reqs: CrossDomainGetImageRequirements) ->
    ImageAllocationInfo {
    ImageAllocationInfo {
        width: cmd_get_reqs.width,
        height: cmd_get_reqs.height,
        drm_format: cmd_get_reqs.drm_format,
        flags: cmd_get_reqs.flags,
    }
}

/// The image that a query asks about.
pub fn image_allocation_info(cmd_get_reqs: &CrossDomainGetImageRequirements) -> (r:
    ImageAllocationInfo)
    ensures
        r == image_asked_about(*cmd_get_reqs),
{
    ImageAllocationInfo {
        width: cmd_get_reqs.width,
        height: cmd_get_reqs.height,
        drm_format: cmd_get_reqs.drm_format,
        flags: cmd_get_reqs.flags,
    }
}

/// The answer to the guest: the requirements, and the identifier under which they are kept. The
/// physical device index is deprecated and always -1.
pub open spec fn image_response(reqs: ImageMemoryRequirements, blob_id: u32) ->
    CrossDomainImageRequirements {
    CrossDomainImageRequirements {
        strides: reqs.strides,
        offsets: reqs.offsets,
        modifier: reqs.modifier,
        size: reqs.size,
        blob_id,
        map_info: reqs.map_info,
        memory_idx: match reqs.vulkan_info {
            Some(vk_info) => vk_info.memory_idx as i32,
            None => -1i32,
        },
        physical_device_idx: -1i32,
    }
}

/// What the requirements of an image do to the context, and what to write to which ring.
pub open spec fn image_entered<W>(ctx: ContextModel<W>, reqs: ImageMemoryRequirements) -> (
    ContextModel<W>,
    Result<(u32, CrossDomainImageRequirements), RutabagaError>,
) {
    let item = CrossDomainItem::ImageRequirements(reqs);
    match ctx.state() {
        None => (ctx, Err(RutabagaError::InvalidCrossDomainState)),
        Some(state) => (
            ctx.with_items(ctx.items.with_item(item)),
            Ok((state.query_ring_id, image_response(reqs, ctx.items.next_id(item)))),
        ),
    }
}

impl<W> CrossDomainContext<W> {
    /// Keeps the requirements of an image for later allocations. Returns what to write to which
    /// ring.
    pub fn get_image_requirements(&mut self, reqs: ImageMemoryRequirements) -> (r: Result<
        (u32, CrossDomainImageRequirements),
        RutabagaError,
    >)
        requires
            old(self)@.state() is Some ==> old(self)@.items.has_id_for(
                CrossDomainItem::ImageRequirements(reqs),
            ),
        ensures
            (final(self)@, r) == image_entered(old(self)@, reqs),
    {
        let mut response = CrossDomainImageRequirements {
            strides: reqs.strides,
            offsets: reqs.offsets,
            modifier: reqs.modifier,
            size: reqs.size,
            blob_id: 0,
            map_info: reqs.map_info,
            memory_idx: -1,
            physical_device_idx: -1,
        };
        if let Some(vk_info) = &reqs.vulkan_info {
            response.memory_idx = vk_info.memory_idx as i32;
        }
        match self.state() {
            Some(state) => {
                let query_ring_id: u32 = state.query_ring_id;
                response.blob_id =
                add_item(&mut self.item_state, CrossDomainItem::ImageRequirements(reqs));
                Ok((query_ring_id, response))
            },
            None => Err(RutabagaError::InvalidCrossDomainState),
        }
    }
}

// ---- send ----

/// A send command that is being carried out: the descriptors for the identifiers so far, the end
/// of a new pipe that has to stay open until the message is sent, and the identifier of the other
/// end.
pub struct PendingSend {
    pub descriptors: Vec<OwnedDescriptor>,
    pub write_pipe: Option<WritePipe>,
    pub read_pipe_id: Option<u32>,
}

/// What `PendingSend` holds.
#[verifier::ext_equal]
pub struct PendingModel {
    pub descriptors: Seq<OwnedDescriptor>,
    pub write_pipe: Option<WritePipe>,
    pub read_pipe_id: Option<u32>,
}

impl View for PendingSend {
    type V = PendingModel;

    open spec fn view(&self) -> PendingModel {
        PendingModel {
            descriptors: self.descriptors@,
            write_pipe: self.write_pipe,
            read_pipe_id: self.read_pipe_id,
        }
    }
}

/// The outcome of a step of a send command, by its model.
pub open spec fn pending_view(r: Result<PendingSend, RutabagaError>) -> Result<
    PendingModel,
    RutabagaError,
> {
    match r {
        Ok(pending) => Ok(pending@),
        Err(e) => Err(e),
    }
}

/// The outcome of a send command, by its model.
pub open spec fn sent_view(r: Result<(Arc<Tube>, PendingSend), RutabagaError>) -> Result<
    (Arc<Tube>, PendingModel),
    RutabagaError,
> {
    match r {
        Ok((connection, pending)) => Ok((connection, pending@)),
        Err(e) => Err(e),
    }
}

impl PendingModel {
    /// Nothing done yet.
    pub open spec fn initial() -> PendingModel {
        PendingModel { descriptors: Seq::empty(), write_pipe: None, read_pipe_id: None }
    }

    /// One more descriptor.
    pub open spec fn with_descriptor(self, descriptor: OwnedDescriptor) -> PendingModel {
        PendingModel { descriptors: self.descriptors.push(descriptor), ..self }
    }
}

/// Where the descriptor for an identifier of a send command comes from.
pub enum SendAction {
    /// It is this one.
    Attach(OwnedDescriptor),
    /// It is a duplicate of the descriptor of this handle, which is a `MagmaGpuHandle`.
    Duplicate(Arc<RutabagaHandle>),
    /// It is a duplicate of the write end of a new pipe.
    CreatePipe,
}

/// What the system gives for an identifier, where it is asked: a duplicate of a descriptor, and
/// before that the two ends of a new pipe.
pub struct Supply {
    pub pipe: Result<(ReadPipe, WritePipe), magma_gpu::util::Error>,
    pub duplicate: Result<OwnedDescriptor, std::io::Error>,
}

/// How one identifier is looked up. `has_pipe` says that an earlier one was a pipe already; in
/// practice, just one pipe pair per send is observed.
pub open spec fn identifier_looked_up<W>(
    ctx: ContextModel<W>,
    identifier: u32,
    identifier_type: u32,
    has_pipe: bool,
) -> (ContextModel<W>, Result<SendAction, RutabagaError>) {
    if identifier_type == CROSS_DOMAIN_ID_TYPE_VIRTGPU_BLOB {
        if !ctx.resources.contains_key(identifier) {
            (ctx, Err(RutabagaError::InvalidResourceId))
        } else {
            match ctx.resources[identifier].handle {
                Some(handle) if *handle is MagmaGpuHandle => (
                    ctx,
                    Ok(SendAction::Duplicate(handle)),
                ),
                _ => (
                    ctx,
                    Err(RutabagaError::MesaError(MesaError::InvalidMesaHandle)),
                ),
            }
        }
    } else if identifier_type == CROSS_DOMAIN_ID_TYPE_READ_PIPE {
        if has_pipe {
            (ctx, Err(rutabaga_utils::with_context("expected just one pipe pair")))
        } else {
            (ctx, Ok(SendAction::CreatePipe))
        }
    } else if identifier_type == CROSS_DOMAIN_ID_TYPE_VIRTIO_FS_BLOB {
        // Whatever was there is used up.
        let taken = ctx.with_items(ctx.items.without_item(identifier));
        if !ctx.items.table.contains_key(identifier) {
            (ctx, Err(RutabagaError::InvalidCrossDomainItemId))
        } else {
            match ctx.items.table[identifier] {
                CrossDomainItem::RegularFile(file) => (taken, Ok(SendAction::Attach(file))),
                _ => (taken, Err(RutabagaError::InvalidCrossDomainItemId)),
            }
        }
    } else {
        // Don't know how to handle anything else yet.
        (ctx, Err(RutabagaError::InvalidCrossDomainItemType))
    }
}

/// A new pipe in a send command: the read end becomes an item. The guest guesses the identifier
/// of it, so as not to wait for the host to make one; the command fails on a wrong guess.
pub open spec fn pipe_entered<W>(
    ctx: ContextModel<W>,
    pending: PendingModel,
    guess: u32,
    read_pipe: ReadPipe,
    write_pipe: WritePipe,
    write_end: OwnedDescriptor,
) -> (ContextModel<W>, Result<PendingModel, RutabagaError>) {
    let item = CrossDomainItem::WaylandReadPipe(read_pipe);
    let id = ctx.items.next_id(item);
    (
        ctx.with_items(ctx.items.with_item(item)),
        if id == guess {
            Ok(
                PendingModel {
                    write_pipe: Some(write_pipe),
                    read_pipe_id: Some(id),
                    ..pending.with_descriptor(write_end)
                },
            )
        } else {
            Err(RutabagaError::InvalidCrossDomainItemId)
        },
    )
}

/// One more identifier of a send command has its descriptor, or the command fails.
pub open spec fn identifier_sent<W>(
    ctx: ContextModel<W>,
    pending: PendingModel,
    cmd_send: CrossDomainSendReceive,
    supply: Supply,
) -> (ContextModel<W>, Result<PendingModel, RutabagaError>) {
    let i = pending.descriptors.len() as int;
    let identifier = cmd_send.identifiers@[i];
    let (looked_up, action) = next_looked_up(ctx, pending, cmd_send);
    match action {
        Err(e) => (looked_up, Err(e)),
        Ok(SendAction::Attach(file)) => (looked_up, Ok(pending.with_descriptor(file))),
        Ok(SendAction::Duplicate(_)) => match supply.duplicate {
            Ok(duplicate) => (looked_up, Ok(pending.with_descriptor(duplicate))),
            Err(e) => (looked_up, Err(RutabagaError::MesaError(MesaError::IoError(e)))),
        },
        Ok(SendAction::CreatePipe) => match (supply.pipe, supply.duplicate) {
            (Err(e), _) => (looked_up, Err(RutabagaError::MesaError(MesaError::Util(e)))),
            (Ok(_), Err(e)) => (
                looked_up,
                Err(RutabagaError::MesaError(MesaError::IoError(e))),
            ),
            (Ok((read_pipe, write_pipe)), Ok(write_end)) => pipe_entered(
                looked_up,
                pending,
                identifier,
                read_pipe,
                write_pipe,
                write_end,
            ),
        },
    }
}

/// What the system gives for an identifier is what it was asked for: a duplicate is for the same
/// object, that of a new pipe for its write end, and the two ends belong to one pipe.
pub open spec fn is_supply_for(
    supply: Supply,
    action: Result<SendAction, RutabagaError>,
) -> bool {
    match action {
        Ok(SendAction::Duplicate(handle)) => {
            &&& *handle matches RutabagaHandle::MagmaGpuHandle(h)
            &&& platform::duplicates(h.os_handle, supply.duplicate)
            &&& supply.duplicate matches Ok(duplicate) ==> platform::descriptor_object(duplicate)
                == platform::descriptor_object(h.os_handle)
        },
        Ok(SendAction::CreatePipe) => platform::makes_ends(supply.pipe) && (
        supply.pipe matches Ok(ends) ==> {
            &&& platform::duplicates_object(
                platform::write_pipe_object(ends.1),
                supply.duplicate,
            )
            &&& platform::pipe_of(platform::read_pipe_object(ends.0)) == platform::pipe_of(
                platform::write_pipe_object(ends.1),
            )
            &&& platform::read_pipe_object(ends.0) != platform::write_pipe_object(ends.1)
            &&& supply.duplicate matches Ok(duplicate) ==> platform::descriptor_object(duplicate)
                == platform::write_pipe_object(ends.1)
        }),
        _ => true,
    }
}

/// How the next identifier of a send command is looked up.
pub open spec fn next_looked_up<W>(
    ctx: ContextModel<W>,
    pending: PendingModel,
    cmd_send: CrossDomainSendReceive,
) -> (ContextModel<W>, Result<SendAction, RutabagaError>) {
    let i = pending.descriptors.len() as int;
    identifier_looked_up(
        ctx,
        cmd_send.identifiers@[i],
        cmd_send.identifier_types@[i],
        pending.write_pipe is Some,
    )
}

/// What the system gave for the identifiers of a send command is what it was asked for.
pub open spec fn are_supplies_for<W>(
    supplies: Seq<Supply>,
    ctx: ContextModel<W>,
    cmd_send: CrossDomainSendReceive,
) -> bool
    decreases supplies.len(),
{
    supplies.len() == 0 || {
        &&& are_supplies_for(supplies.drop_last(), ctx, cmd_send)
        &&& match identifiers_sent(ctx, cmd_send, supplies.drop_last()) {
            (before, Ok(pending)) => is_supply_for(
                supplies.last(),
                next_looked_up(before, pending, cmd_send).1,
            ),
            _ => true,
        }
    }
}

/// The identifiers of a send command up to the last of `supplies`, in their order.
pub open spec fn identifiers_sent<W>(
    ctx: ContextModel<W>,
    cmd_send: CrossDomainSendReceive,
    supplies: Seq<Supply>,
) -> (ContextModel<W>, Result<PendingModel, RutabagaError>)
    decreases supplies.len(),
{
    if supplies.len() == 0 {
        (ctx, Ok(PendingModel::initial()))
    } else {
        match identifiers_sent(ctx, cmd_send, supplies.drop_last()) {
            (failed, Err(e)) => (failed, Err(e)),
            (before, Ok(pending)) => identifier_sent(before, pending, cmd_send, supplies.last()),
        }
    }
}

/// The channel for messages to the outside.
pub open spec fn send_channel<W>(ctx: ContextModel<W>) -> Result<Arc<Tube>, RutabagaError> {
    match ctx.state() {
        Some(state) if ctx.resample_evt is Some => match state.connection {
            Some(connection) => Ok(connection),
            None => Err(RutabagaError::InvalidCrossDomainChannel),
        },
        _ => Err(RutabagaError::InvalidCrossDomainState),
    }
}

/// A send command that was given `supplies` takes `ctx` to `after` with the result `r`: the
/// channel and what to send on it.
pub open spec fn send_run<W>(
    ctx: ContextModel<W>,
    cmd_send: CrossDomainSendReceive,
    supplies: Seq<Supply>,
    after: ContextModel<W>,
    r: Result<(Arc<Tube>, PendingModel), RutabagaError>,
) -> bool {
    if cmd_send.num_identifiers > CROSS_DOMAIN_MAX_IDENTIFIERS {
        &&& after == ctx
        &&& r == Err::<(Arc<Tube>, PendingModel), RutabagaError>(
            rutabaga_utils::with_context("max cross domain identifiers exceeded"),
        )
    } else {
        let (reached, sent) = identifiers_sent(ctx, cmd_send, supplies);
        &&& supplies.len() <= cmd_send.num_identifiers
        &&& are_supplies_for(supplies, ctx, cmd_send)
        &&& after == reached
        &&& match sent {
            Err(e) => r == Err::<(Arc<Tube>, PendingModel), RutabagaError>(e),
            Ok(pending) => {
                &&& supplies.len() == cmd_send.num_identifiers
                &&& match send_channel(reached) {
                    Ok(connection) => r == Ok::<(Arc<Tube>, PendingModel), RutabagaError>(
                        (connection, pending),
                    ),
                    Err(e) => r == Err::<(Arc<Tube>, PendingModel), RutabagaError>(e),
                }
            },
        }
    }
}

/// What is left to do to the context after a message was sent: the worker is to poll a new read
/// pipe. Then the resample event is to be signalled.
pub open spec fn send_completed<W>(ctx: ContextModel<W>, read_pipe_id: Option<u32>) -> (
    ContextModel<W>,
    bool,
) {
    match read_pipe_id {
        Some(id) => (ctx.with_job(CrossDomainJob::AddReadPipe(id)), true),
        None => (ctx, false),
    }
}

/// From the identifier `i` on, the identifiers of a send command can be looked up as far as a read
/// pipe.
pub open spec fn reaches_pipe<W>(
    ctx: ContextModel<W>,
    cmd_send: CrossDomainSendReceive,
    i: int,
) -> bool
    decreases cmd_send.num_identifiers - i,
{
    0 <= i < cmd_send.num_identifiers && {
        let (looked_up, action) = identifier_looked_up(
            ctx,
            cmd_send.identifiers@[i],
            cmd_send.identifier_types@[i],
            false,
        );
        match action {
            Ok(SendAction::CreatePipe) => true,
            Ok(_) => reaches_pipe(looked_up, cmd_send, i + 1),
            Err(_) => false,
        }
    }
}

/// A send command comes to make a pipe, unless the system refuses a descriptor before that.
pub open spec fn makes_pipe<W>(ctx: ContextModel<W>, cmd_send: CrossDomainSendReceive) -> bool {
    cmd_send.num_identifiers <= CROSS_DOMAIN_MAX_IDENTIFIERS && reaches_pipe(ctx, cmd_send, 0)
}

/// One of the first `n` identifiers of a send command is the file `id`.
pub open spec fn is_file_before(cmd_send: CrossDomainSendReceive, n: int, id: u32) -> bool {
    exists|j: int|
        0 <= j < n && #[trigger] cmd_send.identifier_types@[j]
            == CROSS_DOMAIN_ID_TYPE_VIRTIO_FS_BLOB && cmd_send.identifiers@[j] == id
}

fn has_file_before(cmd_send: &CrossDomainSendReceive, n: usize, id: u32) -> (r: bool)
    requires
        n <= CROSS_DOMAIN_MAX_IDENTIFIERS,
    ensures
        r == is_file_before(*cmd_send, n as int, id),
{
    let mut j: usize = 0;
    while j < n
        invariant
            0 <= j <= n,
            n <= CROSS_DOMAIN_MAX_IDENTIFIERS,
            !is_file_before(*cmd_send, j as int, id),
        decreases n - j,
    {
        if cmd_send.identifier_types[j] == CROSS_DOMAIN_ID_TYPE_VIRTIO_FS_BLOB
            && cmd_send.identifiers[j] == id {
            assert(cmd_send.identifier_types@[j as int] == CROSS_DOMAIN_ID_TYPE_VIRTIO_FS_BLOB);
            return true;
        }
        j += 1;
    }
    false
}

/// One of the identifiers of a send command is a read pipe, and there are not too many of them.
pub open spec fn asks_for_pipe(cmd_send: CrossDomainSendReceive) -> bool {
    &&& cmd_send.num_identifiers <= CROSS_DOMAIN_MAX_IDENTIFIERS
    &&& exists|i: int|
        0 <= i < cmd_send.num_identifiers && #[trigger] cmd_send.identifier_types@[i]
            == CROSS_DOMAIN_ID_TYPE_READ_PIPE
}

impl PendingSend {
    pub fn new() -> (r: PendingSend)
        ensures
            r@ == PendingModel::initial(),
    {
        PendingSend { descriptors: Vec::new(), write_pipe: None, read_pipe_id: None }
    }
}

impl<W> CrossDomainContext<W> {
    /// Whether a send command comes to make a pipe, which takes an identifier for its read end.
    pub fn makes_pipe(&self, cmd_send: &CrossDomainSendReceive) -> (r: bool)
        ensures
            r == makes_pipe(self@, *cmd_send),
    {
        let num_identifiers: usize = cmd_send.num_identifiers as usize;
        if num_identifiers > CROSS_DOMAIN_MAX_IDENTIFIERS {
            return false;
        }
        let mut i: usize = 0;
        let ghost mut ctx = self@;
        assert(ctx == self@.with_items(ctx.items));
        while i < num_identifiers
            invariant
                0 <= i <= num_identifiers,
                num_identifiers == cmd_send.num_identifiers,
                num_identifiers <= CROSS_DOMAIN_MAX_IDENTIFIERS,
                reaches_pipe(self@, *cmd_send, 0) == reaches_pipe(ctx, *cmd_send, i as int),
                ctx == self@.with_items(ctx.items),
                forall|id: u32| #[trigger]
                    ctx.items.table.contains_key(id) <==> self@.items.table.contains_key(id)
                        && !is_file_before(*cmd_send, i as int, id),
                forall|id: u32| #[trigger]
                    ctx.items.table.contains_key(id) ==> ctx.items.table[id]
                        == self@.items.table[id],
            decreases num_identifiers - i,
        {
            let identifier: u32 = cmd_send.identifiers[i];
            let identifier_type: u32 = cmd_send.identifier_types[i];
            let ghost (looked_up, _action) = identifier_looked_up(
                ctx,
                identifier,
                identifier_type,
                false,
            );
            if identifier_type == CROSS_DOMAIN_ID_TYPE_VIRTGPU_BLOB {
                match self.context_resources.get(&identifier) {
                    None => {
                        return false;
                    },
                    Some(context_resource) => match &context_resource.handle {
                        Some(handle) => if handle.as_mesa_handle().is_none() {
                            return false;
                        },
                        None => {
                            return false;
                        },
                    },
                }
            } else if identifier_type == CROSS_DOMAIN_ID_TYPE_READ_PIPE {
                return true;
            } else if identifier_type == CROSS_DOMAIN_ID_TYPE_VIRTIO_FS_BLOB {
                if has_file_before(cmd_send, i, identifier) {
                    return false;
                }
                match self.item_state.table.get(&identifier) {
                    Some(CrossDomainItem::RegularFile(_)) => {},
                    _ => {
                        return false;
                    },
                }
            } else {
                return false;
            }
            proof {
                ctx = looked_up;
                assert forall|id: u32| is_file_before(*cmd_send, i + 1, id) <==> is_file_before(
                    *cmd_send,
                    i as int,
                    id,
                ) || (identifier_type == CROSS_DOMAIN_ID_TYPE_VIRTIO_FS_BLOB && id
                    == identifier) by {
                    if identifier_type == CROSS_DOMAIN_ID_TYPE_VIRTIO_FS_BLOB && id == identifier {
                        assert(cmd_send.identifier_types@[i as int] == identifier_type);
                    }
                }
            }
            i += 1;
        }
        false
    }

    /// Looks up one identifier of a send command.
    pub fn send_identifier(&mut self, identifier: u32, identifier_type: u32, has_pipe: bool) -> (r:
        Result<SendAction, RutabagaError>)
        ensures
            (final(self)@, r) == identifier_looked_up(
                old(self)@,
                identifier,
                identifier_type,
                has_pipe,
            ),
    {
        if identifier_type == CROSS_DOMAIN_ID_TYPE_VIRTGPU_BLOB {
            match self.context_resources.get(&identifier) {
                None => Err(RutabagaError::InvalidResourceId),
                Some(context_resource) => match &context_resource.handle {
                    Some(handle) => match handle.as_mesa_handle() {
                        Some(_) => Ok(SendAction::Duplicate(handle.clone())),
                        None => Err(
                            RutabagaError::MesaError(MesaError::InvalidMesaHandle),
                        ),
                    },
                    None => Err(RutabagaError::MesaError(MesaError::InvalidMesaHandle)),
                },
            }
        } else if identifier_type == CROSS_DOMAIN_ID_TYPE_READ_PIPE {
            if has_pipe {
                Err(
                    RutabagaError::MesaError(
                        MesaError::WithContext("expected just one pipe pair"),
                    ),
                )
            } else {
                Ok(SendAction::CreatePipe)
            }
        } else if identifier_type == CROSS_DOMAIN_ID_TYPE_VIRTIO_FS_BLOB {
            match self.item_state.table.remove(&identifier) {
                Some(CrossDomainItem::RegularFile(file)) => Ok(SendAction::Attach(file)),
                Some(_) => Err(RutabagaError::InvalidCrossDomainItemId),
                None => {
                    assert(self@.items =~= old(self)@.items);
                    Err(RutabagaError::InvalidCrossDomainItemId)
                },
            }
        } else {
            Err(RutabagaError::InvalidCrossDomainItemType)
        }
    }

    /// Enters a new pipe of a send command: `write_end` is a duplicate of the descriptor of
    /// `write_pipe`.
    pub fn send_pipe(
        &mut self,
        pending: PendingSend,
        guess: u32,
        read_pipe: ReadPipe,
        write_pipe: WritePipe,
        write_end: OwnedDescriptor,
    ) -> (r: Result<PendingSend, RutabagaError>)
        requires
            old(self)@.items.read_pipe_id < u32::MAX,
        ensures
            (final(self)@, pending_view(r)) == pipe_entered(
                old(self)@,
                pending@,
                guess,
                read_pipe,
                write_pipe,
                write_end,
            ),
    {
        let mut pending = pending;
        pending.descriptors.push(write_end);
        let read_pipe_id: u32 = add_item(
            &mut self.item_state,
            CrossDomainItem::WaylandReadPipe(read_pipe),
        );
        if read_pipe_id != guess {
            return Err(RutabagaError::InvalidCrossDomainItemId);
        }
        // The write end has to stay open until the message is sent, so that the read end can
        // receive hang-ups later.
        pending.write_pipe = Some(write_pipe);
        pending.read_pipe_id = Some(read_pipe_id);
        Ok(pending)
    }

    /// Finds the descriptor for the next identifier of a send command.
    fn send_next(&mut self, cmd_send: &CrossDomainSendReceive, pending: PendingSend) -> (r: Result<
        PendingSend,
        RutabagaError,
    >)
        requires
            pending@.descriptors.len() < cmd_send.num_identifiers <= CROSS_DOMAIN_MAX_IDENTIFIERS,
            cmd_send.identifier_types@[pending@.descriptors.len() as int]
                == CROSS_DOMAIN_ID_TYPE_READ_PIPE && pending@.write_pipe is None ==> old(
                self,
            )@.items.read_pipe_id < u32::MAX,
        ensures
            exists|supply: Supply|
                #![trigger identifier_sent(old(self)@, pending@, *cmd_send, supply)]
                (final(self)@, pending_view(r)) == identifier_sent(
                    old(self)@,
                    pending@,
                    *cmd_send,
                    supply,
                ) && is_supply_for(supply, next_looked_up(old(self)@, pending@, *cmd_send).1),
    {
        let mut pending = pending;
        let i: usize = pending.descriptors.len();
        let ghost before = pending@;
        let ghost any_pipe = arbitrary::<Result<(ReadPipe, WritePipe), magma_gpu::util::Error>>();
        let ghost any_duplicate = arbitrary::<Result<OwnedDescriptor, std::io::Error>>();
        match self.send_identifier(
            cmd_send.identifiers[i],
            cmd_send.identifier_types[i],
            pending.write_pipe.is_some(),
        ) {
            Err(e) => {
                let ghost supply = Supply { pipe: any_pipe, duplicate: any_duplicate };
                assert(identifier_sent(old(self)@, before, *cmd_send, supply).0 == self@);
                Err(e)
            },
            Ok(SendAction::Attach(file)) => {
                pending.descriptors.push(file);
                let ghost supply = Supply { pipe: any_pipe, duplicate: any_duplicate };
                assert(identifier_sent(old(self)@, before, *cmd_send, supply).0 == self@);
                Ok(pending)
            },
            Ok(SendAction::Duplicate(handle)) => {
                let duplicate = match handle.as_mesa_handle() {
                    Some(mesa_handle) => duplicate(&mesa_handle.os_handle),
                    None => {
                        return Err(RutabagaError::MesaError(MesaError::InvalidMesaHandle));
                    },
                };
                let ghost supply = Supply { pipe: any_pipe, duplicate };
                match duplicate {
                    Ok(descriptor) => {
                        pending.descriptors.push(descriptor);
                        assert(identifier_sent(old(self)@, before, *cmd_send, supply).0 == self@);
                        Ok(pending)
                    },
                    Err(e) => {
                        assert(identifier_sent(old(self)@, before, *cmd_send, supply).0 == self@);
                        Err(RutabagaError::MesaError(MesaError::IoError(e)))
                    },
                }
            },
            Ok(SendAction::CreatePipe) => {
                match make_ends() {
                    Err(e) => {
                        let ghost supply = Supply { pipe: Err(e), duplicate: any_duplicate };
                        assert(identifier_sent(old(self)@, before, *cmd_send, supply).0 == self@);
                        Err(RutabagaError::MesaError(MesaError::Util(e)))
                    },
                    Ok((read_pipe, write_pipe)) => {
                        let duplicate = duplicate(write_pipe_descriptor(&write_pipe));
                        let ghost supply = Supply {
                            pipe: Ok((read_pipe, write_pipe)),
                            duplicate,
                        };
                        match duplicate {
                            Ok(write_end) => {
                                assert(identifier_sent(old(self)@, before, *cmd_send, supply)
                                    == pipe_entered(
                                    self@,
                                    before,
                                    cmd_send.identifiers@[i as int],
                                    read_pipe,
                                    write_pipe,
                                    write_end,
                                ));
                                self.send_pipe(
                                    pending,
                                    cmd_send.identifiers[i],
                                    read_pipe,
                                    write_pipe,
                                    write_end,
                                )
                            },
                            Err(e) => {
                                assert(identifier_sent(old(self)@, before, *cmd_send, supply).0
                                    == self@);
                                Err(RutabagaError::MesaError(MesaError::IoError(e)))
                            },
                        }
                    },
                }
            },
        }
    }

    /// Collects the descriptors of a send command. Returns them with the channel on which to send
    /// them; `send_complete` is to follow.
    pub fn send(&mut self, cmd_send: &CrossDomainSendReceive) -> (r: Result<
        (Arc<Tube>, PendingSend),
        RutabagaError,
    >)
        requires
            makes_pipe(old(self)@, *cmd_send) ==> old(self)@.items.read_pipe_id < u32::MAX,
        ensures
            exists|supplies: Seq<Supply>|
                #[trigger] send_run(
                    old(self)@,
                    *cmd_send,
                    supplies,
                    final(self)@,
                    sent_view(r),
                ),
    {
        let num_identifiers: usize = cmd_send.num_identifiers as usize;
        if num_identifiers > CROSS_DOMAIN_MAX_IDENTIFIERS {
            assert(send_run(
                old(self)@,
                *cmd_send,
                Seq::empty(),
                self@,
                Err(rutabaga_utils::with_context("max cross domain identifiers exceeded")),
            ));
            return Err(
                RutabagaError::MesaError(
                    MesaError::WithContext("max cross domain identifiers exceeded"),
                ),
            );
        }
        let mut pending = PendingSend::new();
        let mut i: usize = 0;
        let ghost mut supplies = Seq::<Supply>::empty();
        while i < num_identifiers
            invariant
                0 <= i <= num_identifiers,
                num_identifiers == cmd_send.num_identifiers,
                num_identifiers <= CROSS_DOMAIN_MAX_IDENTIFIERS,
                supplies.len() == i,
                pending@.descriptors.len() == i,
                are_supplies_for(supplies, old(self)@, *cmd_send),
                identifiers_sent(old(self)@, *cmd_send, supplies) == (self@, Ok::<
                    PendingModel,
                    RutabagaError,
                >(pending@)),
                makes_pipe(old(self)@, *cmd_send) ==> old(self)@.items.read_pipe_id < u32::MAX,
                pending@.write_pipe is None ==> {
                    &&& self@.items.read_pipe_id == old(self)@.items.read_pipe_id
                    &&& reaches_pipe(old(self)@, *cmd_send, 0) == reaches_pipe(
                        self@,
                        *cmd_send,
                        i as int,
                    )
                },
            decreases num_identifiers - i,
        {
            let ghost before = self@;
            let ghost pending_before = pending@;
            let next = self.send_next(cmd_send, pending);
            let ghost supply = choose|supply: Supply|
                #![trigger identifier_sent(before, pending_before, *cmd_send, supply)]
                (self@, pending_view(next)) == identifier_sent(
                    before,
                    pending_before,
                    *cmd_send,
                    supply,
                ) && is_supply_for(supply, next_looked_up(before, pending_before, *cmd_send).1);
            proof {
                assert(supplies.push(supply).drop_last() =~= supplies);
                supplies = supplies.push(supply);
                assert(identifiers_sent(old(self)@, *cmd_send, supplies) == (
                    self@,
                    pending_view(next),
                ));
            }
            match next {
                Ok(p) => {
                    pending = p;
                },
                Err(e) => {
                    assert(send_run(old(self)@, *cmd_send, supplies, self@, Err(e)));
                    return Err(e);
                },
            }
            i += 1;
        }
        let channel = match (self.state(), &self.resample_evt) {
            (Some(state), Some(_)) => state.send_msg(),
            _ => Err(RutabagaError::InvalidCrossDomainState),
        };
        match channel {
            Ok(connection) => {
                let ghost sent = Ok((connection, pending@));
                assert(send_run(old(self)@, *cmd_send, supplies, self@, sent));
                Ok((connection, pending))
            },
            Err(e) => {
                assert(send_run(old(self)@, *cmd_send, supplies, self@, Err(e)));
                Err(e)
            },
        }
    }

    /// Finishes a send command after its message was sent: the worker is to poll a new read pipe.
    /// Returns whether the resample event is to be signalled.
    pub fn send_complete(&mut self, pending: &PendingSend) -> (resample: bool)
        ensures
            (final(self)@, resample) == send_completed(old(self)@, pending.read_pipe_id),
    {
        match pending.read_pipe_id {
            Some(read_pipe_id) => {
                self.queue_job(CrossDomainJob::AddReadPipe(read_pipe_id));
                true
            },
            None => false,
        }
    }
}

// ---- write ----

/// What a write command asks for.
pub enum WriteAction {
    /// Write the data to this pipe, where the flag is set.
    Pipe(WritePipe, bool),
    /// Add this value to this event.
    Event(Event, u64),
}

/// What a write command does to the items before anything is written. Most of the time, hang-up
/// and writing are paired, so the item is taken out and put back where there is no hang-up.
pub open spec fn write_begun(
    items: ItemsModel,
    cmd_write: CrossDomainReadWrite,
    opaque_data: Seq<u8>,
) -> (ItemsModel, Result<WriteAction, RutabagaError>) {
    let id = cmd_write.identifier;
    if !items.table.contains_key(id) {
        (items, Err(RutabagaError::InvalidCrossDomainItemId))
    } else {
        (
            items.without_item(id),
            match items.table[id] {
                CrossDomainItem::WaylandWritePipe(write_pipe) => Ok(
                    WriteAction::Pipe(write_pipe, cmd_write.opaque_data_size != 0),
                ),
                CrossDomainItem::Event(event) => if opaque_data.len() == 8 {
                    Ok(WriteAction::Event(event, wire::u64_at(ByteOrder::Little, opaque_data, 0)))
                } else {
                    Err(RutabagaError::InvalidCrossDomainWriteLength)
                },
                _ => Err(RutabagaError::InvalidCrossDomainItemType),
            },
        )
    }
}

/// The item of a write action.
pub open spec fn written_item(action: WriteAction) -> CrossDomainItem {
    match action {
        WriteAction::Pipe(write_pipe, _) => CrossDomainItem::WaylandWritePipe(write_pipe),
        WriteAction::Event(event, _) => CrossDomainItem::Event(event),
    }
}

/// What a write command does to the items after everything is written: the item is put back, unless
/// the command hangs up.
pub open spec fn write_finished(
    items: ItemsModel,
    cmd_write: CrossDomainReadWrite,
    action: WriteAction,
) -> ItemsModel {
    if cmd_write.hang_up == 0 {
        items.with_item_at(cmd_write.identifier, written_item(action))
    } else {
        items
    }
}

impl<W> CrossDomainContext<W> {
    /// Takes out the item that a write command writes to. `write_done` is to follow once the data
    /// is written; where that fails, the item is gone.
    pub fn write(&mut self, cmd_write: &CrossDomainReadWrite, opaque_data: &[u8]) -> (r: Result<
        WriteAction,
        RutabagaError,
    >)
        ensures
            ({
                let (items, action) = write_begun(old(self)@.items, *cmd_write, opaque_data@);
                final(self)@ == old(self)@.with_items(items) && r == action
            }),
    {
        match self.item_state.table.remove(&cmd_write.identifier) {
            None => {
                assert(self@.items =~= old(self)@.items);
                Err(RutabagaError::InvalidCrossDomainItemId)
            },
            Some(CrossDomainItem::WaylandWritePipe(write_pipe)) => Ok(
                WriteAction::Pipe(write_pipe, cmd_write.opaque_data_size != 0),
            ),
            Some(CrossDomainItem::Event(event)) => {
                if opaque_data.len() != 8 {
                    return Err(RutabagaError::InvalidCrossDomainWriteLength);
                }
                Ok(WriteAction::Event(event, wire::read_u64(ByteOrder::Little, opaque_data, 0)))
            },
            Some(_) => Err(RutabagaError::InvalidCrossDomainItemType),
        }
    }

    /// Puts the item of a write command back, unless the command hangs up.
    pub fn write_done(&mut self, cmd_write: &CrossDomainReadWrite, action: WriteAction)
        ensures
            final(self)@ == old(self)@.with_items(
                write_finished(old(self)@.items, *cmd_write, action),
            ),
    {
        if cmd_write.hang_up == 0 {
            let item = match action {
                WriteAction::Pipe(write_pipe, _) => CrossDomainItem::WaylandWritePipe(write_pipe),
                WriteAction::Event(event, _) => CrossDomainItem::Event(event),
            };
            self.item_state.table.insert(cmd_write.identifier, item);
        }
    }
}

// ---- events, files and sockets ----

/// A request to poll an event can be made: where there is such an event, there is a worker.
pub open spec fn can_poll_event<W>(
    ctx: ContextModel<W>,
    cmd_event_new: CrossDomainCreateEvent,
) -> bool {
    ctx.items.table.contains_key(cmd_event_new.id) && ctx.items.table[cmd_event_new.id] is Event
        ==> ctx.state() is Some && ctx.resample_evt is Some
}

/// What a request to poll an event does to the context.
pub open spec fn event_polled<W>(
    ctx: ContextModel<W>,
    cmd_event_new: CrossDomainCreateEvent,
) -> (ContextModel<W>, Result<(), RutabagaError>) {
    let id = cmd_event_new.id;
    if !ctx.items.table.contains_key(id) {
        (ctx, Err(RutabagaError::InvalidCrossDomainItemId))
    } else if !(ctx.items.table[id] is Event) {
        (ctx, Err(RutabagaError::InvalidCrossDomainItemType))
    } else {
        (ctx.with_job(CrossDomainJob::AddReadEvent(id)), Ok(()))
    }
}

/// The file system and the handle of it that a request to import a file asks for, where the
/// identifier is free and files can be looked up.
pub open spec fn file_requested<W>(
    ctx: ContextModel<W>,
    cmd_imp_handle: CrossDomainImportVirtioFsHandle,
) -> Result<(u64, u64), RutabagaError> {
    if ctx.items.table.contains_key(cmd_imp_handle.id) {
        Err(RutabagaError::InvalidCrossDomainItemId)
    } else if !ctx.virtiofs_lookup {
        Err(RutabagaError::InvalidCrossDomainState)
    } else {
        Ok((cmd_imp_handle.fs_id, cmd_imp_handle.handle))
    }
}

/// The context with an imported file under the identifier that the guest chose.
pub open spec fn file_entered<W>(
    ctx: ContextModel<W>,
    cmd_imp_handle: CrossDomainImportVirtioFsHandle,
    file: OwnedDescriptor,
) -> ContextModel<W> {
    ctx.with_items(
        ctx.items.with_item_at(cmd_imp_handle.id, CrossDomainItem::RegularFile(file)),
    )
}

/// A request to put a socket up takes the internal sockets to `sockets_after` with the result `r`.
/// It fails where the system does not take the item for a channel.
pub open spec fn socket_put_up<W>(
    ctx: ContextModel<W>,
    sockets: Map<u128, Tube>,
    cmd_exp_socket: CrossDomainAssignSocketUuid,
    sockets_after: Map<u128, Tube>,
    r: Result<(), RutabagaError>,
) -> bool {
    let id = cmd_exp_socket.id;
    if !ctx.items.table.contains_key(id) {
        &&& r == Err::<(), RutabagaError>(RutabagaError::InvalidCrossDomainItemId)
        &&& sockets_after == sockets
    } else if !(ctx.items.table[id] is Socket) {
        &&& r == Err::<(), RutabagaError>(RutabagaError::InvalidCrossDomainItemType)
        &&& sockets_after == sockets
    } else {
        match r {
            Ok(_) => exists|socket: Tube|
                sockets_after == #[trigger] sockets.insert(
                    wire::le_u128(cmd_exp_socket.socket_uuid@, 0),
                    socket,
                ) && platform::tube_object(socket) == platform::descriptor_object(
                    ctx.items.table[id]->Socket_0,
                ) && platform::makes_tube(ctx.items.table[id]->Socket_0, Ok(socket)),
            Err(e) => {
                &&& e matches RutabagaError::MesaError(MesaError::Util(refusal))
                &&& platform::makes_tube(ctx.items.table[id]->Socket_0, Err(refusal))
                &&& sockets_after == sockets
            },
        }
    }
}

impl<W> CrossDomainContext<W> {
    /// Whether a request to poll an event can be made.
    pub fn can_poll_event(&self, cmd_event_new: &CrossDomainCreateEvent) -> (r: bool)
        ensures
            r == can_poll_event(self@, *cmd_event_new),
    {
        match self.item_state.table.get(&cmd_event_new.id) {
            Some(CrossDomainItem::Event(_)) => self.state().is_some()
                && self.resample_evt.is_some(),
            _ => true,
        }
    }

    /// Has an event polled by the worker. On success the resample event is to be signalled.
    pub fn read_event_new(&mut self, cmd_event_new: &CrossDomainCreateEvent) -> (r: Result<
        (),
        RutabagaError,
    >)
        requires
            can_poll_event(old(self)@, *cmd_event_new),
        ensures
            (final(self)@, r) == event_polled(old(self)@, *cmd_event_new),
    {
        match self.item_state.table.get(&cmd_event_new.id) {
            None => Err(RutabagaError::InvalidCrossDomainItemId),
            Some(CrossDomainItem::Event(_)) => {
                self.queue_job(CrossDomainJob::AddReadEvent(cmd_event_new.id));
                Ok(())
            },
            Some(_) => Err(RutabagaError::InvalidCrossDomainItemType),
        }
    }

    /// Checks a request to import an exported file. Returns which file system and which handle of
    /// it to look up; `imported_virtiofs_handle` is to follow.
    pub fn import_virtiofs_handle(&self, cmd_imp_handle: &CrossDomainImportVirtioFsHandle) -> (r:
        Result<(u64, u64), RutabagaError>)
        ensures
            r == file_requested(self@, *cmd_imp_handle),
    {
        if self.item_state.table.contains_key(&cmd_imp_handle.id) {
            return Err(RutabagaError::InvalidCrossDomainItemId);
        }
        if !self.virtiofs_lookup {
            return Err(RutabagaError::InvalidCrossDomainState);
        }
        Ok((cmd_imp_handle.fs_id, cmd_imp_handle.handle))
    }

    /// Enters the file that was looked up under the identifier that the guest chose.
    pub fn imported_virtiofs_handle(
        &mut self,
        cmd_imp_handle: &CrossDomainImportVirtioFsHandle,
        file: OwnedDescriptor,
    )
        ensures
            final(self)@ == file_entered(old(self)@, *cmd_imp_handle, file),
    {
        self.item_state.table.insert(cmd_imp_handle.id, CrossDomainItem::RegularFile(file));
    }

    /// Takes out the socket under `id`. Any other item under it is used up.
    pub fn take_socket(&mut self, id: u32) -> (r: Result<OwnedDescriptor, RutabagaError>)
        ensures
            final(self)@ == old(self)@.with_items(old(self)@.items.without_item(id)),
            r == (if !old(self)@.items.table.contains_key(id) {
                Err(RutabagaError::InvalidCrossDomainItemId)
            } else {
                match old(self)@.items.table[id] {
                    CrossDomainItem::Socket(socket) => Ok(socket),
                    _ => Err(RutabagaError::InvalidCrossDomainItemType),
                }
            }),
    {
        match self.item_state.table.remove(&id) {
            None => Err(RutabagaError::InvalidCrossDomainItemId),
            Some(CrossDomainItem::Socket(socket)) => Ok(socket),
            Some(_) => Err(RutabagaError::InvalidCrossDomainItemType),
        }
    }

    /// Puts a received socket up for other contexts. It fails where the system does not take it
    /// for a channel; the item is used up all the same.
    pub fn socket_assign_uuid(
        &mut self,
        cmd_exp_socket: &CrossDomainAssignSocketUuid,
        sockets: &mut InternalSockets,
    ) -> (r: Result<(), RutabagaError>)
        ensures
            final(self)@ == old(self)@.with_items(
                old(self)@.items.without_item(cmd_exp_socket.id),
            ),
            socket_put_up(old(self)@, old(sockets)@, *cmd_exp_socket, final(sockets)@, r),
    {
        match self.take_socket(cmd_exp_socket.id) {
            Err(e) => Err(e),
            Ok(descriptor) => match make_tube(descriptor) {
                Err(e) => Err(RutabagaError::MesaError(MesaError::Util(e))),
                Ok(socket) => {
                    sockets.assign(cmd_exp_socket, socket);
                    Ok(())
                },
            },
        }
    }
}

// ---- atomic memory sentinels ----

/// The memory that a new watcher is to map, where it can be created.
pub open spec fn watcher_requested<W>(
    ctx: ContextModel<W>,
    cmd_atomic_memory_sentinel_new: CrossDomainCreateAtomicMemorySentinel,
) -> Result<WatchedMemory, RutabagaError> {
    match ctx.sentinels.creation(cmd_atomic_memory_sentinel_new.id) {
        Ok(_) => Ok(
            atomic_memory_sentinel_manager::watched_word(
                cmd_atomic_memory_sentinel_new.fs_id,
                cmd_atomic_memory_sentinel_new.handle,
            ),
        ),
        Err(e) => Err(e),
    }
}

/// What a watcher that was created does to the context. It stays where there is no worker to poll
/// its event.
pub open spec fn watcher_entered<W>(
    ctx: ContextModel<W>,
    cmd_atomic_memory_sentinel_new: CrossDomainCreateAtomicMemorySentinel,
    worker: W,
    evt: Event,
    polled_evt: Event,
) -> (ContextModel<W>, Result<(), RutabagaError>) {
    let id = cmd_atomic_memory_sentinel_new.id;
    let entered = ContextModel {
        sentinels: ctx.sentinels.with_watcher(id, worker, evt),
        ..ctx
    };
    if ctx.state() is None {
        (entered, Err(RutabagaError::InvalidCrossDomainState))
    } else {
        (entered.with_job(CrossDomainJob::AddAtomicMemorySentinel(id, polled_evt)), Ok(()))
    }
}

/// What a request to shut a watcher down does to the context.
pub open spec fn watcher_shut_down<W>(
    ctx: ContextModel<W>,
    cmd_atomic_memory_sentinel_destroy: CrossDomainDestroyAtomicMemorySentinel,
) -> (ContextModel<W>, Result<(), RutabagaError>) {
    let id = cmd_atomic_memory_sentinel_destroy.id;
    if ctx.sentinels.watchers.contains_key(id) {
        (ContextModel { sentinels: ctx.sentinels.with_shutdown(id), ..ctx }, Ok(()))
    } else {
        (ctx, Err(RutabagaError::InvalidCrossDomainItemId))
    }
}

impl<W> CrossDomainContext<W> {
    /// Checks a request for a watcher. Returns the memory that it is to map;
    /// `atomic_memory_sentinel_created` is to follow.
    pub fn atomic_memory_sentinel_new(
        &self,
        cmd_atomic_memory_sentinel_new: &CrossDomainCreateAtomicMemorySentinel,
    ) -> (r: Result<WatchedMemory, RutabagaError>)
        ensures
            r == watcher_requested(self@, *cmd_atomic_memory_sentinel_new),
    {
        self.sentinel_manager.create_watcher(
            cmd_atomic_memory_sentinel_new.id,
            cmd_atomic_memory_sentinel_new.fs_id,
            cmd_atomic_memory_sentinel_new.handle,
        )
    }

    /// Enters a watcher that was created, and has its event polled by the worker. `evt` and
    /// `polled_evt` are duplicates of each other. The watcher stays where there is no worker.
    pub fn atomic_memory_sentinel_created(
        &mut self,
        cmd_atomic_memory_sentinel_new: &CrossDomainCreateAtomicMemorySentinel,
        worker: W,
        evt: Event,
        polled_evt: Event,
    ) -> (r: Result<(), RutabagaError>)
        ensures
            (final(self)@, r) == watcher_entered(
                old(self)@,
                *cmd_atomic_memory_sentinel_new,
                worker,
                evt,
                polled_evt,
            ),
    {
        let id: u32 = cmd_atomic_memory_sentinel_new.id;
        self.sentinel_manager.add_watcher(id, worker, evt);
        if self.state().is_none() {
            return Err(RutabagaError::InvalidCrossDomainState);
        }
        self.queue_job(CrossDomainJob::AddAtomicMemorySentinel(id, polled_evt));
        Ok(())
    }

    /// The worker whose memory a signal command is about.
    pub fn atomic_memory_sentinel_signal(
        &self,
        cmd_atomic_memory_sentinel_signal: &CrossDomainSignalAtomicMemorySentinel,
    ) -> (r: Result<&W, RutabagaError>)
        ensures
            r == (if self@.sentinels.watchers.contains_key(cmd_atomic_memory_sentinel_signal.id) {
                Ok::<&W, RutabagaError>(
                    &self@.sentinels.watchers[cmd_atomic_memory_sentinel_signal.id].worker,
                )
            } else {
                Err(RutabagaError::InvalidCrossDomainItemId)
            }),
    {
        self.sentinel_manager.signal_watcher(cmd_atomic_memory_sentinel_signal.id)
    }

    /// Shuts a watcher down; its worker is to be woken and waited for.
    pub fn atomic_memory_sentinel_destroy(
        &mut self,
        cmd_atomic_memory_sentinel_destroy: &CrossDomainDestroyAtomicMemorySentinel,
    ) -> (r: Result<(), RutabagaError>)
        ensures
            (final(self)@, r) == watcher_shut_down(
                old(self)@,
                *cmd_atomic_memory_sentinel_destroy,
            ),
    {
        self.sentinel_manager.destroy_watcher(cmd_atomic_memory_sentinel_destroy.id)
    }
}

// ---- resources ----

/// The resource for an image: memory of the requirements' size and layout, mapped as they say and
/// to be read and written.
pub open spec fn image_resource_of(
    resource_id: u32,
    create: ResourceCreateBlob,
    reqs: ImageMemoryRequirements,
    handle: RutabagaHandle,
) -> RutabagaResource {
    RutabagaResource {
        resource_id,
        handle: Some(Arc::new(handle)),
        blob: true,
        blob_mem: create.blob_mem,
        blob_flags: create.blob_flags,
        map_info: Some(reqs.map_info | RUTABAGA_MAP_ACCESS_RW),
        info_3d: Some(
            Resource3DInfo {
                width: reqs.info.width,
                height: reqs.info.height,
                drm_fourcc: reqs.info.drm_format,
                strides: reqs.strides,
                offsets: reqs.offsets,
                modifier: reqs.modifier,
            },
        ),
        vulkan_info: reqs.vulkan_info,
        backing_iovecs: None,
        component_mask: CROSS_DOMAIN_COMPONENT_MASK,
        size: create.size,
    }
}

/// The resource for memory that was received: cached, with the access that it permits.
pub open spec fn imported_resource_of(
    resource_id: u32,
    create: ResourceCreateBlob,
    handle: MagmaGpuHandle,
    map_access: u32,
) -> RutabagaResource {
    RutabagaResource {
        resource_id,
        handle: Some(Arc::new(RutabagaHandle::MagmaGpuHandle(handle))),
        blob: true,
        blob_mem: create.blob_mem,
        blob_flags: create.blob_flags,
        map_info: Some(RUTABAGA_MAP_CACHE_CACHED | map_access),
        info_3d: None,
        vulkan_info: None,
        backing_iovecs: None,
        component_mask: CROSS_DOMAIN_COMPONENT_MASK,
        size: create.size,
    }
}

/// What a request for a blob resource comes to.
pub enum BlobAction {
    /// The resource.
    Created(RutabagaResource),
    /// Memory is to be allocated to these requirements; `image_resource` makes it the resource.
    Allocate(ImageMemoryRequirements),
    /// The memory behind this handle becomes the resource.
    Import(MagmaGpuHandle),
}

/// What a request for a blob resource does to the items. Requirements are kept, since they can be
/// used for subsequent allocations; everything else can be used once.
pub open spec fn blob_looked_up(
    items: ItemsModel,
    resource_id: u32,
    create: ResourceCreateBlob,
    handle_opt: Option<RutabagaHandle>,
) -> (ItemsModel, Result<BlobAction, RutabagaError>) {
    let item_id = create.blob_id as u32;
    if !items.table.contains_key(item_id) {
        (items, Err(RutabagaError::InvalidCrossDomainItemId))
    } else {
        match items.table[item_id] {
            CrossDomainItem::ImageRequirements(reqs) => (
                items,
                if reqs.size != create.size {
                    Err(rutabaga_utils::with_context("blob size mismatch"))
                } else {
                    match handle_opt {
                        Some(handle) => Ok(
                            BlobAction::Created(
                                image_resource_of(resource_id, create, reqs, handle),
                            ),
                        ),
                        None => Ok(BlobAction::Allocate(reqs)),
                    }
                },
            ),
            CrossDomainItem::Blob(handle) => (
                items.without_item(item_id),
                Ok(BlobAction::Import(handle)),
            ),
            _ => (
                items.without_item(item_id),
                Err(RutabagaError::InvalidCrossDomainItemType),
            ),
        }
    }
}

/// What a request for a blob resource comes to where the system says `access` of received memory.
pub open spec fn blob_created(
    items: ItemsModel,
    resource_id: u32,
    create: ResourceCreateBlob,
    handle_opt: Option<RutabagaHandle>,
    access: Result<u32, std::io::Error>,
) -> (ItemsModel, Result<BlobAction, RutabagaError>) {
    let (after, action) = blob_looked_up(items, resource_id, create, handle_opt);
    (
        after,
        match action {
            Ok(BlobAction::Import(handle)) => match access {
                Ok(map_access) => Ok(
                    BlobAction::Created(
                        imported_resource_of(resource_id, create, handle, map_access),
                    ),
                ),
                Err(e) => Err(RutabagaError::MesaError(MesaError::IoError(e))),
            },
            _ => action,
        },
    )
}

/// The resource for an image, around the memory that was allocated or given for it.
pub fn image_resource(
    resource_id: u32,
    resource_create_blob: &ResourceCreateBlob,
    reqs: &ImageMemoryRequirements,
    handle: RutabagaHandle,
) -> (r: RutabagaResource)
    ensures
        r == image_resource_of(resource_id, *resource_create_blob, *reqs, handle),
{
    let info_3d = Resource3DInfo {
        width: reqs.info.width,
        height: reqs.info.height,
        drm_fourcc: reqs.info.drm_format,
        strides: reqs.strides,
        offsets: reqs.offsets,
        modifier: reqs.modifier,
    };
    RutabagaResource {
        resource_id,
        handle: Some(Arc::new(handle)),
        blob: true,
        blob_mem: resource_create_blob.blob_mem,
        blob_flags: resource_create_blob.blob_flags,
        map_info: Some(reqs.map_info | RUTABAGA_MAP_ACCESS_RW),
        info_3d: Some(info_3d),
        vulkan_info: reqs.vulkan_info,
        backing_iovecs: None,
        component_mask: CROSS_DOMAIN_COMPONENT_MASK,
        size: resource_create_blob.size,
    }
}

/// The resource for received memory that permits `map_access`.
pub fn imported_resource(
    resource_id: u32,
    resource_create_blob: &ResourceCreateBlob,
    handle: MagmaGpuHandle,
    map_access: u32,
) -> (r: RutabagaResource)
    ensures
        r == imported_resource_of(resource_id, *resource_create_blob, handle, map_access),
{
    RutabagaResource {
        resource_id,
        handle: Some(Arc::new(RutabagaHandle::MagmaGpuHandle(handle))),
        blob: true,
        blob_mem: resource_create_blob.blob_mem,
        blob_flags: resource_create_blob.blob_flags,
        map_info: Some(RUTABAGA_MAP_CACHE_CACHED | map_access),
        info_3d: None,
        vulkan_info: None,
        backing_iovecs: None,
        component_mask: CROSS_DOMAIN_COMPONENT_MASK,
        size: resource_create_blob.size,
    }
}

/// What attaching a resource does to the attached ones and to the resource: guest memory moves
/// over, a handle is shared, and a resource with neither is not attached.
pub open spec fn resource_attached(
    resources: Map<u32, ContextResource>,
    resource: RutabagaResource,
) -> (Map<u32, ContextResource>, RutabagaResource) {
    if resource.blob_mem == RUTABAGA_BLOB_MEM_GUEST {
        (
            resources.insert(
                resource.resource_id,
                ContextResource { handle: None, backing_iovecs: resource.backing_iovecs },
            ),
            RutabagaResource { backing_iovecs: None, ..resource },
        )
    } else if resource.handle is Some {
        (
            resources.insert(
                resource.resource_id,
                ContextResource { handle: resource.handle, backing_iovecs: None },
            ),
            resource,
        )
    } else {
        (resources, resource)
    }
}

impl<W> CrossDomainContext<W> {
    /// Finds the item that a blob resource is made of.
    pub fn find_blob(
        &mut self,
        resource_id: u32,
        resource_create_blob: &ResourceCreateBlob,
        handle_opt: Option<RutabagaHandle>,
    ) -> (r: Result<BlobAction, RutabagaError>)
        ensures
            ({
                let (items, action) = blob_looked_up(
                    old(self)@.items,
                    resource_id,
                    *resource_create_blob,
                    handle_opt,
                );
                final(self)@ == old(self)@.with_items(items) && r == action
            }),
    {
        let item_id: u32 = resource_create_blob.blob_id as u32;
        match self.item_state.table.get(&item_id) {
            None => {
                return Err(RutabagaError::InvalidCrossDomainItemId);
            },
            Some(CrossDomainItem::ImageRequirements(reqs)) => {
                if reqs.size != resource_create_blob.size {
                    return Err(
                        RutabagaError::MesaError(
                            MesaError::WithContext("blob size mismatch"),
                        ),
                    );
                }
                return match handle_opt {
                    Some(handle) => Ok(
                        BlobAction::Created(
                            image_resource(resource_id, resource_create_blob, reqs, handle),
                        ),
                    ),
                    None => Ok(BlobAction::Allocate(*reqs)),
                };
            },
            Some(_) => {},
        }
        match self.item_state.table.remove(&item_id) {
            None => Err(RutabagaError::InvalidCrossDomainItemId),
            Some(CrossDomainItem::Blob(handle)) => Ok(BlobAction::Import(handle)),
            Some(_) => Err(RutabagaError::InvalidCrossDomainItemType),
        }
    }

    /// Makes a blob resource, or says what memory to allocate for it. The access to received
    /// memory is what the system says of it, some of the bits to read and to write.
    pub fn context_create_blob(
        &mut self,
        resource_id: u32,
        resource_create_blob: &ResourceCreateBlob,
        handle_opt: Option<RutabagaHandle>,
    ) -> (r: Result<BlobAction, RutabagaError>)
        ensures
            exists|access: Result<u32, std::io::Error>|
                #![trigger blob_created(
                    old(self)@.items,
                    resource_id,
                    *resource_create_blob,
                    handle_opt,
                    access,
                )]
                {
                    let (items, action) = blob_created(
                        old(self)@.items,
                        resource_id,
                        *resource_create_blob,
                        handle_opt,
                        access,
                    );
                    &&& final(self)@ == old(self)@.with_items(items)
                    &&& r == action
                    &&& access matches Ok(bits) ==> bits == 0 || bits == 0x10 || bits == 0x20
                        || bits == RUTABAGA_MAP_ACCESS_RW
                    &&& old(self)@.items.table.contains_key(resource_create_blob.blob_id as u32)
                        ==> (old(self)@.items.table[resource_create_blob.blob_id as u32]
                        matches CrossDomainItem::Blob(handle) ==> platform::reports_access(
                        handle.os_handle,
                        access,
                    ))
                },
    {
        let ghost given = handle_opt;
        match self.find_blob(resource_id, resource_create_blob, handle_opt) {
            Ok(BlobAction::Import(handle)) => {
                let access = report_access(&handle.os_handle);
                let ghost created = blob_created(
                    old(self)@.items,
                    resource_id,
                    *resource_create_blob,
                    given,
                    access,
                );
                assert(self@ == old(self)@.with_items(created.0));
                match access {
                    Ok(map_access) => Ok(
                        BlobAction::Created(
                            imported_resource(
                                resource_id,
                                resource_create_blob,
                                handle,
                                map_access,
                            ),
                        ),
                    ),
                    Err(e) => Err(RutabagaError::MesaError(MesaError::IoError(e))),
                }
            },
            other => {
                assert(self@ == old(self)@.with_items(
                    blob_created(
                        old(self)@.items,
                        resource_id,
                        *resource_create_blob,
                        given,
                        Ok(0u32),
                    ).0,
                ));
                other
            },
        }
    }

    /// Attaches a resource to the context.
    pub fn attach(&mut self, resource: &mut RutabagaResource)
        ensures
            ({
                let (resources, after) = resource_attached(old(self)@.resources, *old(resource));
                &&& final(self)@ == (ContextModel { resources, ..old(self)@ })
                &&& *final(resource) == after
            }),
    {
        if resource.blob_mem == RUTABAGA_BLOB_MEM_GUEST {
            self.context_resources.insert(
                resource.resource_id,
                ContextResource { handle: None, backing_iovecs: resource.backing_iovecs.take() },
            );
        } else if let Some(handle) = &resource.handle {
            self.context_resources.insert(
                resource.resource_id,
                ContextResource { handle: Some(handle.clone()), backing_iovecs: None },
            );
        }
    }

    /// Detaches a resource from the context.
    pub fn detach(&mut self, resource: &RutabagaResource)
        ensures
            final(self)@ == (ContextModel {
                resources: old(self)@.resources.remove(resource.resource_id),
                ..old(self)@
            }),
    {
        self.context_resources.remove(&resource.resource_id);
    }
}

// ---- fences and the end ----

/// What becomes of a new fence.
pub enum FenceAction {
    /// It is to be signalled at once.
    Signal(RutabagaFence),
    /// It waits for the worker, or nothing waits for it.
    Queued,
}

/// What a new fence does to the context. A fence on the channel ring is for the worker; before
/// there is one, it is dropped.
pub open spec fn fence_created<W>(ctx: ContextModel<W>, fence: RutabagaFence) -> (
    ContextModel<W>,
    Result<FenceAction, RutabagaError>,
) {
    if fence.ring_idx == CROSS_DOMAIN_QUERY_RING {
        (ctx, Ok(FenceAction::Signal(fence)))
    } else if fence.ring_idx == CROSS_DOMAIN_CHANNEL_RING {
        (ctx.with_job(CrossDomainJob::HandleFence(fence)), Ok(FenceAction::Queued))
    } else {
        (ctx, Err(rutabaga_utils::with_context("unexpected ring type")))
    }
}

impl<W> CrossDomainContext<W> {
    /// Decides on a new fence.
    pub fn context_create_fence(&mut self, fence: RutabagaFence) -> (r: Result<
        FenceAction,
        RutabagaError,
    >)
        ensures
            (final(self)@, r) == fence_created(old(self)@, fence),
    {
        let ring_idx: u32 = fence.ring_idx as u32;
        if ring_idx == CROSS_DOMAIN_QUERY_RING {
            Ok(FenceAction::Signal(fence))
        } else if ring_idx == CROSS_DOMAIN_CHANNEL_RING {
            self.queue_job(CrossDomainJob::HandleFence(fence));
            Ok(FenceAction::Queued)
        } else {
            Err(RutabagaError::MesaError(MesaError::WithContext("unexpected ring type")))
        }
    }

    pub fn component_type(&self) -> (r: RutabagaComponentType)
        ensures
            r == RutabagaComponentType::CrossDomain,
    {
        RutabagaComponentType::CrossDomain
    }

    /// Ends the worker, if there is one: it finds a last job. Returns the event to signal, so that
    /// it does not wait for a fence first; then it is to be waited for.
    pub fn finish(&mut self) -> (r: Option<Event>)
        ensures
            final(self)@ == (ContextModel {
                kill_evt: None,
                ..old(self)@.with_job(CrossDomainJob::Finish)
            }),
            r == old(self)@.kill_evt,
    {
        self.queue_job(CrossDomainJob::Finish);
        self.kill_evt.take()
    }
}

} // verus!
