//! What holds of several operations together.

use std::sync::Arc;

use magma_gpu::util::Event;
use magma_gpu::util::OwnedDescriptor;
use magma_gpu::util::ReadPipe;
use magma_gpu::util::Tube;
use magma_gpu::util::WritePipe;

use vstd::multiset::Multiset;
use vstd::prelude::*;

use crate::atomic_memory_sentinel_manager::AtomicMemorySentinelThread;
use crate::atomic_memory_sentinel_manager::ManagerModel;
use crate::atomic_memory_sentinel_manager::SentinelAction;
use crate::atomic_memory_sentinel_manager::SentinelPhase;
use crate::command;
use crate::command::CrossDomainCommand;
use crate::command::Submitted;
use crate::common;
use crate::common::ContextResource;
use crate::common::CrossDomainItem;
use crate::common::CrossDomainItems;
use crate::common::CrossDomainJob;
use crate::common::ItemsModel;
use crate::common::RingWrite;
use crate::common::StateModel;
use crate::component;
use crate::context;
use crate::context::BlobAction;
use crate::context::ContextModel;
use crate::context::FenceAction;
use crate::context::InitAction;
use crate::context::PendingModel;
use crate::context::SendAction;
use crate::context::Supply;
use crate::cross_domain_protocol;
use crate::cross_domain_protocol::CrossDomainAssignSocketUuid;
use crate::cross_domain_protocol::CrossDomainCapabilities;
use crate::cross_domain_protocol::CrossDomainCreateAtomicMemorySentinel;
use crate::cross_domain_protocol::CrossDomainCreateEvent;
use crate::cross_domain_protocol::CrossDomainDestroyAtomicMemorySentinel;
use crate::cross_domain_protocol::CrossDomainGetImageRequirements;
use crate::cross_domain_protocol::CrossDomainHeader;
use crate::cross_domain_protocol::CrossDomainImportVirtioFsHandle;
use crate::cross_domain_protocol::CrossDomainInit;
use crate::cross_domain_protocol::CrossDomainInitLegacy;
use crate::cross_domain_protocol::CrossDomainInitV1;
use crate::cross_domain_protocol::CrossDomainReadWrite;
use crate::cross_domain_protocol::CrossDomainSendReceive;
use crate::cross_domain_protocol::CrossDomainSignalAtomicMemorySentinel;
use crate::cross_domain_protocol::CROSS_DOMAIN_ATOMIC_MEMORY_SENTINEL_START;
use crate::cross_domain_protocol::CROSS_DOMAIN_CHANNEL_RING;
use crate::cross_domain_protocol::CROSS_DOMAIN_CHANNEL_TYPE_INTERNAL_SOCKET;
use crate::cross_domain_protocol::CROSS_DOMAIN_CMD_ASSIGN_SOCKET_UUID;
use crate::cross_domain_protocol::CROSS_DOMAIN_CMD_CREATE_ATOMIC_MEMORY_SENTINEL;
use crate::cross_domain_protocol::CROSS_DOMAIN_CMD_DESTROY_ATOMIC_MEMORY_SENTINEL;
use crate::cross_domain_protocol::CROSS_DOMAIN_CMD_GET_IMAGE_REQUIREMENTS;
use crate::cross_domain_protocol::CROSS_DOMAIN_CMD_IMPORT_VIRTIOFS_HANDLE;
use crate::cross_domain_protocol::CROSS_DOMAIN_CMD_INIT;
use crate::cross_domain_protocol::CROSS_DOMAIN_CMD_POLL;
use crate::cross_domain_protocol::CROSS_DOMAIN_CMD_READ_CREATE_EVENT;
use crate::cross_domain_protocol::CROSS_DOMAIN_CMD_RECEIVE;
use crate::cross_domain_protocol::CROSS_DOMAIN_CMD_SEND;
use crate::cross_domain_protocol::CROSS_DOMAIN_CMD_SIGNAL_ATOMIC_MEMORY_SENTINEL;
use crate::cross_domain_protocol::CROSS_DOMAIN_CMD_WRITE;
use crate::cross_domain_protocol::CROSS_DOMAIN_ID_TYPE_READ_PIPE;
use crate::cross_domain_protocol::CROSS_DOMAIN_ID_TYPE_VIRTGPU_BLOB;
use crate::cross_domain_protocol::CROSS_DOMAIN_ID_TYPE_VIRTIO_FS_BLOB;
use crate::cross_domain_protocol::CROSS_DOMAIN_MAX_IDENTIFIERS;
use crate::cross_domain_protocol::CROSS_DOMAIN_PIPE_READ_START;
use crate::dispatch;
use crate::dispatch::CommandAction;
use crate::handle::RutabagaHandle;
use crate::platform;
use crate::platform::DescriptorType;
use crate::promises;
use crate::rutabaga_utils::ImageMemoryRequirements;
use crate::rutabaga_utils::MagmaGpuError;
use crate::rutabaga_utils::ResourceCreateBlob;
use crate::rutabaga_utils::RutabagaError;
use crate::rutabaga_utils::RutabagaFence;
use crate::rutabaga_utils::RutabagaPath;
use crate::rutabaga_utils::RutabagaResource;
use crate::rutabaga_utils::RUTABAGA_BLOB_MEM_GUEST;
use crate::wire;
use crate::wire::ByteOrder;
use crate::wire::Wire;
use crate::worker;
use crate::worker::CrossDomainWorker;
use crate::worker::FenceRoute;
use crate::worker::ItemRead;
use crate::worker::ReceivedItem;
use crate::worker::WorkerAction;
use crate::worker::CROSS_DOMAIN_DEFAULT_BUFFER_SIZE;
use crate::worker::CROSS_DOMAIN_MAX_SEND_RECV_SIZE;

verus! {

broadcast use wire::group_bytes_len;

// ---- items ----

/// An item that was added is found under its identifier, and every other identifier names what it
/// named before.
pub proof fn law_added_item_is_found(items: ItemsModel, item: CrossDomainItem, other: u32)
    ensures
        items.with_item(item).table.contains_key(items.next_id(item)),
        items.with_item(item).table[items.next_id(item)] == item,
        other != items.next_id(item) ==> {
            &&& items.with_item(item).table.contains_key(other) == items.table.contains_key(other)
            &&& items.with_item(item).table[other] == items.table[other]
        },
{
}

/// Read pipes are numbered from `CROSS_DOMAIN_PIPE_READ_START` on, in steps of one: it starts so,
/// and whatever is done to the items keeps it so.
pub proof fn law_read_pipes_are_numbered_apart(
    items: ItemsModel,
    item: CrossDomainItem,
    read_pipe: ReadPipe,
    id: u32,
)
    requires
        items.read_pipe_id >= CROSS_DOMAIN_PIPE_READ_START,
        items.has_id_for(item),
        items.has_id_for(CrossDomainItem::WaylandReadPipe(read_pipe)),
    ensures
        ItemsModel::initial().read_pipe_id >= CROSS_DOMAIN_PIPE_READ_START,
        items.with_item(item).read_pipe_id >= CROSS_DOMAIN_PIPE_READ_START,
        items.with_item_at(id, item).read_pipe_id >= CROSS_DOMAIN_PIPE_READ_START,
        items.without_item(id).read_pipe_id >= CROSS_DOMAIN_PIPE_READ_START,
        items.next_id(CrossDomainItem::WaylandReadPipe(read_pipe)) == items.read_pipe_id + 1,
        items.next_id(CrossDomainItem::WaylandReadPipe(read_pipe)) > CROSS_DOMAIN_PIPE_READ_START,
{
}

/// Two items that are added one after the other get different identifiers, as long as the
/// identifiers of descriptors stay below those of read pipes.
pub proof fn law_identifiers_differ(items: ItemsModel, a: CrossDomainItem, b: CrossDomainItem)
    requires
        items.read_pipe_id >= CROSS_DOMAIN_PIPE_READ_START,
        items.descriptor_id + 2 <= CROSS_DOMAIN_PIPE_READ_START,
        items.has_id_for(a),
        items.with_item(a).has_id_for(b),
    ensures
        items.with_item(a).next_id(b) != items.next_id(a),
        items.with_item(a).with_item(b).table[items.next_id(a)] == a,
{
}

/// The identifier was given out to an item: one of the descriptors, or one of the read pipes.
pub open spec fn is_given(items: ItemsModel, id: u32) -> bool {
    ||| 1 < id <= items.descriptor_id
    ||| CROSS_DOMAIN_PIPE_READ_START < id <= items.read_pipe_id
}

/// The identifiers of descriptors and of read pipes are apart, and every item is under an
/// identifier that was given out.
pub open spec fn is_numbered(items: ItemsModel) -> bool {
    &&& 1 <= items.descriptor_id <= CROSS_DOMAIN_PIPE_READ_START
    &&& items.read_pipe_id >= CROSS_DOMAIN_PIPE_READ_START
    &&& forall|id: u32| #[trigger] items.table.contains_key(id) ==> is_given(items, id)
}

/// No identifier is given out twice, as long as items get the identifiers that they are given and
/// those of descriptors do not reach those of read pipes. It starts so. An item that is added gets
/// an identifier that no item had before, and from then on exactly this one more is given out.
/// Items that are removed, or put back under an identifier that was given out, change nothing of
/// it.
pub proof fn law_no_identifier_is_given_twice(items: ItemsModel, item: CrossDomainItem, id: u32)
    requires
        is_numbered(items),
        items.has_id_for(item),
        item is WaylandReadPipe || items.descriptor_id < CROSS_DOMAIN_PIPE_READ_START,
    ensures
        is_numbered(ItemsModel::initial()),
        !is_given(items, items.next_id(item)),
        !items.table.contains_key(items.next_id(item)),
        is_numbered(items.with_item(item)),
        is_given(items.with_item(item), id) <==> is_given(items, id) || id == items.next_id(item),
        is_numbered(items.without_item(id)),
        is_given(items, id) ==> is_numbered(items.with_item_at(id, item)),
{
    let added = items.with_item(item);
    assert forall|k: u32| #[trigger] added.table.contains_key(k) implies is_given(added, k) by {
        if k != items.next_id(item) {
            assert(items.table.contains_key(k));
        }
    }
    assert forall|k: u32| #[trigger]
        items.without_item(id).table.contains_key(k) implies is_given(items, k) by {
        assert(items.table.contains_key(k));
    }
    if is_given(items, id) {
        let put = items.with_item_at(id, item);
        assert forall|k: u32| #[trigger] put.table.contains_key(k) implies is_given(put, k) by {
            if k != id {
                assert(items.table.contains_key(k));
            }
        }
    }
}

/// The items stay numbered through the identifiers of a send command.
proof fn lemma_send_keeps_items_numbered<W>(
    ctx: ContextModel<W>,
    cmd_send: CrossDomainSendReceive,
    supplies: Seq<Supply>,
)
    requires
        is_numbered(ctx.items),
        supplies.len() <= cmd_send.num_identifiers <= CROSS_DOMAIN_MAX_IDENTIFIERS,
        context::reaches_pipe(ctx, cmd_send, 0) ==> ctx.items.read_pipe_id < u32::MAX,
    ensures
        ({
            let (reached, sent) = context::identifiers_sent(ctx, cmd_send, supplies);
            &&& is_numbered(reached.items)
            &&& sent matches Ok(pending) ==> pending.descriptors.len() == supplies.len() && (
            pending.write_pipe is None ==> {
                &&& reached.items.read_pipe_id == ctx.items.read_pipe_id
                &&& context::reaches_pipe(ctx, cmd_send, 0) == context::reaches_pipe(
                    reached,
                    cmd_send,
                    supplies.len() as int,
                )
            })
        }),
    decreases supplies.len(),
{
    if supplies.len() > 0 {
        let shorter = supplies.drop_last();
        lemma_send_keeps_items_numbered(ctx, cmd_send, shorter);
        let (before, sent) = context::identifiers_sent(ctx, cmd_send, shorter);
        if let Ok(pending) = sent {
            let id = cmd_send.identifiers@[shorter.len() as int];
            let (looked_up, action) = context::next_looked_up(before, pending, cmd_send);
            assert forall|k: u32| #[trigger]
                looked_up.items.table.contains_key(k) implies is_given(looked_up.items, k) by {
                assert(before.items.table.contains_key(k));
            }
            if let (Ok(SendAction::CreatePipe), Ok((read_pipe, _))) = (
                action,
                supplies.last().pipe,
            ) {
                law_no_identifier_is_given_twice(
                    before.items,
                    CrossDomainItem::WaylandReadPipe(read_pipe),
                    id,
                );
            }
        }
    }
}

/// A command keeps the items numbered, whatever becomes of it, and changes neither the attached
/// resources nor the identifiers of descriptors.
pub proof fn law_command_keeps_items_numbered<'a, W>(
    ctx: ContextModel<W>,
    sockets: Map<u128, Tube>,
    command: CrossDomainCommand<&'a [u8]>,
    after: ContextModel<W>,
    sockets_after: Map<u128, Tube>,
    r: Result<CommandAction<'a>, RutabagaError>,
)
    requires
        is_numbered(ctx.items),
        dispatch::can_begin(ctx, command),
        dispatch::command_begun(ctx, sockets, command, after, sockets_after, r),
    ensures
        is_numbered(after.items),
        after.resources == ctx.resources,
        after.items.descriptor_id == ctx.items.descriptor_id,
{
    match command {
        CrossDomainCommand::Send(c, data) => {
            let (supplies, sent): (
                Seq<Supply>,
                Result<(Arc<Tube>, PendingModel), RutabagaError>,
            ) = choose|
                supplies: Seq<Supply>,
                sent: Result<(Arc<Tube>, PendingModel), RutabagaError>,
            | #[trigger]
                context::send_run(ctx, c, supplies, after, sent) && dispatch::is_left_to_send(
                    r,
                    sent,
                    data,
                );
            law_send_changes_items_only(ctx, c, supplies, after, sent);
            if c.num_identifiers <= CROSS_DOMAIN_MAX_IDENTIFIERS {
                lemma_send_keeps_items_numbered(ctx, c, supplies);
            }
        },
        _ => {
            assert forall|k: u32| #[trigger] after.items.table.contains_key(k) implies is_given(
                after.items,
                k,
            ) by {
                assert(ctx.items.table.contains_key(k));
            }
        },
    }
}

/// What the guest is told of a message names the descriptors of the message: under each identifier
/// is found what became of the descriptor in the same place, with the type and the size that were
/// told. The identifiers are consecutive.
pub proof fn law_received_descriptors_are_found(
    items: ItemsModel,
    len: usize,
    files: Seq<OwnedDescriptor>,
    received: Seq<ReceivedItem>,
    after: ItemsModel,
    cmd: CrossDomainSendReceive,
    i: int,
)
    requires
        worker::receive_run(items, len, files, received, after, Ok(cmd)),
        items.descriptor_id + worker::num_entered(files.len() as int) <= u32::MAX,
        0 <= i < worker::num_entered(files.len() as int),
    ensures
        cmd.identifiers@[i] == items.descriptor_id + 1 + i,
        after.table.contains_key(cmd.identifiers@[i]),
        worker::is_received(
            Ok(
                ReceivedItem {
                    item: after.table[cmd.identifiers@[i]],
                    identifier_type: cmd.identifier_types@[i],
                    identifier_size: cmd.identifier_sizes@[i],
                },
            ),
            files[i],
        ),
{
    assert forall|k: int| 0 <= k < received.len() implies !((
    #[trigger] received[k]).item is WaylandReadPipe) by {
        assert(worker::is_received(Ok(received[k]), files[k]));
    }
    lemma_received(items, received.take(i));
    lemma_received(items, received);
    lemma_received_lookup(items, received, i);
    assert(worker::is_received(Ok(received[i]), files[i]));
}

proof fn lemma_received(items: ItemsModel, received: Seq<ReceivedItem>)
    requires
        items.descriptor_id + received.len() <= u32::MAX,
        forall|k: int|
            0 <= k < received.len() ==> !((#[trigger] received[k]).item is WaylandReadPipe),
    ensures
        worker::with_received(items, received).descriptor_id == items.descriptor_id
            + received.len(),
    decreases received.len(),
{
    if received.len() > 0 {
        lemma_received(items, received.drop_last());
    }
}

proof fn lemma_received_lookup(items: ItemsModel, received: Seq<ReceivedItem>, i: int)
    requires
        items.descriptor_id + received.len() <= u32::MAX,
        forall|k: int|
            0 <= k < received.len() ==> !((#[trigger] received[k]).item is WaylandReadPipe),
        0 <= i < received.len(),
    ensures
        ({
            let id = (items.descriptor_id + 1 + i) as u32;
            &&& worker::with_received(items, received).table.contains_key(id)
            &&& worker::with_received(items, received).table[id] == received[i].item
        }),
    decreases received.len(),
{
    lemma_received(items, received.drop_last());
    if i < received.len() - 1 {
        lemma_received_lookup(items, received.drop_last(), i);
    }
}

/// The guest is told of each descriptor of a message, as far as a command has places, what the
/// system says that very descriptor stands for, and finds it under the identifier that it is told;
/// the places behind that are empty. The length of the message and the number of descriptors are
/// told as they are. A message fails where they are too large to be told, or at the first
/// descriptor that can be no item; then the items before it stay. No item that was there before
/// changes, and exactly the told identifiers are taken.
pub proof fn law_guest_is_told_what_was_received(
    items: &mut CrossDomainItems,
    len: usize,
    files: Vec<OwnedDescriptor>,
    r: Result<CrossDomainSendReceive, RutabagaError>,
)
    requires
        call_ensures(CrossDomainWorker::process_receive, (items, len, files), r),
        old(items)@.descriptor_id + (if files@.len() < 28 {
            files@.len() as int
        } else {
            28
        }) <= u32::MAX,
    ensures
        ({
            let (before, after) = (old(items)@, final(items)@);
            let n = if files@.len() < 28 {
                files@.len() as int
            } else {
                28
            };
            let entered = after.descriptor_id - before.descriptor_id;
            &&& 0 <= entered <= n
            &&& after.read_pipe_id == before.read_pipe_id
            &&& forall|id: u32| #[trigger]
                after.table.contains_key(id) <==> before.table.contains_key(id)
                    || before.descriptor_id < id <= after.descriptor_id
            &&& forall|id: u32|
                !(before.descriptor_id < id <= after.descriptor_id) ==> #[trigger] after.table[id]
                    == before.table[id]
            &&& match r {
                Ok(cmd) => {
                    &&& entered == n
                    &&& files@.len() <= u32::MAX && len <= u32::MAX
                    &&& cmd.hdr.cmd == CROSS_DOMAIN_CMD_RECEIVE
                    &&& cmd.hdr.ring_idx == 0 && cmd.hdr.cmd_size == 0 && cmd.hdr.pad == 0
                    &&& cmd.num_identifiers == files@.len()
                    &&& cmd.opaque_data_size == len
                    &&& forall|i: int|
                        0 <= i < n ==> #[trigger] cmd.identifiers@[i] == before.descriptor_id + 1
                            + i && is_told_for(
                            after.table[cmd.identifiers@[i]],
                            cmd.identifier_types@[i],
                            cmd.identifier_sizes@[i],
                            files@[i],
                        )
                    &&& forall|i: int|
                        n <= i < 28 ==> #[trigger] cmd.identifiers@[i] == 0
                            && cmd.identifier_types@[i] == 0 && cmd.identifier_sizes@[i] == 0
                },
                Err(e) => if files@.len() > u32::MAX || len > u32::MAX {
                    &&& entered == 0
                    &&& e matches RutabagaError::MagmaGpuError(MagmaGpuError::TryFromIntError(_))
                } else {
                    &&& entered < n
                    &&& is_failed_for(e, files@[entered])
                },
            }
        }),
{
    let (before, after) = (old(items)@, final(items)@);
    let received = choose|received: Seq<ReceivedItem>| #[trigger]
        worker::receive_run(before, len, files@, received, after, r);
    assert(worker::receive_run(before, len, files@, received, after, r));
    if worker::size_error(files.len(), len) is None {
        assert forall|k: int| 0 <= k < received.len() implies !((
        #[trigger] received[k]).item is WaylandReadPipe) by {
            assert(worker::is_received(Ok(received[k]), files@[k]));
        }
        lemma_received(before, received);
        lemma_received_table(before, received);
        if let Ok(cmd) = r {
            assert forall|i: int| 0 <= i < received.len() implies #[trigger] cmd.identifiers@[i]
                == before.descriptor_id + 1 + i && is_told_for(
                after.table[cmd.identifiers@[i]],
                cmd.identifier_types@[i],
                cmd.identifier_sizes@[i],
                files@[i],
            ) by {
                law_received_descriptors_are_found(before, len, files@, received, after, cmd, i);
                assert(cmd.identifier_types@[i] == received[i].identifier_type);
                assert(cmd.identifier_sizes@[i] == received[i].identifier_size);
                lemma_received_lookup(before, received, i);
                assert(worker::is_received(Ok(received[i]), files@[i]));
                let answer = choose|answer: Result<DescriptorType, std::io::Error>| #[trigger]
                    platform::reports_type(files@[i], answer) && worker::is_received_for(
                        Ok(received[i]),
                        files@[i],
                        answer,
                    );
                let desc_type = answer->Ok_0;
                assert(platform::reports_type(files@[i], Ok(desc_type)));
            }
        }
    }
}

/// The guest is told of a descriptor what the system said that it stands for.
pub open spec fn is_told_for(
    item: CrossDomainItem,
    identifier_type: u32,
    identifier_size: u32,
    file: OwnedDescriptor,
) -> bool {
    exists|desc_type: DescriptorType|
        #[trigger] platform::reports_type(file, Ok(desc_type)) && promises::is_told(
            item,
            identifier_type,
            identifier_size,
            file,
            desc_type,
        )
}

/// A message fails for what the system said of one of its descriptors: that it is of no known type,
/// or that the type cannot be found out.
pub open spec fn is_failed_for(e: RutabagaError, file: OwnedDescriptor) -> bool {
    ||| e == RutabagaError::InvalidCrossDomainItemType && platform::reports_type(
        file,
        Ok(DescriptorType::Unknown),
    )
    ||| e matches RutabagaError::MagmaGpuError(MagmaGpuError::IoError(refusal))
        && platform::reports_type(file, Err(refusal))
}

proof fn lemma_received_table(items: ItemsModel, received: Seq<ReceivedItem>)
    requires
        items.descriptor_id + received.len() <= u32::MAX,
        forall|k: int|
            0 <= k < received.len() ==> !((#[trigger] received[k]).item is WaylandReadPipe),
    ensures
        ({
            let after = worker::with_received(items, received);
            &&& after.read_pipe_id == items.read_pipe_id
            &&& forall|id: u32| #[trigger]
                after.table.contains_key(id) <==> items.table.contains_key(id)
                    || items.descriptor_id < id <= after.descriptor_id
            &&& forall|id: u32|
                !(items.descriptor_id < id <= after.descriptor_id) ==> #[trigger] after.table[id]
                    == items.table[id]
        }),
    decreases received.len(),
{
    if received.len() > 0 {
        lemma_received(items, received.drop_last());
        lemma_received_table(items, received.drop_last());
        assert(!(received[received.len() - 1].item is WaylandReadPipe));
    }
}

/// A received message keeps the items numbered, whatever becomes of it, as long as the identifiers
/// of descriptors do not reach those of read pipes.
pub proof fn law_received_message_keeps_items_numbered(
    items: ItemsModel,
    len: usize,
    files: Seq<OwnedDescriptor>,
    received: Seq<ReceivedItem>,
    after: ItemsModel,
    r: Result<CrossDomainSendReceive, RutabagaError>,
)
    requires
        is_numbered(items),
        worker::receive_run(items, len, files, received, after, r),
        items.descriptor_id + worker::num_entered(files.len() as int)
            <= CROSS_DOMAIN_PIPE_READ_START,
    ensures
        is_numbered(after),
{
    if worker::size_error(files.len() as usize, len) is None {
        assert forall|k: int| 0 <= k < received.len() implies !((
        #[trigger] received[k]).item is WaylandReadPipe) by {
            assert(worker::is_received(Ok(received[k]), files[k]));
        }
        lemma_received_numbered(items, received);
    }
}

proof fn lemma_received_numbered(items: ItemsModel, received: Seq<ReceivedItem>)
    requires
        is_numbered(items),
        items.descriptor_id + received.len() <= CROSS_DOMAIN_PIPE_READ_START,
        forall|k: int|
            0 <= k < received.len() ==> !((#[trigger] received[k]).item is WaylandReadPipe),
    ensures
        is_numbered(worker::with_received(items, received)),
    decreases received.len(),
{
    if received.len() > 0 {
        let shorter = received.drop_last();
        lemma_received_numbered(items, shorter);
        lemma_received(items, shorter);
        assert(!(received[received.len() - 1].item is WaylandReadPipe));
        law_no_identifier_is_given_twice(
            worker::with_received(items, shorter),
            received.last().item,
            0,
        );
    }
}

// ---- jobs ----

/// The jobs of a queue after `n` of them were taken.
pub open spec fn after_jobs(state: StateModel, n: int) -> StateModel {
    match state.jobs {
        Some(queue) => StateModel { jobs: Some(queue.skip(n)), ..state },
        None => state,
    }
}

/// Jobs are taken in the order in which they were added: a job comes after all those that were
/// queued before it, and jobs that are added later do not come before it.
pub proof fn law_jobs_are_taken_in_order(
    state: StateModel,
    job: CrossDomainJob,
    later: CrossDomainJob,
)
    requires
        state.jobs is Some,
    ensures
        ({
            let n = state.jobs->Some_0.len() as int;
            let queue = after_jobs(state.with_job(job).with_job(later), n).jobs->Some_0;
            &&& queue.len() == 2
            &&& queue[0] == job
            &&& forall|k: int|
                0 <= k < n ==> (#[trigger] state.with_job(job).with_job(
                    later,
                ).jobs->Some_0[k]) == state.jobs->Some_0[k]
        }),
{
}

// ---- fences ----

/// The fence of a job, if it has one.
pub open spec fn job_fence(job: CrossDomainJob) -> Multiset<RutabagaFence> {
    match job {
        CrossDomainJob::HandleFence(fence) => Multiset::singleton(fence),
        _ => Multiset::empty(),
    }
}

/// The fences of the queued jobs.
pub open spec fn queued_fences(queue: Seq<CrossDomainJob>) -> Multiset<RutabagaFence>
    decreases queue.len(),
{
    if queue.len() == 0 {
        Multiset::empty()
    } else {
        job_fence(queue[0]).add(queued_fences(queue.skip(1)))
    }
}

/// The fences that the guest waits for: those of the queued jobs, and the one that the worker has
/// in hand.
pub open spec fn pending_fences(state: StateModel, in_hand: Option<RutabagaFence>) -> Multiset<
    RutabagaFence,
> {
    let queued = match state.jobs {
        Some(queue) => queued_fences(queue),
        None => Multiset::empty(),
    };
    match in_hand {
        Some(fence) => queued.insert(fence),
        None => queued,
    }
}

proof fn lemma_queued_push(queue: Seq<CrossDomainJob>, job: CrossDomainJob)
    ensures
        queued_fences(queue.push(job)) == queued_fences(queue).add(job_fence(job)),
    decreases queue.len(),
{
    if queue.len() == 0 {
        assert(queue.push(job)[0] == job);
        assert(queue.push(job).skip(1) =~= queue);
        assert(queued_fences(queue.push(job)) =~= queued_fences(queue).add(job_fence(job)));
    } else {
        lemma_queued_push(queue.skip(1), job);
        assert(queue.push(job).skip(1) =~= queue.skip(1).push(job));
        assert(queued_fences(queue.push(job)) =~= queued_fences(queue).add(job_fence(job)));
    }
}

/// A fence on the channel ring becomes pending, and no other fence changes.
pub proof fn law_created_fence_is_pending<W>(
    ctx: ContextModel<W>,
    fence: RutabagaFence,
    in_hand: Option<RutabagaFence>,
)
    requires
        ctx.state() matches Some(state) && state.jobs is Some,
        fence.ring_idx == CROSS_DOMAIN_CHANNEL_RING,
    ensures
        context::fence_created(ctx, fence).1 == Ok::<FenceAction, RutabagaError>(
            FenceAction::Queued,
        ),
        pending_fences(context::fence_created(ctx, fence).0.state()->Some_0, in_hand)
            == pending_fences(ctx.state()->Some_0, in_hand).insert(fence),
{
    let queue = ctx.state()->Some_0.jobs->Some_0;
    lemma_queued_push(queue, CrossDomainJob::HandleFence(fence));
    assert(pending_fences(context::fence_created(ctx, fence).0.state()->Some_0, in_hand)
        =~= pending_fences(ctx.state()->Some_0, in_hand).insert(fence));
}

/// Taking a job, whichever it is, keeps the pending fences: the fence of the job goes into the
/// hand of the worker.
pub proof fn law_taken_fence_stays_pending(state: StateModel)
    requires
        state.jobs matches Some(queue) && queue.len() > 0,
    ensures
        ({
            let job = state.jobs->Some_0[0];
            let in_hand = match job {
                CrossDomainJob::HandleFence(fence) => Some(fence),
                _ => None,
            };
            pending_fences(after_jobs(state, 1), in_hand) == pending_fences(state, None)
        }),
{
    let job = state.jobs->Some_0[0];
    let in_hand = match job {
        CrossDomainJob::HandleFence(fence) => Some(fence),
        _ => None,
    };
    assert(pending_fences(after_jobs(state, 1), in_hand) =~= pending_fences(state, None));
}

/// A fence that is queued again stays pending, behind all other jobs.
pub proof fn law_requeued_fence_stays_pending(state: StateModel, fence: RutabagaFence)
    requires
        state.jobs is Some,
    ensures
        pending_fences(state.with_job(CrossDomainJob::HandleFence(fence)), None) == pending_fences(
            state,
            Some(fence),
        ),
        state.with_job(CrossDomainJob::HandleFence(fence)).jobs->Some_0.last()
            == CrossDomainJob::HandleFence(fence),
{
    lemma_queued_push(state.jobs->Some_0, CrossDomainJob::HandleFence(fence));
    assert(pending_fences(state.with_job(CrossDomainJob::HandleFence(fence)), None)
        =~= pending_fences(state, Some(fence)));
}

/// Signalling the fence in hand takes this one fence out of the pending ones.
pub proof fn law_signalled_fence_is_done(state: StateModel, fence: RutabagaFence)
    ensures
        pending_fences(state, Some(fence)) == pending_fences(state, None).insert(fence),
{
}

/// However a fence is settled, it is signalled or stays pending in the queue of its worker, and
/// never both; no other fence changes. Only where there was no event is it given up.
pub proof fn law_settled_fence_is_signalled_or_pending<W>(
    ctx: ContextModel<W>,
    n: int,
    fence: RutabagaFence,
    route: FenceRoute,
)
    requires
        0 <= n < ctx.states.len(),
        ctx.states[n].jobs is Some,
        route !is Idle,
    ensures
        ({
            let (after, signalled) = worker::fence_settled(ctx, n, fence, route);
            &&& after.states.len() == ctx.states.len()
            &&& pending_fences(ctx.states[n], Some(fence)) == (match signalled {
                Some(done) => pending_fences(after.states[n], None).insert(done),
                None => pending_fences(after.states[n], None),
            })
            &&& signalled is Some ==> after == ctx
            &&& forall|k: int|
                0 <= k < ctx.states.len() && k != n ==> #[trigger] after.states[k] == ctx.states[k]
        }),
{
    law_requeued_fence_stays_pending(ctx.states[n], fence);
}

/// A worker keeps to the state that it was started for. Another init command leaves that state
/// alone, and so do the jobs that the guest's commands queue from then on; a fence that the worker
/// queues again goes to its own queue, stays pending there, and reaches no other.
pub proof fn law_worker_keeps_its_own_queue<W>(
    ctx: ContextModel<W>,
    sockets: Map<u128, Tube>,
    cmd_init: CrossDomainInit,
    state: StateModel,
    n: int,
    job: CrossDomainJob,
    fence: RutabagaFence,
)
    requires
        0 <= n < ctx.states.len(),
        ctx.states[n].jobs is Some,
    ensures
        context::initialized(ctx, sockets, cmd_init).0.states.take(ctx.states.len() as int)
            == ctx.states,
        ({
            let again = ctx.with_state(state).with_job(job);
            let requeued = again.with_job_at(n, CrossDomainJob::HandleFence(fence));
            &&& again.states[n] == ctx.states[n]
            &&& again.state() == Some(state.with_job(job))
            &&& requeued.state() == again.state()
            &&& requeued.states[n] == ctx.states[n].with_job(CrossDomainJob::HandleFence(fence))
            &&& pending_fences(requeued.states[n], None) == pending_fences(
                ctx.states[n],
                Some(fence),
            )
        }),
{
    assert(context::initialized(ctx, sockets, cmd_init).0.states.take(ctx.states.len() as int)
        =~= ctx.states);
    law_requeued_fence_stays_pending(ctx.states[n], fence);
}

// ---- polled items ----

/// Something that happens to a read pipe that is polled leads back to that pipe.
pub proof fn law_polled_pipe_is_read(items: ItemsModel, id: u32)
    requires
        items.table.contains_key(id),
        items.table[id] is WaylandReadPipe,
        id >= CROSS_DOMAIN_PIPE_READ_START,
    ensures
        worker::job_action(items, CrossDomainJob::AddReadPipe(id)) == Ok::<
            WorkerAction,
            RutabagaError,
        >(WorkerAction::WatchPipe(id as u64, &items.table[id]->WaylandReadPipe_0)),
        worker::connection_route(id as u64) == Ok::<FenceRoute, RutabagaError>(
            FenceRoute::Item(id),
        ),
        worker::item_read(items, id) == Ok::<ItemRead, RutabagaError>(
            ItemRead::Pipe(&items.table[id]->WaylandReadPipe_0, worker::read_command(id)),
        ),
{
}

/// Something that happens to an event that is polled leads back to that event, unless its
/// identifier is one of those of the channel, of the worker's own events or of the watchers.
pub proof fn law_polled_event_is_read(items: ItemsModel, id: u32)
    requires
        items.table.contains_key(id),
        items.table[id] is Event,
        id > 3,
        id < CROSS_DOMAIN_ATOMIC_MEMORY_SENTINEL_START || id >= CROSS_DOMAIN_PIPE_READ_START,
    ensures
        worker::job_action(items, CrossDomainJob::AddReadEvent(id)) == Ok::<
            WorkerAction,
            RutabagaError,
        >(WorkerAction::WatchEvent(id as u64, &items.table[id]->Event_0)),
        worker::connection_route(id as u64) == Ok::<FenceRoute, RutabagaError>(
            FenceRoute::Item(id),
        ),
        worker::item_read(items, id) == Ok::<ItemRead, RutabagaError>(
            ItemRead::Event(&items.table[id]->Event_0, worker::read_command(id)),
        ),
{
}

/// Something that happens to a watcher in the range of watchers leads to that watcher.
pub proof fn law_polled_sentinel_is_handled(items: ItemsModel, id: u32, evt: Event)
    requires
        CROSS_DOMAIN_ATOMIC_MEMORY_SENTINEL_START <= id < CROSS_DOMAIN_PIPE_READ_START,
    ensures
        worker::job_action(items, CrossDomainJob::AddAtomicMemorySentinel(id, evt)) == Ok::<
            WorkerAction,
            RutabagaError,
        >(WorkerAction::WatchSentinel(id as u64, evt)),
        worker::connection_route(id as u64) == Ok::<FenceRoute, RutabagaError>(
            FenceRoute::Sentinel(id),
        ),
{
}

// ---- send ----

/// A send command that succeeds has one descriptor for each identifier. It asked for a pipe at most
/// once; the read end is an item under the identifier that the guest guessed, and the write end is
/// still open.
pub proof fn law_send_has_a_descriptor_for_each_identifier<W>(
    ctx: ContextModel<W>,
    cmd_send: CrossDomainSendReceive,
    supplies: Seq<Supply>,
    after: ContextModel<W>,
    connection: Arc<Tube>,
    pending: PendingModel,
)
    requires
        context::send_run(ctx, cmd_send, supplies, after, Ok((connection, pending))),
    ensures
        cmd_send.num_identifiers <= CROSS_DOMAIN_MAX_IDENTIFIERS,
        pending.descriptors.len() == cmd_send.num_identifiers,
        pending.write_pipe is Some <==> pending.read_pipe_id is Some,
        pending.write_pipe is Some <==> context::asks_for_pipe(cmd_send),
        pending.read_pipe_id matches Some(id) ==> exists|i: int|
            0 <= i < cmd_send.num_identifiers && cmd_send.identifiers@[i] == id
                && #[trigger] cmd_send.identifier_types@[i] == CROSS_DOMAIN_ID_TYPE_READ_PIPE,
        forall|i: int, j: int|
            #![trigger cmd_send.identifier_types@[i], cmd_send.identifier_types@[j]]
            0 <= i < j < cmd_send.num_identifiers ==> !(cmd_send.identifier_types@[i]
                == CROSS_DOMAIN_ID_TYPE_READ_PIPE && cmd_send.identifier_types@[j]
                == CROSS_DOMAIN_ID_TYPE_READ_PIPE),
{
    lemma_identifiers_sent(ctx, cmd_send, supplies);
}

/// The descriptor that is sent for an identifier is for what the identifier names: the memory of
/// the resource, the file itself, or the write end of the pipe whose read end is now an item.
/// `write_pipe` is the write end that stays open until the message is sent.
pub open spec fn is_sent_for<W>(
    descriptor: OwnedDescriptor,
    write_pipe: Option<WritePipe>,
    identifier: u32,
    identifier_type: u32,
    ctx: ContextModel<W>,
    after: ContextModel<W>,
) -> bool {
    &&& identifier_type == CROSS_DOMAIN_ID_TYPE_VIRTGPU_BLOB ==> {
        &&& ctx.resources.contains_key(identifier)
        &&& ctx.resources[identifier].handle matches Some(handle)
        &&& *handle matches RutabagaHandle::MagmaGpuHandle(memory)
        &&& platform::descriptor_object(descriptor) == platform::descriptor_object(memory.os_handle)
    }
    &&& identifier_type == CROSS_DOMAIN_ID_TYPE_VIRTIO_FS_BLOB ==> {
        &&& ctx.items.table.contains_key(identifier)
        &&& ctx.items.table[identifier] == CrossDomainItem::RegularFile(descriptor)
        &&& !(after.items.table.contains_key(identifier)
            && after.items.table[identifier] is RegularFile)
    }
    &&& identifier_type == CROSS_DOMAIN_ID_TYPE_READ_PIPE ==> {
        &&& after.items.table.contains_key(identifier)
        &&& after.items.table[identifier] matches CrossDomainItem::WaylandReadPipe(read_pipe)
        &&& write_pipe matches Some(write_end)
        &&& platform::descriptor_object(descriptor) == platform::write_pipe_object(write_end)
        &&& platform::pipe_of(platform::descriptor_object(descriptor)) == platform::pipe_of(
            platform::read_pipe_object(read_pipe),
        )
        &&& platform::descriptor_object(descriptor) != platform::read_pipe_object(read_pipe)
    }
}

/// A send command that succeeds sends for each identifier what it names, in the same place.
pub proof fn law_send_carries_what_the_identifiers_name<W>(
    ctx: ContextModel<W>,
    cmd_send: CrossDomainSendReceive,
    supplies: Seq<Supply>,
    after: ContextModel<W>,
    connection: Arc<Tube>,
    pending: PendingModel,
    i: int,
)
    requires
        context::send_run(ctx, cmd_send, supplies, after, Ok((connection, pending))),
        0 <= i < cmd_send.num_identifiers,
    ensures
        is_sent_for(
            pending.descriptors[i],
            pending.write_pipe,
            cmd_send.identifiers@[i],
            cmd_send.identifier_types@[i],
            ctx,
            after,
        ),
{
    lemma_identifiers_sent(ctx, cmd_send, supplies);
    lemma_sent_for(ctx, cmd_send, supplies);
}

proof fn lemma_sent_for<W>(
    ctx: ContextModel<W>,
    cmd_send: CrossDomainSendReceive,
    supplies: Seq<Supply>,
)
    requires
        context::are_supplies_for(supplies, ctx, cmd_send),
    ensures
        context::identifiers_sent(ctx, cmd_send, supplies).1 matches Ok(pending) ==> {
            let after = context::identifiers_sent(ctx, cmd_send, supplies).0;
            &&& after.resources == ctx.resources
            &&& forall|id: u32| #[trigger]
                after.items.table.contains_key(id) && after.items.table[id] is RegularFile
                    ==> ctx.items.table.contains_key(id) && ctx.items.table[id]
                    == after.items.table[id]
            &&& forall|i: int|
                0 <= i < supplies.len() ==> is_sent_for(
                    #[trigger] pending.descriptors[i],
                    pending.write_pipe,
                    cmd_send.identifiers@[i],
                    cmd_send.identifier_types@[i],
                    ctx,
                    after,
                )
        },
    decreases supplies.len(),
{
    if supplies.len() > 0 {
        let n = supplies.len() - 1;
        let shorter = supplies.drop_last();
        lemma_sent_for(ctx, cmd_send, shorter);
        lemma_identifiers_sent(ctx, cmd_send, shorter);
        lemma_identifiers_sent(ctx, cmd_send, supplies);
        if let Ok(pending) = context::identifiers_sent(ctx, cmd_send, supplies).1 {
            let after = context::identifiers_sent(ctx, cmd_send, supplies).0;
            let before = context::identifiers_sent(ctx, cmd_send, shorter).0;
            let earlier = context::identifiers_sent(ctx, cmd_send, shorter).1->Ok_0;
            assert(pending.descriptors.drop_last() =~= earlier.descriptors);
            assert forall|i: int| 0 <= i < supplies.len() implies is_sent_for(
                #[trigger] pending.descriptors[i],
                pending.write_pipe,
                cmd_send.identifiers@[i],
                cmd_send.identifier_types@[i],
                ctx,
                after,
            ) by {
                if i < n {
                    assert(pending.descriptors[i] == earlier.descriptors[i]);
                    assert(is_sent_for(
                        earlier.descriptors[i],
                        earlier.write_pipe,
                        cmd_send.identifiers@[i],
                        cmd_send.identifier_types@[i],
                        ctx,
                        before,
                    ));
                }
            }
        }
    }
}

/// A send command changes nothing but the items, whether it succeeds or not.
pub proof fn law_send_changes_items_only<W>(
    ctx: ContextModel<W>,
    cmd_send: CrossDomainSendReceive,
    supplies: Seq<Supply>,
    after: ContextModel<W>,
    r: Result<(Arc<Tube>, PendingModel), RutabagaError>,
)
    requires
        context::send_run(ctx, cmd_send, supplies, after, r),
    ensures
        after == ctx.with_items(after.items),
        after.items.descriptor_id == ctx.items.descriptor_id,
{
    lemma_send_frame(ctx, cmd_send, supplies);
}

proof fn lemma_send_frame<W>(
    ctx: ContextModel<W>,
    cmd_send: CrossDomainSendReceive,
    supplies: Seq<Supply>,
)
    ensures
        ({
            let after = context::identifiers_sent(ctx, cmd_send, supplies).0;
            after == ctx.with_items(after.items) && after.items.descriptor_id
                == ctx.items.descriptor_id
        }),
    decreases supplies.len(),
{
    if supplies.len() > 0 {
        lemma_send_frame(ctx, cmd_send, supplies.drop_last());
    }
}

proof fn lemma_identifiers_sent<W>(
    ctx: ContextModel<W>,
    cmd_send: CrossDomainSendReceive,
    supplies: Seq<Supply>,
)
    ensures
        context::identifiers_sent(ctx, cmd_send, supplies).1 matches Ok(pending) ==> {
            &&& pending.descriptors.len() == supplies.len()
            &&& pending.write_pipe is Some <==> pending.read_pipe_id is Some
            &&& pending.write_pipe is Some <==> exists|i: int|
                0 <= i < supplies.len() && #[trigger] cmd_send.identifier_types@[i]
                    == CROSS_DOMAIN_ID_TYPE_READ_PIPE
            &&& pending.read_pipe_id matches Some(id) ==> exists|i: int|
                0 <= i < supplies.len() && cmd_send.identifiers@[i] == id
                    && #[trigger] cmd_send.identifier_types@[i] == CROSS_DOMAIN_ID_TYPE_READ_PIPE
            &&& forall|i: int, j: int|
                #![trigger cmd_send.identifier_types@[i], cmd_send.identifier_types@[j]]
                0 <= i < j < supplies.len() ==> !(cmd_send.identifier_types@[i]
                    == CROSS_DOMAIN_ID_TYPE_READ_PIPE && cmd_send.identifier_types@[j]
                    == CROSS_DOMAIN_ID_TYPE_READ_PIPE)
        },
    decreases supplies.len(),
{
    if supplies.len() > 0 {
        lemma_identifiers_sent(ctx, cmd_send, supplies.drop_last());
        assert(cmd_send.identifier_types@[supplies.len() - 1] == cmd_send.identifier_types@[
            supplies.drop_last().len() as int]);
    }
}

/// A file that was imported under an identifier can be sent under it once.
pub proof fn law_imported_file_is_sent_once<W>(
    ctx: ContextModel<W>,
    id: u32,
    file: OwnedDescriptor,
    has_pipe: bool,
)
    ensures
        ({
            let imported = ctx.with_items(
                ctx.items.with_item_at(id, CrossDomainItem::RegularFile(file)),
            );
            let (sent, first) = context::identifier_looked_up(
                imported,
                id,
                CROSS_DOMAIN_ID_TYPE_VIRTIO_FS_BLOB,
                has_pipe,
            );
            let (_, second) = context::identifier_looked_up(
                sent,
                id,
                CROSS_DOMAIN_ID_TYPE_VIRTIO_FS_BLOB,
                has_pipe,
            );
            &&& first == Ok::<SendAction, RutabagaError>(SendAction::Attach(file))
            &&& second == Err::<SendAction, RutabagaError>(
                RutabagaError::InvalidCrossDomainItemId,
            )
            &&& !ctx.items.table.contains_key(id) ==> sent == ctx
        }),
{
    let imported = ctx.with_items(ctx.items.with_item_at(id, CrossDomainItem::RegularFile(file)));
    if !ctx.items.table.contains_key(id) {
        assert(imported.items.without_item(id) =~= ctx.items);
    }
}

// ---- write ----

/// A write that succeeds leaves the items as they were, or without the item where the command
/// hangs up.
pub proof fn law_write_keeps_the_item_until_hang_up(
    items: ItemsModel,
    cmd_write: CrossDomainReadWrite,
    opaque_data: Seq<u8>,
)
    requires
        context::write_begun(items, cmd_write, opaque_data).1 is Ok,
    ensures
        ({
            let (begun, r) = context::write_begun(items, cmd_write, opaque_data);
            let action = r->Ok_0;
            &&& begun.with_item_at(cmd_write.identifier, context::written_item(action)) == items
            &&& begun == items.without_item(cmd_write.identifier)
            &&& !begun.table.contains_key(cmd_write.identifier)
        }),
{
    let (begun, r) = context::write_begun(items, cmd_write, opaque_data);
    let action = r->Ok_0;
    assert(begun.with_item_at(cmd_write.identifier, context::written_item(action)) =~= items);
}

// ---- images and blobs ----

/// The identifier in the answer to an image query names the requirements: a blob resource of their
/// size can be asked for under it, again and again.
pub proof fn law_image_can_be_allocated_again<W>(
    ctx: ContextModel<W>,
    reqs: ImageMemoryRequirements,
    resource_id: u32,
    create: ResourceCreateBlob,
    handle_opt: Option<RutabagaHandle>,
    access: Result<u32, std::io::Error>,
)
    requires
        create.size == reqs.size,
        create.blob_id == ctx.items.next_id(CrossDomainItem::ImageRequirements(reqs)),
    ensures
        ({
            let items = ctx.items.with_item(CrossDomainItem::ImageRequirements(reqs));
            let response = context::image_response(
                reqs,
                ctx.items.next_id(CrossDomainItem::ImageRequirements(reqs)),
            );
            let (after, r) = context::blob_created(items, resource_id, create, handle_opt, access);
            &&& response.blob_id == create.blob_id
            &&& response.size == create.size
            &&& after == items
            &&& r == (match handle_opt {
                Some(handle) => Ok::<BlobAction, RutabagaError>(
                    BlobAction::Created(
                        context::image_resource_of(resource_id, create, reqs, handle),
                    ),
                ),
                None => Ok(BlobAction::Allocate(reqs)),
            })
        }),
{
    let id = ctx.items.next_id(CrossDomainItem::ImageRequirements(reqs));
    assert(create.blob_id as u32 == id);
}

/// Received memory becomes a resource once: the identifier names nothing afterwards.
pub proof fn law_received_memory_is_used_once(
    items: ItemsModel,
    resource_id: u32,
    create: ResourceCreateBlob,
    handle_opt: Option<RutabagaHandle>,
    access: Result<u32, std::io::Error>,
    other_access: Result<u32, std::io::Error>,
)
    requires
        items.table.contains_key(create.blob_id as u32),
        items.table[create.blob_id as u32] is Blob,
    ensures
        ({
            let (after, _) = context::blob_created(items, resource_id, create, handle_opt, access);
            &&& after == items.without_item(create.blob_id as u32)
            &&& context::blob_created(after, resource_id, create, handle_opt, other_access) == (
                after,
                Err::<BlobAction, RutabagaError>(RutabagaError::InvalidCrossDomainItemId),
            )
        }),
{
}

// ---- channels ----

/// A socket that was put up under an identifier is taken by the first context that asks for it,
/// and by no other.
pub proof fn law_internal_socket_is_taken_once<W>(
    ctx: ContextModel<W>,
    sockets: Map<u128, Tube>,
    cmd_init: CrossDomainInit,
    socket: Tube,
    other: ContextModel<W>,
)
    requires
        cmd_init.channel_type == CROSS_DOMAIN_CHANNEL_TYPE_INTERNAL_SOCKET,
        ctx.resources.contains_key(cmd_init.query_ring_id),
        ctx.resources.contains_key(cmd_init.channel_ring_id),
        other.resources.contains_key(cmd_init.query_ring_id),
        other.resources.contains_key(cmd_init.channel_ring_id),
    ensures
        ({
            let uuid = wire::le_u128(cmd_init.internal_socket_uuid@, 0);
            let (_, after, r) = context::initialized(ctx, sockets.insert(uuid, socket), cmd_init);
            &&& r == Ok::<InitAction, RutabagaError>(InitAction::Attach(socket))
            &&& after == sockets.remove(uuid)
            &&& context::initialized(other, after, cmd_init).2 == Err::<InitAction, RutabagaError>(
                RutabagaError::InvalidCrossDomainInternalSocketUuid,
            )
        }),
{
    let uuid = wire::le_u128(cmd_init.internal_socket_uuid@, 0);
    assert(sockets.insert(uuid, socket).remove(uuid) =~= sockets.remove(uuid));
}

/// The paths serve one attempt to connect: a second init command that asks for a path finds none.
pub proof fn law_paths_are_used_once<W>(
    ctx: ContextModel<W>,
    sockets: Map<u128, Tube>,
    cmd_init: CrossDomainInit,
)
    requires
        cmd_init.channel_type != 0,
        cmd_init.channel_type != CROSS_DOMAIN_CHANNEL_TYPE_INTERNAL_SOCKET,
        ctx.resources.contains_key(cmd_init.query_ring_id),
        ctx.resources.contains_key(cmd_init.channel_ring_id),
    ensures
        context::initialized(context::initialized(ctx, sockets, cmd_init).0, sockets, cmd_init).2
            == Err::<InitAction, RutabagaError>(RutabagaError::InvalidCrossDomainChannel),
{
}

/// The path that is connected to serves the channel type that was asked for.
pub proof fn law_connected_path_serves_the_channel<W>(
    ctx: ContextModel<W>,
    sockets: Map<u128, Tube>,
    cmd_init: CrossDomainInit,
    path: Vec<u8>,
)
    requires
        context::initialized(ctx, sockets, cmd_init).2 == Ok::<InitAction, RutabagaError>(
            InitAction::Connect(path),
        ),
    ensures
        ctx.paths matches Some(paths) && exists|i: int|
            0 <= i < paths.len() && #[trigger] paths[i] == (RutabagaPath {
                path,
                path_type: cmd_init.channel_type,
            }),
{
    lemma_first_path(ctx.paths->Some_0, cmd_init.channel_type);
}

proof fn lemma_first_path(paths: Seq<RutabagaPath>, channel_type: u32)
    ensures
        context::first_path(paths, channel_type) matches Some(path) ==> exists|i: int|
            0 <= i < paths.len() && #[trigger] paths[i] == (RutabagaPath {
                path,
                path_type: channel_type,
            }),
    decreases paths.len(),
{
    if paths.len() > 0 {
        if paths[0].path_type == channel_type {
            assert(paths[0] == (RutabagaPath { path: paths[0].path, path_type: channel_type }));
        } else {
            lemma_first_path(paths.skip(1), channel_type);
            if let Some(path) = context::first_path(paths.skip(1), channel_type) {
                let i = choose|i: int|
                    0 <= i < paths.skip(1).len() && #[trigger] paths.skip(1)[i] == (RutabagaPath {
                        path,
                        path_type: channel_type,
                    });
                assert(paths[i + 1] == paths.skip(1)[i]);
            }
        }
    }
}

// ---- resources ----

/// A resource that was attached is gone after it was detached. Its guest memory has moved:
/// attaching it once more finds none.
pub proof fn law_detach_undoes_attach(
    resources: Map<u32, ContextResource>,
    resource: RutabagaResource,
)
    requires
        !resources.contains_key(resource.resource_id),
    ensures
        ({
            let (attached, after) = context::resource_attached(resources, resource);
            &&& attached.remove(resource.resource_id) == resources
            &&& after.resource_id == resource.resource_id
            &&& resource.blob_mem == RUTABAGA_BLOB_MEM_GUEST ==> {
                &&& attached[resource.resource_id].backing_iovecs == resource.backing_iovecs
                &&& context::resource_attached(resources, after).0[resource.resource_id]
                    == (ContextResource { handle: None, backing_iovecs: None })
            }
        }),
{
    let (attached, _) = context::resource_attached(resources, resource);
    assert(attached.remove(resource.resource_id) =~= resources);
}

// ---- atomic memory sentinels ----

/// The life of a watcher: while it is there, its identifier is taken; it runs until it is shut
/// down; and after it was removed, the identifier is free again.
pub proof fn law_sentinel_identifier_is_free_again<W>(
    manager: ManagerModel<W>,
    id: u32,
    worker: W,
    evt: Event,
)
    requires
        manager.creation(id) is Ok,
    ensures
        ({
            let running = manager.with_watcher(id, worker, evt);
            let shut_down = running.with_shutdown(id);
            let removed = shut_down.without_watcher(id);
            &&& manager.is_shutdown(id)
            &&& !running.is_shutdown(id)
            &&& running.creation(id) == Err::<(), RutabagaError>(RutabagaError::AlreadyInUse)
            &&& shut_down.is_shutdown(id)
            &&& shut_down.creation(id) == Err::<(), RutabagaError>(RutabagaError::AlreadyInUse)
            &&& removed == manager
        }),
{
    let removed = manager.with_watcher(id, worker, evt).with_shutdown(id).without_watcher(id);
    assert(removed =~= manager);
}

/// What a watcher thread does: it signals once before it waits, for what was loaded first, whether
/// or not that succeeds. After each wait it loads once and signals once. Then it waits for what it
/// loaded, unless it was shut down or the signal failed: then, and only then, it ends.
pub proof fn law_sentinel_thread_signals_after_each_wait(
    initial_value: u32,
    first_success: bool,
    loaded: u32,
    shutdown: bool,
    success: bool,
    waiting: AtomicMemorySentinelThread,
)
    requires
        waiting.next() is Wait,
    ensures
        ({
            let new = AtomicMemorySentinelThread {
                val: initial_value,
                phase: SentinelPhase::Starting,
            };
            let woken = AtomicMemorySentinelThread {
                val: loaded,
                phase: SentinelPhase::Woken(shutdown),
            };
            &&& new.next() == SentinelAction::Signal
            &&& new.after_signal(first_success).next() == SentinelAction::Wait(initial_value)
            &&& waiting.next() == SentinelAction::Wait(waiting.val)
            &&& woken.next() == SentinelAction::Signal
            &&& woken.after_signal(success).next() == (if shutdown || !success {
                SentinelAction::Stop
            } else {
                SentinelAction::Wait(loaded)
            })
        }),
{
}

// ---- rings ----

/// What is written to a ring is what the guest reads there: the command, and the data behind it.
/// The rest of the ring stays as it was.
pub proof fn law_ring_gives_back_what_was_written<T: Wire>(
    order: ByteOrder,
    cmd: T,
    data: &[u8],
    ring: Seq<u8>,
)
    requires
        ring.len() >= T::wire_size() + data@.len(),
    ensures
        ({
            let (written, r) = common::ring_written(order, RingWrite::Write(cmd, Some(data)), ring);
            let size = T::wire_size() as int;
            &&& r == Ok::<usize, RutabagaError>(0)
            &&& written.len() == ring.len()
            &&& T::decoded(order, written) == cmd
            &&& written.subrange(size, size + data@.len()) == data@
            &&& written.skip(size + data@.len()) == ring.skip(size + data@.len())
        }),
{
    let (written, r) = common::ring_written(order, RingWrite::Write(cmd, Some(data)), ring);
    let size = T::wire_size() as int;
    cmd.decode_encoded(order, written.skip(size));
    assert(written =~= cmd.encoded(order) + written.skip(size));
    assert(written.subrange(size, size + data@.len()) =~= data@);
    assert(written.skip(size + data@.len()) =~= ring.skip(size + data@.len()));
}

/// The header of a read from a pipe tells the guest how much there is and whether that was all, and
/// leaves the data behind it alone.
pub proof fn law_pipe_header_tells_what_was_read(
    order: ByteOrder,
    cmd_read: CrossDomainReadWrite,
    bytes_read: usize,
    ring: Seq<u8>,
)
    requires
        ring.len() >= 24 + bytes_read,
        bytes_read <= u32::MAX,
        cmd_read.hang_up == 0,
    ensures
        ({
            let (written, r) = common::ring_written::<CrossDomainReadWrite>(
                order,
                RingWrite::WriteFromPipe(cmd_read, Some(bytes_read)),
                ring,
            );
            &&& r == Ok::<usize, RutabagaError>(bytes_read)
            &&& written.skip(24) == ring.skip(24)
            &&& CrossDomainReadWrite::decoded(order, written).identifier == cmd_read.identifier
            &&& CrossDomainReadWrite::decoded(order, written).opaque_data_size == bytes_read
            &&& CrossDomainReadWrite::decoded(order, written).hang_up == (if bytes_read == 0 {
                1u32
            } else {
                0u32
            })
        }),
{
    let header = common::read_header(cmd_read, bytes_read == 0, bytes_read as int);
    let (written, r) = common::ring_written::<CrossDomainReadWrite>(
        order,
        RingWrite::WriteFromPipe(cmd_read, Some(bytes_read)),
        ring,
    );
    header.decode_encoded(order, ring.skip(24));
    assert(written =~= header.encoded(order) + ring.skip(24));
    assert(written.skip(24) =~= ring.skip(24));
}

/// The value of an event is what the guest reads behind the header.
pub proof fn law_event_value_is_read_back(
    order: ByteOrder,
    cmd_read: CrossDomainReadWrite,
    value: u64,
    ring: Seq<u8>,
)
    requires
        ring.len() >= 32,
    ensures
        ({
            let (written, r) = common::ring_written::<CrossDomainReadWrite>(
                order,
                RingWrite::WriteFromEvent(cmd_read, Some(value)),
                ring,
            );
            &&& r == Ok::<usize, RutabagaError>(8)
            &&& wire::u64_at(ByteOrder::Little, written, 24) == value
            &&& CrossDomainReadWrite::decoded(order, written).opaque_data_size == 8
            &&& CrossDomainReadWrite::decoded(order, written).identifier == cmd_read.identifier
            &&& written.skip(32) == ring.skip(32)
        }),
{
    let header = common::read_header(cmd_read, false, 8);
    let (written, r) = common::ring_written::<CrossDomainReadWrite>(
        order,
        RingWrite::WriteFromEvent(cmd_read, Some(value)),
        ring,
    );
    header.decode_encoded(order, written.skip(24));
    assert(written =~= header.encoded(order) + written.skip(24));
    assert(written.subrange(24, 32) =~= wire::u64_bytes(ByteOrder::Little, value));
    wire::lemma_read_u64(ByteOrder::Little, written, 24, value);
    assert(written.skip(32) =~= ring.skip(32));
}

/// A message of any length that is received fits a ring of the default size, behind its command.
pub proof fn law_received_message_fits(
    order: ByteOrder,
    cmd: CrossDomainSendReceive,
    data: &[u8],
    ring: Seq<u8>,
)
    requires
        data@.len() <= CROSS_DOMAIN_MAX_SEND_RECV_SIZE,
        ring.len() >= CROSS_DOMAIN_DEFAULT_BUFFER_SIZE,
    ensures
        common::ring_written(order, RingWrite::Write(cmd, Some(data)), ring).1 == Ok::<
            usize,
            RutabagaError,
        >(0),
{
    cmd.decode_encoded(order, Seq::empty());
}

// ---- commands ----

/// The header of a command.
pub open spec fn command_header(c: CrossDomainCommand<Seq<u8>>) -> CrossDomainHeader {
    match c {
        CrossDomainCommand::Init(c) => c.hdr,
        CrossDomainCommand::GetImageRequirements(c) => c.hdr,
        CrossDomainCommand::Send(c, _) => c.hdr,
        CrossDomainCommand::Poll => CrossDomainHeader {
            cmd: CROSS_DOMAIN_CMD_POLL,
            cmd_size: 8,
            ..cross_domain_protocol::zero_header()
        },
        CrossDomainCommand::Write(c, _) => c.hdr,
        CrossDomainCommand::CreateAtomicMemorySentinel(c) => c.hdr,
        CrossDomainCommand::SignalAtomicMemorySentinel(c) => c.hdr,
        CrossDomainCommand::DestroyAtomicMemorySentinel(c) => c.hdr,
        CrossDomainCommand::ReadCreateEvent(c) => c.hdr,
        CrossDomainCommand::AssignSocketUuid(c) => c.hdr,
        CrossDomainCommand::ImportVirtioFsHandle(c) => c.hdr,
    }
}

/// The bytes of a command, with the data that follows it.
pub open spec fn command_bytes(order: ByteOrder, c: CrossDomainCommand<Seq<u8>>) -> Seq<u8> {
    match c {
        CrossDomainCommand::Init(c) => c.encoded(order),
        CrossDomainCommand::GetImageRequirements(c) => c.encoded(order),
        CrossDomainCommand::Send(c, data) => c.encoded(order) + data,
        CrossDomainCommand::Poll => command_header(c).encoded(order),
        CrossDomainCommand::Write(c, data) => c.encoded(order) + data,
        CrossDomainCommand::CreateAtomicMemorySentinel(c) => c.encoded(order),
        CrossDomainCommand::SignalAtomicMemorySentinel(c) => c.encoded(order),
        CrossDomainCommand::DestroyAtomicMemorySentinel(c) => c.encoded(order),
        CrossDomainCommand::ReadCreateEvent(c) => c.encoded(order),
        CrossDomainCommand::AssignSocketUuid(c) => c.encoded(order),
        CrossDomainCommand::ImportVirtioFsHandle(c) => c.encoded(order),
    }
}

/// The header of a command says what it is and how long it is, and where data follows, the command
/// says how much.
pub open spec fn is_well_headed(order: ByteOrder, c: CrossDomainCommand<Seq<u8>>) -> bool {
    &&& command_header(c).cmd_size == command_bytes(order, c).len()
    &&& match c {
        CrossDomainCommand::Init(_) => command_header(c).cmd == CROSS_DOMAIN_CMD_INIT,
        CrossDomainCommand::GetImageRequirements(_) => command_header(c).cmd
            == CROSS_DOMAIN_CMD_GET_IMAGE_REQUIREMENTS,
        CrossDomainCommand::Send(cmd_send, data) => {
            &&& command_header(c).cmd == CROSS_DOMAIN_CMD_SEND
            &&& cmd_send.opaque_data_size == data.len()
        },
        CrossDomainCommand::Poll => command_header(c).cmd == CROSS_DOMAIN_CMD_POLL,
        CrossDomainCommand::Write(cmd_write, data) => {
            &&& command_header(c).cmd == CROSS_DOMAIN_CMD_WRITE
            &&& cmd_write.opaque_data_size == data.len()
        },
        CrossDomainCommand::CreateAtomicMemorySentinel(_) => command_header(c).cmd
            == CROSS_DOMAIN_CMD_CREATE_ATOMIC_MEMORY_SENTINEL,
        CrossDomainCommand::SignalAtomicMemorySentinel(_) => command_header(c).cmd
            == CROSS_DOMAIN_CMD_SIGNAL_ATOMIC_MEMORY_SENTINEL,
        CrossDomainCommand::DestroyAtomicMemorySentinel(_) => command_header(c).cmd
            == CROSS_DOMAIN_CMD_DESTROY_ATOMIC_MEMORY_SENTINEL,
        CrossDomainCommand::ReadCreateEvent(_) => command_header(c).cmd
            == CROSS_DOMAIN_CMD_READ_CREATE_EVENT,
        CrossDomainCommand::AssignSocketUuid(_) => command_header(c).cmd
            == CROSS_DOMAIN_CMD_ASSIGN_SOCKET_UUID,
        CrossDomainCommand::ImportVirtioFsHandle(_) => command_header(c).cmd
            == CROSS_DOMAIN_CMD_IMPORT_VIRTIOFS_HANDLE,
    }
}

/// A structure is read from the front of whatever starts with its bytes.
proof fn lemma_prefix<T: Wire>(order: ByteOrder, c: T, tail: Seq<u8>)
    ensures
        command::prefix::<T>(order, c.encoded(order) + tail) == Ok::<T, RutabagaError>(c),
        c.encoded(order).len() == T::wire_size(),
{
    c.decode_encoded(order, tail);
}

/// `bytes` start with the command `c` under the header `hdr`.
pub open spec fn starts_with_command(
    order: ByteOrder,
    bytes: Seq<u8>,
    c: CrossDomainCommand<Seq<u8>>,
    hdr: CrossDomainHeader,
) -> bool {
    &&& command::command_at(order, bytes) == Ok::<CrossDomainCommand<Seq<u8>>, RutabagaError>(c)
    &&& CrossDomainHeader::decoded(order, bytes) == hdr
}

proof fn lemma_init_read_back(order: ByteOrder, c: CrossDomainInit, tail: Seq<u8>)
    requires
        c.hdr.cmd == CROSS_DOMAIN_CMD_INIT,
        c.hdr.cmd_size == CrossDomainInit::wire_size(),
    ensures
        starts_with_command(order, c.encoded(order) + tail, CrossDomainCommand::Init(c), c.hdr),
{
    reveal(command::command_at);
    lemma_prefix(order, c, tail);
}

proof fn lemma_get_image_requirements_read_back(
    order: ByteOrder,
    c: CrossDomainGetImageRequirements,
    tail: Seq<u8>,
)
    requires
        c.hdr.cmd == CROSS_DOMAIN_CMD_GET_IMAGE_REQUIREMENTS,
    ensures
        starts_with_command(
            order,
            c.encoded(order) + tail,
            CrossDomainCommand::GetImageRequirements(c),
            c.hdr,
        ),
{
    reveal(command::command_at);
    lemma_prefix(order, c, tail);
}

proof fn lemma_create_sentinel_read_back(
    order: ByteOrder,
    c: CrossDomainCreateAtomicMemorySentinel,
    tail: Seq<u8>,
)
    requires
        c.hdr.cmd == CROSS_DOMAIN_CMD_CREATE_ATOMIC_MEMORY_SENTINEL,
    ensures
        starts_with_command(
            order,
            c.encoded(order) + tail,
            CrossDomainCommand::CreateAtomicMemorySentinel(c),
            c.hdr,
        ),
{
    reveal(command::command_at);
    lemma_prefix(order, c, tail);
}

proof fn lemma_signal_sentinel_read_back(
    order: ByteOrder,
    c: CrossDomainSignalAtomicMemorySentinel,
    tail: Seq<u8>,
)
    requires
        c.hdr.cmd == CROSS_DOMAIN_CMD_SIGNAL_ATOMIC_MEMORY_SENTINEL,
    ensures
        starts_with_command(
            order,
            c.encoded(order) + tail,
            CrossDomainCommand::SignalAtomicMemorySentinel(c),
            c.hdr,
        ),
{
    reveal(command::command_at);
    lemma_prefix(order, c, tail);
}

proof fn lemma_destroy_sentinel_read_back(
    order: ByteOrder,
    c: CrossDomainDestroyAtomicMemorySentinel,
    tail: Seq<u8>,
)
    requires
        c.hdr.cmd == CROSS_DOMAIN_CMD_DESTROY_ATOMIC_MEMORY_SENTINEL,
    ensures
        starts_with_command(
            order,
            c.encoded(order) + tail,
            CrossDomainCommand::DestroyAtomicMemorySentinel(c),
            c.hdr,
        ),
{
    reveal(command::command_at);
    lemma_prefix(order, c, tail);
}

proof fn lemma_read_create_event_read_back(
    order: ByteOrder,
    c: CrossDomainCreateEvent,
    tail: Seq<u8>,
)
    requires
        c.hdr.cmd == CROSS_DOMAIN_CMD_READ_CREATE_EVENT,
    ensures
        starts_with_command(
            order,
            c.encoded(order) + tail,
            CrossDomainCommand::ReadCreateEvent(c),
            c.hdr,
        ),
{
    reveal(command::command_at);
    lemma_prefix(order, c, tail);
}

proof fn lemma_assign_socket_uuid_read_back(
    order: ByteOrder,
    c: CrossDomainAssignSocketUuid,
    tail: Seq<u8>,
)
    requires
        c.hdr.cmd == CROSS_DOMAIN_CMD_ASSIGN_SOCKET_UUID,
    ensures
        starts_with_command(
            order,
            c.encoded(order) + tail,
            CrossDomainCommand::AssignSocketUuid(c),
            c.hdr,
        ),
{
    reveal(command::command_at);
    lemma_prefix(order, c, tail);
}

proof fn lemma_import_virtio_fs_handle_read_back(
    order: ByteOrder,
    c: CrossDomainImportVirtioFsHandle,
    tail: Seq<u8>,
)
    requires
        c.hdr.cmd == CROSS_DOMAIN_CMD_IMPORT_VIRTIOFS_HANDLE,
    ensures
        starts_with_command(
            order,
            c.encoded(order) + tail,
            CrossDomainCommand::ImportVirtioFsHandle(c),
            c.hdr,
        ),
{
    reveal(command::command_at);
    lemma_prefix(order, c, tail);
}

proof fn lemma_send_read_back(
    order: ByteOrder,
    c: CrossDomainSendReceive,
    data: Seq<u8>,
    tail: Seq<u8>,
)
    requires
        c.hdr.cmd == CROSS_DOMAIN_CMD_SEND,
        c.opaque_data_size == data.len(),
    ensures
        starts_with_command(
            order,
            c.encoded(order) + data + tail,
            CrossDomainCommand::Send(c, data),
            c.hdr,
        ),
{
    reveal(command::command_at);
    let bytes = c.encoded(order) + data + tail;
    lemma_prefix(order, c, data + tail);
    assert(bytes =~= c.encoded(order) + (data + tail));
    assert(bytes.subrange(352, 352 + data.len() as int) =~= data);
}

proof fn lemma_write_read_back(
    order: ByteOrder,
    c: CrossDomainReadWrite,
    data: Seq<u8>,
    tail: Seq<u8>,
)
    requires
        c.hdr.cmd == CROSS_DOMAIN_CMD_WRITE,
        c.opaque_data_size == data.len(),
    ensures
        starts_with_command(
            order,
            c.encoded(order) + data + tail,
            CrossDomainCommand::Write(c, data),
            c.hdr,
        ),
{
    reveal(command::command_at);
    let bytes = c.encoded(order) + data + tail;
    lemma_prefix(order, c, data + tail);
    assert(bytes =~= c.encoded(order) + (data + tail));
    assert(bytes.subrange(24, 24 + data.len() as int) =~= data);
}

proof fn lemma_poll_read_back(order: ByteOrder, tail: Seq<u8>)
    ensures
        ({
            let poll = CrossDomainCommand::<Seq<u8>>::Poll;
            starts_with_command(
                order,
                command_bytes(order, poll) + tail,
                poll,
                command_header(poll),
            )
        }),
{
    reveal(command::command_at);
    lemma_prefix(order, command_header(CrossDomainCommand::<Seq<u8>>::Poll), tail);
}

/// A command is read back as what it was written as, whatever follows it, and what follows it is
/// what is left when it is skipped.
pub proof fn law_command_is_read_back(
    order: ByteOrder,
    c: CrossDomainCommand<Seq<u8>>,
    tail: Seq<u8>,
)
    requires
        is_well_headed(order, c),
    ensures
        starts_with_command(order, command_bytes(order, c) + tail, c, command_header(c)),
        (command_bytes(order, c) + tail).skip(command_header(c).cmd_size as int) == tail,
{
    assert((command_bytes(order, c) + tail).skip(command_header(c).cmd_size as int) =~= tail);
    match c {
        CrossDomainCommand::Init(c) => {
            lemma_prefix(order, c, tail);
            lemma_init_read_back(order, c, tail);
        },
        CrossDomainCommand::GetImageRequirements(c) => lemma_get_image_requirements_read_back(
            order,
            c,
            tail,
        ),
        CrossDomainCommand::Send(c, data) => lemma_send_read_back(order, c, data, tail),
        CrossDomainCommand::Poll => lemma_poll_read_back(order, tail),
        CrossDomainCommand::Write(c, data) => lemma_write_read_back(order, c, data, tail),
        CrossDomainCommand::CreateAtomicMemorySentinel(c) => {
            lemma_create_sentinel_read_back(order, c, tail);
        },
        CrossDomainCommand::SignalAtomicMemorySentinel(c) => {
            lemma_signal_sentinel_read_back(order, c, tail);
        },
        CrossDomainCommand::DestroyAtomicMemorySentinel(c) => {
            lemma_destroy_sentinel_read_back(order, c, tail);
        },
        CrossDomainCommand::ReadCreateEvent(c) => lemma_read_create_event_read_back(order, c, tail),
        CrossDomainCommand::AssignSocketUuid(c) => {
            lemma_assign_socket_uuid_read_back(order, c, tail);
        },
        CrossDomainCommand::ImportVirtioFsHandle(c) => lemma_import_virtio_fs_handle_read_back(
            order,
            c,
            tail,
        ),
    }
}

/// The commands that are read from a buffer one after the other, up to one that cannot be read or
/// behind which nothing can be.
pub open spec fn commands_in(order: ByteOrder, bytes: Seq<u8>) -> Seq<CrossDomainCommand<Seq<u8>>>
    decreases bytes.len(),
{
    if bytes.len() == 0 {
        Seq::empty()
    } else {
        match command::command_at(order, bytes) {
            Err(_) => Seq::empty(),
            Ok(c) => {
                let cmd_size = CrossDomainHeader::decoded(order, bytes).cmd_size as int;
                if 0 < cmd_size <= bytes.len() {
                    seq![c] + commands_in(order, bytes.skip(cmd_size))
                } else {
                    seq![c]
                }
            },
        }
    }
}

/// The bytes of commands one after the other.
pub open spec fn buffer_of(order: ByteOrder, commands: Seq<CrossDomainCommand<Seq<u8>>>) -> Seq<u8>
    decreases commands.len(),
{
    if commands.len() == 0 {
        Seq::empty()
    } else {
        command_bytes(order, commands[0]) + buffer_of(order, commands.skip(1))
    }
}

/// A buffer gives back the commands that were put into it, in their order.
pub proof fn law_buffer_gives_back_its_commands(
    order: ByteOrder,
    commands: Seq<CrossDomainCommand<Seq<u8>>>,
)
    requires
        forall|i: int| 0 <= i < commands.len() ==> is_well_headed(order, #[trigger] commands[i]),
    ensures
        commands_in(order, buffer_of(order, commands)) == commands,
    decreases commands.len(),
{
    if commands.len() > 0 {
        let rest = buffer_of(order, commands.skip(1));
        law_command_is_read_back(order, commands[0], rest);
        law_buffer_gives_back_its_commands(order, commands.skip(1));
        lemma_command_len(order, commands[0]);
        assert(buffer_of(order, commands) == command_bytes(order, commands[0]) + rest);
        assert(seq![commands[0]] + commands.skip(1) =~= commands);
    }
}

proof fn lemma_command_len(order: ByteOrder, c: CrossDomainCommand<Seq<u8>>)
    ensures
        command_bytes(order, c).len() >= 8,
{
    match c {
        CrossDomainCommand::Init(c) => lemma_prefix(order, c, Seq::empty()),
        CrossDomainCommand::GetImageRequirements(c) => lemma_prefix(order, c, Seq::empty()),
        CrossDomainCommand::Send(c, _) => lemma_prefix(order, c, Seq::empty()),
        CrossDomainCommand::Poll => lemma_prefix(order, command_header(c), Seq::empty()),
        CrossDomainCommand::Write(c, _) => lemma_prefix(order, c, Seq::empty()),
        CrossDomainCommand::CreateAtomicMemorySentinel(c) => lemma_prefix(order, c, Seq::empty()),
        CrossDomainCommand::SignalAtomicMemorySentinel(c) => lemma_prefix(order, c, Seq::empty()),
        CrossDomainCommand::DestroyAtomicMemorySentinel(c) => lemma_prefix(order, c, Seq::empty()),
        CrossDomainCommand::ReadCreateEvent(c) => lemma_prefix(order, c, Seq::empty()),
        CrossDomainCommand::AssignSocketUuid(c) => lemma_prefix(order, c, Seq::empty()),
        CrossDomainCommand::ImportVirtioFsHandle(c) => lemma_prefix(order, c, Seq::empty()),
    }
}

/// What a buffer starts with does not depend on what follows it.
proof fn lemma_prefix_extends<T: Wire>(order: ByteOrder, a: Seq<u8>, b: Seq<u8>)
    ensures
        a.len() >= T::wire_size() ==> command::prefix::<T>(order, a + b)
            == command::prefix::<T>(order, a),
{
    if a.len() >= T::wire_size() {
        let size = T::wire_size() as int;
        T::encode_decoded(order, a);
        T::decoded(order, a).decode_encoded(order, a.skip(size) + b);
        assert(T::decoded(order, a).encoded(order) + (a.skip(size) + b) =~= a + b);
    }
}

/// A command that can be read is read the same whatever follows it.
proof fn lemma_command_extends(order: ByteOrder, a: Seq<u8>, b: Seq<u8>)
    requires
        command::command_at(order, a) is Ok,
    ensures
        command::command_at(order, a + b) == command::command_at(order, a),
        CrossDomainHeader::decoded(order, a + b) == CrossDomainHeader::decoded(order, a),
{
    reveal(command::command_at);
    lemma_prefix_extends::<CrossDomainHeader>(order, a, b);
    let hdr = CrossDomainHeader::decoded(order, a);
    if hdr.cmd == CROSS_DOMAIN_CMD_INIT {
        lemma_prefix_extends::<CrossDomainInitLegacy>(order, a, b);
        lemma_prefix_extends::<CrossDomainInitV1>(order, a, b);
        lemma_prefix_extends::<CrossDomainInit>(order, a, b);
    } else if hdr.cmd == CROSS_DOMAIN_CMD_GET_IMAGE_REQUIREMENTS {
        lemma_prefix_extends::<CrossDomainGetImageRequirements>(order, a, b);
    } else if hdr.cmd == CROSS_DOMAIN_CMD_SEND {
        lemma_prefix_extends::<CrossDomainSendReceive>(order, a, b);
        let size = CrossDomainSendReceive::decoded(order, a).opaque_data_size;
        assert((a + b).subrange(352, 352 + size) =~= a.subrange(352, 352 + size));
    } else if hdr.cmd == CROSS_DOMAIN_CMD_WRITE {
        lemma_prefix_extends::<CrossDomainReadWrite>(order, a, b);
        let size = CrossDomainReadWrite::decoded(order, a).opaque_data_size;
        assert((a + b).subrange(24, 24 + size) =~= a.subrange(24, 24 + size));
    } else if hdr.cmd == CROSS_DOMAIN_CMD_CREATE_ATOMIC_MEMORY_SENTINEL {
        lemma_prefix_extends::<CrossDomainCreateAtomicMemorySentinel>(order, a, b);
    } else if hdr.cmd == CROSS_DOMAIN_CMD_SIGNAL_ATOMIC_MEMORY_SENTINEL {
        lemma_prefix_extends::<CrossDomainSignalAtomicMemorySentinel>(order, a, b);
    } else if hdr.cmd == CROSS_DOMAIN_CMD_DESTROY_ATOMIC_MEMORY_SENTINEL {
        lemma_prefix_extends::<CrossDomainDestroyAtomicMemorySentinel>(order, a, b);
    } else if hdr.cmd == CROSS_DOMAIN_CMD_READ_CREATE_EVENT {
        lemma_prefix_extends::<CrossDomainCreateEvent>(order, a, b);
    } else if hdr.cmd == CROSS_DOMAIN_CMD_ASSIGN_SOCKET_UUID {
        lemma_prefix_extends::<CrossDomainAssignSocketUuid>(order, a, b);
    } else if hdr.cmd == CROSS_DOMAIN_CMD_IMPORT_VIRTIOFS_HANDLE {
        lemma_prefix_extends::<CrossDomainImportVirtioFsHandle>(order, a, b);
    }
}

/// All bytes of a buffer belong to commands that can be read and that have bytes.
pub open spec fn is_readable(order: ByteOrder, bytes: Seq<u8>) -> bool
    decreases bytes.len(),
{
    bytes.len() == 0 || {
        let cmd_size = CrossDomainHeader::decoded(order, bytes).cmd_size as int;
        &&& command::command_at(order, bytes) is Ok
        &&& 0 < cmd_size <= bytes.len()
        &&& is_readable(order, bytes.skip(cmd_size))
    }
}

/// The commands of two buffers one behind the other are those of the first and then those of the
/// second.
pub proof fn law_buffers_are_read_one_after_the_other(order: ByteOrder, a: Seq<u8>, b: Seq<u8>)
    requires
        is_readable(order, a),
    ensures
        commands_in(order, a + b) == commands_in(order, a) + commands_in(order, b),
    decreases a.len(),
{
    if a.len() == 0 {
        assert(a + b =~= b);
        assert(commands_in(order, a) + commands_in(order, b) =~= commands_in(order, b));
    } else {
        let cmd_size = CrossDomainHeader::decoded(order, a).cmd_size as int;
        let c = command::command_at(order, a)->Ok_0;
        lemma_command_extends(order, a, b);
        assert((a + b).skip(cmd_size) =~= a.skip(cmd_size) + b);
        law_buffers_are_read_one_after_the_other(order, a.skip(cmd_size), b);
        assert(seq![c] + (commands_in(order, a.skip(cmd_size)) + commands_in(order, b)) =~= (seq![c]
            + commands_in(order, a.skip(cmd_size))) + commands_in(order, b));
    }
}

/// Two buffers one behind the other act as the two one after the other. Where everything in the
/// first is carried out, the same commands are carried out, in the same order, with the same end.
/// An empty buffer does nothing.
pub proof fn law_buffers_act_one_after_the_other(
    order: ByteOrder,
    a: Seq<u8>,
    b: Seq<u8>,
    answers_a: Seq<Result<(), RutabagaError>>,
    answers_b: Seq<Result<(), RutabagaError>>,
)
    requires
        command::submitted(order, a, answers_a).1 == Submitted::Ended(Ok(())),
        command::submitted(order, a, answers_a).0.len() == answers_a.len(),
    ensures
        command::submitted(order, a + b, answers_a + answers_b) == (
            command::submitted(order, a, answers_a).0 + command::submitted(order, b, answers_b).0,
            command::submitted(order, b, answers_b).1,
        ),
        command::submitted(order, Seq::empty(), answers_a) == (
            Seq::<CrossDomainCommand<Seq<u8>>>::empty(),
            Submitted::Ended(Ok(())),
        ),
    decreases answers_a.len(),
{
    if answers_a.len() == 0 {
        assert(a.len() == 0);
        assert(a + b =~= b);
        assert(answers_a + answers_b =~= answers_b);
        assert(command::submitted(order, a, answers_a).0 + command::submitted(order, b, answers_b).0
            =~= command::submitted(order, b, answers_b).0);
    } else {
        let cmd_size = CrossDomainHeader::decoded(order, a).cmd_size as int;
        let c = command::command_at(order, a)->Ok_0;
        let rest = a.skip(cmd_size);
        let answers = answers_a.skip(1);
        let (commands, end) = command::submitted(order, rest, answers);
        let (more, more_end) = command::submitted(order, b, answers_b);
        assert(command::submitted(order, a, answers_a) == (seq![c] + commands, end));
        law_buffers_act_one_after_the_other(order, rest, b, answers, answers_b);
        assert(command::submitted(order, a + b, answers_a + answers_b) == (
            seq![c] + (commands + more),
            more_end,
        )) by {
            lemma_command_extends(order, a, b);
            assert((a + b).skip(cmd_size) =~= rest + b);
            assert((answers_a + answers_b)[0] == answers_a[0]);
            assert((answers_a + answers_b).skip(1) =~= answers + answers_b);
        }
        assert(seq![c] + (commands + more) =~= (seq![c] + commands) + more);
    }
}

/// A command that fails, or that cannot be read, ends a buffer with its error. The commands before
/// it stay carried out, and none behind it is, whatever it would come to.
pub proof fn law_failing_command_is_the_last(
    order: ByteOrder,
    a: Seq<u8>,
    b: Seq<u8>,
    answers: Seq<Result<(), RutabagaError>>,
    e: RutabagaError,
    more: Seq<Result<(), RutabagaError>>,
)
    requires
        command::submitted(order, a, answers).1 == Submitted::Ended(Ok(())),
        command::submitted(order, a, answers).0.len() == answers.len(),
        b.len() > 0,
    ensures
        match command::command_at(order, b) {
            Ok(c) => command::submitted(order, a + b, answers.push(Err(e)) + more) == (
                command::submitted(order, a, answers).0.push(c),
                Submitted::Ended(Err(e)),
            ),
            Err(unreadable) => command::submitted(order, a + b, answers + more) == (
                command::submitted(order, a, answers).0,
                Submitted::Ended(Err(unreadable)),
            ),
        },
{
    let failing = seq![Err::<(), RutabagaError>(e)] + more;
    law_buffers_act_one_after_the_other(order, a, b, answers, failing);
    law_buffers_act_one_after_the_other(order, a, b, answers, more);
    assert(answers.push(Err(e)) + more =~= answers + failing);
    assert(failing[0] == Err::<(), RutabagaError>(e));
    if let Ok(c) = command::command_at(order, b) {
        assert(command::submitted(order, a, answers).0 + seq![c] =~= command::submitted(
            order,
            a,
            answers,
        ).0.push(c));
    } else {
        assert(command::submitted(order, a, answers).0 + Seq::empty() =~= command::submitted(
            order,
            a,
            answers,
        ).0);
    }
}

/// A run through one buffer and then one through another make a run through both at once, with the
/// same steps, the same state at the end and the same result.
pub proof fn law_runs_go_on<'a, S, F: Fn(S, CrossDomainCommand<&'a [u8]>) -> (
    S,
    Result<(), RutabagaError>,
)>(
    handle: F,
    order: ByteOrder,
    state: S,
    a: Seq<u8>,
    steps_a: Seq<(S, Result<(), RutabagaError>)>,
    between: S,
    none_left: &'a [u8],
    b: Seq<u8>,
    steps_b: Seq<(S, Result<(), RutabagaError>)>,
    after: S,
    r: Result<&'a [u8], RutabagaError>,
)
    requires
        none_left@.len() == 0,
        command::submit_run(handle, order, state, a, steps_a, between, Ok(none_left)),
        command::submit_run(handle, order, between, b, steps_b, after, r),
    ensures
        command::submit_run(handle, order, state, a + b, steps_a + steps_b, after, r),
{
    let answers_a = command::answers_of(steps_a);
    let answers_b = command::answers_of(steps_b);
    let commands_a = command::submitted(order, a, answers_a).0;
    let commands_b = command::submitted(order, b, answers_b).0;
    law_buffers_act_one_after_the_other(order, a, b, answers_a, answers_b);
    assert(command::answers_of(steps_a + steps_b) =~= answers_a + answers_b);
    if steps_b.len() > 0 {
        let earlier_b = command::answers_of(steps_b.drop_last());
        law_buffers_act_one_after_the_other(order, a, b, answers_a, earlier_b);
        assert((steps_a + steps_b).drop_last() =~= steps_a + steps_b.drop_last());
        assert(command::answers_of(steps_a + steps_b.drop_last()) =~= answers_a + earlier_b);
    }
    let commands = commands_a + commands_b;
    let steps = steps_a + steps_b;
    assert forall|i: int| 0 <= i < steps.len() implies command::handled(
        handle,
        if i == 0 {
            state
        } else {
            steps[i - 1].0
        },
        #[trigger] commands[i],
        steps[i].0,
        steps[i].1,
    ) by {
        if i < steps_a.len() {
            assert(commands[i] == commands_a[i]);
        } else {
            assert(commands[i] == commands_b[i - steps_a.len()]);
        }
    }
}

/// The older forms of the init command ask for the same as their upgrades: a legacy command uses
/// its one ring for everything, and neither names an internal socket.
pub proof fn law_older_init_commands_are_upgraded(
    order: ByteOrder,
    legacy: CrossDomainInitLegacy,
    v1: CrossDomainInitV1,
    tail: Seq<u8>,
)
    requires
        legacy.hdr.cmd == CROSS_DOMAIN_CMD_INIT,
        legacy.hdr.cmd_size == CrossDomainInitLegacy::wire_size(),
        v1.hdr.cmd == CROSS_DOMAIN_CMD_INIT,
        v1.hdr.cmd_size == CrossDomainInitV1::wire_size(),
    ensures
        command::command_at(order, legacy.encoded(order) + tail) == Ok::<
            CrossDomainCommand<Seq<u8>>,
            RutabagaError,
        >(CrossDomainCommand::Init(legacy.upgraded())),
        command::command_at(order, v1.encoded(order) + tail) == Ok::<
            CrossDomainCommand<Seq<u8>>,
            RutabagaError,
        >(CrossDomainCommand::Init(v1.upgraded())),
        v1.query_ring_id == legacy.query_ring_id && v1.channel_ring_id == legacy.query_ring_id
            && v1.channel_type == legacy.channel_type ==> v1.upgraded() == (CrossDomainInit {
            hdr: v1.hdr,
            ..legacy.upgraded()
        }),
{
    reveal(command::command_at);
    lemma_prefix(order, legacy, tail);
    lemma_prefix(order, v1, tail);
}

/// The header of an init command does not matter once it is read: two that differ in nothing else
/// do the same.
pub proof fn law_init_does_not_look_at_the_header<W>(
    ctx: ContextModel<W>,
    sockets: Map<u128, Tube>,
    cmd_init: CrossDomainInit,
    hdr: CrossDomainHeader,
)
    ensures
        context::initialized(ctx, sockets, CrossDomainInit { hdr, ..cmd_init })
            == context::initialized(ctx, sockets, cmd_init),
{
}

// ---- capabilities ----

/// A channel is supported if and only if one of the paths serves it.
pub proof fn law_supported_channels_are_those_of_the_paths(
    paths: Seq<RutabagaPath>,
    channel_type: u32,
)
    requires
        forall|i: int| 0 <= i < paths.len() ==> (#[trigger] paths[i]).path_type < 32,
        channel_type < 32,
    ensures
        component::channel_mask(paths) & (1u32 << channel_type) != 0 <==> exists|i: int|
            0 <= i < paths.len() && (#[trigger] paths[i]).path_type == channel_type,
    decreases paths.len(),
{
    let bit = 1u32 << channel_type;
    if paths.len() == 0 {
        assert(0u32 & bit == 0) by (bit_vector);
    } else {
        law_supported_channels_are_those_of_the_paths(paths.drop_last(), channel_type);
        let before = component::channel_mask(paths.drop_last());
        let last = paths.last().path_type;
        assert(paths[paths.len() - 1].path_type < 32);
        assert((before | (1u32 << last)) & (1u32 << channel_type) != 0 <==> (before & (1u32
            << channel_type) != 0 || last == channel_type)) by (bit_vector)
            requires
                last < 32,
                channel_type < 32,
        ;
        assert(forall|i: int|
            0 <= i < paths.len() - 1 ==> paths.drop_last()[i] == #[trigger] paths[i]);
        if exists|i: int|
            0 <= i < paths.len() && (#[trigger] paths[i]).path_type == channel_type {
            let i = choose|i: int|
                0 <= i < paths.len() && (#[trigger] paths[i]).path_type == channel_type;
            if i < paths.len() - 1 {
                assert(paths.drop_last()[i].path_type == channel_type);
            }
        }
        if before & (1u32 << channel_type) != 0 {
            let i = choose|i: int|
                0 <= i < paths.drop_last().len() && (
                #[trigger] paths.drop_last()[i]).path_type == channel_type;
            assert(paths[i].path_type == channel_type);
        }
    }
}

/// The guest reads from the capability set what the component offers, and the set is as long as
/// was announced.
pub proof fn law_capset_is_read_back(
    paths: Option<Vec<RutabagaPath>>,
    supports_dmabuf: bool,
    supports_external_gpu_memory: bool,
    order: ByteOrder,
)
    ensures
        ({
            let caps = component::capabilities(
                paths,
                supports_dmabuf,
                supports_external_gpu_memory,
            );
            &&& caps.encoded(order).len() == CrossDomainCapabilities::wire_size()
            &&& CrossDomainCapabilities::decoded(order, caps.encoded(order)) == caps
        }),
{
    let caps = component::capabilities(paths, supports_dmabuf, supports_external_gpu_memory);
    caps.decode_encoded(order, Seq::empty());
    assert(caps.encoded(order) + Seq::empty() =~= caps.encoded(order));
}

} // verus!
