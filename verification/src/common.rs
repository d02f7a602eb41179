//! What the context and its worker share: items, jobs, resources and the rings of the guest.

use std::collections::BTreeMap;
use std::collections::VecDeque;
use std::sync::Arc;

use magma_gpu::util::Event;
use magma_gpu::util::OwnedDescriptor;
use magma_gpu::util::ReadPipe;
use magma_gpu::util::Tube;
use magma_gpu::util::WritePipe;

use vstd::prelude::*;

use crate::cross_domain_protocol::CrossDomainReadWrite;
use crate::cross_domain_protocol::CROSS_DOMAIN_PIPE_READ_START;
use crate::handle::MagmaGpuHandle;
use crate::handle::RutabagaHandle;
use crate::rutabaga_utils;
use crate::rutabaga_utils::ImageMemoryRequirements;
use crate::rutabaga_utils::MesaError;
use crate::rutabaga_utils::RutabagaError;
use crate::rutabaga_utils::RutabagaFence;
use crate::rutabaga_utils::RutabagaIovec;
use crate::wire;
use crate::wire::ByteOrder;
use crate::wire::Wire;

verus! {

broadcast use wire::group_bytes_len;

pub const CROSS_DOMAIN_CONTEXT_CHANNEL_ID: u64 = 1;

pub const CROSS_DOMAIN_RESAMPLE_ID: u64 = 2;

pub const CROSS_DOMAIN_KILL_ID: u64 = 3;

/// Something that the guest refers to by an identifier.
pub enum CrossDomainItem {
    ImageRequirements(ImageMemoryRequirements),
    Blob(MagmaGpuHandle),
    WaylandReadPipe(ReadPipe),
    WaylandWritePipe(WritePipe),
    Event(Event),
    RegularFile(OwnedDescriptor),
    Socket(OwnedDescriptor),
}

/// Work for the worker.
pub enum CrossDomainJob {
    HandleFence(RutabagaFence),
    AddReadPipe(u32),
    Finish,
    AddAtomicMemorySentinel(u32, Event),
    AddReadEvent(u32),
}

/// A resource that is attached to a context.
pub struct ContextResource {
    pub handle: Option<Arc<RutabagaHandle>>,
    pub backing_iovecs: Option<Vec<RutabagaIovec>>,
}

/// The attached resources by their identifiers.
pub type ContextResources = BTreeMap<u32, ContextResource>;

// ---- items ----

/// The items of a context, and the identifiers that were given out last.
pub struct CrossDomainItems {
    pub descriptor_id: u32,
    pub read_pipe_id: u32,
    pub table: BTreeMap<u32, CrossDomainItem>,
}

/// What `CrossDomainItems` holds.
#[verifier::ext_equal]
pub struct ItemsModel {
    pub descriptor_id: u32,
    pub read_pipe_id: u32,
    pub table: Map<u32, CrossDomainItem>,
}

impl View for CrossDomainItems {
    type V = ItemsModel;

    open spec fn view(&self) -> ItemsModel {
        ItemsModel {
            descriptor_id: self.descriptor_id,
            read_pipe_id: self.read_pipe_id,
            table: self.table@,
        }
    }
}

impl ItemsModel {
    /// The items of a new context.
    pub open spec fn initial() -> ItemsModel {
        ItemsModel {
            descriptor_id: 1,
            read_pipe_id: CROSS_DOMAIN_PIPE_READ_START,
            table: Map::empty(),
        }
    }

    /// The counter that numbers `item` can still be incremented.
    pub open spec fn has_id_for(self, item: CrossDomainItem) -> bool {
        if item is WaylandReadPipe {
            self.read_pipe_id < u32::MAX
        } else {
            self.descriptor_id < u32::MAX
        }
    }

    /// The identifier that `item` gets when it is added. Read pipes are numbered apart, from
    /// `CROSS_DOMAIN_PIPE_READ_START` on.
    pub open spec fn next_id(self, item: CrossDomainItem) -> u32 {
        if item is WaylandReadPipe {
            let id = (self.read_pipe_id + 1) as u32;
            if id < CROSS_DOMAIN_PIPE_READ_START {
                CROSS_DOMAIN_PIPE_READ_START
            } else {
                id
            }
        } else {
            (self.descriptor_id + 1) as u32
        }
    }

    /// The items with `item` added.
    pub open spec fn with_item(self, item: CrossDomainItem) -> ItemsModel {
        ItemsModel {
            descriptor_id: if item is WaylandReadPipe {
                self.descriptor_id
            } else {
                (self.descriptor_id + 1) as u32
            },
            read_pipe_id: if item is WaylandReadPipe {
                (self.read_pipe_id + 1) as u32
            } else {
                self.read_pipe_id
            },
            table: self.table.insert(self.next_id(item), item),
        }
    }

    /// The items with `item` under `id`.
    pub open spec fn with_item_at(self, id: u32, item: CrossDomainItem) -> ItemsModel {
        ItemsModel { table: self.table.insert(id, item), ..self }
    }

    /// The items without the one under `id`.
    pub open spec fn without_item(self, id: u32) -> ItemsModel {
        ItemsModel { table: self.table.remove(id), ..self }
    }
}

impl Default for CrossDomainItems {
    fn default() -> (r: CrossDomainItems)
        ensures
            r@ == ItemsModel::initial(),
    {
        CrossDomainItems {
            descriptor_id: 1,
            read_pipe_id: CROSS_DOMAIN_PIPE_READ_START,
            table: BTreeMap::new(),
        }
    }
}

/// Gives `item` the next identifier of its kind and puts it into the table.
pub fn add_item(items: &mut CrossDomainItems, item: CrossDomainItem) -> (item_id: u32)
    requires
        old(items)@.has_id_for(item),
    ensures
        item_id == old(items)@.next_id(item),
        final(items)@ == old(items)@.with_item(item),
{
    let item_id: u32 = match item {
        CrossDomainItem::WaylandReadPipe(_) => {
            items.read_pipe_id += 1;
            if items.read_pipe_id < CROSS_DOMAIN_PIPE_READ_START {
                CROSS_DOMAIN_PIPE_READ_START
            } else {
                items.read_pipe_id
            }
        },
        _ => {
            items.descriptor_id += 1;
            items.descriptor_id
        },
    };
    items.table.insert(item_id, item);
    item_id
}

// ---- state ----

/// The rings, the channel and the jobs of an initialised context.
pub struct CrossDomainState {
    pub query_ring_id: u32,
    pub channel_ring_id: u32,
    pub connection: Option<Arc<Tube>>,
    pub jobs: Option<VecDeque<CrossDomainJob>>,
}

/// What `CrossDomainState` holds. There is no queue once it is closed.
#[verifier::ext_equal]
pub struct StateModel {
    pub query_ring_id: u32,
    pub channel_ring_id: u32,
    pub connection: Option<Arc<Tube>>,
    pub jobs: Option<Seq<CrossDomainJob>>,
}

impl View for CrossDomainState {
    type V = StateModel;

    open spec fn view(&self) -> StateModel {
        StateModel {
            query_ring_id: self.query_ring_id,
            channel_ring_id: self.channel_ring_id,
            connection: self.connection,
            jobs: match self.jobs {
                Some(queue) => Some(queue@),
                None => None,
            },
        }
    }
}

impl StateModel {
    /// The state of a context right after it was initialised.
    pub open spec fn initial(
        query_ring_id: u32,
        channel_ring_id: u32,
        connection: Option<Arc<Tube>>,
    ) -> StateModel {
        StateModel { query_ring_id, channel_ring_id, connection, jobs: Some(Seq::empty()) }
    }

    /// The state with `job` behind all others; a closed queue takes no job.
    pub open spec fn with_job(self, job: CrossDomainJob) -> StateModel {
        match self.jobs {
            Some(queue) => StateModel { jobs: Some(queue.push(job)), ..self },
            None => self,
        }
    }
}

/// What there is to do for the worker.
pub enum NextJob {
    /// The queue is closed.
    Closed,
    /// The queue is empty: wait until a job is added.
    Wait,
    /// The oldest job, which has left the queue.
    Job(CrossDomainJob),
}

/// A write to a ring. The last part of the read forms says what the pipe or the event delivered,
/// where it was readable.
pub enum RingWrite<'a, T> {
    /// A command, and the data that follows it.
    Write(T, Option<&'a [u8]>),
    /// The header of a read from a pipe, and how many bytes the pipe put behind it.
    WriteFromPipe(CrossDomainReadWrite, Option<usize>),
    /// The header of a read from an event, and the value that the event had.
    WriteFromEvent(CrossDomainReadWrite, Option<u64>),
}

/// `bytes` with `part` over what stood at `at`.
pub open spec fn overlay(bytes: Seq<u8>, at: int, part: Seq<u8>) -> Seq<u8> {
    bytes.take(at) + part + bytes.skip(at + part.len())
}

/// The header that goes to the ring for a read of `bytes_read` bytes.
pub open spec fn read_header(
    cmd_read: CrossDomainReadWrite,
    hang_up: bool,
    bytes_read: int,
) -> CrossDomainReadWrite {
    CrossDomainReadWrite {
        hang_up: if hang_up {
            1
        } else {
            cmd_read.hang_up
        },
        opaque_data_size: bytes_read as u32,
        ..cmd_read
    }
}

/// What a write makes of the memory of a ring, and what it returns. The command has the byte order
/// of the host, the value of an event its least significant byte first.
pub open spec fn ring_written<T: Wire>(
    order: ByteOrder,
    ring_write: RingWrite<T>,
    ring: Seq<u8>,
) -> (Seq<u8>, Result<usize, RutabagaError>) {
    match ring_write {
        RingWrite::Write(cmd, opaque_data) => {
            let size = T::wire_size() as int;
            if ring.len() < size {
                (ring, Err(RutabagaError::InvalidIovec))
            } else {
                let with_cmd = overlay(ring, 0, cmd.encoded(order));
                match opaque_data {
                    None => (with_cmd, Ok(0)),
                    Some(data) => if ring.len() - size < data@.len() {
                        (with_cmd, Err(RutabagaError::InvalidIovec))
                    } else {
                        (overlay(with_cmd, size, data@), Ok(0))
                    },
                }
            }
        },
        RingWrite::WriteFromPipe(cmd_read, read) => {
            let bytes_read: usize = match read {
                Some(n) => n,
                None => 0,
            };
            if ring.len() < CrossDomainReadWrite::wire_size() {
                (ring, Err(RutabagaError::InvalidIovec))
            } else {
                match rutabaga_utils::u32_of_usize(bytes_read) {
                    Err(e) => (ring, Err(RutabagaError::MesaError(MesaError::TryFromIntError(e)))),
                    Ok(size) => (
                        overlay(
                            ring,
                            0,
                            read_header(cmd_read, bytes_read == 0, size as int).encoded(order),
                        ),
                        Ok(bytes_read),
                    ),
                }
            }
        },
        RingWrite::WriteFromEvent(cmd_read, value) => {
            if ring.len() < CrossDomainReadWrite::wire_size() {
                (ring, Err(RutabagaError::InvalidIovec))
            } else {
                match value {
                    Some(v) => (
                        overlay(
                            overlay(ring, 24, wire::u64_bytes(ByteOrder::Little, v)),
                            0,
                            read_header(cmd_read, false, 8).encoded(order),
                        ),
                        Ok(8),
                    ),
                    None => (
                        overlay(ring, 0, read_header(cmd_read, false, 0).encoded(order)),
                        Ok(0),
                    ),
                }
            }
        },
    }
}

/// A ring that takes the header of a read also takes the value of an event behind it.
pub open spec fn ring_fits_event<T>(ring_write: RingWrite<T>, ring: Seq<u8>) -> bool {
    ring_write matches RingWrite::WriteFromEvent(_, Some(_)) ==> ring.len() < 24 || ring.len()
        >= 32
}

fn write_at(ring: &mut [u8], at: usize, part: &[u8])
    requires
        at + part@.len() <= old(ring)@.len(),
    ensures
        final(ring)@ == overlay(old(ring)@, at as int, part@),
{
    let ghost before = ring@;
    let ring_len: usize = ring.len();
    let mut i: usize = 0;
    assert(ring@ =~= overlay(before, at as int, part@.take(0)));
    while i < part.len()
        invariant
            0 <= i <= part@.len(),
            at + part@.len() <= before.len(),
            ring@ == overlay(before, at as int, part@.take(i as int)),
            ring@.len() == before.len(),
            before.len() == ring_len,
        decreases part@.len() - i,
    {
        ring[at + i] = part[i];
        i += 1;
        assert(ring@ =~= overlay(before, at as int, part@.take(i as int)));
    }
    assert(part@.take(i as int) =~= part@);
}

impl CrossDomainState {
    pub fn new(
        query_ring_id: u32,
        channel_ring_id: u32,
        connection: Option<Arc<Tube>>,
    ) -> (r: CrossDomainState)
        ensures
            r@ == StateModel::initial(query_ring_id, channel_ring_id, connection),
    {
        CrossDomainState {
            query_ring_id,
            channel_ring_id,
            connection,
            jobs: Some(VecDeque::new()),
        }
    }

    /// The channel on which to send a message.
    pub fn send_msg(&self) -> (r: Result<Arc<Tube>, RutabagaError>)
        ensures
            r == (match self.connection {
                Some(connection) => Ok(connection),
                None => Err(RutabagaError::InvalidCrossDomainChannel),
            }),
    {
        match &self.connection {
            Some(connection) => Ok(connection.clone()),
            None => Err(RutabagaError::InvalidCrossDomainChannel),
        }
    }

    /// The channel from which to receive a message.
    pub fn receive_msg(&self) -> (r: Result<Arc<Tube>, RutabagaError>)
        ensures
            r == (match self.connection {
                Some(connection) => Ok(connection),
                None => Err(RutabagaError::InvalidCrossDomainChannel),
            }),
    {
        match &self.connection {
            Some(connection) => Ok(connection.clone()),
            None => Err(RutabagaError::InvalidCrossDomainChannel),
        }
    }

    /// Puts `job` behind all others. Returns whether a waiting worker is to be woken.
    pub fn add_job(&mut self, job: CrossDomainJob) -> (notify: bool)
        ensures
            final(self)@ == old(self)@.with_job(job),
            notify == old(self)@.jobs is Some,
    {
        if let Some(queue) = self.jobs.as_mut() {
            queue.push_back(job);
            true
        } else {
            false
        }
    }

    /// Takes the oldest job.
    pub fn wait_for_job(&mut self) -> (r: NextJob)
        ensures
            match old(self)@.jobs {
                None => r is Closed && final(self)@ == old(self)@,
                Some(queue) => if queue.len() == 0 {
                    r is Wait && final(self)@ == old(self)@
                } else {
                    &&& r == NextJob::Job(queue[0])
                    &&& final(self)@ == (StateModel {
                        jobs: Some(queue.skip(1)),
                        ..old(self)@
                    })
                },
            },
    {
        match self.jobs.as_mut() {
            None => NextJob::Closed,
            Some(queue) => match queue.pop_front() {
                Some(job) => NextJob::Job(job),
                None => NextJob::Wait,
            },
        }
    }

    /// The memory of a ring: the first stretch that backs the resource.
    pub fn ring_memory(context_resources: &ContextResources, ring_id: u32) -> (r: Result<
        RutabagaIovec,
        RutabagaError,
    >)
        requires
            context_resources@.contains_key(ring_id) ==> (
            context_resources@[ring_id].backing_iovecs matches Some(iovecs) ==> iovecs@.len() > 0),
        ensures
            r == (if !context_resources@.contains_key(ring_id) {
                Err(RutabagaError::InvalidResourceId)
            } else {
                match context_resources@[ring_id].backing_iovecs {
                    None => Err(RutabagaError::InvalidIovec),
                    Some(iovecs) => Ok(iovecs@[0]),
                }
            }),
    {
        match context_resources.get(&ring_id) {
            None => Err(RutabagaError::InvalidResourceId),
            Some(resource) => match &resource.backing_iovecs {
                None => Err(RutabagaError::InvalidIovec),
                Some(iovecs) => Ok(iovecs[0]),
            },
        }
    }

    /// Whether a ring of `len` bytes has room for the header of a read. To be asked before the
    /// pipe or the event is read.
    pub fn check_read_room(len: usize) -> (r: Result<(), RutabagaError>)
        ensures
            r == (if len < CrossDomainReadWrite::wire_size() {
                Err::<(), RutabagaError>(RutabagaError::InvalidIovec)
            } else {
                Ok(())
            }),
    {
        if len < CrossDomainReadWrite::size_of() {
            Err(RutabagaError::InvalidIovec)
        } else {
            Ok(())
        }
    }

    /// Writes to the memory of a ring, in the byte order of the host. Returns how many bytes were
    /// read from the pipe or event.
    pub fn write_to_ring<T: Wire>(
        order: ByteOrder,
        ring_write: RingWrite<T>,
        ring: &mut [u8],
    ) -> (r: Result<usize, RutabagaError>)
        requires
            ring_fits_event(ring_write, old(ring)@),
        ensures
            (final(ring)@, r) == ring_written(order, ring_write, old(ring)@),
    {
        let ring_len: usize = ring.len();
        match ring_write {
            RingWrite::Write(cmd, opaque_data_opt) => {
                let size: usize = T::size_of();
                if ring_len < size {
                    return Err(RutabagaError::InvalidIovec);
                }
                let cmd_bytes = cmd.as_bytes(order);
                write_at(ring, 0, cmd_bytes.as_slice());
                if let Some(opaque_data) = opaque_data_opt {
                    if ring_len - size < opaque_data.len() {
                        return Err(RutabagaError::InvalidIovec);
                    }
                    write_at(ring, size, opaque_data);
                }
                Ok(0)
            },
            RingWrite::WriteFromPipe(cmd_read, read) => {
                if ring_len < CrossDomainReadWrite::size_of() {
                    return Err(RutabagaError::InvalidIovec);
                }
                let bytes_read: usize = match read {
                    Some(n) => n,
                    None => 0,
                };
                let mut header = cmd_read;
                if bytes_read == 0 {
                    header.hang_up = 1;
                }
                match u32::try_from(bytes_read) {
                    Ok(size) => header.opaque_data_size = size,
                    Err(e) => {
                        return Err(RutabagaError::MesaError(MesaError::TryFromIntError(e)));
                    },
                }
                let header_bytes = header.as_bytes(order);
                write_at(ring, 0, header_bytes.as_slice());
                Ok(bytes_read)
            },
            RingWrite::WriteFromEvent(cmd_read, value) => {
                if ring_len < CrossDomainReadWrite::size_of() {
                    return Err(RutabagaError::InvalidIovec);
                }
                let mut header = cmd_read;
                let mut bytes_read: usize = 0;
                if let Some(v) = value {
                    let mut value_bytes: Vec<u8> = Vec::new();
                    wire::push_u64(ByteOrder::Little, &mut value_bytes, v);
                    assert(value_bytes@ =~= wire::u64_bytes(ByteOrder::Little, v));
                    write_at(ring, 24, value_bytes.as_slice());
                    bytes_read = 8;
                }
                header.opaque_data_size = bytes_read as u32;
                let header_bytes = header.as_bytes(order);
                write_at(ring, 0, header_bytes.as_slice());
                Ok(bytes_read)
            },
        }
    }
}

} // verus!
