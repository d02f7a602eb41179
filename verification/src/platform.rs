//! The operating-system objects that pass through the library, and the calls that it makes on
//! them. What is said of the calls is said of Linux, the system for which `magma_gpu` implements
//! all of them.

use magma_gpu::util::AsBorrowedDescriptor;
use magma_gpu::util::AsRawDescriptor;
use magma_gpu::util::Event;
use magma_gpu::util::OwnedDescriptor;
use magma_gpu::util::ReadPipe;
use magma_gpu::util::Tube;
use magma_gpu::util::WritePipe;

use vstd::prelude::*;

use crate::handle::MagmaGpuHandle;

verus! {

/// The handle type of events.
pub const MAGMA_GPU_HANDLE_TYPE_SIGNAL_EVENT_FD: u32 = 0x0050;

/// `magma_gpu::util::OwnedDescriptor`: an open descriptor. Its values are opaque here.
#[verifier::external_type_specification]
#[verifier::external_body]
pub struct ExOwnedDescriptor(magma_gpu::util::OwnedDescriptor);

/// `magma_gpu::util::Event`: an event that can be signalled and waited for. Opaque here.
#[verifier::external_type_specification]
#[verifier::external_body]
pub struct ExEvent(magma_gpu::util::Event);

/// `magma_gpu::util::ReadPipe`: the end of a pipe that is read. Opaque here.
#[verifier::external_type_specification]
#[verifier::external_body]
pub struct ExReadPipe(magma_gpu::util::ReadPipe);

/// `magma_gpu::util::WritePipe`: the end of a pipe that is written. Opaque here.
#[verifier::external_type_specification]
#[verifier::external_body]
pub struct ExWritePipe(magma_gpu::util::WritePipe);

/// `magma_gpu::util::Tube`: a connected socket. Opaque here.
#[verifier::external_type_specification]
#[verifier::external_body]
pub struct ExTube(magma_gpu::util::Tube);

/// `magma_gpu::util::Error`: the failures of that crate. Opaque here.
#[verifier::external_type_specification]
#[verifier::external_body]
pub struct ExMagmaGpuError(magma_gpu::util::Error);

/// `std::io::Error`: the failures of operations on descriptors. Opaque here.
#[verifier::external_type_specification]
#[verifier::external_body]
pub struct ExIoError(std::io::Error);

/// What a descriptor stands for.
#[derive(Copy, Clone, Debug, PartialEq, Eq)]
pub enum DescriptorType {
    Unknown,
    /// Memory, with its size and its handle type.
    Memory(u32, u32),
    WritePipe,
    Event,
    Socket,
}

/// Something that happened to a polled descriptor: the connection under which it is polled, whether
/// it was hung up, and whether it can be read.
#[derive(Copy, Clone, Debug, PartialEq, Eq)]
pub struct WaitEvent {
    pub connection_id: u64,
    pub hung_up: bool,
    pub readable: bool,
}

/// The object of the system (memory, a file, one end of a pipe, an event, a socket) that a
/// descriptor refers to.
pub uninterp spec fn descriptor_object(descriptor: OwnedDescriptor) -> int;

/// The object that the descriptor of an event refers to.
pub uninterp spec fn event_object(event: Event) -> int;

/// The end that is read of a pipe, as an object of the system.
pub uninterp spec fn read_pipe_object(read_pipe: ReadPipe) -> int;

/// The end that is written of a pipe, as an object of the system.
pub uninterp spec fn write_pipe_object(write_pipe: WritePipe) -> int;

/// The pipe that an end belongs to.
pub uninterp spec fn pipe_of(end: int) -> int;

/// The socket of a channel.
pub uninterp spec fn tube_object(tube: Tube) -> int;

/// `magma_gpu::util::OwnedDescriptor::try_clone`: a second descriptor for the same object, or the
/// error of the system. Whether there is one depends on the system.
#[verifier::external_body]
pub(crate) fn clone_descriptor(descriptor: &OwnedDescriptor) -> (r: Result<
    OwnedDescriptor,
    std::io::Error,
>)
    ensures
        r matches Ok(clone) ==> descriptor_object(clone) == descriptor_object(*descriptor),
{
    descriptor.try_clone()
}

/// `magma_gpu::util::create_pipe`: the two ends of one pipe, which are different objects, or the
/// error of the system. Whether there is a pipe, and which, depends on the system.
#[verifier::external_body]
pub(crate) fn create_pipe() -> (r: Result<(ReadPipe, WritePipe), magma_gpu::util::Error>)
    ensures
        r matches Ok(ends) ==> {
            &&& pipe_of(read_pipe_object(ends.0)) == pipe_of(write_pipe_object(ends.1))
            &&& read_pipe_object(ends.0) != write_pipe_object(ends.1)
        },
{
    magma_gpu::util::create_pipe()
}

/// `magma_gpu::util::AsBorrowedDescriptor::as_borrowed_descriptor` of a `WritePipe`: the
/// descriptor inside.
#[verifier::external_body]
pub(crate) fn write_pipe_descriptor(write_pipe: &WritePipe) -> (r: &OwnedDescriptor)
    ensures
        descriptor_object(*r) == write_pipe_object(*write_pipe),
{
    write_pipe.as_borrowed_descriptor()
}

/// `magma_gpu::util::OwnedDescriptor::determine_type`: what the descriptor stands for, or the
/// error of the system. It asks the system, so nothing is claimed of the answer.
#[verifier::external_body]
pub(crate) fn determine_type(descriptor: &OwnedDescriptor) -> (r: Result<
    DescriptorType,
    std::io::Error,
>) {
    match descriptor.determine_type() {
        Ok(magma_gpu::util::DescriptorType::Unknown) => Ok(DescriptorType::Unknown),
        Ok(magma_gpu::util::DescriptorType::Memory(size, handle_type)) => Ok(
            DescriptorType::Memory(size, handle_type),
        ),
        Ok(magma_gpu::util::DescriptorType::WritePipe) => Ok(DescriptorType::WritePipe),
        Ok(magma_gpu::util::DescriptorType::Event) => Ok(DescriptorType::Event),
        Ok(magma_gpu::util::DescriptorType::Socket(_)) => Ok(DescriptorType::Socket),
        Err(e) => Err(e),
    }
}

/// `magma_gpu::util::OwnedDescriptor::determine_map_access_mode`: how the memory behind the
/// descriptor can be mapped, as a combination of the two access bits, or the error of the system.
/// Which bits there are depends on the system.
#[verifier::external_body]
pub(crate) fn determine_map_access_mode(descriptor: &OwnedDescriptor) -> (r: Result<
    u32,
    std::io::Error,
>)
    ensures
        r matches Ok(access) ==> access == 0 || access == 0x10 || access == 0x20 || access == 0x30,
{
    descriptor.determine_map_access_mode()
}

/// `TryFrom<magma_gpu::util::Handle>` for `magma_gpu::util::Event`: an event around the
/// descriptor of the handle, where the handle type is that of events, and an error otherwise.
#[verifier::external_body]
pub(crate) fn event_from_handle(handle: MagmaGpuHandle) -> (r: Result<
    Event,
    magma_gpu::util::Error,
>)
    ensures
        r is Ok <==> handle.handle_type == MAGMA_GPU_HANDLE_TYPE_SIGNAL_EVENT_FD,
        r matches Ok(event) ==> event_object(event) == descriptor_object(handle.os_handle),
{
    Event::try_from(
        magma_gpu::util::Handle { os_handle: handle.os_handle, handle_type: handle.handle_type },
    )
}

/// `magma_gpu::util::WritePipe::new` on the raw descriptor, which the pipe owns from then on.
#[verifier::external_body]
pub(crate) fn write_pipe_from_descriptor(descriptor: OwnedDescriptor) -> (r: WritePipe)
    ensures
        write_pipe_object(r) == descriptor_object(descriptor),
{
    let write_pipe = WritePipe::new(descriptor.as_raw_descriptor());
    std::mem::forget(descriptor);
    write_pipe
}

/// `TryFrom<magma_gpu::util::OwnedDescriptor>` for `magma_gpu::util::Tube`: the socket as a
/// channel, where the system says that it is of a type that can be one. Whether it is depends on
/// the system.
#[verifier::external_body]
pub(crate) fn tube_from_descriptor(socket: OwnedDescriptor) -> (r: Result<
    Tube,
    magma_gpu::util::Error,
>)
    ensures
        r matches Ok(tube) ==> tube_object(tube) == descriptor_object(socket),
{
    Tube::try_from(socket)
}

// ---- the answers of the system ----

/// This is what came of asking the system to duplicate a descriptor.
pub closed spec fn duplicates(
    descriptor: OwnedDescriptor,
    answer: Result<OwnedDescriptor, std::io::Error>,
) -> bool {
    call_ensures(clone_descriptor, (&descriptor,), answer)
}

/// The system refused to duplicate a descriptor.
pub open spec fn is_refused(descriptor: OwnedDescriptor) -> bool {
    exists|e: std::io::Error| #[trigger] duplicates(descriptor, Err(e))
}

/// This is what came of asking the system to duplicate a descriptor for an object.
pub open spec fn duplicates_object(
    object: int,
    answer: Result<OwnedDescriptor, std::io::Error>,
) -> bool {
    exists|descriptor: OwnedDescriptor|
        descriptor_object(descriptor) == object && #[trigger] duplicates(descriptor, answer)
}

/// This is what came of asking the system for a pipe.
pub closed spec fn makes_ends(
    answer: Result<(ReadPipe, WritePipe), magma_gpu::util::Error>,
) -> bool {
    call_ensures(create_pipe, (), answer)
}

/// This is what came of asking the system what a descriptor stands for.
pub closed spec fn reports_type(
    descriptor: OwnedDescriptor,
    answer: Result<DescriptorType, std::io::Error>,
) -> bool {
    call_ensures(determine_type, (&descriptor,), answer)
}

/// This is what came of asking the system how the memory behind a descriptor can be mapped.
pub closed spec fn reports_access(
    descriptor: OwnedDescriptor,
    answer: Result<u32, std::io::Error>,
) -> bool {
    call_ensures(determine_map_access_mode, (&descriptor,), answer)
}

/// This is what came of asking the system to take a descriptor for a channel.
pub closed spec fn makes_tube(
    socket: OwnedDescriptor,
    answer: Result<Tube, magma_gpu::util::Error>,
) -> bool {
    call_ensures(tube_from_descriptor, (socket,), answer)
}

/// Duplicates a descriptor.
pub(crate) fn duplicate(descriptor: &OwnedDescriptor) -> (r: Result<
    OwnedDescriptor,
    std::io::Error,
>)
    ensures
        duplicates(*descriptor, r),
        duplicates_object(descriptor_object(*descriptor), r),
        r matches Ok(clone) ==> descriptor_object(clone) == descriptor_object(*descriptor),
{
    let r = clone_descriptor(descriptor);
    assert(duplicates(*descriptor, r));
    r
}

/// Makes a pipe.
pub(crate) fn make_ends() -> (r: Result<(ReadPipe, WritePipe), magma_gpu::util::Error>)
    ensures
        makes_ends(r),
        r matches Ok(ends) ==> {
            &&& pipe_of(read_pipe_object(ends.0)) == pipe_of(write_pipe_object(ends.1))
            &&& read_pipe_object(ends.0) != write_pipe_object(ends.1)
        },
{
    create_pipe()
}

/// Asks what a descriptor stands for.
pub(crate) fn report_type(descriptor: &OwnedDescriptor) -> (r: Result<
    DescriptorType,
    std::io::Error,
>)
    ensures
        reports_type(*descriptor, r),
{
    determine_type(descriptor)
}

/// Asks how the memory behind a descriptor can be mapped.
pub(crate) fn report_access(descriptor: &OwnedDescriptor) -> (r: Result<u32, std::io::Error>)
    ensures
        reports_access(*descriptor, r),
        r matches Ok(access) ==> access == 0 || access == 0x10 || access == 0x20 || access == 0x30,
{
    determine_map_access_mode(descriptor)
}

/// Takes a descriptor for a channel.
pub(crate) fn make_tube(socket: OwnedDescriptor) -> (r: Result<Tube, magma_gpu::util::Error>)
    ensures
        makes_tube(socket, r),
        r matches Ok(tube) ==> tube_object(tube) == descriptor_object(socket),
{
    tube_from_descriptor(socket)
}

} // verus!
