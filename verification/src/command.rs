//! The commands in a command buffer.

use vstd::prelude::*;
use vstd::slice::slice_subrange;

use crate::cross_domain_protocol::CrossDomainAssignSocketUuid;
use crate::cross_domain_protocol::CrossDomainCreateAtomicMemorySentinel;
use crate::cross_domain_protocol::CrossDomainCreateEvent;
use crate::cross_domain_protocol::CrossDomainDestroyAtomicMemorySentinel;
use crate::cross_domain_protocol::CrossDomainGetImageRequirements;
use crate::cross_domain_protocol::CrossDomainHeader;
use crate::cross_domain_protocol::CrossDomainImportVirtioFsHandle;
use crate::cross_domain_protocol::CrossDomainInit;
use crate::cross_domain_protocol::CrossDomainInitLegacy;
use crate::cross_domain_protocol::CrossDomainInitV1;
use crate::cross_domain_protocol::CrossDomainReadWrite;
use crate::cross_domain_protocol::CrossDomainSendReceive;
use crate::cross_domain_protocol::CrossDomainSignalAtomicMemorySentinel;
use crate::cross_domain_protocol::CROSS_DOMAIN_CMD_ASSIGN_SOCKET_UUID;
use crate::cross_domain_protocol::CROSS_DOMAIN_CMD_CREATE_ATOMIC_MEMORY_SENTINEL;
use crate::cross_domain_protocol::CROSS_DOMAIN_CMD_DESTROY_ATOMIC_MEMORY_SENTINEL;
use crate::cross_domain_protocol::CROSS_DOMAIN_CMD_GET_IMAGE_REQUIREMENTS;
use crate::cross_domain_protocol::CROSS_DOMAIN_CMD_IMPORT_VIRTIOFS_HANDLE;
use crate::cross_domain_protocol::CROSS_DOMAIN_CMD_INIT;
use crate::cross_domain_protocol::CROSS_DOMAIN_CMD_POLL;
use crate::cross_domain_protocol::CROSS_DOMAIN_CMD_READ_CREATE_EVENT;
use crate::cross_domain_protocol::CROSS_DOMAIN_CMD_SEND;
use crate::cross_domain_protocol::CROSS_DOMAIN_CMD_SIGNAL_ATOMIC_MEMORY_SENTINEL;
use crate::cross_domain_protocol::CROSS_DOMAIN_CMD_WRITE;
use crate::rutabaga_utils;
use crate::rutabaga_utils::MesaError;
use crate::rutabaga_utils::RutabagaError;
use crate::wire::ByteOrder;
use crate::wire::Wire;

verus! {

/// A command of the guest. `D` is the data that follows the commands that carry some.
pub enum CrossDomainCommand<D> {
    Init(CrossDomainInit),
    GetImageRequirements(CrossDomainGetImageRequirements),
    Send(CrossDomainSendReceive, D),
    /// Nothing to do: the polling is done when a fence is created.
    Poll,
    Write(CrossDomainReadWrite, D),
    CreateAtomicMemorySentinel(CrossDomainCreateAtomicMemorySentinel),
    SignalAtomicMemorySentinel(CrossDomainSignalAtomicMemorySentinel),
    DestroyAtomicMemorySentinel(CrossDomainDestroyAtomicMemorySentinel),
    ReadCreateEvent(CrossDomainCreateEvent),
    AssignSocketUuid(CrossDomainAssignSocketUuid),
    ImportVirtioFsHandle(CrossDomainImportVirtioFsHandle),
}

impl<'a> View for CrossDomainCommand<&'a [u8]> {
    type V = CrossDomainCommand<Seq<u8>>;

    open spec fn view(&self) -> CrossDomainCommand<Seq<u8>> {
        match *self {
            CrossDomainCommand::Init(c) => CrossDomainCommand::Init(c),
            CrossDomainCommand::GetImageRequirements(c) => CrossDomainCommand::GetImageRequirements(
                c,
            ),
            CrossDomainCommand::Send(c, data) => CrossDomainCommand::Send(c, data@),
            CrossDomainCommand::Poll => CrossDomainCommand::Poll,
            CrossDomainCommand::Write(c, data) => CrossDomainCommand::Write(c, data@),
            CrossDomainCommand::CreateAtomicMemorySentinel(c) =>
                CrossDomainCommand::CreateAtomicMemorySentinel(c),
            CrossDomainCommand::SignalAtomicMemorySentinel(c) =>
                CrossDomainCommand::SignalAtomicMemorySentinel(c),
            CrossDomainCommand::DestroyAtomicMemorySentinel(c) =>
                CrossDomainCommand::DestroyAtomicMemorySentinel(c),
            CrossDomainCommand::ReadCreateEvent(c) => CrossDomainCommand::ReadCreateEvent(c),
            CrossDomainCommand::AssignSocketUuid(c) => CrossDomainCommand::AssignSocketUuid(c),
            CrossDomainCommand::ImportVirtioFsHandle(c) => CrossDomainCommand::ImportVirtioFsHandle(
                c,
            ),
        }
    }
}

/// The structure that a buffer starts with.
pub open spec fn prefix<T: Wire>(order: ByteOrder, bytes: Seq<u8>) -> Result<T, RutabagaError> {
    if bytes.len() < T::wire_size() {
        Err(RutabagaError::InvalidCommandBuffer)
    } else {
        Ok(T::decoded(order, bytes))
    }
}

/// The `size` bytes that stand at `at`.
pub open spec fn data_at(bytes: Seq<u8>, at: int, size: u32) -> Result<Seq<u8>, RutabagaError> {
    if at + size <= bytes.len() {
        Ok(bytes.subrange(at, at + size))
    } else {
        Err(RutabagaError::InvalidCommandSize(size as usize))
    }
}

/// The command that a buffer starts with, where the host has the byte order `order`. The init
/// command comes in three sizes; the older two stand for the requests that they are upgraded to.
#[verifier::opaque]
pub open spec fn command_at(order: ByteOrder, bytes: Seq<u8>) -> Result<
    CrossDomainCommand<Seq<u8>>,
    RutabagaError,
> {
    match prefix::<CrossDomainHeader>(order, bytes) {
        Err(e) => Err(e),
        Ok(hdr) => if hdr.cmd == CROSS_DOMAIN_CMD_INIT && hdr.cmd_size
            == CrossDomainInitLegacy::wire_size() {
            match prefix::<CrossDomainInitLegacy>(order, bytes) {
                Ok(c) => Ok(CrossDomainCommand::Init(c.upgraded())),
                Err(e) => Err(e),
            }
        } else if hdr.cmd == CROSS_DOMAIN_CMD_INIT && hdr.cmd_size
            == CrossDomainInitV1::wire_size() {
            match prefix::<CrossDomainInitV1>(order, bytes) {
                Ok(c) => Ok(CrossDomainCommand::Init(c.upgraded())),
                Err(e) => Err(e),
            }
        } else if hdr.cmd == CROSS_DOMAIN_CMD_INIT && hdr.cmd_size == CrossDomainInit::wire_size() {
            match prefix::<CrossDomainInit>(order, bytes) {
                Ok(c) => Ok(CrossDomainCommand::Init(c)),
                Err(e) => Err(e),
            }
        } else if hdr.cmd == CROSS_DOMAIN_CMD_GET_IMAGE_REQUIREMENTS {
            match prefix::<CrossDomainGetImageRequirements>(order, bytes) {
                Ok(c) => Ok(CrossDomainCommand::GetImageRequirements(c)),
                Err(e) => Err(e),
            }
        } else if hdr.cmd == CROSS_DOMAIN_CMD_SEND {
            match prefix::<CrossDomainSendReceive>(order, bytes) {
                Ok(c) => match data_at(
                    bytes,
                    CrossDomainSendReceive::wire_size() as int,
                    c.opaque_data_size,
                ) {
                    Ok(data) => Ok(CrossDomainCommand::Send(c, data)),
                    Err(e) => Err(e),
                },
                Err(e) => Err(e),
            }
        } else if hdr.cmd == CROSS_DOMAIN_CMD_POLL {
            Ok(CrossDomainCommand::Poll)
        } else if hdr.cmd == CROSS_DOMAIN_CMD_WRITE {
            match prefix::<CrossDomainReadWrite>(order, bytes) {
                Ok(c) => match data_at(
                    bytes,
                    CrossDomainReadWrite::wire_size() as int,
                    c.opaque_data_size,
                ) {
                    Ok(data) => Ok(CrossDomainCommand::Write(c, data)),
                    Err(e) => Err(e),
                },
                Err(e) => Err(e),
            }
        } else if hdr.cmd == CROSS_DOMAIN_CMD_CREATE_ATOMIC_MEMORY_SENTINEL {
            match prefix::<CrossDomainCreateAtomicMemorySentinel>(order, bytes) {
                Ok(c) => Ok(CrossDomainCommand::CreateAtomicMemorySentinel(c)),
                Err(e) => Err(e),
            }
        } else if hdr.cmd == CROSS_DOMAIN_CMD_SIGNAL_ATOMIC_MEMORY_SENTINEL {
            match prefix::<CrossDomainSignalAtomicMemorySentinel>(order, bytes) {
                Ok(c) => Ok(CrossDomainCommand::SignalAtomicMemorySentinel(c)),
                Err(e) => Err(e),
            }
        } else if hdr.cmd == CROSS_DOMAIN_CMD_DESTROY_ATOMIC_MEMORY_SENTINEL {
            match prefix::<CrossDomainDestroyAtomicMemorySentinel>(order, bytes) {
                Ok(c) => Ok(CrossDomainCommand::DestroyAtomicMemorySentinel(c)),
                Err(e) => Err(e),
            }
        } else if hdr.cmd == CROSS_DOMAIN_CMD_READ_CREATE_EVENT {
            match prefix::<CrossDomainCreateEvent>(order, bytes) {
                Ok(c) => Ok(CrossDomainCommand::ReadCreateEvent(c)),
                Err(e) => Err(e),
            }
        } else if hdr.cmd == CROSS_DOMAIN_CMD_ASSIGN_SOCKET_UUID {
            match prefix::<CrossDomainAssignSocketUuid>(order, bytes) {
                Ok(c) => Ok(CrossDomainCommand::AssignSocketUuid(c)),
                Err(e) => Err(e),
            }
        } else if hdr.cmd == CROSS_DOMAIN_CMD_IMPORT_VIRTIOFS_HANDLE {
            match prefix::<CrossDomainImportVirtioFsHandle>(order, bytes) {
                Ok(c) => Ok(CrossDomainCommand::ImportVirtioFsHandle(c)),
                Err(e) => Err(e),
            }
        } else {
            Err(rutabaga_utils::with_context("invalid cross domain command"))
        },
    }
}

/// An exec result is the one that `spec` gives, the data taken by its bytes.
pub open spec fn same_command(
    r: Result<CrossDomainCommand<&[u8]>, RutabagaError>,
    spec_result: Result<CrossDomainCommand<Seq<u8>>, RutabagaError>,
) -> bool {
    match (r, spec_result) {
        (Ok(c), Ok(m)) => c@ == m,
        (Err(e), Err(f)) => e == f,
        _ => false,
    }
}

fn read_prefix<T: Wire>(order: ByteOrder, bytes: &[u8]) -> (r: Result<T, RutabagaError>)
    ensures
        r == prefix::<T>(order, bytes@),
{
    match T::read_from_prefix(order, bytes) {
        Some(v) => Ok(v),
        None => Err(RutabagaError::InvalidCommandBuffer),
    }
}

fn read_data(bytes: &[u8], at: usize, size: u32) -> (r: Result<&[u8], RutabagaError>)
    requires
        at <= bytes.len(),
    ensures
        match (r, data_at(bytes@, at as int, size)) {
            (Ok(data), Ok(m)) => data@ == m,
            (Err(e), Err(f)) => e == f,
            _ => false,
        },
{
    let data_size: usize = size as usize;
    if data_size <= bytes.len() - at {
        Ok(slice_subrange(bytes, at, at + data_size))
    } else {
        Err(RutabagaError::InvalidCommandSize(data_size))
    }
}

/// Reads a send command and the data behind it.
pub fn process_cmd_send(
    order: ByteOrder,
    commands: &[u8],
) -> (r: Result<CrossDomainCommand<&[u8]>, RutabagaError>)
    ensures
        same_command(
            r,
            match prefix::<CrossDomainSendReceive>(order, commands@) {
                Ok(c) => match data_at(
                    commands@,
                    CrossDomainSendReceive::wire_size() as int,
                    c.opaque_data_size,
                ) {
                    Ok(data) => Ok(CrossDomainCommand::Send(c, data)),
                    Err(e) => Err(e),
                },
                Err(e) => Err(e),
            },
        ),
{
    let cmd_send = read_prefix::<CrossDomainSendReceive>(order, commands)?;
    let opaque_data = read_data(
        commands,
        CrossDomainSendReceive::size_of(),
        cmd_send.opaque_data_size,
    )?;
    Ok(CrossDomainCommand::Send(cmd_send, opaque_data))
}

fn process_cmd_write(
    order: ByteOrder,
    commands: &[u8],
) -> (r: Result<CrossDomainCommand<&[u8]>, RutabagaError>)
    ensures
        same_command(
            r,
            match prefix::<CrossDomainReadWrite>(order, commands@) {
                Ok(c) => match data_at(
                    commands@,
                    CrossDomainReadWrite::wire_size() as int,
                    c.opaque_data_size,
                ) {
                    Ok(data) => Ok(CrossDomainCommand::Write(c, data)),
                    Err(e) => Err(e),
                },
                Err(e) => Err(e),
            },
        ),
{
    let cmd_write = read_prefix::<CrossDomainReadWrite>(order, commands)?;
    let opaque_data = read_data(
        commands,
        CrossDomainReadWrite::size_of(),
        cmd_write.opaque_data_size,
    )?;
    Ok(CrossDomainCommand::Write(cmd_write, opaque_data))
}

/// Reads the command that the buffer starts with, together with the size after which the next
/// one follows. An empty buffer holds none. `order` is the byte order of the host.
pub fn next_command(order: ByteOrder, commands: &[u8]) -> (r: Result<
    Option<(CrossDomainCommand<&[u8]>, u16)>,
    RutabagaError,
>)
    ensures
        commands@.len() == 0 <==> r == Ok::<
            Option<(CrossDomainCommand<&[u8]>, u16)>,
            RutabagaError,
        >(None),
        commands@.len() > 0 ==> match r {
            Ok(None) => false,
            Ok(Some((c, cmd_size))) => {
                &&& same_command(Ok(c), command_at(order, commands@))
                &&& cmd_size == CrossDomainHeader::decoded(order, commands@).cmd_size
            },
            Err(e) => same_command(Err(e), command_at(order, commands@)),
        },
{
    if commands.len() == 0 {
        return Ok(None);
    }
    proof {
        reveal(command_at);
    }
    let hdr = read_prefix::<CrossDomainHeader>(order, commands)?;
    let cmd_size: usize = hdr.cmd_size as usize;
    let command: CrossDomainCommand<&[u8]> = if hdr.cmd == CROSS_DOMAIN_CMD_INIT && cmd_size
        == CrossDomainInitLegacy::size_of() {
        let cmd_init = read_prefix::<CrossDomainInitLegacy>(order, commands)?;
        CrossDomainCommand::Init(cmd_init.upgrade())
    } else if hdr.cmd == CROSS_DOMAIN_CMD_INIT && cmd_size == CrossDomainInitV1::size_of() {
        let cmd_init = read_prefix::<CrossDomainInitV1>(order, commands)?;
        CrossDomainCommand::Init(cmd_init.upgrade())
    } else if hdr.cmd == CROSS_DOMAIN_CMD_INIT && cmd_size == CrossDomainInit::size_of() {
        CrossDomainCommand::Init(read_prefix::<CrossDomainInit>(order, commands)?)
    } else if hdr.cmd == CROSS_DOMAIN_CMD_GET_IMAGE_REQUIREMENTS {
        CrossDomainCommand::GetImageRequirements(
            read_prefix::<CrossDomainGetImageRequirements>(order, commands)?,
        )
    } else if hdr.cmd == CROSS_DOMAIN_CMD_SEND {
        process_cmd_send(order, commands)?
    } else if hdr.cmd == CROSS_DOMAIN_CMD_POLL {
        CrossDomainCommand::Poll
    } else if hdr.cmd == CROSS_DOMAIN_CMD_WRITE {
        process_cmd_write(order, commands)?
    } else if hdr.cmd == CROSS_DOMAIN_CMD_CREATE_ATOMIC_MEMORY_SENTINEL {
        CrossDomainCommand::CreateAtomicMemorySentinel(
            read_prefix::<CrossDomainCreateAtomicMemorySentinel>(order, commands)?,
        )
    } else if hdr.cmd == CROSS_DOMAIN_CMD_SIGNAL_ATOMIC_MEMORY_SENTINEL {
        CrossDomainCommand::SignalAtomicMemorySentinel(
            read_prefix::<CrossDomainSignalAtomicMemorySentinel>(order, commands)?,
        )
    } else if hdr.cmd == CROSS_DOMAIN_CMD_DESTROY_ATOMIC_MEMORY_SENTINEL {
        CrossDomainCommand::DestroyAtomicMemorySentinel(
            read_prefix::<CrossDomainDestroyAtomicMemorySentinel>(order, commands)?,
        )
    } else if hdr.cmd == CROSS_DOMAIN_CMD_READ_CREATE_EVENT {
        CrossDomainCommand::ReadCreateEvent(read_prefix::<CrossDomainCreateEvent>(order, commands)?)
    } else if hdr.cmd == CROSS_DOMAIN_CMD_ASSIGN_SOCKET_UUID {
        CrossDomainCommand::AssignSocketUuid(
            read_prefix::<CrossDomainAssignSocketUuid>(order, commands)?,
        )
    } else if hdr.cmd == CROSS_DOMAIN_CMD_IMPORT_VIRTIOFS_HANDLE {
        CrossDomainCommand::ImportVirtioFsHandle(
            read_prefix::<CrossDomainImportVirtioFsHandle>(order, commands)?,
        )
    } else {
        return Err(
            RutabagaError::MesaError(
                MesaError::WithContext("invalid cross domain command"),
            ),
        );
    };
    Ok(Some((command, hdr.cmd_size)))
}

/// The rest of the buffer, behind a command of `cmd_size` bytes. It is asked for after the
/// command was carried out.
pub fn skip_command(commands: &[u8], cmd_size: u16) -> (r: Result<&[u8], RutabagaError>)
    ensures
        match r {
            Ok(rest) => cmd_size <= commands@.len() && rest@ == commands@.skip(cmd_size as int),
            Err(e) => cmd_size > commands@.len() && e == RutabagaError::InvalidCommandSize(
                cmd_size as usize,
            ),
        },
{
    let size: usize = cmd_size as usize;
    if size <= commands.len() {
        let rest = slice_subrange(commands, size, commands.len());
        assert(rest@ =~= commands@.skip(cmd_size as int));
        Ok(rest)
    } else {
        Err(RutabagaError::InvalidCommandSize(size))
    }
}

// ---- whole buffers ----

/// How far a buffer of commands has been carried out.
pub enum Submitted {
    /// It is done with: everything was carried out, or something failed.
    Ended(Result<(), RutabagaError>),
    /// The command that these bytes start with is to be carried out next.
    Waiting(Seq<u8>),
}

/// The commands of a buffer that are carried out where carrying out each of them comes to one of
/// `answers`, and how far that gets. A command that cannot be read, that fails, or that claims more
/// bytes than there are ends it; what was carried out before that stays.
pub open spec fn submitted(
    order: ByteOrder,
    bytes: Seq<u8>,
    answers: Seq<Result<(), RutabagaError>>,
) -> (Seq<CrossDomainCommand<Seq<u8>>>, Submitted)
    decreases answers.len(),
{
    if bytes.len() == 0 {
        (Seq::empty(), Submitted::Ended(Ok(())))
    } else {
        match command_at(order, bytes) {
            Err(e) => (Seq::empty(), Submitted::Ended(Err(e))),
            Ok(c) => if answers.len() == 0 {
                (Seq::empty(), Submitted::Waiting(bytes))
            } else {
                match answers[0] {
                    Err(e) => (seq![c], Submitted::Ended(Err(e))),
                    Ok(_) => {
                        let cmd_size = CrossDomainHeader::decoded(order, bytes).cmd_size;
                        if cmd_size > bytes.len() {
                            (
                                seq![c],
                                Submitted::Ended(
                                    Err(RutabagaError::InvalidCommandSize(cmd_size as usize)),
                                ),
                            )
                        } else {
                            let (more, end) = submitted(
                                order,
                                bytes.skip(cmd_size as int),
                                answers.skip(1),
                            );
                            (seq![c] + more, end)
                        }
                    },
                }
            },
        }
    }
}

/// Carrying out the command `c` may take `before` to `after` with the result `r`.
pub open spec fn handled<'a, S, F: Fn(S, CrossDomainCommand<&'a [u8]>) -> (
    S,
    Result<(), RutabagaError>,
)>(
    handle: F,
    before: S,
    c: CrossDomainCommand<Seq<u8>>,
    after: S,
    r: Result<(), RutabagaError>,
) -> bool {
    exists|command: CrossDomainCommand<&'a [u8]>|
        command@ == c && #[trigger] handle.ensures((before, command), (after, r))
}

/// The commands `commands` were carried out one after the other: from the state `state` on, each
/// may lead to the next of `steps`.
pub open spec fn carried_out<'a, S, F: Fn(S, CrossDomainCommand<&'a [u8]>) -> (
    S,
    Result<(), RutabagaError>,
)>(
    handle: F,
    state: S,
    commands: Seq<CrossDomainCommand<Seq<u8>>>,
    steps: Seq<(S, Result<(), RutabagaError>)>,
) -> bool {
    &&& commands.len() == steps.len()
    &&& forall|i: int|
        0 <= i < steps.len() ==> handled(
            handle,
            if i == 0 {
                state
            } else {
                steps[i - 1].0
            },
            #[trigger] commands[i],
            steps[i].0,
            steps[i].1,
        )
}

/// The state after `steps`.
pub open spec fn state_after<S>(state: S, steps: Seq<(S, Result<(), RutabagaError>)>) -> S {
    if steps.len() == 0 {
        state
    } else {
        steps.last().0
    }
}

/// What the steps came to.
pub open spec fn answers_of<S>(steps: Seq<(S, Result<(), RutabagaError>)>) -> Seq<
    Result<(), RutabagaError>,
> {
    steps.map_values(|step: (S, Result<(), RutabagaError>)| step.1)
}

/// The result of a call that carried out commands, for how far they got: an error, or the bytes
/// that are left, which are none where everything was carried out.
pub open spec fn submit_result(r: Result<&[u8], RutabagaError>) -> Submitted {
    match r {
        Err(e) => Submitted::Ended(Err(e)),
        Ok(rest) => if rest@.len() == 0 {
            Submitted::Ended(Ok(()))
        } else {
            Submitted::Waiting(rest@)
        },
    }
}

/// A call that carried out commands went through `steps`. It stops early only behind a command of
/// no bytes: the last step carried out the command that the rest starts with, and left the rest as
/// it was.
pub open spec fn submit_run<'a, S, F: Fn(S, CrossDomainCommand<&'a [u8]>) -> (
    S,
    Result<(), RutabagaError>,
)>(
    handle: F,
    order: ByteOrder,
    state: S,
    bytes: Seq<u8>,
    steps: Seq<(S, Result<(), RutabagaError>)>,
    after: S,
    r: Result<&'a [u8], RutabagaError>,
) -> bool {
    let (commands, end) = submitted(order, bytes, answers_of(steps));
    &&& carried_out(handle, state, commands, steps)
    &&& after == state_after(state, steps)
    &&& submit_result(r) == end
    &&& end matches Submitted::Waiting(rest) ==> {
        &&& steps.len() > 0
        &&& submitted(order, bytes, answers_of(steps.drop_last())).1 == Submitted::Waiting(rest)
    }
}

/// The size that the command at the start of `bytes` claims.
pub open spec fn claims(order: ByteOrder, bytes: Seq<u8>) -> int {
    CrossDomainHeader::decoded(order, bytes).cmd_size as int
}

/// What is left of `bytes` behind `n` commands.
pub open spec fn behind(order: ByteOrder, bytes: Seq<u8>, n: nat) -> Seq<u8>
    decreases n,
{
    if n == 0 {
        bytes
    } else {
        let rest = behind(order, bytes, (n - 1) as nat);
        rest.skip(claims(order, rest))
    }
}

/// None of the first `n` commands claims to have no bytes.
pub open spec fn moves_on(order: ByteOrder, bytes: Seq<u8>, n: int) -> bool {
    forall|k: nat| k < n ==> claims(order, #[trigger] behind(order, bytes, k)) > 0
}

/// After `commands`, which came to `answers`, what is left of `bytes` is `rest`.
pub open spec fn leads_to(
    order: ByteOrder,
    bytes: Seq<u8>,
    commands: Seq<CrossDomainCommand<Seq<u8>>>,
    answers: Seq<Result<(), RutabagaError>>,
    rest: Seq<u8>,
) -> bool {
    forall|more: Seq<Result<(), RutabagaError>>| #[trigger]
        submitted(order, bytes, answers + more) == (
            commands + submitted(order, rest, more).0,
            submitted(order, rest, more).1,
        )
}

/// One more command, that came to `answer`.
proof fn lemma_submit_step(
    order: ByteOrder,
    bytes: Seq<u8>,
    commands: Seq<CrossDomainCommand<Seq<u8>>>,
    answers: Seq<Result<(), RutabagaError>>,
    rest: Seq<u8>,
    answer: Result<(), RutabagaError>,
)
    requires
        leads_to(order, bytes, commands, answers, rest),
        rest.len() > 0,
        command_at(order, rest) is Ok,
    ensures
        ({
            let c = command_at(order, rest)->Ok_0;
            let cmd_size = CrossDomainHeader::decoded(order, rest).cmd_size;
            match answer {
                Err(e) => submitted(order, bytes, answers.push(answer)) == (
                    commands.push(c),
                    Submitted::Ended(Err(e)),
                ),
                Ok(_) => if cmd_size > rest.len() {
                    submitted(order, bytes, answers.push(answer)) == (
                        commands.push(c),
                        Submitted::Ended(Err(RutabagaError::InvalidCommandSize(cmd_size as usize))),
                    )
                } else {
                    leads_to(
                        order,
                        bytes,
                        commands.push(c),
                        answers.push(answer),
                        rest.skip(cmd_size as int),
                    )
                },
            }
        }),
{
    let c = command_at(order, rest)->Ok_0;
    let cmd_size = CrossDomainHeader::decoded(order, rest).cmd_size;
    let one = seq![answer];
    assert(answers.push(answer) =~= answers + one);
    assert(commands.push(c) =~= commands + seq![c]);
    assert(submitted(order, bytes, answers + one) == (
        commands + submitted(order, rest, one).0,
        submitted(order, rest, one).1,
    ));
    if answer is Ok && cmd_size <= rest.len() {
        assert forall|more: Seq<Result<(), RutabagaError>>| #[trigger]
            submitted(order, bytes, answers.push(answer) + more) == (
                commands.push(c) + submitted(order, rest.skip(cmd_size as int), more).0,
                submitted(order, rest.skip(cmd_size as int), more).1,
            ) by {
            assert(answers.push(answer) + more =~= answers + (one + more));
            assert((one + more).skip(1) =~= more);
            assert((one + more)[0] == answer);
            assert(commands + (seq![c] + submitted(order, rest.skip(cmd_size as int), more).0)
                =~= commands.push(c) + submitted(order, rest.skip(cmd_size as int), more).0);
        }
    }
}

proof fn lemma_submit_end(
    order: ByteOrder,
    bytes: Seq<u8>,
    commands: Seq<CrossDomainCommand<Seq<u8>>>,
    answers: Seq<Result<(), RutabagaError>>,
    rest: Seq<u8>,
)
    requires
        leads_to(order, bytes, commands, answers, rest),
    ensures
        submitted(order, bytes, answers) == (
            commands + submitted(order, rest, Seq::empty()).0,
            submitted(order, rest, Seq::empty()).1,
        ),
        submitted(order, rest, Seq::empty()).0 == Seq::<CrossDomainCommand<Seq<u8>>>::empty(),
        commands + submitted(order, rest, Seq::empty()).0 == commands,
{
    assert(answers + Seq::empty() =~= answers);
    assert(submitted(order, bytes, answers + Seq::empty()) == (
        commands + submitted(order, rest, Seq::empty()).0,
        submitted(order, rest, Seq::empty()).1,
    ));
}

/// Carries out the commands in a buffer, one after the other, with `handle`. Each call of it gets
/// the state that the one before left, and the first that fails is the last. Returns the state and
/// what is left of the buffer: nothing, or, behind a command of no bytes, that command again.
/// `order` is the byte order of the host.
pub fn submit_cmd<'a, S, F: Fn(S, CrossDomainCommand<&'a [u8]>) -> (
    S,
    Result<(), RutabagaError>,
)>(order: ByteOrder, state: S, commands: &'a [u8], handle: F) -> (r: (
    S,
    Result<&'a [u8], RutabagaError>,
))
    requires
        forall|s: S, c: CrossDomainCommand<&'a [u8]>| #[trigger] handle.requires((s, c)),
    ensures
        exists|steps: Seq<(S, Result<(), RutabagaError>)>| #[trigger]
            submit_run(handle, order, state, commands@, steps, r.0, r.1) && moves_on(
                order,
                commands@,
                steps.len() - 1,
            ),
{
    let ghost mut steps = Seq::<(S, Result<(), RutabagaError>)>::empty();
    let ghost mut done = Seq::<CrossDomainCommand<Seq<u8>>>::empty();
    let mut current = state;
    let mut rest = commands;
    proof {
        assert forall|more: Seq<Result<(), RutabagaError>>| #[trigger]
            submitted(order, commands@, answers_of(steps) + more) == (
                done + submitted(order, rest@, more).0,
                submitted(order, rest@, more).1,
            ) by {
            assert(answers_of(steps) + more =~= more);
            assert(done + submitted(order, rest@, more).0 =~= submitted(order, rest@, more).0);
        }
    }
    while rest.len() > 0
        invariant
            current == state_after(state, steps),
            carried_out(handle, state, done, steps),
            leads_to(order, commands@, done, answers_of(steps), rest@),
            rest@ == behind(order, commands@, steps.len()),
            moves_on(order, commands@, steps.len() as int),
            forall|s: S, c: CrossDomainCommand<&'a [u8]>| #[trigger] handle.requires((s, c)),
        decreases rest.len(),
    {
        match next_command(order, rest) {
            Err(e) => {
                proof {
                    lemma_submit_end(order, commands@, done, answers_of(steps), rest@);
                }
                let r: (S, Result<&'a [u8], RutabagaError>) = (current, Err(e));
                assert(submit_run(handle, order, state, commands@, steps, r.0, r.1));
                return r;
            },
            Ok(None) => {
                assert(false);
                return (current, Ok(rest));
            },
            Ok(Some((command, cmd_size))) => {
                let ghost before = current;
                let ghost c = command@;
                let (next, answer) = handle(current, command);
                proof {
                    assert(handle.ensures((before, command), (next, answer)));
                    assert(handled(handle, before, c, next, answer));
                    lemma_submit_end(order, commands@, done, answers_of(steps), rest@);
                    lemma_submit_step(order, commands@, done, answers_of(steps), rest@, answer);
                    let more = steps.push((next, answer));
                    assert(answers_of(more) =~= answers_of(steps).push(answer));
                    assert(more.drop_last() =~= steps);
                    assert forall|i: int| 0 <= i < more.len() implies handled(
                        handle,
                        if i == 0 {
                            state
                        } else {
                            more[i - 1].0
                        },
                        #[trigger] done.push(c)[i],
                        more[i].0,
                        more[i].1,
                    ) by {
                        if i < steps.len() {
                            assert(done.push(c)[i] == done[i]);
                        }
                    }
                    steps = more;
                    done = done.push(c);
                }
                if let Err(e) = answer {
                    let r: (S, Result<&'a [u8], RutabagaError>) = (next, Err(e));
                    assert(submit_run(handle, order, state, commands@, steps, r.0, r.1));
                    return r;
                }
                match skip_command(rest, cmd_size) {
                    Err(e) => {
                        let r: (S, Result<&'a [u8], RutabagaError>) = (next, Err(e));
                        assert(submit_run(handle, order, state, commands@, steps, r.0, r.1));
                        return r;
                    },
                    Ok(tail) => {
                        if cmd_size == 0 {
                            proof {
                                assert(rest@.skip(0) =~= rest@);
                                lemma_submit_end(order, commands@, done, answers_of(steps), rest@);
                            }
                            let r: (S, Result<&'a [u8], RutabagaError>) = (next, Ok(tail));
                            assert(submit_run(handle, order, state, commands@, steps, r.0, r.1));
                            return r;
                        }
                        rest = tail;
                        current = next;
                    },
                }
            },
        }
    }
    proof {
        lemma_submit_end(order, commands@, done, answers_of(steps), rest@);
    }
    let r: (S, Result<&'a [u8], RutabagaError>) = (current, Ok(rest));
    assert(submit_run(handle, order, state, commands@, steps, r.0, r.1));
    r
}

} // verus!
