//! Which operation of the context each command of the guest is.

use std::sync::Arc;

use magma_gpu::util::Tube;

use vstd::prelude::*;

use crate::atomic_memory_sentinel_manager::WatchedMemory;
use crate::command::CrossDomainCommand;
use crate::context;
use crate::context::image_allocation_info;
use crate::context::ContextModel;
use crate::context::CrossDomainContext;
use crate::context::InitAction;
use crate::context::InternalSockets;
use crate::context::PendingModel;
use crate::context::PendingSend;
use crate::context::WriteAction;
use crate::cross_domain_protocol::CrossDomainCreateAtomicMemorySentinel;
use crate::cross_domain_protocol::CrossDomainImportVirtioFsHandle;
use crate::cross_domain_protocol::CrossDomainInit;
use crate::cross_domain_protocol::CrossDomainReadWrite;
use crate::rutabaga_utils::ImageAllocationInfo;
use crate::rutabaga_utils::RutabagaError;

verus! {

/// The work on the host that is left of a command.
pub enum CommandAction<'a> {
    /// Nothing is left: the command is done.
    Done,
    /// The channel is to be made, unless there is nothing left to do; `connected` is to follow.
    Init(CrossDomainInit, InitAction),
    /// The allocator is to be asked about the image; `get_image_requirements` is to follow.
    GetImageRequirements(ImageAllocationInfo),
    /// The data is to be sent on the channel, with the descriptors; `send_complete` is to follow.
    Send(Arc<Tube>, PendingSend, &'a [u8]),
    /// The data is to be written; `write_done` is to follow.
    Write(CrossDomainReadWrite, WriteAction, &'a [u8]),
    /// The memory is to be mapped and watched; `atomic_memory_sentinel_created` is to follow.
    CreateAtomicMemorySentinel(CrossDomainCreateAtomicMemorySentinel, WatchedMemory),
    /// The memory of the watcher with this identifier is to be signalled.
    SignalAtomicMemorySentinel(u32),
    /// The worker of the watcher with this identifier is to be woken and waited for.
    DestroyAtomicMemorySentinel(u32),
    /// The resample event is to be signalled.
    ReadCreateEvent,
    /// The file is to be looked up by its file system and its handle; `imported_virtiofs_handle` is
    /// to follow.
    ImportVirtioFsHandle(CrossDomainImportVirtioFsHandle, u64, u64),
}

/// A command can be begun: a pipe that it comes to make can be numbered, and an event that it has
/// polled has a worker that polls it.
pub open spec fn can_begin<'a, W>(
    ctx: ContextModel<W>,
    command: CrossDomainCommand<&'a [u8]>,
) -> bool {
    match command {
        CrossDomainCommand::Send(c, _) => context::makes_pipe(ctx, c) ==> ctx.items.read_pipe_id
            < u32::MAX,
        CrossDomainCommand::ReadCreateEvent(c) => context::can_poll_event(ctx, c),
        _ => true,
    }
}

/// What is left of a command where `r` is what the operation of the context came to.
pub open spec fn left_of<'a, T>(
    r: Result<T, RutabagaError>,
    action: spec_fn(T) -> CommandAction<'a>,
) -> Result<CommandAction<'a>, RutabagaError> {
    match r {
        Ok(v) => Ok(action(v)),
        Err(e) => Err(e),
    }
}

/// What is left of a command is to send `data`, and that is `sent`.
pub open spec fn is_left_to_send<'a>(
    r: Result<CommandAction<'a>, RutabagaError>,
    sent: Result<(Arc<Tube>, PendingModel), RutabagaError>,
    data: &'a [u8],
) -> bool {
    match (r, sent) {
        (Ok(CommandAction::Send(connection, pending, d)), Ok(s)) => s == (connection, pending@)
            && d == data,
        (Err(e), Err(f)) => e == f,
        _ => false,
    }
}

/// A command takes the context to `after` and the internal sockets to `sockets_after`, and `r` is
/// what is left of it. Each command is one operation of the context.
pub open spec fn command_begun<'a, W>(
    ctx: ContextModel<W>,
    sockets: Map<u128, Tube>,
    command: CrossDomainCommand<&'a [u8]>,
    after: ContextModel<W>,
    sockets_after: Map<u128, Tube>,
    r: Result<CommandAction<'a>, RutabagaError>,
) -> bool {
    match command {
        CrossDomainCommand::Init(c) => {
            let (initialized, taken, action) = context::initialized(ctx, sockets, c);
            &&& after == initialized
            &&& sockets_after == taken
            &&& r == left_of(action, |a: InitAction| CommandAction::Init(c, a))
        },
        CrossDomainCommand::GetImageRequirements(c) => {
            &&& after == ctx
            &&& sockets_after == sockets
            &&& r == Ok::<CommandAction<'a>, RutabagaError>(
                CommandAction::GetImageRequirements(context::image_asked_about(c)),
            )
        },
        CrossDomainCommand::Send(c, data) => {
            &&& sockets_after == sockets
            &&& exists|supplies: Seq<context::Supply>, sent: Result<_, RutabagaError>|
                #[trigger] context::send_run(ctx, c, supplies, after, sent) && is_left_to_send(
                    r,
                    sent,
                    data,
                )
        },
        CrossDomainCommand::Poll => {
            &&& after == ctx
            &&& sockets_after == sockets
            &&& r == Ok::<CommandAction<'a>, RutabagaError>(CommandAction::Done)
        },
        CrossDomainCommand::Write(c, data) => {
            let (items, action) = context::write_begun(ctx.items, c, data@);
            &&& after == ctx.with_items(items)
            &&& sockets_after == sockets
            &&& r == left_of(action, |a: WriteAction| CommandAction::Write(c, a, data))
        },
        CrossDomainCommand::CreateAtomicMemorySentinel(c) => {
            &&& after == ctx
            &&& sockets_after == sockets
            &&& r == left_of(
                context::watcher_requested(ctx, c),
                |memory: WatchedMemory| CommandAction::CreateAtomicMemorySentinel(c, memory),
            )
        },
        CrossDomainCommand::SignalAtomicMemorySentinel(c) => {
            &&& after == ctx
            &&& sockets_after == sockets
            &&& r == (if ctx.sentinels.watchers.contains_key(c.id) {
                Ok::<CommandAction<'a>, RutabagaError>(
                    CommandAction::SignalAtomicMemorySentinel(c.id),
                )
            } else {
                Err(RutabagaError::InvalidCrossDomainItemId)
            })
        },
        CrossDomainCommand::DestroyAtomicMemorySentinel(c) => {
            let (shut_down, done) = context::watcher_shut_down(ctx, c);
            &&& after == shut_down
            &&& sockets_after == sockets
            &&& r == left_of(done, |_d: ()| CommandAction::DestroyAtomicMemorySentinel(c.id))
        },
        CrossDomainCommand::ReadCreateEvent(c) => {
            let (polled, done) = context::event_polled(ctx, c);
            &&& after == polled
            &&& sockets_after == sockets
            &&& r == left_of(done, |_d: ()| CommandAction::ReadCreateEvent)
        },
        CrossDomainCommand::AssignSocketUuid(c) => {
            &&& after == ctx.with_items(ctx.items.without_item(c.id))
            &&& exists|done: Result<(), RutabagaError>| #[trigger]
                context::socket_put_up(ctx, sockets, c, sockets_after, done) && r == left_of(
                    done,
                    |_d: ()| CommandAction::Done,
                )
        },
        CrossDomainCommand::ImportVirtioFsHandle(c) => {
            &&& after == ctx
            &&& sockets_after == sockets
            &&& r == left_of(
                context::file_requested(ctx, c),
                |file: (u64, u64)| CommandAction::ImportVirtioFsHandle(c, file.0, file.1),
            )
        },
    }
}

impl<W> CrossDomainContext<W> {
    /// Whether a command can be begun.
    pub fn can_begin(&self, command: &CrossDomainCommand<&[u8]>) -> (r: bool)
        ensures
            r == can_begin(self@, *command),
    {
        match command {
            CrossDomainCommand::Send(c, _) => self.item_state.read_pipe_id < u32::MAX
                || !self.makes_pipe(c),
            CrossDomainCommand::ReadCreateEvent(c) => self.can_poll_event(c),
            _ => true,
        }
    }

    /// Begins a command of the guest: does what it does to the context and to the internal sockets,
    /// and returns the work on the host that is left of it.
    pub fn begin_command<'a>(
        &mut self,
        sockets: &mut InternalSockets,
        command: CrossDomainCommand<&'a [u8]>,
    ) -> (r: Result<CommandAction<'a>, RutabagaError>)
        requires
            can_begin(old(self)@, command),
        ensures
            command_begun(
                old(self)@,
                old(sockets)@,
                command,
                final(self)@,
                final(sockets)@,
                r,
            ),
    {
        match command {
            CrossDomainCommand::Init(c) => match self.initialize(&c, sockets) {
                Ok(action) => Ok(CommandAction::Init(c, action)),
                Err(e) => Err(e),
            },
            CrossDomainCommand::GetImageRequirements(c) => Ok(
                CommandAction::GetImageRequirements(image_allocation_info(&c)),
            ),
            CrossDomainCommand::Send(c, data) => {
                let sent = self.send(&c);
                let ghost supplies = choose|supplies: Seq<context::Supply>|
                    #[trigger] context::send_run(
                        old(self)@,
                        c,
                        supplies,
                        self@,
                        context::sent_view(sent),
                    );
                assert(context::send_run(
                    old(self)@,
                    c,
                    supplies,
                    self@,
                    context::sent_view(sent),
                ));
                match sent {
                    Ok((connection, pending)) => Ok(
                        CommandAction::Send(connection, pending, data),
                    ),
                    Err(e) => Err(e),
                }
            },
            CrossDomainCommand::Poll => Ok(CommandAction::Done),
            CrossDomainCommand::Write(c, data) => match self.write(&c, data) {
                Ok(action) => Ok(CommandAction::Write(c, action, data)),
                Err(e) => Err(e),
            },
            CrossDomainCommand::CreateAtomicMemorySentinel(c) => {
                match self.atomic_memory_sentinel_new(&c) {
                    Ok(memory) => Ok(CommandAction::CreateAtomicMemorySentinel(c, memory)),
                    Err(e) => Err(e),
                }
            },
            CrossDomainCommand::SignalAtomicMemorySentinel(c) => {
                match self.atomic_memory_sentinel_signal(&c) {
                    Ok(_) => Ok(CommandAction::SignalAtomicMemorySentinel(c.id)),
                    Err(e) => Err(e),
                }
            },
            CrossDomainCommand::DestroyAtomicMemorySentinel(c) => {
                match self.atomic_memory_sentinel_destroy(&c) {
                    Ok(_) => Ok(CommandAction::DestroyAtomicMemorySentinel(c.id)),
                    Err(e) => Err(e),
                }
            },
            CrossDomainCommand::ReadCreateEvent(c) => match self.read_event_new(&c) {
                Ok(_) => Ok(CommandAction::ReadCreateEvent),
                Err(e) => Err(e),
            },
            CrossDomainCommand::AssignSocketUuid(c) => {
                let done = self.socket_assign_uuid(&c, sockets);
                assert(context::socket_put_up(old(self)@, old(sockets)@, c, sockets@, done));
                match done {
                    Ok(_) => Ok(CommandAction::Done),
                    Err(e) => Err(e),
                }
            },
            CrossDomainCommand::ImportVirtioFsHandle(c) => match self.import_virtiofs_handle(&c) {
                Ok((fs_id, handle)) => Ok(CommandAction::ImportVirtioFsHandle(c, fs_id, handle)),
                Err(e) => Err(e),
            },
        }
    }
}

} // verus!
