use std::sync::Arc;
use std::time::SystemTime;
use std::time::UNIX_EPOCH;

use cross_domain::command::CrossDomainCommand;
use cross_domain::common::add_item;
use cross_domain::common::CrossDomainItem;
use cross_domain::common::CrossDomainItems;
use cross_domain::common::CrossDomainJob;
use cross_domain::common::NextJob;
use cross_domain::component::CrossDomain;
use cross_domain::context::CrossDomainContext;
use cross_domain::context::InitAction;
use cross_domain::context::InternalSockets;
use cross_domain::context::WriteAction;
use cross_domain::cross_domain_protocol::CrossDomainAssignSocketUuid;
use cross_domain::cross_domain_protocol::CrossDomainCreateAtomicMemorySentinel;
use cross_domain::cross_domain_protocol::CrossDomainCreateEvent;
use cross_domain::cross_domain_protocol::CrossDomainDestroyAtomicMemorySentinel;
use cross_domain::cross_domain_protocol::CrossDomainGetImageRequirements;
use cross_domain::cross_domain_protocol::CrossDomainImportVirtioFsHandle;
use cross_domain::cross_domain_protocol::CrossDomainInit;
use cross_domain::cross_domain_protocol::CrossDomainReadWrite;
use cross_domain::cross_domain_protocol::CrossDomainSendReceive;
use cross_domain::cross_domain_protocol::CrossDomainSignalAtomicMemorySentinel;
use cross_domain::cross_domain_protocol::CROSS_DOMAIN_CHANNEL_TYPE_WAYLAND;
use cross_domain::cross_domain_protocol::CROSS_DOMAIN_ID_TYPE_READ_PIPE;
use cross_domain::cross_domain_protocol::CROSS_DOMAIN_ID_TYPE_VIRTGPU_BLOB;
use cross_domain::cross_domain_protocol::CROSS_DOMAIN_ID_TYPE_VIRTIO_FS_BLOB;
use cross_domain::dispatch::CommandAction;
use cross_domain::rutabaga_utils::ImageAllocationInfo;
use cross_domain::rutabaga_utils::RutabagaError;
use cross_domain::rutabaga_utils::RutabagaIovec;
use cross_domain::rutabaga_utils::RutabagaPath;
use cross_domain::rutabaga_utils::RutabagaResource;

use magma_gpu::util::create_pipe;
use magma_gpu::util::AsBorrowedDescriptor;
use magma_gpu::util::Event;
use magma_gpu::util::Listener;
use magma_gpu::util::OwnedDescriptor;
use magma_gpu::util::SharedMemory;
use magma_gpu::util::Tube;
use magma_gpu::util::TubeType;

fn memory(size: u64) -> OwnedDescriptor {
    SharedMemory::new("test", size).unwrap().into()
}

fn tube_pair() -> (Tube, Tube) {
    let now = SystemTime::now().duration_since(UNIX_EPOCH).unwrap().as_nanos();
    let name = format!("/tmp/cross_domain_dispatch_{now}");
    let listener = Listener::bind(name.as_str()).unwrap();
    let near = Tube::new(name.as_str(), TubeType::Packet).unwrap();
    (near, listener.accept().unwrap())
}

fn guest_resource(resource_id: u32) -> RutabagaResource {
    RutabagaResource {
        resource_id,
        handle: None,
        blob: true,
        blob_mem: 1,
        blob_flags: 1,
        map_info: None,
        info_3d: None,
        vulkan_info: None,
        backing_iovecs: Some(vec![RutabagaIovec { base: 0x1000, len: 4096 }]),
        component_mask: 8,
        size: 4096,
    }
}

fn new_context() -> CrossDomainContext<u32> {
    let path = RutabagaPath { path: b"/wayland-0".to_vec(), path_type: 1 };
    let mut ctx = CrossDomain::init(Some(vec![path]), true).create_context();
    ctx.attach(&mut guest_resource(5));
    ctx.attach(&mut guest_resource(6));
    ctx
}

fn init_command() -> CrossDomainInit {
    CrossDomainInit {
        query_ring_id: 5,
        channel_ring_id: 6,
        channel_type: CROSS_DOMAIN_CHANNEL_TYPE_WAYLAND,
        ..CrossDomainInit::default()
    }
}

/// A context with a channel, and the other end of the channel.
fn connected_context() -> (CrossDomainContext<u32>, Tube) {
    let mut ctx = new_context();
    let (near, far) = tube_pair();
    ctx.connected(
        &init_command(),
        Arc::new(near),
        Event::new().unwrap(),
        Event::new().unwrap(),
    );
    (ctx, far)
}

fn next_job(ctx: &mut CrossDomainContext<u32>) -> NextJob {
    ctx.states.last_mut().unwrap().wait_for_job()
}

fn begin<'a>(
    ctx: &mut CrossDomainContext<u32>,
    command: CrossDomainCommand<&'a [u8]>,
) -> Result<CommandAction<'a>, RutabagaError> {
    let mut sockets = InternalSockets::new();
    assert!(ctx.can_begin(&command));
    ctx.begin_command(&mut sockets, command)
}

fn send_command(ids: &[(u32, u32)]) -> CrossDomainSendReceive {
    let mut cmd = CrossDomainSendReceive::default();
    cmd.num_identifiers = ids.len() as u32;
    for (i, (id, id_type)) in ids.iter().enumerate() {
        cmd.identifiers[i] = *id;
        cmd.identifier_types[i] = *id_type;
    }
    cmd
}

#[test]
fn init_finds_a_channel() {
    let mut ctx = new_context();
    match begin(&mut ctx, CrossDomainCommand::Init(init_command())) {
        Ok(CommandAction::Init(cmd, InitAction::Connect(path))) => {
            assert_eq!(cmd, init_command());
            assert_eq!(path, b"/wayland-0".to_vec());
        }
        _ => panic!("no path to connect to"),
    }
    assert!(matches!(
        begin(&mut ctx, CrossDomainCommand::Init(init_command())),
        Err(RutabagaError::InvalidCrossDomainChannel)
    ));
}

#[test]
fn query_asks_about_an_image() {
    let mut ctx = new_context();
    let cmd = CrossDomainGetImageRequirements {
        width: 640,
        height: 480,
        drm_format: 0x34325258,
        flags: 2,
        ..CrossDomainGetImageRequirements::default()
    };
    assert!(matches!(
        begin(&mut ctx, CrossDomainCommand::GetImageRequirements(cmd)),
        Ok(CommandAction::GetImageRequirements(ImageAllocationInfo {
            width: 640,
            height: 480,
            drm_format: 0x34325258,
            flags: 2,
        }))
    ));
}

#[test]
fn message_is_sent_with_its_data() {
    let (mut ctx, far) = connected_context();
    let cmd = send_command(&[(0x8000_0001, CROSS_DOMAIN_ID_TYPE_READ_PIPE)]);
    match begin(&mut ctx, CrossDomainCommand::Send(cmd, &[4, 5, 6])) {
        Ok(CommandAction::Send(connection, pending, data)) => {
            assert_eq!(data, &[4, 5, 6]);
            connection.send(data, &pending.descriptors).unwrap();
            assert!(ctx.send_complete(&pending));
        }
        _ => panic!("nothing to send"),
    }
    let mut buffer = [0u8; 8];
    let (len, files) = far.receive(&mut buffer).unwrap();
    assert_eq!((len, files.len()), (3, 1));
    assert_eq!(&buffer[..3], &[4, 5, 6]);
    assert!(matches!(
        next_job(&mut ctx),
        NextJob::Job(CrossDomainJob::AddReadPipe(0x8000_0001))
    ));
    let missing = send_command(&[(99, CROSS_DOMAIN_ID_TYPE_VIRTGPU_BLOB)]);
    assert!(matches!(
        begin(&mut ctx, CrossDomainCommand::Send(missing, &[])),
        Err(RutabagaError::InvalidResourceId)
    ));
}

#[test]
fn poll_does_nothing() {
    let (mut ctx, _far) = connected_context();
    assert!(matches!(begin(&mut ctx, CrossDomainCommand::Poll), Ok(CommandAction::Done)));
    assert!(matches!(next_job(&mut ctx), NextJob::Wait));
    assert!(ctx.item_state.table.is_empty());
}

#[test]
fn data_is_written_to_its_item() {
    let mut ctx = new_context();
    let (_read_pipe, write_pipe) = create_pipe().unwrap();
    let id = add_item(&mut ctx.item_state, CrossDomainItem::WaylandWritePipe(write_pipe));
    let cmd = CrossDomainReadWrite {
        identifier: id,
        opaque_data_size: 2,
        ..CrossDomainReadWrite::default()
    };
    match begin(&mut ctx, CrossDomainCommand::Write(cmd, &[1, 2])) {
        Ok(CommandAction::Write(begun, action, data)) => {
            assert_eq!(begun, cmd);
            assert_eq!(data, &[1, 2]);
            assert!(matches!(action, WriteAction::Pipe(_, true)));
            ctx.write_done(&begun, action);
        }
        _ => panic!("nothing to write"),
    }
    assert!(ctx.item_state.table.contains_key(&id));
    let missing = CrossDomainReadWrite { identifier: 99, ..cmd };
    assert!(matches!(
        begin(&mut ctx, CrossDomainCommand::Write(missing, &[1, 2])),
        Err(RutabagaError::InvalidCrossDomainItemId)
    ));
}

#[test]
fn sentinel_commands_name_their_watcher() {
    let (mut ctx, _far) = connected_context();
    let id = 0x4000_0001;
    let create = CrossDomainCreateAtomicMemorySentinel {
        fs_id: 3,
        handle: 4,
        id,
        ..CrossDomainCreateAtomicMemorySentinel::default()
    };
    let signal = CrossDomainSignalAtomicMemorySentinel { id, ..Default::default() };
    let destroy = CrossDomainDestroyAtomicMemorySentinel { id, ..Default::default() };
    assert!(matches!(
        begin(&mut ctx, CrossDomainCommand::SignalAtomicMemorySentinel(signal)),
        Err(RutabagaError::InvalidCrossDomainItemId)
    ));
    assert!(matches!(
        begin(&mut ctx, CrossDomainCommand::DestroyAtomicMemorySentinel(destroy)),
        Err(RutabagaError::InvalidCrossDomainItemId)
    ));
    match begin(&mut ctx, CrossDomainCommand::CreateAtomicMemorySentinel(create)) {
        Ok(CommandAction::CreateAtomicMemorySentinel(cmd, watched)) => {
            assert_eq!(cmd, create);
            assert_eq!((watched.fs_id, watched.handle, watched.size), (3, 4, 4));
        }
        _ => panic!("nothing to watch"),
    }
    let evt = Event::new().unwrap();
    let polled = evt.try_clone().unwrap();
    ctx.atomic_memory_sentinel_created(&create, 55, evt, polled).unwrap();
    assert!(matches!(
        begin(&mut ctx, CrossDomainCommand::CreateAtomicMemorySentinel(create)),
        Err(RutabagaError::AlreadyInUse)
    ));
    assert!(matches!(
        begin(&mut ctx, CrossDomainCommand::SignalAtomicMemorySentinel(signal)),
        Ok(CommandAction::SignalAtomicMemorySentinel(0x4000_0001))
    ));
    assert!(!ctx.sentinel_manager.is_shutdown(id));
    assert!(matches!(
        begin(&mut ctx, CrossDomainCommand::DestroyAtomicMemorySentinel(destroy)),
        Ok(CommandAction::DestroyAtomicMemorySentinel(0x4000_0001))
    ));
    assert!(ctx.sentinel_manager.is_shutdown(id));
}

#[test]
fn event_is_handed_to_the_worker() {
    let (mut ctx, _far) = connected_context();
    let id = add_item(&mut ctx.item_state, CrossDomainItem::Event(Event::new().unwrap()));
    let cmd = CrossDomainCreateEvent { id, ..CrossDomainCreateEvent::default() };
    assert!(matches!(
        begin(&mut ctx, CrossDomainCommand::ReadCreateEvent(cmd)),
        Ok(CommandAction::ReadCreateEvent)
    ));
    assert!(matches!(
        next_job(&mut ctx),
        NextJob::Job(CrossDomainJob::AddReadEvent(job_id)) if job_id == id
    ));
    let missing = CrossDomainCreateEvent { id: 99, ..cmd };
    assert!(matches!(
        begin(&mut ctx, CrossDomainCommand::ReadCreateEvent(missing)),
        Err(RutabagaError::InvalidCrossDomainItemId)
    ));

    // Without a worker there is nothing that could poll it.
    let mut ctx = new_context();
    let id = add_item(&mut ctx.item_state, CrossDomainItem::Event(Event::new().unwrap()));
    let cmd = CrossDomainCreateEvent { id, ..CrossDomainCreateEvent::default() };
    assert!(!ctx.can_begin(&CrossDomainCommand::ReadCreateEvent(cmd)));
    let missing = CrossDomainCreateEvent { id: 99, ..cmd };
    assert!(ctx.can_begin(&CrossDomainCommand::ReadCreateEvent(missing)));
}

#[test]
fn socket_is_put_up_for_others() {
    let mut ctx = new_context();
    let mut sockets = InternalSockets::new();
    let (near, _far) = tube_pair();
    let socket = near.as_borrowed_descriptor().try_clone().unwrap();
    let id = add_item(&mut ctx.item_state, CrossDomainItem::Socket(socket));
    let mut socket_uuid = [0u8; 16];
    socket_uuid[1] = 0x12;
    let cmd = CrossDomainAssignSocketUuid {
        id,
        socket_uuid,
        ..CrossDomainAssignSocketUuid::default()
    };
    assert!(matches!(
        ctx.begin_command(&mut sockets, CrossDomainCommand::AssignSocketUuid(cmd)),
        Ok(CommandAction::Done)
    ));
    assert!(sockets.table.contains_key(&0x1200));
    assert!(ctx.item_state.table.is_empty());
    assert!(matches!(
        ctx.begin_command(&mut sockets, CrossDomainCommand::AssignSocketUuid(cmd)),
        Err(RutabagaError::InvalidCrossDomainItemId)
    ));
}

#[test]
fn file_is_looked_up_by_its_handle() {
    let mut ctx = new_context();
    let cmd = CrossDomainImportVirtioFsHandle {
        fs_id: 3,
        handle: 4,
        id: 77,
        ..CrossDomainImportVirtioFsHandle::default()
    };
    match begin(&mut ctx, CrossDomainCommand::ImportVirtioFsHandle(cmd)) {
        Ok(CommandAction::ImportVirtioFsHandle(begun, 3, 4)) => {
            assert_eq!(begun, cmd);
            ctx.imported_virtiofs_handle(&begun, memory(4096));
        }
        _ => panic!("no file to look up"),
    }
    assert!(matches!(
        begin(&mut ctx, CrossDomainCommand::ImportVirtioFsHandle(cmd)),
        Err(RutabagaError::InvalidCrossDomainItemId)
    ));
}

#[test]
fn used_up_pipes_stop_only_what_makes_one() {
    let (mut ctx, _far) = connected_context();
    ctx.item_state.read_pipe_id = u32::MAX;
    ctx.item_state.table.insert(77, CrossDomainItem::RegularFile(memory(4096)));
    let pipe = (0x8000_0001, CROSS_DOMAIN_ID_TYPE_READ_PIPE);
    let file = (77, CROSS_DOMAIN_ID_TYPE_VIRTIO_FS_BLOB);
    let missing = (99, CROSS_DOMAIN_ID_TYPE_VIRTGPU_BLOB);
    assert!(ctx.makes_pipe(&send_command(&[pipe])));
    assert!(ctx.makes_pipe(&send_command(&[file, pipe])));
    assert!(!ctx.can_begin(&CrossDomainCommand::Send(send_command(&[file, pipe]), &[])));
    // A command that fails before its pipe is refused as ever.
    for ids in [&[missing, pipe][..], &[file, file, pipe][..]] {
        let cmd = send_command(ids);
        assert!(!ctx.makes_pipe(&cmd));
    }
    let cmd = send_command(&[missing, pipe]);
    assert!(matches!(
        begin(&mut ctx, CrossDomainCommand::Send(cmd, &[])),
        Err(RutabagaError::InvalidResourceId)
    ));
    let cmd = send_command(&[file, file, pipe]);
    assert!(matches!(
        begin(&mut ctx, CrossDomainCommand::Send(cmd, &[])),
        Err(RutabagaError::InvalidCrossDomainItemId)
    ));
    let mut too_many = send_command(&[pipe]);
    too_many.num_identifiers = 29;
    assert!(!ctx.makes_pipe(&too_many));
    assert!(begin(&mut ctx, CrossDomainCommand::Send(too_many, &[])).is_err());
}

#[test]
fn no_identifier_is_given_twice() {
    let mut items = CrossDomainItems::default();
    let mut given: Vec<u32> = Vec::new();
    for turn in 0..6 {
        let (read_pipe, write_pipe) = create_pipe().unwrap();
        let pipe_id = add_item(&mut items, CrossDomainItem::WaylandReadPipe(read_pipe));
        let other_id = add_item(&mut items, CrossDomainItem::WaylandWritePipe(write_pipe));
        assert!(!given.contains(&pipe_id) && !given.contains(&other_id));
        given.push(pipe_id);
        given.push(other_id);
        // An identifier that is free again is not given again.
        if turn % 2 == 0 {
            items.table.remove(&pipe_id);
            items.table.remove(&other_id);
        }
    }
    given.sort();
    assert_eq!(&given[..6], &[2, 3, 4, 5, 6, 7]);
    assert_eq!(given[6], 0x8000_0001);
    assert_eq!(given[11], 0x8000_0006);
}
