use std::sync::Arc;
use std::time::SystemTime;
use std::time::UNIX_EPOCH;

use cross_domain::common::add_item;
use cross_domain::common::CrossDomainItem;
use cross_domain::common::CrossDomainItems;
use cross_domain::common::CrossDomainJob;
use cross_domain::common::CrossDomainState;
use cross_domain::common::NextJob;
use cross_domain::component::CrossDomain;
use cross_domain::context::image_allocation_info;
use cross_domain::context::image_resource;
use cross_domain::context::BlobAction;
use cross_domain::context::CrossDomainContext;
use cross_domain::context::FenceAction;
use cross_domain::context::InitAction;
use cross_domain::context::InternalSockets;
use cross_domain::context::WriteAction;
use cross_domain::cross_domain_protocol::CrossDomainAssignSocketUuid;
use cross_domain::cross_domain_protocol::CrossDomainCreateAtomicMemorySentinel;
use cross_domain::cross_domain_protocol::CrossDomainCreateEvent;
use cross_domain::cross_domain_protocol::CrossDomainDestroyAtomicMemorySentinel;
use cross_domain::cross_domain_protocol::CrossDomainGetImageRequirements;
use cross_domain::cross_domain_protocol::CrossDomainImportVirtioFsHandle;
use cross_domain::cross_domain_protocol::CrossDomainInit;
use cross_domain::cross_domain_protocol::CrossDomainReadWrite;
use cross_domain::cross_domain_protocol::CrossDomainSendReceive;
use cross_domain::cross_domain_protocol::CrossDomainSignalAtomicMemorySentinel;
use cross_domain::cross_domain_protocol::CROSS_DOMAIN_CHANNEL_TYPE_CAMERA;
use cross_domain::cross_domain_protocol::CROSS_DOMAIN_CHANNEL_TYPE_INTERNAL_SOCKET;
use cross_domain::cross_domain_protocol::CROSS_DOMAIN_CHANNEL_TYPE_WAYLAND;
use cross_domain::cross_domain_protocol::CROSS_DOMAIN_ID_TYPE_READ_PIPE;
use cross_domain::cross_domain_protocol::CROSS_DOMAIN_ID_TYPE_SOCKET;
use cross_domain::cross_domain_protocol::CROSS_DOMAIN_ID_TYPE_VIRTGPU_BLOB;
use cross_domain::cross_domain_protocol::CROSS_DOMAIN_ID_TYPE_VIRTIO_FS_BLOB;
use cross_domain::cross_domain_protocol::CROSS_DOMAIN_PIPE_READ_START;
use cross_domain::handle::AhbInfo;
use cross_domain::handle::MagmaGpuHandle;
use cross_domain::handle::RutabagaHandle;
use cross_domain::rutabaga_utils::DeviceId;
use cross_domain::rutabaga_utils::ImageAllocationInfo;
use cross_domain::rutabaga_utils::ImageMemoryRequirements;
use cross_domain::rutabaga_utils::MesaError;
use cross_domain::rutabaga_utils::Resource3DInfo;
use cross_domain::rutabaga_utils::ResourceCreateBlob;
use cross_domain::rutabaga_utils::RutabagaComponentType;
use cross_domain::rutabaga_utils::RutabagaError;
use cross_domain::rutabaga_utils::RutabagaFence;
use cross_domain::rutabaga_utils::RutabagaIovec;
use cross_domain::rutabaga_utils::RutabagaPath;
use cross_domain::rutabaga_utils::RutabagaResource;
use cross_domain::rutabaga_utils::VulkanInfo;

use magma_gpu::util::create_pipe;
use magma_gpu::util::AsBorrowedDescriptor;
use magma_gpu::util::AsRawDescriptor;
use magma_gpu::util::Event;
use magma_gpu::util::Listener;
use magma_gpu::util::OwnedDescriptor;
use magma_gpu::util::SharedMemory;
use magma_gpu::util::Tube;
use magma_gpu::util::TubeType;
use magma_gpu::util::MAGMA_GPU_HANDLE_TYPE_MEM_SHM;

fn memory(size: u64) -> OwnedDescriptor {
    SharedMemory::new("test", size).unwrap().into()
}

fn memory_handle(size: u64) -> MagmaGpuHandle {
    MagmaGpuHandle { os_handle: memory(size), handle_type: MAGMA_GPU_HANDLE_TYPE_MEM_SHM }
}

fn tube_pair() -> (Tube, Tube) {
    let now = SystemTime::now().duration_since(UNIX_EPOCH).unwrap().as_nanos();
    let name = format!("/tmp/cross_domain_context_{now}");
    let listener = Listener::bind(name.as_str()).unwrap();
    let near = Tube::new(name.as_str(), TubeType::Packet).unwrap();
    (near, listener.accept().unwrap())
}

fn socket_pair() -> (OwnedDescriptor, Tube) {
    let (near, far) = tube_pair();
    (near.as_borrowed_descriptor().try_clone().unwrap(), far)
}

fn path(name: &str, path_type: u32) -> RutabagaPath {
    RutabagaPath { path: name.as_bytes().to_vec(), path_type }
}

fn new_context() -> CrossDomainContext<u32> {
    CrossDomain::init(
        Some(vec![
            path("/camera", CROSS_DOMAIN_CHANNEL_TYPE_CAMERA),
            path("/wayland-0", CROSS_DOMAIN_CHANNEL_TYPE_WAYLAND),
            path("/wayland-1", CROSS_DOMAIN_CHANNEL_TYPE_WAYLAND),
        ]),
        true,
    )
    .create_context()
}

fn guest_resource(resource_id: u32) -> RutabagaResource {
    RutabagaResource {
        resource_id,
        handle: None,
        blob: true,
        blob_mem: 1,
        blob_flags: 1,
        map_info: None,
        info_3d: None,
        vulkan_info: None,
        backing_iovecs: Some(vec![RutabagaIovec { base: 0x1000, len: 4096 }]),
        component_mask: 8,
        size: 4096,
    }
}

fn host_resource(resource_id: u32, handle: Option<RutabagaHandle>) -> RutabagaResource {
    RutabagaResource {
        blob_mem: 2,
        backing_iovecs: None,
        handle: handle.map(Arc::new),
        ..guest_resource(resource_id)
    }
}

fn init_command(channel_type: u32) -> CrossDomainInit {
    CrossDomainInit {
        query_ring_id: 5,
        channel_ring_id: 6,
        channel_type,
        ..CrossDomainInit::default()
    }
}

/// A context with its rings and a channel, and the other end of the channel.
fn connected_context() -> (CrossDomainContext<u32>, Tube) {
    let mut ctx = new_context();
    ctx.attach(&mut guest_resource(5));
    ctx.attach(&mut guest_resource(6));
    let cmd_init = init_command(CROSS_DOMAIN_CHANNEL_TYPE_WAYLAND);
    let mut sockets = InternalSockets::new();
    assert!(matches!(ctx.initialize(&cmd_init, &mut sockets), Ok(InitAction::Connect(_))));
    let (near, far) = tube_pair();
    ctx.connected(&cmd_init, Arc::new(near), Event::new().unwrap(), Event::new().unwrap());
    (ctx, far)
}

fn next_job(ctx: &mut CrossDomainContext<u32>) -> NextJob {
    ctx.states.last_mut().unwrap().wait_for_job()
}

fn send_command(ids: &[(u32, u32)]) -> CrossDomainSendReceive {
    let mut cmd = CrossDomainSendReceive::default();
    cmd.num_identifiers = ids.len() as u32;
    for (i, (id, id_type)) in ids.iter().enumerate() {
        cmd.identifiers[i] = *id;
        cmd.identifier_types[i] = *id_type;
    }
    cmd
}

fn image_reqs(vulkan_info: Option<VulkanInfo>) -> ImageMemoryRequirements {
    ImageMemoryRequirements {
        info: ImageAllocationInfo { width: 640, height: 480, drm_format: 0x34325258, flags: 2 },
        map_info: 0x03,
        strides: [2560, 0, 0, 0],
        offsets: [1, 2, 3, 4],
        modifier: 77,
        size: 1228800,
        vulkan_info,
    }
}

// ---- items and jobs ----

#[test]
fn items_are_numbered_by_kind() {
    let mut items = CrossDomainItems::default();
    assert_eq!(items.descriptor_id, 1);
    assert_eq!(items.read_pipe_id, CROSS_DOMAIN_PIPE_READ_START);
    assert_eq!(add_item(&mut items, CrossDomainItem::ImageRequirements(image_reqs(None))), 2);
    let (read_pipe, write_pipe) = create_pipe().unwrap();
    assert_eq!(add_item(&mut items, CrossDomainItem::WaylandReadPipe(read_pipe)), 0x8000_0001);
    assert_eq!(add_item(&mut items, CrossDomainItem::WaylandWritePipe(write_pipe)), 3);
    let (read_pipe, _) = create_pipe().unwrap();
    assert_eq!(add_item(&mut items, CrossDomainItem::WaylandReadPipe(read_pipe)), 0x8000_0002);
    let keys: Vec<u32> = items.table.keys().copied().collect();
    assert_eq!(keys, vec![2, 3, 0x8000_0001, 0x8000_0002]);
    assert!(matches!(items.table.get(&3), Some(CrossDomainItem::WaylandWritePipe(_))));

    items.read_pipe_id = 7;
    let (read_pipe, _) = create_pipe().unwrap();
    assert_eq!(add_item(&mut items, CrossDomainItem::WaylandReadPipe(read_pipe)), 0x8000_0000);
}

#[test]
fn jobs_come_in_their_order() {
    let mut state = CrossDomainState::new(1, 2, None);
    assert!(matches!(state.wait_for_job(), NextJob::Wait));
    assert!(state.add_job(CrossDomainJob::AddReadPipe(7)));
    assert!(state.add_job(CrossDomainJob::AddReadEvent(8)));
    assert!(matches!(state.wait_for_job(), NextJob::Job(CrossDomainJob::AddReadPipe(7))));
    assert!(state.add_job(CrossDomainJob::Finish));
    assert!(matches!(state.wait_for_job(), NextJob::Job(CrossDomainJob::AddReadEvent(8))));
    assert!(matches!(state.wait_for_job(), NextJob::Job(CrossDomainJob::Finish)));
    assert!(matches!(state.wait_for_job(), NextJob::Wait));
    state.jobs = None;
    assert!(!state.add_job(CrossDomainJob::Finish));
    assert!(matches!(state.wait_for_job(), NextJob::Closed));
    assert!(matches!(state.send_msg(), Err(RutabagaError::InvalidCrossDomainChannel)));
    assert!(matches!(state.receive_msg(), Err(RutabagaError::InvalidCrossDomainChannel)));
}

// ---- init ----

#[test]
fn init_needs_its_rings() {
    let mut ctx = new_context();
    let mut sockets = InternalSockets::new();
    let cmd_init = init_command(CROSS_DOMAIN_CHANNEL_TYPE_WAYLAND);
    assert!(matches!(
        ctx.initialize(&cmd_init, &mut sockets),
        Err(RutabagaError::InvalidResourceId)
    ));
    ctx.attach(&mut guest_resource(5));
    assert!(matches!(
        ctx.initialize(&cmd_init, &mut sockets),
        Err(RutabagaError::InvalidResourceId)
    ));
    assert!(ctx.paths.is_some());
    assert!(matches!(ctx.initialize(&init_command(0), &mut sockets), Ok(InitAction::Ready)));
    let state = ctx.state().unwrap();
    assert_eq!((state.query_ring_id, state.channel_ring_id), (5, 6));
    assert!(state.connection.is_none());
    assert!(matches!(ctx.send(&send_command(&[])), Err(RutabagaError::InvalidCrossDomainState)));
}

#[test]
fn paths_serve_one_connection() {
    let mut ctx = new_context();
    let mut sockets = InternalSockets::new();
    ctx.attach(&mut guest_resource(5));
    ctx.attach(&mut guest_resource(6));
    let cmd_init = init_command(CROSS_DOMAIN_CHANNEL_TYPE_WAYLAND);
    match ctx.initialize(&cmd_init, &mut sockets) {
        Ok(InitAction::Connect(path)) => assert_eq!(path, b"/wayland-0".to_vec()),
        _ => panic!("no path to connect to"),
    }
    assert!(matches!(
        ctx.initialize(&cmd_init, &mut sockets),
        Err(RutabagaError::InvalidCrossDomainChannel)
    ));
}

#[test]
fn init_does_not_look_at_its_header() {
    let mut cmd_init = init_command(CROSS_DOMAIN_CHANNEL_TYPE_CAMERA);
    for cmd_size in [0u16, 16, 20, 36] {
        cmd_init.hdr.cmd_size = cmd_size;
        let mut ctx = new_context();
        ctx.attach(&mut guest_resource(5));
        ctx.attach(&mut guest_resource(6));
        let mut sockets = InternalSockets::new();
        assert!(matches!(
            ctx.initialize(&cmd_init, &mut sockets),
            Ok(InitAction::Connect(path)) if path == b"/camera".to_vec()
        ));
    }
}

#[test]
fn unknown_channel_uses_the_paths_up() {
    let mut ctx = new_context();
    let mut sockets = InternalSockets::new();
    ctx.attach(&mut guest_resource(5));
    ctx.attach(&mut guest_resource(6));
    assert!(matches!(
        ctx.initialize(&init_command(0x11), &mut sockets),
        Err(RutabagaError::InvalidCrossDomainChannel)
    ));
    assert!(ctx.paths.is_none());
}

#[test]
fn internal_socket_is_assigned_and_taken_once() {
    let (mut ctx, _far) = connected_context();
    let mut sockets = InternalSockets::new();
    let (near, far) = socket_pair();
    let id = add_item(&mut ctx.item_state, CrossDomainItem::Socket(near));
    let mut uuid = [0u8; 16];
    uuid[0] = 0x34;
    uuid[1] = 0x12;
    let assign = CrossDomainAssignSocketUuid {
        id,
        socket_uuid: uuid,
        ..CrossDomainAssignSocketUuid::default()
    };
    assert!(ctx.socket_assign_uuid(&assign, &mut sockets).is_ok());
    assert!(sockets.table.contains_key(&0x1234));
    assert!(matches!(
        ctx.socket_assign_uuid(&assign, &mut sockets),
        Err(RutabagaError::InvalidCrossDomainItemId)
    ));

    let mut other = new_context();
    other.attach(&mut guest_resource(5));
    other.attach(&mut guest_resource(6));
    let mut cmd_init = init_command(CROSS_DOMAIN_CHANNEL_TYPE_INTERNAL_SOCKET);
    assert!(matches!(
        other.initialize(&cmd_init, &mut sockets),
        Err(RutabagaError::InvalidCrossDomainInternalSocketUuid)
    ));
    cmd_init.internal_socket_uuid = uuid;
    match other.initialize(&cmd_init, &mut sockets) {
        Ok(InitAction::Attach(tube)) => {
            tube.send(&[1, 2, 3], &[]).unwrap();
            let mut buffer = [0u8; 8];
            assert_eq!(far.receive(&mut buffer).unwrap().0, 3);
        }
        _ => panic!("no socket to attach"),
    }
    assert!(other.paths.is_some());
    assert!(matches!(
        other.initialize(&cmd_init, &mut sockets),
        Err(RutabagaError::InvalidCrossDomainInternalSocketUuid)
    ));
}

#[test]
fn only_sockets_can_be_assigned() {
    let mut ctx = new_context();
    let mut sockets = InternalSockets::new();
    let id = add_item(&mut ctx.item_state, CrossDomainItem::Blob(memory_handle(4096)));
    let assign = CrossDomainAssignSocketUuid { id, ..CrossDomainAssignSocketUuid::default() };
    assert!(matches!(
        ctx.socket_assign_uuid(&assign, &mut sockets),
        Err(RutabagaError::InvalidCrossDomainItemType)
    ));
    assert!(!ctx.item_state.table.contains_key(&id));

    let id = add_item(&mut ctx.item_state, CrossDomainItem::Socket(memory(4096)));
    let assign = CrossDomainAssignSocketUuid { id, ..CrossDomainAssignSocketUuid::default() };
    assert!(matches!(
        ctx.socket_assign_uuid(&assign, &mut sockets),
        Err(RutabagaError::MesaError(MesaError::Util(_)))
    ));
    assert!(sockets.table.is_empty());
    assert!(!ctx.item_state.table.contains_key(&id));
}

// ---- images ----

#[test]
fn image_query_is_answered_and_kept() {
    let cmd = CrossDomainGetImageRequirements {
        width: 640,
        height: 480,
        drm_format: 0x34325258,
        flags: 2,
        ..CrossDomainGetImageRequirements::default()
    };
    assert_eq!(image_allocation_info(&cmd), image_reqs(None).info);

    let (mut ctx, _far) = connected_context();
    let vulkan_info = VulkanInfo {
        memory_idx: 9,
        device_id: DeviceId { device_uuid: [1; 16], driver_uuid: [2; 16] },
    };
    let reqs = image_reqs(Some(vulkan_info));
    let (ring_id, response) = ctx.get_image_requirements(reqs).unwrap();
    assert_eq!(ring_id, 5);
    assert_eq!(response.blob_id, 2);
    assert_eq!(response.memory_idx, 9);
    assert_eq!(response.physical_device_idx, -1);
    assert_eq!(response.strides, reqs.strides);
    assert_eq!(response.offsets, reqs.offsets);
    assert_eq!((response.modifier, response.size, response.map_info), (77, 1228800, 0x03));
    assert_eq!(ctx.get_image_requirements(image_reqs(None)).unwrap().1.memory_idx, -1);

    let create = ResourceCreateBlob { blob_mem: 2, blob_flags: 3, blob_id: 2, size: 1228800 };
    for _ in 0..2 {
        match ctx.context_create_blob(40, &create, None) {
            Ok(BlobAction::Allocate(found)) => {
                assert_eq!(found, reqs);
                let resource = image_resource(40, &create, &found, memory_handle(4096).into());
                assert_eq!(resource.map_info, Some(0x33));
                assert_eq!(
                    resource.info_3d,
                    Some(Resource3DInfo {
                        width: 640,
                        height: 480,
                        drm_fourcc: 0x34325258,
                        strides: reqs.strides,
                        offsets: reqs.offsets,
                        modifier: 77,
                    })
                );
                assert_eq!(resource.vulkan_info, Some(vulkan_info));
                assert_eq!((resource.blob_mem, resource.blob_flags), (2, 3));
                assert_eq!((resource.resource_id, resource.size), (40, 1228800));
                assert_eq!(resource.component_mask, 0x08);
            }
            _ => panic!("no memory to allocate"),
        }
    }
    assert!(matches!(
        ctx.context_create_blob(40, &create, Some(memory_handle(4096).into())),
        Ok(BlobAction::Created(resource)) if resource.handle.is_some()
    ));
    let wrong = ResourceCreateBlob { size: 1, ..create };
    assert!(matches!(
        ctx.context_create_blob(40, &wrong, None),
        Err(RutabagaError::MesaError(MesaError::WithContext("blob size mismatch")))
    ));
    assert!(ctx.item_state.table.contains_key(&2));
}

#[test]
fn image_query_needs_an_initialised_context() {
    let mut ctx = new_context();
    assert!(matches!(
        ctx.get_image_requirements(image_reqs(None)),
        Err(RutabagaError::InvalidCrossDomainState)
    ));
    assert!(ctx.item_state.table.is_empty());
}

#[test]
fn received_memory_is_imported_once() {
    let mut ctx = new_context();
    let id = add_item(&mut ctx.item_state, CrossDomainItem::Blob(memory_handle(8192)));
    // Only the low half of the blob identifier counts.
    let create = ResourceCreateBlob {
        blob_mem: 2,
        blob_flags: 1,
        blob_id: 0x7_0000_0000 + id as u64,
        size: 8192,
    };
    match ctx.context_create_blob(41, &create, None) {
        Ok(BlobAction::Created(resource)) => {
            assert_eq!(resource.map_info, Some(0x31));
            assert_eq!(resource.resource_id, 41);
            assert_eq!(resource.size, 8192);
            assert!(resource.info_3d.is_none());
            let handle = resource.handle.unwrap();
            assert_eq!(
                handle.as_mesa_handle().unwrap().handle_type,
                MAGMA_GPU_HANDLE_TYPE_MEM_SHM
            );
        }
        _ => panic!("no resource"),
    }
    assert!(matches!(
        ctx.context_create_blob(41, &create, None),
        Err(RutabagaError::InvalidCrossDomainItemId)
    ));
}

#[test]
fn blob_of_another_item_uses_it_up() {
    let mut ctx = new_context();
    let id = add_item(&mut ctx.item_state, CrossDomainItem::Event(Event::new().unwrap()));
    let create = ResourceCreateBlob { blob_mem: 2, blob_flags: 1, blob_id: id as u64, size: 1 };
    assert!(matches!(
        ctx.context_create_blob(41, &create, None),
        Err(RutabagaError::InvalidCrossDomainItemType)
    ));
    assert!(ctx.item_state.table.is_empty());
}

// ---- send ----

#[test]
fn send_carries_each_kind_of_descriptor() {
    let (mut ctx, far) = connected_context();
    ctx.attach(&mut host_resource(30, Some(memory_handle(4096).into())));
    ctx.imported_virtiofs_handle(
        &CrossDomainImportVirtioFsHandle { id: 77, ..CrossDomainImportVirtioFsHandle::default() },
        memory(8192),
    );
    let cmd = send_command(&[
        (30, CROSS_DOMAIN_ID_TYPE_VIRTGPU_BLOB),
        (0x8000_0001, CROSS_DOMAIN_ID_TYPE_READ_PIPE),
        (77, CROSS_DOMAIN_ID_TYPE_VIRTIO_FS_BLOB),
    ]);
    let (tube, pending) = ctx.send(&cmd).unwrap();
    assert_eq!(pending.descriptors.len(), 3);
    assert_eq!(pending.read_pipe_id, Some(0x8000_0001));
    // Each descriptor is one of its own.
    let write_pipe = pending.write_pipe.as_ref().unwrap();
    assert_ne!(
        pending.descriptors[1].as_raw_descriptor(),
        write_pipe.as_borrowed_descriptor().as_raw_descriptor()
    );
    let resource = ctx.context_resources.get(&30).unwrap().handle.as_ref().unwrap();
    assert_ne!(
        pending.descriptors[0].as_raw_descriptor(),
        resource.as_mesa_handle().unwrap().os_handle.as_raw_descriptor()
    );
    assert!(!ctx.item_state.table.contains_key(&77));

    tube.send(&[9, 8], &pending.descriptors).unwrap();
    assert!(ctx.send_complete(&pending));
    assert!(matches!(
        next_job(&mut ctx),
        NextJob::Job(CrossDomainJob::AddReadPipe(0x8000_0001))
    ));
    drop(pending);
    let mut buffer = [0u8; 16];
    let (len, files) = far.receive(&mut buffer).unwrap();
    assert_eq!((len, files.len()), (2, 3));
    // What is written to the pipe that was sent arrives at the item.
    let mut files = files;
    let sent = files.remove(1);
    let pipe = magma_gpu::util::WritePipe::new(sent.as_raw_descriptor());
    std::mem::forget(sent);
    pipe.write(&[5, 6, 7]).unwrap();
    match ctx.item_state.table.get(&0x8000_0001) {
        Some(CrossDomainItem::WaylandReadPipe(read_pipe)) => {
            assert_eq!(read_pipe.read(&mut buffer).unwrap(), 3);
            assert_eq!(&buffer[..3], &[5, 6, 7]);
        }
        _ => panic!("no read pipe"),
    }
}

#[test]
fn send_changes_nothing_but_items() {
    let (mut ctx, _far) = connected_context();
    ctx.attach(&mut host_resource(30, Some(memory_handle(4096).into())));
    ctx.sentinel_manager.add_watcher(0x4000_0000, 1, Event::new().unwrap());
    let cmd = send_command(&[
        (30, CROSS_DOMAIN_ID_TYPE_VIRTGPU_BLOB),
        (0x8000_0001, CROSS_DOMAIN_ID_TYPE_READ_PIPE),
        (99, CROSS_DOMAIN_ID_TYPE_VIRTGPU_BLOB),
    ]);
    assert!(matches!(ctx.send(&cmd), Err(RutabagaError::InvalidResourceId)));
    let resources: Vec<u32> = ctx.context_resources.keys().copied().collect();
    assert_eq!(resources, vec![5, 6, 30]);
    assert_eq!(ctx.item_state.descriptor_id, 1);
    assert_eq!(ctx.item_state.read_pipe_id, 0x8000_0001);
    assert!(!ctx.sentinel_manager.is_shutdown(0x4000_0000));
    assert!(matches!(next_job(&mut ctx), NextJob::Wait));
}

#[test]
fn send_without_a_pipe_queues_nothing() {
    let (mut ctx, _far) = connected_context();
    let (_, pending) = ctx.send(&send_command(&[])).unwrap();
    assert!(pending.descriptors.is_empty());
    assert!(!ctx.send_complete(&pending));
    assert!(matches!(next_job(&mut ctx), NextJob::Wait));
}

#[test]
fn send_takes_at_most_as_many_identifiers_as_fit() {
    let (mut ctx, _far) = connected_context();
    let mut cmd = send_command(&[]);
    cmd.num_identifiers = 29;
    assert!(matches!(
        ctx.send(&cmd),
        Err(RutabagaError::MesaError(MesaError::WithContext(
            "max cross domain identifiers exceeded"
        )))
    ));
}

#[test]
fn send_takes_one_pipe() {
    let (mut ctx, _far) = connected_context();
    let cmd = send_command(&[
        (0x8000_0001, CROSS_DOMAIN_ID_TYPE_READ_PIPE),
        (0x8000_0002, CROSS_DOMAIN_ID_TYPE_READ_PIPE),
    ]);
    assert!(matches!(
        ctx.send(&cmd),
        Err(RutabagaError::MesaError(MesaError::WithContext(
            "expected just one pipe pair"
        )))
    ));
}

#[test]
fn send_checks_the_guess() {
    let (mut ctx, _far) = connected_context();
    let cmd = send_command(&[(0x8000_0002, CROSS_DOMAIN_ID_TYPE_READ_PIPE)]);
    assert!(matches!(ctx.send(&cmd), Err(RutabagaError::InvalidCrossDomainItemId)));
    // The read end is an item all the same, so the same guess is right the next time.
    assert!(ctx.item_state.table.contains_key(&0x8000_0001));
    assert!(ctx.send(&cmd).is_ok());
}

#[test]
fn send_refuses_what_is_not_there() {
    let (mut ctx, _far) = connected_context();
    ctx.attach(&mut host_resource(
        31,
        Some(RutabagaHandle::AhbInfo(AhbInfo { fds: Vec::new(), metadata: vec![1] })),
    ));
    let missing = send_command(&[(32, CROSS_DOMAIN_ID_TYPE_VIRTGPU_BLOB)]);
    assert!(matches!(ctx.send(&missing), Err(RutabagaError::InvalidResourceId)));
    for id in [5, 31] {
        let wrong = send_command(&[(id, CROSS_DOMAIN_ID_TYPE_VIRTGPU_BLOB)]);
        assert!(matches!(
            ctx.send(&wrong),
            Err(RutabagaError::MesaError(MesaError::InvalidMesaHandle))
        ));
    }
    let file = send_command(&[(77, CROSS_DOMAIN_ID_TYPE_VIRTIO_FS_BLOB)]);
    assert!(matches!(ctx.send(&file), Err(RutabagaError::InvalidCrossDomainItemId)));
    let id = add_item(&mut ctx.item_state, CrossDomainItem::Socket(memory(1)));
    let file = send_command(&[(id, CROSS_DOMAIN_ID_TYPE_VIRTIO_FS_BLOB)]);
    assert!(matches!(ctx.send(&file), Err(RutabagaError::InvalidCrossDomainItemId)));
    assert!(!ctx.item_state.table.contains_key(&id));
    let other = send_command(&[(1, CROSS_DOMAIN_ID_TYPE_SOCKET)]);
    assert!(matches!(ctx.send(&other), Err(RutabagaError::InvalidCrossDomainItemType)));
}

#[test]
fn send_needs_a_channel() {
    let (mut ctx, _far) = connected_context();
    ctx.states.push(CrossDomainState::new(5, 6, None));
    assert!(matches!(
        ctx.send(&send_command(&[])),
        Err(RutabagaError::InvalidCrossDomainChannel)
    ));
}

#[test]
fn imported_file_is_sent_once() {
    let (mut ctx, _far) = connected_context();
    let import = CrossDomainImportVirtioFsHandle {
        fs_id: 3,
        handle: 4,
        id: 77,
        ..CrossDomainImportVirtioFsHandle::default()
    };
    assert_eq!(ctx.import_virtiofs_handle(&import).unwrap(), (3, 4));
    ctx.imported_virtiofs_handle(&import, memory(4096));
    assert!(matches!(
        ctx.import_virtiofs_handle(&import),
        Err(RutabagaError::InvalidCrossDomainItemId)
    ));
    let cmd = send_command(&[(77, CROSS_DOMAIN_ID_TYPE_VIRTIO_FS_BLOB)]);
    assert_eq!(ctx.send(&cmd).unwrap().1.descriptors.len(), 1);
    assert!(matches!(ctx.send(&cmd), Err(RutabagaError::InvalidCrossDomainItemId)));

    ctx.virtiofs_lookup = false;
    assert!(matches!(
        ctx.import_virtiofs_handle(&import),
        Err(RutabagaError::InvalidCrossDomainState)
    ));
}

// ---- write ----

#[test]
fn write_keeps_the_pipe_until_hang_up() {
    let mut ctx = new_context();
    let (read_pipe, write_pipe) = create_pipe().unwrap();
    let id = add_item(&mut ctx.item_state, CrossDomainItem::WaylandWritePipe(write_pipe));
    let mut cmd = CrossDomainReadWrite {
        identifier: id,
        opaque_data_size: 3,
        ..CrossDomainReadWrite::default()
    };
    let action = ctx.write(&cmd, &[1, 2, 3]).unwrap();
    assert!(!ctx.item_state.table.contains_key(&id));
    match &action {
        WriteAction::Pipe(pipe, true) => assert_eq!(pipe.write(&[1, 2, 3]).unwrap(), 3),
        _ => panic!("nothing to write"),
    }
    ctx.write_done(&cmd, action);
    assert!(ctx.item_state.table.contains_key(&id));
    let mut buffer = [0u8; 8];
    assert_eq!(read_pipe.read(&mut buffer).unwrap(), 3);

    cmd.opaque_data_size = 0;
    cmd.hang_up = 1;
    let action = ctx.write(&cmd, &[]).unwrap();
    assert!(matches!(action, WriteAction::Pipe(_, false)));
    ctx.write_done(&cmd, action);
    assert!(!ctx.item_state.table.contains_key(&id));
    assert_eq!(read_pipe.read(&mut buffer).unwrap(), 0);
    assert!(matches!(ctx.write(&cmd, &[]), Err(RutabagaError::InvalidCrossDomainItemId)));
}

#[test]
fn write_to_an_event_takes_eight_bytes() {
    let mut ctx = new_context();
    let id = add_item(&mut ctx.item_state, CrossDomainItem::Event(Event::new().unwrap()));
    let cmd = CrossDomainReadWrite {
        identifier: id,
        opaque_data_size: 8,
        ..CrossDomainReadWrite::default()
    };
    let action = ctx.write(&cmd, &[2, 1, 0, 0, 0, 0, 0, 0]).unwrap();
    match &action {
        WriteAction::Event(event, 0x102) => event.add(0x102).unwrap(),
        _ => panic!("no event"),
    }
    ctx.write_done(&cmd, action);
    match ctx.item_state.table.get(&id) {
        Some(CrossDomainItem::Event(event)) => assert_eq!(event.wait().unwrap(), 0x102),
        _ => panic!("no event"),
    }
    assert!(matches!(
        ctx.write(&cmd, &[1, 2, 3, 4, 5, 6, 7]),
        Err(RutabagaError::InvalidCrossDomainWriteLength)
    ));
    assert!(!ctx.item_state.table.contains_key(&id));
}

#[test]
fn write_to_another_item_uses_it_up() {
    let mut ctx = new_context();
    let id = add_item(&mut ctx.item_state, CrossDomainItem::Blob(memory_handle(1)));
    let cmd = CrossDomainReadWrite { identifier: id, ..CrossDomainReadWrite::default() };
    assert!(matches!(ctx.write(&cmd, &[]), Err(RutabagaError::InvalidCrossDomainItemType)));
    assert!(ctx.item_state.table.is_empty());
}

// ---- events ----

#[test]
fn events_can_be_polled() {
    let (mut ctx, _far) = connected_context();
    let id = add_item(&mut ctx.item_state, CrossDomainItem::Event(Event::new().unwrap()));
    let blob = add_item(&mut ctx.item_state, CrossDomainItem::Blob(memory_handle(1)));
    assert!(ctx.read_event_new(&CrossDomainCreateEvent { id, ..Default::default() }).is_ok());
    assert!(matches!(
        next_job(&mut ctx),
        NextJob::Job(CrossDomainJob::AddReadEvent(job_id)) if job_id == id
    ));
    assert!(matches!(
        ctx.read_event_new(&CrossDomainCreateEvent { id: blob, ..Default::default() }),
        Err(RutabagaError::InvalidCrossDomainItemType)
    ));
    assert!(matches!(
        ctx.read_event_new(&CrossDomainCreateEvent { id: 99, ..Default::default() }),
        Err(RutabagaError::InvalidCrossDomainItemId)
    ));
    assert!(matches!(next_job(&mut ctx), NextJob::Wait));
}

// ---- sentinels ----

#[test]
fn sentinel_lives_until_it_is_removed() {
    let (mut ctx, _far) = connected_context();
    let create = CrossDomainCreateAtomicMemorySentinel {
        fs_id: 3,
        handle: 4,
        id: 0x4000_0001,
        ..CrossDomainCreateAtomicMemorySentinel::default()
    };
    let signal = CrossDomainSignalAtomicMemorySentinel {
        id: 0x4000_0001,
        ..CrossDomainSignalAtomicMemorySentinel::default()
    };
    let destroy = CrossDomainDestroyAtomicMemorySentinel {
        id: 0x4000_0001,
        ..CrossDomainDestroyAtomicMemorySentinel::default()
    };
    assert!(matches!(
        ctx.atomic_memory_sentinel_signal(&signal),
        Err(RutabagaError::InvalidCrossDomainItemId)
    ));
    assert!(matches!(
        ctx.atomic_memory_sentinel_destroy(&destroy),
        Err(RutabagaError::InvalidCrossDomainItemId)
    ));
    let watched = ctx.atomic_memory_sentinel_new(&create).unwrap();
    assert_eq!((watched.fs_id, watched.handle), (3, 4));
    assert_eq!((watched.size, watched.map_info), (4, 0x31));
    let evt = Event::new().unwrap();
    let polled = evt.try_clone().unwrap();
    assert!(ctx.atomic_memory_sentinel_created(&create, 55, evt, polled).is_ok());
    assert!(matches!(
        next_job(&mut ctx),
        NextJob::Job(CrossDomainJob::AddAtomicMemorySentinel(0x4000_0001, _))
    ));
    assert!(matches!(
        ctx.atomic_memory_sentinel_new(&create),
        Err(RutabagaError::AlreadyInUse)
    ));
    assert_eq!(*ctx.atomic_memory_sentinel_signal(&signal).unwrap(), 55);
    assert!(!ctx.sentinel_manager.is_shutdown(0x4000_0001));
    assert!(ctx.atomic_memory_sentinel_destroy(&destroy).is_ok());
    assert!(ctx.sentinel_manager.is_shutdown(0x4000_0001));
    assert!(matches!(ctx.sentinel_manager.handle_event(0x4000_0001), Ok(None)));
    assert!(matches!(
        ctx.atomic_memory_sentinel_new(&create),
        Err(RutabagaError::AlreadyInUse)
    ));
    assert_eq!(ctx.sentinel_manager.remove_watcher(0x4000_0001).unwrap().worker, 55);
    assert!(ctx.sentinel_manager.get_event(0x4000_0001).is_none());
    assert!(matches!(
        ctx.sentinel_manager.handle_event(0x4000_0001),
        Err(RutabagaError::InvalidCrossDomainItemId)
    ));
    assert!(ctx.atomic_memory_sentinel_new(&create).is_ok());
}

#[test]
fn sentinel_stays_where_there_is_no_worker() {
    let mut ctx = new_context();
    let create = CrossDomainCreateAtomicMemorySentinel {
        id: 7,
        ..CrossDomainCreateAtomicMemorySentinel::default()
    };
    let evt = Event::new().unwrap();
    let polled = evt.try_clone().unwrap();
    assert!(matches!(
        ctx.atomic_memory_sentinel_created(&create, 1, evt, polled),
        Err(RutabagaError::InvalidCrossDomainState)
    ));
    assert!(ctx.sentinel_manager.get_event(7).is_some());

    let mut without_files: CrossDomainContext<u32> =
        CrossDomain::init(None, false).create_context();
    without_files.attach(&mut guest_resource(1));
    assert!(matches!(
        without_files.atomic_memory_sentinel_new(&create),
        Err(RutabagaError::InvalidCrossDomainItemId)
    ));
}

// ---- resources ----

#[test]
fn attached_resources_are_detached() {
    let mut ctx = new_context();
    let mut guest = guest_resource(5);
    ctx.attach(&mut guest);
    assert!(guest.backing_iovecs.is_none());
    assert_eq!(
        ctx.context_resources.get(&5).unwrap().backing_iovecs,
        Some(vec![RutabagaIovec { base: 0x1000, len: 4096 }])
    );
    let mut host = host_resource(6, Some(memory_handle(1).into()));
    ctx.attach(&mut host);
    assert!(host.handle.is_some());
    assert!(ctx.context_resources.get(&6).unwrap().handle.is_some());
    assert!(ctx.context_resources.get(&6).unwrap().backing_iovecs.is_none());
    ctx.attach(&mut host_resource(7, None));
    assert!(!ctx.context_resources.contains_key(&7));
    ctx.detach(&guest);
    ctx.detach(&host);
    assert!(ctx.context_resources.is_empty());
    ctx.attach(&mut guest);
    assert!(ctx.context_resources.get(&5).unwrap().backing_iovecs.is_none());
}

// ---- fences ----

#[test]
fn fences_go_by_their_ring() {
    let (mut ctx, _far) = connected_context();
    let fence = RutabagaFence { flags: 1, fence_id: 2, ctx_id: 3, ring_idx: 0 };
    assert!(matches!(
        ctx.context_create_fence(fence),
        Ok(FenceAction::Signal(signalled)) if signalled == fence
    ));
    let fence = RutabagaFence { ring_idx: 1, ..fence };
    assert!(matches!(ctx.context_create_fence(fence), Ok(FenceAction::Queued)));
    assert!(matches!(
        next_job(&mut ctx),
        NextJob::Job(CrossDomainJob::HandleFence(queued)) if queued == fence
    ));
    let fence = RutabagaFence { ring_idx: 2, ..fence };
    assert!(matches!(
        ctx.context_create_fence(fence),
        Err(RutabagaError::MesaError(MesaError::WithContext("unexpected ring type")))
    ));
    assert_eq!(ctx.component_type(), RutabagaComponentType::CrossDomain);
}

#[test]
fn fence_before_the_worker_is_dropped() {
    let mut ctx = new_context();
    let fence = RutabagaFence { flags: 1, fence_id: 2, ctx_id: 3, ring_idx: 1 };
    assert!(matches!(ctx.context_create_fence(fence), Ok(FenceAction::Queued)));
    assert!(ctx.state().is_none());
}

#[test]
fn end_is_the_last_job() {
    let (mut ctx, _far) = connected_context();
    assert!(ctx.finish().is_some());
    assert!(matches!(next_job(&mut ctx), NextJob::Job(CrossDomainJob::Finish)));
    assert!(ctx.finish().is_none());
    let mut unused = new_context();
    assert!(unused.finish().is_none());
}
