use cross_domain::component::CrossDomain;
use cross_domain::context::CrossDomainContext;
use cross_domain::cross_domain_protocol::CrossDomainCapabilities;
use cross_domain::handle::AhbInfo;
use cross_domain::handle::MagmaGpuHandle;
use cross_domain::handle::RutabagaHandle;
use cross_domain::rutabaga_utils::MagmaGpuError;
use cross_domain::rutabaga_utils::ResourceCreateBlob;
use cross_domain::rutabaga_utils::RutabagaError;
use cross_domain::rutabaga_utils::RutabagaIovec;
use cross_domain::rutabaga_utils::RutabagaPath;
use cross_domain::wire::ByteOrder;
use cross_domain::wire::Wire;

use magma_gpu::util::AsRawDescriptor;
use magma_gpu::util::OwnedDescriptor;
use magma_gpu::util::SharedMemory;

fn memory(size: u64) -> OwnedDescriptor {
    SharedMemory::new("test", size).unwrap().into()
}

fn path(name: &str, path_type: u32) -> RutabagaPath {
    RutabagaPath { path: name.as_bytes().to_vec(), path_type }
}

#[test]
fn capset_lists_the_channels() {
    let component =
        CrossDomain::init(Some(vec![path("a", 1), path("b", 0x11), path("c", 1)]), false);
    assert_eq!(component.get_capset_info(5), (0, 16));
    let capset = component.get_capset(5, 0, true, false, ByteOrder::Little);
    assert_eq!(capset.len(), 16);
    assert_eq!(
        CrossDomainCapabilities::read_from_prefix(ByteOrder::Little, &capset),
        Some(CrossDomainCapabilities {
            version: 1,
            supported_channels: 0x0002_0002,
            supports_dmabuf: 1,
            supports_external_gpu_memory: 0,
        })
    );
    let capset = CrossDomain::init(None, false).get_capset(5, 0, false, true, ByteOrder::Little);
    assert_eq!(capset, vec![1, 0, 0, 0, 0, 0, 0, 0, 0, 0, 0, 0, 1, 0, 0, 0]);
}

#[test]
fn blobs_are_of_guest_memory_or_mappable() {
    let component = CrossDomain::init(None, false);
    let iovecs = vec![RutabagaIovec { base: 1, len: 2 }];
    let create = ResourceCreateBlob { blob_mem: 1, blob_flags: 7, blob_id: 9, size: 4096 };
    let resource = component.create_blob(3, &create, Some(iovecs.clone())).unwrap();
    assert_eq!((resource.resource_id, resource.size), (3, 4096));
    assert_eq!((resource.blob_mem, resource.blob_flags), (1, 7));
    assert_eq!(resource.backing_iovecs, Some(iovecs));
    assert_eq!(resource.component_mask, 8);
    assert!(resource.blob && resource.handle.is_none() && resource.map_info.is_none());
    let create = ResourceCreateBlob { blob_mem: 2, blob_flags: 1, ..create };
    assert!(component.create_blob(3, &create, None).is_ok());
    let create = ResourceCreateBlob { blob_flags: 2, ..create };
    assert!(matches!(
        component.create_blob(3, &create, None),
        Err(RutabagaError::MagmaGpuError(MagmaGpuError::WithContext(
            "expected only guest memory blobs"
        )))
    ));
}

#[test]
fn contexts_start_with_the_paths_alone() {
    let paths = vec![path("/one", 1), path("/two", 2)];
    let component = CrossDomain::init(Some(paths.clone()), true);
    let ctx: CrossDomainContext<u32> = component.create_context();
    assert_eq!(ctx.paths, Some(paths));
    assert!(ctx.states.is_empty() && ctx.context_resources.is_empty());
    assert!(ctx.item_state.table.is_empty() && ctx.sentinel_manager.watchers.is_empty());
    assert!(ctx.virtiofs_lookup && ctx.sentinel_manager.virtiofs_lookup);
    assert!(ctx.resample_evt.is_none() && ctx.kill_evt.is_none());
    let ctx: CrossDomainContext<u32> = CrossDomain::init(None, false).create_context();
    assert!(ctx.paths.is_none() && !ctx.virtiofs_lookup);
}

#[test]
fn handles_are_duplicated() {
    let handle: RutabagaHandle = MagmaGpuHandle { os_handle: memory(4096), handle_type: 4 }.into();
    let clone = handle.try_clone().unwrap();
    let (a, b) = (handle.as_mesa_handle().unwrap(), clone.as_mesa_handle().unwrap());
    assert_eq!(b.handle_type, 4);
    assert_ne!(a.os_handle.as_raw_descriptor(), b.os_handle.as_raw_descriptor());

    let info = AhbInfo { fds: vec![memory(1), memory(2)], metadata: vec![7, 8] };
    let clone = info.try_clone().unwrap();
    assert_eq!(clone.metadata, vec![7, 8]);
    assert_eq!(clone.fds.len(), 2);
    assert_ne!(clone.fds[0].as_raw_descriptor(), info.fds[0].as_raw_descriptor());
    let handle: RutabagaHandle = info.into();
    assert!(handle.as_mesa_handle().is_none());
    assert!(matches!(
        handle.try_clone(),
        Ok(RutabagaHandle::AhbInfo(clone)) if clone.fds.len() == 2
    ));
}

#[test]
fn handles_are_converted_back() {
    let handle: RutabagaHandle = MagmaGpuHandle { os_handle: memory(4096), handle_type: 4 }.into();
    assert_eq!(MagmaGpuHandle::try_from(handle).unwrap().handle_type, 4);
    let handle: RutabagaHandle = AhbInfo { fds: Vec::new(), metadata: vec![1] }.into();
    assert!(matches!(MagmaGpuHandle::try_from(handle), Err(MagmaGpuError::InvalidMagmaHandle)));
    let handle: RutabagaHandle = AhbInfo { fds: Vec::new(), metadata: vec![1] }.into();
    assert_eq!(AhbInfo::try_from(handle).unwrap().metadata, vec![1]);
    let handle: RutabagaHandle = MagmaGpuHandle { os_handle: memory(4096), handle_type: 4 }.into();
    assert!(matches!(AhbInfo::try_from(handle), Err(MagmaGpuError::InvalidMagmaHandle)));
}
