//! Errors, constants and plain data that the cross-domain modules share.

use std::sync::Arc;

use vstd::prelude::*;

use crate::handle::RutabagaHandle;

verus! {

/// Memory of a blob resource that the guest provides.
pub const RUTABAGA_BLOB_MEM_GUEST: u32 = 0x0001;

/// A blob resource that can be mapped.
pub const RUTABAGA_BLOB_FLAG_USE_MAPPABLE: u32 = 0x0001;

/// A cached mapping.
pub const RUTABAGA_MAP_CACHE_CACHED: u32 = 0x01;

/// A mapping that can be read and written.
pub const RUTABAGA_MAP_ACCESS_RW: u32 = 0x30;

/// Failures below the context.
#[derive(Debug)]
pub enum MesaError {
    /// A handle is not of the kind that the operation needs.
    InvalidMesaHandle,
    /// The system refused an operation on a descriptor.
    IoError(std::io::Error),
    /// An integer does not fit the type that it is converted to.
    TryFromIntError(std::num::TryFromIntError),
    /// An operation on an event, a pipe, a socket or a mapping failed.
    Util(magma_gpu::util::Error),
    /// The operation failed for the reason given.
    WithContext(&'static str),
}

/// Failures below the worker, the component and the handles.
#[derive(Debug)]
pub enum MagmaGpuError {
    /// A handle is not of the kind that the operation needs, or could not be duplicated.
    InvalidMagmaHandle,
    /// The system refused an operation on a descriptor.
    IoError(std::io::Error),
    /// An integer does not fit the type that it is converted to.
    TryFromIntError(std::num::TryFromIntError),
    /// An operation on an event, a pipe or a socket failed.
    Util(magma_gpu::util::Error),
    /// The operation failed for the reason given.
    WithContext(&'static str),
}

/// Failures of the cross-domain modules.
#[derive(Debug)]
pub enum RutabagaError {
    /// The identifier is in use already.
    AlreadyInUse,
    /// A command buffer is too short for the command that it should hold.
    InvalidCommandBuffer,
    /// A command or its data claims more bytes than there are.
    InvalidCommandSize(usize),
    /// There is no channel, or none of the type asked for.
    InvalidCrossDomainChannel,
    /// No socket is registered under the identifier.
    InvalidCrossDomainInternalSocketUuid,
    /// No suitable item has the identifier.
    InvalidCrossDomainItemId,
    /// An item or an identifier is of the wrong type.
    InvalidCrossDomainItemType,
    /// The context is not in the state that the command needs.
    InvalidCrossDomainState,
    /// The data written to an event does not have eight bytes.
    InvalidCrossDomainWriteLength,
    /// A resource has no backing memory, or too little.
    InvalidIovec,
    /// No resource has the identifier.
    InvalidResourceId,
    /// A failure below the worker, the component or the handles.
    MagmaGpuError(MagmaGpuError),
    /// A failure below the context.
    MesaError(MesaError),
}

/// The error of a context for a failed operation with its reason.
pub open spec fn with_context(reason: &'static str) -> RutabagaError {
    RutabagaError::MesaError(MesaError::WithContext(reason))
}

/// `n` as a 32-bit integer, where it fits.
pub open spec fn u32_of_usize(n: usize) -> Result<u32, std::num::TryFromIntError> {
    <u32 as vstd::std_specs::convert::TryFromSpec<usize>>::try_from_spec(n)
}

/// `n` as a 32-bit integer, where it fits.
pub open spec fn u32_of_u64(n: u64) -> Result<u32, std::num::TryFromIntError> {
    <u32 as vstd::std_specs::convert::TryFromSpec<u64>>::try_from_spec(n)
}

/// The component types, in the order of their bits in a component mask.
#[derive(Copy, Clone, Debug, PartialEq, Eq)]
pub enum RutabagaComponentType {
    Rutabaga2D,
    VirglRenderer,
    Gfxstream,
    CrossDomain,
}

/// The component mask with the bit of the cross-domain component alone.
pub const CROSS_DOMAIN_COMPONENT_MASK: u8 = 0x08;

/// A fence of the guest.
#[derive(Copy, Clone, Debug, PartialEq, Eq)]
pub struct RutabagaFence {
    pub flags: u32,
    pub fence_id: u64,
    pub ctx_id: u32,
    pub ring_idx: u8,
}

/// The parameters of a blob resource.
#[derive(Copy, Clone, Debug, PartialEq, Eq)]
pub struct ResourceCreateBlob {
    pub blob_mem: u32,
    pub blob_flags: u32,
    pub blob_id: u64,
    pub size: u64,
}

/// The layout of an image resource.
#[derive(Copy, Clone, Debug, PartialEq, Eq)]
pub struct Resource3DInfo {
    pub width: u32,
    pub height: u32,
    pub drm_fourcc: u32,
    pub strides: [u32; 4],
    pub offsets: [u32; 4],
    pub modifier: u64,
}

/// A Vulkan device.
#[derive(Copy, Clone, Debug, PartialEq, Eq)]
pub struct DeviceId {
    pub device_uuid: [u8; 16],
    pub driver_uuid: [u8; 16],
}

/// Where a Vulkan allocation lives.
#[derive(Copy, Clone, Debug, PartialEq, Eq)]
pub struct VulkanInfo {
    pub memory_idx: u32,
    pub device_id: DeviceId,
}

/// An image to be allocated. The format is the fourcc number.
#[derive(Copy, Clone, Debug, PartialEq, Eq)]
pub struct ImageAllocationInfo {
    pub width: u32,
    pub height: u32,
    pub drm_format: u32,
    pub flags: u32,
}

/// The memory that an image takes.
#[derive(Copy, Clone, Debug, PartialEq, Eq)]
pub struct ImageMemoryRequirements {
    pub info: ImageAllocationInfo,
    pub map_info: u32,
    pub strides: [u32; 4],
    pub offsets: [u32; 4],
    pub modifier: u64,
    pub size: u64,
    pub vulkan_info: Option<VulkanInfo>,
}

/// A stretch of guest memory: the address at which it is mapped, and its length.
#[derive(Copy, Clone, Debug, PartialEq, Eq)]
pub struct RutabagaIovec {
    pub base: usize,
    pub len: usize,
}

/// A socket that the guest may connect to: the bytes of its path, and the channel type that it
/// serves.
#[derive(Clone, Debug, PartialEq, Eq)]
pub struct RutabagaPath {
    pub path: Vec<u8>,
    pub path_type: u32,
}

/// A resource as this component makes and attaches it.
pub struct RutabagaResource {
    pub resource_id: u32,
    pub handle: Option<Arc<RutabagaHandle>>,
    pub blob: bool,
    pub blob_mem: u32,
    pub blob_flags: u32,
    pub map_info: Option<u32>,
    pub info_3d: Option<Resource3DInfo>,
    pub vulkan_info: Option<VulkanInfo>,
    pub backing_iovecs: Option<Vec<RutabagaIovec>>,
    pub component_mask: u8,
    pub size: u64,
}

} // verus!
