//! The component: what it offers to the guest, and the contexts and resources that it makes.

use std::collections::BTreeMap;

use vstd::prelude::*;

use crate::atomic_memory_sentinel_manager::AtomicMemorySentinelManager;
use crate::atomic_memory_sentinel_manager::ManagerModel;
use crate::common::CrossDomainItems;
use crate::common::ItemsModel;
use crate::common::StateModel;
use crate::context::CrossDomainContext;
use crate::cross_domain_protocol::CrossDomainCapabilities;
use crate::rutabaga_utils::MagmaGpuError;
use crate::rutabaga_utils::ResourceCreateBlob;
use crate::rutabaga_utils::RutabagaError;
use crate::rutabaga_utils::RutabagaIovec;
use crate::rutabaga_utils::RutabagaPath;
use crate::rutabaga_utils::RutabagaResource;
use crate::rutabaga_utils::CROSS_DOMAIN_COMPONENT_MASK;
use crate::rutabaga_utils::RUTABAGA_BLOB_FLAG_USE_MAPPABLE;
use crate::rutabaga_utils::RUTABAGA_BLOB_MEM_GUEST;
use crate::wire::ByteOrder;
use crate::wire::Wire;

verus! {

/// The CrossDomain component contains a list of paths that the guest may connect to, and knows
/// whether exported files can be looked up.
pub struct CrossDomain {
    pub paths: Option<Vec<RutabagaPath>>,
    pub virtiofs_lookup: bool,
}

/// The channels that the paths serve: the bit of each of their types.
pub open spec fn channel_mask(paths: Seq<RutabagaPath>) -> u32
    decreases paths.len(),
{
    if paths.len() == 0 {
        0
    } else {
        channel_mask(paths.drop_last()) | (1u32 << paths.last().path_type)
    }
}

/// The channels that the component supports.
pub open spec fn supported_channels(paths: Option<Vec<RutabagaPath>>) -> u32 {
    match paths {
        Some(paths) => channel_mask(paths@),
        None => 0,
    }
}

/// The types of the paths are numbers of bits.
pub open spec fn has_channel_bits(paths: Option<Vec<RutabagaPath>>) -> bool {
    match paths {
        Some(paths) => forall|i: int|
            0 <= i < paths@.len() ==> (#[trigger] paths@[i]).path_type < 32,
        None => true,
    }
}

/// The capabilities of a component. Version 1 supports all commands up to and including
/// `CROSS_DOMAIN_CMD_WRITE`.
pub open spec fn capabilities(
    paths: Option<Vec<RutabagaPath>>,
    supports_dmabuf: bool,
    supports_external_gpu_memory: bool,
) -> CrossDomainCapabilities {
    CrossDomainCapabilities {
        version: 1,
        supported_channels: supported_channels(paths),
        supports_dmabuf: if supports_dmabuf {
            1
        } else {
            0
        },
        supports_external_gpu_memory: if supports_external_gpu_memory {
            1
        } else {
            0
        },
    }
}

/// The same paths with the same types, in the same order.
pub open spec fn same_paths(a: Option<Vec<RutabagaPath>>, b: Option<Vec<RutabagaPath>>) -> bool {
    match (a, b) {
        (None, None) => true,
        (Some(x), Some(y)) => {
            &&& x@.len() == y@.len()
            &&& forall|i: int|
                #![trigger x@[i]]
                #![trigger y@[i]]
                0 <= i < x@.len() ==> x@[i].path@ == y@[i].path@ && x@[i].path_type
                    == y@[i].path_type
        },
        _ => false,
    }
}

fn clone_paths(paths: &Vec<RutabagaPath>) -> (r: Vec<RutabagaPath>)
    ensures
        same_paths(Some(*paths), Some(r)),
{
    let mut r: Vec<RutabagaPath> = Vec::new();
    let mut i: usize = 0;
    while i < paths.len()
        invariant
            0 <= i <= paths@.len(),
            r@.len() == i,
            forall|k: int|
                #![trigger paths@[k]]
                #![trigger r@[k]]
                0 <= k < i ==> paths@[k].path@ == r@[k].path@ && paths@[k].path_type
                    == r@[k].path_type,
        decreases paths@.len() - i,
    {
        r.push(
            RutabagaPath {
                path: vstd::slice::slice_to_vec(paths[i].path.as_slice()),
                path_type: paths[i].path_type,
            },
        );
        i += 1;
    }
    r
}

impl CrossDomain {
    /// Initializes the component with the paths that the guest may connect to, if any.
    pub fn init(paths: Option<Vec<RutabagaPath>>, virtiofs_lookup: bool) -> (r: CrossDomain)
        ensures
            r == (CrossDomain { paths, virtiofs_lookup }),
    {
        CrossDomain { paths, virtiofs_lookup }
    }

    /// The version and the size of the capability set.
    pub fn get_capset_info(&self, _capset_id: u32) -> (r: (u32, u32))
        ensures
            r == (0u32, 16u32),
            r.1 == CrossDomainCapabilities::wire_size(),
    {
        (0, CrossDomainCapabilities::size_of() as u32)
    }

    /// The capability set. The two flags say what the allocator for images supports, `order` is the
    /// byte order of the host.
    pub fn get_capset(
        &self,
        _capset_id: u32,
        _version: u32,
        supports_dmabuf: bool,
        supports_external_gpu_memory: bool,
        order: ByteOrder,
    ) -> (r: Vec<u8>)
        requires
            has_channel_bits(self.paths),
        ensures
            r@ == capabilities(
                self.paths,
                supports_dmabuf,
                supports_external_gpu_memory,
            ).encoded(order),
    {
        let mut caps = CrossDomainCapabilities::default();
        if let Some(paths) = &self.paths {
            let mut i: usize = 0;
            assert(paths@.take(0) =~= Seq::empty());
            while i < paths.len()
                invariant
                    0 <= i <= paths@.len(),
                    forall|k: int| 0 <= k < paths@.len() ==> (#[trigger] paths@[k]).path_type < 32,
                    caps.supported_channels == channel_mask(paths@.take(i as int)),
                    caps.version == 0,
                    caps.supports_dmabuf == 0,
                    caps.supports_external_gpu_memory == 0,
                decreases paths@.len() - i,
            {
                let path_type: u32 = paths[i].path_type;
                caps.supported_channels = caps.supported_channels | (1u32 << path_type);
                assert(paths@.take(i + 1).drop_last() =~= paths@.take(i as int));
                i += 1;
            }
            assert(paths@.take(i as int) =~= paths@);
        }
        if supports_dmabuf {
            caps.supports_dmabuf = 1;
        }
        if supports_external_gpu_memory {
            caps.supports_external_gpu_memory = 1;
        }
        caps.version = 1;
        caps.as_bytes(order)
    }

    /// Makes a resource of guest memory.
    pub fn create_blob(
        &self,
        resource_id: u32,
        resource_create_blob: &ResourceCreateBlob,
        iovec_opt: Option<Vec<RutabagaIovec>>,
    ) -> (r: Result<RutabagaResource, RutabagaError>)
        ensures
            r == (if resource_create_blob.blob_mem != RUTABAGA_BLOB_MEM_GUEST
                && resource_create_blob.blob_flags != RUTABAGA_BLOB_FLAG_USE_MAPPABLE {
                Err(
                    RutabagaError::MagmaGpuError(
                        MagmaGpuError::WithContext("expected only guest memory blobs"),
                    ),
                )
            } else {
                Ok(
                    RutabagaResource {
                        resource_id,
                        handle: None,
                        blob: true,
                        blob_mem: resource_create_blob.blob_mem,
                        blob_flags: resource_create_blob.blob_flags,
                        map_info: None,
                        info_3d: None,
                        vulkan_info: None,
                        backing_iovecs: iovec_opt,
                        component_mask: CROSS_DOMAIN_COMPONENT_MASK,
                        size: resource_create_blob.size,
                    },
                )
            }),
    {
        if resource_create_blob.blob_mem != RUTABAGA_BLOB_MEM_GUEST
            && resource_create_blob.blob_flags != RUTABAGA_BLOB_FLAG_USE_MAPPABLE {
            return Err(
                RutabagaError::MagmaGpuError(
                    MagmaGpuError::WithContext("expected only guest memory blobs"),
                ),
            );
        }
        Ok(
            RutabagaResource {
                resource_id,
                handle: None,
                blob: true,
                blob_mem: resource_create_blob.blob_mem,
                blob_flags: resource_create_blob.blob_flags,
                map_info: None,
                info_3d: None,
                vulkan_info: None,
                backing_iovecs: iovec_opt,
                component_mask: CROSS_DOMAIN_COMPONENT_MASK,
                size: resource_create_blob.size,
            },
        )
    }

    /// Makes a context: with the paths of the component, and nothing else yet.
    pub fn create_context<W>(&self) -> (r: CrossDomainContext<W>)
        ensures
            same_paths(self.paths, r.paths),
            r@.states == Seq::<StateModel>::empty(),
            r@.resources == Map::<u32, crate::common::ContextResource>::empty(),
            r@.items == ItemsModel::initial(),
            r@.sentinels == ManagerModel::<W>::initial(self.virtiofs_lookup),
            r@.virtiofs_lookup == self.virtiofs_lookup,
            r@.resample_evt is None,
            r@.kill_evt is None,
    {
        let paths = match &self.paths {
            Some(paths) => Some(clone_paths(paths)),
            None => None,
        };
        CrossDomainContext {
            paths,
            states: Vec::new(),
            context_resources: BTreeMap::new(),
            item_state: CrossDomainItems::default(),
            sentinel_manager: AtomicMemorySentinelManager::new(self.virtiofs_lookup),
            virtiofs_lookup: self.virtiofs_lookup,
            resample_evt: None,
            kill_evt: None,
        }
    }
}

} // verus!
