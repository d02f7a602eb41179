//! Handles to memory and synchronisation objects of the host.

use magma_gpu::util::OwnedDescriptor;

use vstd::prelude::*;

use crate::platform;
use crate::platform::duplicate;
use crate::rutabaga_utils::MagmaGpuError;
use crate::rutabaga_utils::RutabagaError;

verus! {

/// Memory or a synchronisation object: a descriptor with the number of its handle type.
pub struct MagmaGpuHandle {
    pub os_handle: OwnedDescriptor,
    pub handle_type: u32,
}

/// A hardware buffer: its descriptors, and how to interpret them.
pub struct AhbInfo {
    pub fds: Vec<OwnedDescriptor>,
    pub metadata: Vec<u8>,
}

/// A handle of either kind.
pub enum RutabagaHandle {
    MagmaGpuHandle(MagmaGpuHandle),
    AhbInfo(AhbInfo),
}

impl MagmaGpuHandle {
    /// `clone` is of the same type and for the same object.
    pub open spec fn is_cloned_as(self, clone: MagmaGpuHandle) -> bool {
        &&& clone.handle_type == self.handle_type
        &&& platform::descriptor_object(clone.os_handle) == platform::descriptor_object(
            self.os_handle,
        )
    }

    /// Duplicates the descriptor. It fails, as for an invalid handle, where the system refuses to.
    pub fn try_clone(&self) -> (r: Result<MagmaGpuHandle, RutabagaError>)
        ensures
            match r {
                Ok(clone) => {
                    &&& self.is_cloned_as(clone)
                    &&& platform::duplicates(self.os_handle, Ok(clone.os_handle))
                },
                Err(e) => {
                    &&& e == RutabagaError::MagmaGpuError(MagmaGpuError::InvalidMagmaHandle)
                    &&& platform::is_refused(self.os_handle)
                },
            },
    {
        match duplicate(&self.os_handle) {
            Ok(os_handle) => Ok(MagmaGpuHandle { os_handle, handle_type: self.handle_type }),
            Err(_) => Err(RutabagaError::MagmaGpuError(MagmaGpuError::InvalidMagmaHandle)),
        }
    }
}

impl AhbInfo {
    /// `clone` has the same metadata, and descriptors for the same objects in the same order.
    pub open spec fn is_cloned_as(self, clone: AhbInfo) -> bool {
        &&& clone.metadata@ == self.metadata@
        &&& clone.fds@.len() == self.fds@.len()
        &&& forall|i: int|
            #![trigger clone.fds@[i]]
            #![trigger self.fds@[i]]
            0 <= i < self.fds@.len() ==> platform::descriptor_object(clone.fds@[i])
                == platform::descriptor_object(self.fds@[i])
    }

    /// The system refused to duplicate one of the descriptors.
    pub open spec fn is_refused(self) -> bool {
        exists|i: int| 0 <= i < self.fds@.len() && platform::is_refused(#[trigger] self.fds@[i])
    }

    /// Duplicates the descriptors and copies the metadata. It fails, as for an invalid handle,
    /// where the system refuses to duplicate one of the descriptors.
    pub fn try_clone(&self) -> (r: Result<AhbInfo, RutabagaError>)
        ensures
            match r {
                Ok(clone) => self.is_cloned_as(clone),
                Err(e) => self.is_refused() && e == RutabagaError::MagmaGpuError(
                    MagmaGpuError::InvalidMagmaHandle,
                ),
            },
    {
        let mut fds: Vec<OwnedDescriptor> = Vec::new();
        let mut i: usize = 0;
        while i < self.fds.len()
            invariant
                0 <= i <= self.fds@.len(),
                fds@.len() == i,
                forall|k: int|
                    #![trigger fds@[k]]
                    #![trigger self.fds@[k]]
                    0 <= k < i ==> platform::descriptor_object(fds@[k])
                        == platform::descriptor_object(self.fds@[k]),
            decreases self.fds@.len() - i,
        {
            match duplicate(&self.fds[i]) {
                Ok(fd) => fds.push(fd),
                Err(_) => {
                    return Err(RutabagaError::MagmaGpuError(MagmaGpuError::InvalidMagmaHandle));
                },
            }
            i += 1;
        }
        Ok(AhbInfo { fds, metadata: vstd::slice::slice_to_vec(self.metadata.as_slice()) })
    }
}

impl From<MagmaGpuHandle> for RutabagaHandle {
    fn from(value: MagmaGpuHandle) -> (r: Self) {
        RutabagaHandle::MagmaGpuHandle(value)
    }
}

impl vstd::std_specs::convert::FromSpecImpl<MagmaGpuHandle> for RutabagaHandle {
    open spec fn obeys_from_spec() -> bool {
        true
    }

    open spec fn from_spec(value: MagmaGpuHandle) -> Self {
        RutabagaHandle::MagmaGpuHandle(value)
    }
}

impl TryFrom<RutabagaHandle> for MagmaGpuHandle {
    type Error = MagmaGpuError;

    fn try_from(handle: RutabagaHandle) -> (r: Result<Self, MagmaGpuError>) {
        match handle {
            RutabagaHandle::MagmaGpuHandle(h) => Ok(h),
            _ => Err(MagmaGpuError::InvalidMagmaHandle),
        }
    }
}

impl vstd::std_specs::convert::TryFromSpecImpl<RutabagaHandle> for MagmaGpuHandle {
    open spec fn obeys_try_from_spec() -> bool {
        true
    }

    open spec fn try_from_spec(handle: RutabagaHandle) -> Result<Self, MagmaGpuError> {
        match handle {
            RutabagaHandle::MagmaGpuHandle(h) => Ok(h),
            _ => Err(MagmaGpuError::InvalidMagmaHandle),
        }
    }
}

impl From<AhbInfo> for RutabagaHandle {
    fn from(value: AhbInfo) -> (r: Self) {
        RutabagaHandle::AhbInfo(value)
    }
}

impl vstd::std_specs::convert::FromSpecImpl<AhbInfo> for RutabagaHandle {
    open spec fn obeys_from_spec() -> bool {
        true
    }

    open spec fn from_spec(value: AhbInfo) -> Self {
        RutabagaHandle::AhbInfo(value)
    }
}

impl TryFrom<RutabagaHandle> for AhbInfo {
    type Error = MagmaGpuError;

    fn try_from(handle: RutabagaHandle) -> (r: Result<Self, MagmaGpuError>) {
        match handle {
            RutabagaHandle::AhbInfo(h) => Ok(h),
            _ => Err(MagmaGpuError::InvalidMagmaHandle),
        }
    }
}

impl vstd::std_specs::convert::TryFromSpecImpl<RutabagaHandle> for AhbInfo {
    open spec fn obeys_try_from_spec() -> bool {
        true
    }

    open spec fn try_from_spec(handle: RutabagaHandle) -> Result<Self, MagmaGpuError> {
        match handle {
            RutabagaHandle::AhbInfo(h) => Ok(h),
            _ => Err(MagmaGpuError::InvalidMagmaHandle),
        }
    }
}

impl RutabagaHandle {
    /// Duplicates the handle with the descriptors under it.
    pub fn try_clone(&self) -> (r: Result<RutabagaHandle, RutabagaError>)
        ensures
            match r {
                Ok(clone) => match (*self, clone) {
                    (RutabagaHandle::MagmaGpuHandle(h), RutabagaHandle::MagmaGpuHandle(c)) =>
                        h.is_cloned_as(c),
                    (RutabagaHandle::AhbInfo(h), RutabagaHandle::AhbInfo(c)) => h.is_cloned_as(c),
                    _ => false,
                },
                Err(e) => {
                    &&& e == RutabagaError::MagmaGpuError(MagmaGpuError::InvalidMagmaHandle)
                    &&& match *self {
                        RutabagaHandle::MagmaGpuHandle(h) => platform::is_refused(h.os_handle),
                        RutabagaHandle::AhbInfo(h) => h.is_refused(),
                    }
                },
            },
            self matches RutabagaHandle::AhbInfo(info) && info.fds@.len() == 0 ==> r is Ok,
    {
        match self {
            RutabagaHandle::MagmaGpuHandle(handle) => {
                match handle.try_clone() {
                    Ok(clone) => Ok(RutabagaHandle::MagmaGpuHandle(clone)),
                    Err(e) => Err(e),
                }
            },
            RutabagaHandle::AhbInfo(info) => {
                match info.try_clone() {
                    Ok(info) => Ok(RutabagaHandle::AhbInfo(info)),
                    Err(e) => Err(e),
                }
            },
        }
    }

    /// The inner handle, where this is a `MagmaGpuHandle`.
    pub fn as_mesa_handle(&self) -> (r: Option<&MagmaGpuHandle>)
        ensures
            r == (match *self {
                RutabagaHandle::MagmaGpuHandle(handle) => Some(&handle),
                RutabagaHandle::AhbInfo(_) => None,
            }),
    {
        match self {
            RutabagaHandle::MagmaGpuHandle(handle) => Some(handle),
            _ => None,
        }
    }
}

} // verus!
