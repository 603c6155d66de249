//! Devices and their capability attributes.
//!
//! A [`CudaDevice`] is a plain description of one device: its ordinal, its
//! total memory and the capability attributes that the allocator backends
//! consult before choosing a mechanism (for example, whether managed memory
//! can be accessed concurrently with the CPU).  The description is fixed when
//! the device handle is created and travels with the
//! [`crate::context::CudaContext`] built over it.

use vstd::prelude::*;

use crate::error::{CudaError, CudaResult, CUDA_ERROR_INVALID_DEVICE};

verus! {

/// The default amount of memory a device offers, in bytes (4 GiB).
pub const DEFAULT_TOTAL_MEMORY: u64 = 0x1_0000_0000;

/// The largest total memory a device may be given, in bytes.  Every byte
/// count handled by the layer stays below this bound, which keeps address
/// arithmetic inside `u64`.
pub const MAX_TOTAL_MEMORY: u64 = 0x100_0000_0000;

/// The kinds of OS-native shareable handle an allocation or a pool can be
/// exported to.
#[derive(Clone, Copy, Debug, PartialEq, Eq, Structural)]
pub enum AllocationHandleType {
    /// No handle type: the resource cannot be shared.
    NoHandle,
    /// A POSIX file descriptor.
    PosixFD,
    /// A Win32 handle.
    Win32,
    /// A Win32 kernel-mode-thunk handle.
    Win32Kmt,
    /// A fabric handle for multi-node sharing.
    Fabric,
}

impl AllocationHandleType {
    /// The bit this handle type occupies in a supported-types mask.
    pub open spec fn spec_bit(self) -> u32 {
        match self {
            AllocationHandleType::NoHandle => 0u32,
            AllocationHandleType::PosixFD => 1u32,
            AllocationHandleType::Win32 => 2u32,
            AllocationHandleType::Win32Kmt => 4u32,
            AllocationHandleType::Fabric => 8u32,
        }
    }

    /// Returns the bit this handle type occupies in a supported-types mask.
    pub fn as_raw(&self) -> (b: u32)
        ensures
            b == self.spec_bit(),
    {
        match self {
            AllocationHandleType::NoHandle => 0u32,
            AllocationHandleType::PosixFD => 1u32,
            AllocationHandleType::Win32 => 2u32,
            AllocationHandleType::Win32Kmt => 4u32,
            AllocationHandleType::Fabric => 8u32,
        }
    }
}

/// The device attributes this layer consults.
#[derive(Clone, Copy, Debug, PartialEq, Eq, Structural)]
pub enum DeviceAttribute {
    /// The device shares one address space with the host.
    UnifiedAddressing,
    /// The device can access managed memory concurrently with the CPU.
    ConcurrentManagedAccess,
    /// The device can access pageable host memory directly.
    PageableMemoryAccess,
    /// The device supports memory pools.
    MemoryPoolsSupported,
    /// The device supports virtual address management.
    VirtualAddressManagementSupported,
    /// Memory pools may be exported to POSIX file descriptors.
    HandleTypePosixFileDescriptorSupported,
    /// Memory pools may be exported to Win32 handles.
    HandleTypeWin32HandleSupported,
    /// Memory pools may be exported to Win32 KMT handles.
    HandleTypeWin32KmtHandleSupported,
    /// Memory pools may be exported to fabric handles.
    HandleTypeFabricSupported,
    /// The mask of handle types supported by memory pools.
    MempoolSupportedHandleTypes,
}

/// A handle to one device: its ordinal and its capability profile.
#[derive(Clone, Copy, Debug, PartialEq, Eq, Structural)]
pub struct CudaDevice {
    ordinal: i32,
    total_memory: u64,
    unified_addressing: bool,
    concurrent_managed_access: bool,
    pageable_memory_access: bool,
    memory_pools_supported: bool,
    virtual_memory_management_supported: bool,
    mempool_handle_types: u32,
}

impl CudaDevice {
    /// The device's well-formedness: a non-negative ordinal and a total
    /// memory within the layer's address bounds.
    pub closed spec fn wf(self) -> bool {
        &&& self.ordinal >= 0
        &&& self.total_memory <= MAX_TOTAL_MEMORY
        &&& self.mempool_handle_types <= 0xf
    }

    /// The bounds `wf` guarantees, stated over the public view.
    pub proof fn lemma_wf_bounds(self)
        requires
            self.wf(),
        ensures
            self.spec_ordinal() >= 0,
            self.spec_total_memory() <= MAX_TOTAL_MEMORY,
            self.spec_mempool_handle_types() <= 0xf,
    {
    }

    /// The ordinal the device was created from.
    pub closed spec fn spec_ordinal(self) -> i32 {
        self.ordinal
    }

    /// The total memory of the device, in bytes.
    pub closed spec fn spec_total_memory(self) -> u64 {
        self.total_memory
    }

    /// Whether the device shares one address space with the host.
    pub closed spec fn spec_unified_addressing(self) -> bool {
        self.unified_addressing
    }

    /// Whether the device can access managed memory concurrently with the
    /// CPU.  When it cannot, migrating unified memory must go through an
    /// attach-to-stream mechanism instead of a prefetch.
    pub closed spec fn spec_concurrent_managed_access(self) -> bool {
        self.concurrent_managed_access
    }

    /// Whether the device can access pageable host memory directly.
    pub closed spec fn spec_pageable_memory_access(self) -> bool {
        self.pageable_memory_access
    }

    /// Whether the device supports memory pools.
    pub closed spec fn spec_memory_pool_supported(self) -> bool {
        self.memory_pools_supported
    }

    /// Whether the device supports virtual address management.
    pub closed spec fn spec_virtual_memory_management_supported(self) -> bool {
        self.virtual_memory_management_supported
    }

    /// The mask of handle types the device's memory pools may be exported
    /// to.
    pub closed spec fn spec_mempool_handle_types(self) -> u32 {
        self.mempool_handle_types
    }

    /// Creates a handle to the device with the given ordinal, carrying the
    /// default capability profile: 4 GiB of memory, every capability
    /// available, and pools exportable to POSIX file descriptors.  A
    /// negative ordinal names no device and is rejected.
    pub fn new(ordinal: i32) -> (r: CudaResult<Self>)
        ensures
            ordinal >= 0 ==> (r matches Ok(d) && d.wf() && d.spec_ordinal() == ordinal
                && d.spec_total_memory() == DEFAULT_TOTAL_MEMORY && d.spec_unified_addressing()
                && d.spec_concurrent_managed_access() && d.spec_pageable_memory_access()
                && d.spec_memory_pool_supported() && d.spec_virtual_memory_management_supported()
                && d.spec_mempool_handle_types() == AllocationHandleType::PosixFD.spec_bit()),
            ordinal < 0 ==> (r matches Err(e) && e.spec_code() == CUDA_ERROR_INVALID_DEVICE),
    {
        if ordinal < 0 {
            return Err(CudaError::new(CUDA_ERROR_INVALID_DEVICE));
        }
        Ok(
            CudaDevice {
                ordinal,
                total_memory: DEFAULT_TOTAL_MEMORY,
                unified_addressing: true,
                concurrent_managed_access: true,
                pageable_memory_access: true,
                memory_pools_supported: true,
                virtual_memory_management_supported: true,
                mempool_handle_types: AllocationHandleType::PosixFD.as_raw(),
            },
        )
    }

    /// Returns a copy of this device with the given total memory, clamped to
    /// the layer's address bound.
    pub fn with_total_memory(self, total_memory: u64) -> (d: Self)
        requires
            self.wf(),
        ensures
            d.wf(),
            d.spec_total_memory() == (if total_memory <= MAX_TOTAL_MEMORY {
                total_memory
            } else {
                MAX_TOTAL_MEMORY
            }),
            d.spec_ordinal() == self.spec_ordinal(),
            d.spec_unified_addressing() == self.spec_unified_addressing(),
            d.spec_concurrent_managed_access() == self.spec_concurrent_managed_access(),
            d.spec_pageable_memory_access() == self.spec_pageable_memory_access(),
            d.spec_memory_pool_supported() == self.spec_memory_pool_supported(),
            d.spec_virtual_memory_management_supported()
                == self.spec_virtual_memory_management_supported(),
            d.spec_mempool_handle_types() == self.spec_mempool_handle_types(),
    {
        let clamped = if total_memory <= MAX_TOTAL_MEMORY {
            total_memory
        } else {
            MAX_TOTAL_MEMORY
        };
        CudaDevice { total_memory: clamped, ..self }
    }

    /// Returns a copy of this device with concurrent managed access granted
    /// or withheld; a device without it must migrate unified memory by
    /// attaching it to a stream.
    pub fn with_concurrent_managed_access(self, value: bool) -> (d: Self)
        requires
            self.wf(),
        ensures
            d.wf(),
            d.spec_concurrent_managed_access() == value,
            d.spec_ordinal() == self.spec_ordinal(),
            d.spec_total_memory() == self.spec_total_memory(),
            d.spec_unified_addressing() == self.spec_unified_addressing(),
            d.spec_pageable_memory_access() == self.spec_pageable_memory_access(),
            d.spec_memory_pool_supported() == self.spec_memory_pool_supported(),
            d.spec_virtual_memory_management_supported()
                == self.spec_virtual_memory_management_supported(),
            d.spec_mempool_handle_types() == self.spec_mempool_handle_types(),
    {
        CudaDevice { concurrent_managed_access: value, ..self }
    }

    /// Returns the raw device ordinal.
    pub fn as_raw(&self) -> (o: i32)
        ensures
            o == self.spec_ordinal(),
    {
        self.ordinal
    }

    /// Returns the total memory of the device in bytes, as the driver
    /// accounts it.
    pub(crate) fn total_memory_raw(&self) -> (t: u64)
        ensures
            t == self.spec_total_memory(),
    {
        self.total_memory
    }

    /// Returns the total memory of the device, in bytes, clamped to what a
    /// `usize` can carry on this platform.
    pub fn total_memory(&self) -> (r: CudaResult<usize>)
        ensures
            r matches Ok(t) && t == (if self.spec_total_memory() <= usize::MAX {
                self.spec_total_memory() as int
            } else {
                usize::MAX as int
            }),
    {
        let t = self.total_memory;
        if t <= usize::MAX as u64 {
            Ok(t as usize)
        } else {
            Ok(usize::MAX)
        }
    }

    /// The value the device reports for an attribute: booleans as zero or
    /// one, masks as themselves.
    pub open spec fn spec_attribute(self, attr: DeviceAttribute) -> i32 {
        match attr {
            DeviceAttribute::UnifiedAddressing => bool_attr(self.spec_unified_addressing()),
            DeviceAttribute::ConcurrentManagedAccess => bool_attr(
                self.spec_concurrent_managed_access(),
            ),
            DeviceAttribute::PageableMemoryAccess => bool_attr(self.spec_pageable_memory_access()),
            DeviceAttribute::MemoryPoolsSupported => bool_attr(self.spec_memory_pool_supported()),
            DeviceAttribute::VirtualAddressManagementSupported => bool_attr(
                self.spec_virtual_memory_management_supported(),
            ),
            DeviceAttribute::HandleTypePosixFileDescriptorSupported => bool_attr(
                self.spec_mempool_handle_types() & AllocationHandleType::PosixFD.spec_bit() != 0,
            ),
            DeviceAttribute::HandleTypeWin32HandleSupported => bool_attr(
                self.spec_mempool_handle_types() & AllocationHandleType::Win32.spec_bit() != 0,
            ),
            DeviceAttribute::HandleTypeWin32KmtHandleSupported => bool_attr(
                self.spec_mempool_handle_types() & AllocationHandleType::Win32Kmt.spec_bit() != 0,
            ),
            DeviceAttribute::HandleTypeFabricSupported => bool_attr(
                self.spec_mempool_handle_types() & AllocationHandleType::Fabric.spec_bit() != 0,
            ),
            DeviceAttribute::MempoolSupportedHandleTypes => self.spec_mempool_handle_types() as i32,
        }
    }

    /// Queries one attribute of the device.
    pub fn attribute(&self, attr: DeviceAttribute) -> (r: CudaResult<i32>)
        requires
            self.wf(),
        ensures
            r matches Ok(v) && v == self.spec_attribute(attr),
    {
        let v: i32 = match attr {
            DeviceAttribute::UnifiedAddressing => if self.unified_addressing {
                1
            } else {
                0
            },
            DeviceAttribute::ConcurrentManagedAccess => if self.concurrent_managed_access {
                1
            } else {
                0
            },
            DeviceAttribute::PageableMemoryAccess => if self.pageable_memory_access {
                1
            } else {
                0
            },
            DeviceAttribute::MemoryPoolsSupported => if self.memory_pools_supported {
                1
            } else {
                0
            },
            DeviceAttribute::VirtualAddressManagementSupported => if self
                .virtual_memory_management_supported {
                1
            } else {
                0
            },
            DeviceAttribute::HandleTypePosixFileDescriptorSupported => if self.mempool_handle_types
                & 1 != 0 {
                1
            } else {
                0
            },
            DeviceAttribute::HandleTypeWin32HandleSupported => if self.mempool_handle_types & 2
                != 0 {
                1
            } else {
                0
            },
            DeviceAttribute::HandleTypeWin32KmtHandleSupported => if self.mempool_handle_types & 4
                != 0 {
                1
            } else {
                0
            },
            DeviceAttribute::HandleTypeFabricSupported => if self.mempool_handle_types & 8 != 0 {
                1
            } else {
                0
            },
            DeviceAttribute::MempoolSupportedHandleTypes => {
                let m = self.mempool_handle_types;
                proof {
                    assert(m <= 0xf ==> m as i32 == m) by (bit_vector);
                }
                #[verifier::truncate]
                (m as i32)
            },
        };
        Ok(v)
    }

    /// Whether the device shares one address space with the host.
    pub fn unified_addressing(&self) -> (r: CudaResult<bool>)
        requires
            self.wf(),
        ensures
            r matches Ok(b) && b == self.spec_unified_addressing(),
    {
        Ok(self.unified_addressing)
    }

    /// Whether the device can access managed memory concurrently with the
    /// CPU.  When this is `false`, unified memory is not prefetchable and
    /// migration goes through an attach-to-stream mechanism.
    pub fn concurrent_managed_access(&self) -> (r: CudaResult<bool>)
        requires
            self.wf(),
        ensures
            r matches Ok(b) && b == self.spec_concurrent_managed_access(),
    {
        Ok(self.concurrent_managed_access)
    }

    /// Whether the device can access pageable host memory directly.
    pub fn pageable_memory_access(&self) -> (r: CudaResult<bool>)
        requires
            self.wf(),
        ensures
            r matches Ok(b) && b == self.spec_pageable_memory_access(),
    {
        Ok(self.pageable_memory_access)
    }

    /// Whether the device supports memory pools.
    pub fn memory_pool_supported(&self) -> (r: CudaResult<bool>)
        requires
            self.wf(),
        ensures
            r matches Ok(b) && b == self.spec_memory_pool_supported(),
    {
        Ok(self.memory_pools_supported)
    }

    /// Whether the device supports virtual address management.
    pub fn virtual_memory_management_supported(&self) -> (r: CudaResult<bool>)
        requires
            self.wf(),
        ensures
            r matches Ok(b) && b == self.spec_virtual_memory_management_supported(),
    {
        Ok(self.virtual_memory_management_supported)
    }

    /// Whether the device's memory pools can be exported to the given kind
    /// of OS handle.  The kind `None` is always supported; unknown kinds are
    /// answered from the supported-types mask.
    pub fn handle_type_supported(&self, handle_type: AllocationHandleType) -> (r: CudaResult<bool>)
        requires
            self.wf(),
        ensures
            r matches Ok(b) && b == (handle_type is NoHandle || self.spec_mempool_handle_types()
                & handle_type.spec_bit() != 0),
    {
        match handle_type {
            AllocationHandleType::NoHandle => Ok(true),
            _ => Ok(self.mempool_handle_types & handle_type.as_raw() != 0),
        }
    }

    /// Returns the kinds of OS handle the device's memory pools may be
    /// exported to, one entry for each bit set in the supported-types mask;
    /// when none is supported the answer is exactly `[NoHandle]`.
    pub fn mempool_supported_handle_types(&self) -> (r: CudaResult<Vec<AllocationHandleType>>)
        requires
            self.wf(),
        ensures
            r matches Ok(ts) && ts@ == spec_handle_types(self.spec_mempool_handle_types()),
    {
        let flags = self.mempool_handle_types;
        let mut types: Vec<AllocationHandleType> = Vec::new();

        if flags & 1 != 0 {
            types.push(AllocationHandleType::PosixFD);
        }
        if flags & 2 != 0 {
            types.push(AllocationHandleType::Win32);
        }
        if flags & 4 != 0 {
            types.push(AllocationHandleType::Win32Kmt);
        }
        if flags & 8 != 0 {
            types.push(AllocationHandleType::Fabric);
        }
        if types.len() == 0 {
            types.push(AllocationHandleType::NoHandle);
        }

        proof {
            assert(types@ =~= spec_handle_types(flags));
        }
        Ok(types)
    }
}

/// The kinds of OS handle a supported-types mask names, in bit order; when
/// the mask names none, exactly `[NoHandle]`.
pub open spec fn spec_handle_types(flags: u32) -> Seq<AllocationHandleType> {
    let listed = (if flags & 1u32 != 0 {
        seq![AllocationHandleType::PosixFD]
    } else {
        Seq::empty()
    }) + (if flags & 2u32 != 0 {
        seq![AllocationHandleType::Win32]
    } else {
        Seq::empty()
    }) + (if flags & 4u32 != 0 {
        seq![AllocationHandleType::Win32Kmt]
    } else {
        Seq::empty()
    }) + (if flags & 8u32 != 0 {
        seq![AllocationHandleType::Fabric]
    } else {
        Seq::empty()
    });
    if listed.len() == 0 {
        seq![AllocationHandleType::NoHandle]
    } else {
        listed
    }
}

/// Renders a boolean attribute the way the driver does: one or zero.
pub open spec fn bool_attr(b: bool) -> i32 {
    if b {
        1
    } else {
        0
    }
}

} // verus!
