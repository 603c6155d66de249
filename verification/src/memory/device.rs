//! Untyped device memory: a byte allocation owned through a device pointer
//! that knows its size.

use vstd::prelude::*;

use crate::context::{
    alloc_contrib, can_alloc, ctx_counters_unchanged, device_pred, fresh_alloc, pool_after_free,
    retired_alloc, AddressSpace, CudaContext,
};
use crate::error::{CudaError, CudaResult, CUDA_ERROR_INVALID_VALUE, CUDA_ERROR_OUT_OF_MEMORY};
use crate::memory::{
    spec_pitch_for, CudaPointer, DeviceAccessible, DeviceAllocated, DevicePtr, PITCH_ALIGN,
};
use crate::device::MAX_TOTAL_MEMORY;

verus! {

/// A device pointer together with the size of the allocation it owns, as
/// the driver reports it for the address range.
#[derive(Debug)]
pub struct CudaDevicePointer {
    pub(crate) inner: DevicePtr,
    pub(crate) size: usize,
}

impl CudaDevicePointer {
    /// The allocation the pointer owns.
    pub open(crate) spec fn spec_id(&self) -> int {
        self.inner.spec_id()
    }

    /// The size of the allocation in bytes.
    pub open(crate) spec fn spec_size(&self) -> int {
        self.size as int
    }

    /// Returns the size of the allocation's address range, as the driver
    /// recorded it.
    pub fn len(&self) -> (r: CudaResult<usize>)
        ensures
            r matches Ok(n) && n == self.spec_size(),
    {
        Ok(self.size)
    }
}

/// An owning handle to one untyped device allocation, freed synchronously
/// by the consuming [`CudaDeviceMemory::free`].
#[derive(Debug)]
pub struct CudaDeviceMemory {
    pub(crate) ptr: CudaDevicePointer,
}

/// Whether the handle owns a live allocation of the context, of exactly its
/// recorded size.
pub open spec fn device_memory_valid(m: &CudaDeviceMemory, ctx: CudaContext) -> bool {
    &&& ctx.alloc_live(m.spec_id())
    &&& ctx.alloc_size(m.spec_id()) == m.spec_size()
}

impl CudaDeviceMemory {
    /// The allocation the handle owns.
    pub open(crate) spec fn spec_id(&self) -> int {
        self.ptr.spec_id()
    }

    /// The allocation's size in bytes.
    pub open(crate) spec fn spec_size(&self) -> int {
        self.ptr.spec_size()
    }

    /// Allocates `bytesize` zero-initialized bytes of plain device memory.
    /// Succeeds exactly when [`can_alloc`] grants the size from the
    /// device's plain memory; on failure the context is untouched.
    pub fn allocate(ctx: &mut CudaContext, bytesize: usize) -> (r: CudaResult<Self>)
        requires
            old(ctx).wf(),
        ensures
            final(ctx).wf(),
            ctx_counters_unchanged(*old(ctx), *final(ctx)),
            final(ctx).pools() == old(ctx).pools(),
            !can_alloc(*old(ctx), bytesize as int, AddressSpace::Device, None) ==> (r matches Err(
                e,
            ) && e.spec_code() == CUDA_ERROR_OUT_OF_MEMORY && *final(ctx) == *old(ctx)),
            can_alloc(*old(ctx), bytesize as int, AddressSpace::Device, None) ==> (r matches Ok(m)
                && m.spec_id() == old(ctx).alloc_count() && m.spec_size() == bytesize
                && final(ctx).allocs() == old(ctx).allocs().push(
                fresh_alloc(bytesize as int, AddressSpace::Device, None, false, 0),
            ) && final(ctx).spec_mem_used() == old(ctx).spec_mem_used() + bytesize),
    {
        match ctx.alloc_raw(bytesize, AddressSpace::Device, None, 0) {
            Ok(id) => Ok(
                CudaDeviceMemory {
                    ptr: CudaDevicePointer { inner: DevicePtr::new(id), size: bytesize },
                },
            ),
            Err(e) => Err(e),
        }
    }

    /// Allocates a two-dimensional region of `width * element_size` bytes
    /// per row over `height` rows, each row padded to the pitch alignment,
    /// and returns the handle together with the pitch.  On success the
    /// pitch is aligned, at least the byte width of a row, and the
    /// allocation's size is exactly the pitch times the height.
    pub fn alloc_with_pitch(ctx: &mut CudaContext, width: usize, height: usize, element_size: u32)
        -> (r: CudaResult<(Self, usize)>)
        requires
            old(ctx).wf(),
        ensures
            final(ctx).wf(),
            ctx_counters_unchanged(*old(ctx), *final(ctx)),
            final(ctx).pools() == old(ctx).pools(),
            r matches Ok(mp) ==> {
                let (m, pitch) = mp;
                &&& pitch == spec_pitch_for(width * element_size)
                &&& pitch >= width * element_size
                &&& (pitch as int) % (PITCH_ALIGN as int) == 0
                &&& m.spec_size() == pitch * height
                &&& m.spec_id() == old(ctx).alloc_count()
                &&& final(ctx).allocs() == old(ctx).allocs().push(
                    fresh_alloc(pitch * height, AddressSpace::Device, None, false, 0),
                )
                &&& final(ctx).spec_mem_used() == old(ctx).spec_mem_used() + pitch * height
            },
            r is Err ==> *final(ctx) == *old(ctx),
            width * element_size + PITCH_ALIGN <= usize::MAX && spec_pitch_for(
                width * element_size,
            ) * height <= usize::MAX && can_alloc(
                *old(ctx),
                spec_pitch_for(width * element_size) * height,
                AddressSpace::Device,
                None,
            ) ==> r is Ok,
    {
        let wbytes = match width.checked_mul(element_size as usize) {
            Some(b) => b,
            None => {
                return Err(CudaError::new(CUDA_ERROR_INVALID_VALUE));
            },
        };
        if wbytes > usize::MAX - PITCH_ALIGN {
            return Err(CudaError::new(CUDA_ERROR_INVALID_VALUE));
        }
        let pitch = ((wbytes + (PITCH_ALIGN - 1)) / PITCH_ALIGN) * PITCH_ALIGN;
        proof {
            crate::memory::lemma_pitch_bounds(wbytes as int);
        }
        let bytesize = match pitch.checked_mul(height) {
            Some(b) => b,
            None => {
                return Err(CudaError::new(CUDA_ERROR_INVALID_VALUE));
            },
        };
        match ctx.alloc_raw(bytesize, AddressSpace::Device, None, 0) {
            Ok(id) => Ok(
                (
                    CudaDeviceMemory {
                        ptr: CudaDevicePointer { inner: DevicePtr::new(id), size: bytesize },
                    },
                    pitch,
                ),
            ),
            Err(e) => Err(e),
        }
    }

    /// Returns the allocation's size in bytes.
    pub fn len(&self) -> (n: usize)
        ensures
            n == self.spec_size(),
    {
        self.ptr.size
    }

    /// Deallocates the memory through the driver: exactly one deallocation
    /// call is issued and ownership is consumed.
    pub fn free(self, ctx: &mut CudaContext) -> (r: CudaResult<()>)
        requires
            old(ctx).wf(),
            device_memory_valid(&self, *old(ctx)),
        ensures
            final(ctx).wf(),
            r is Ok,
            final(ctx).spec_free_count() == old(ctx).spec_free_count() + 1,
            final(ctx).spec_device() == old(ctx).spec_device(),
            final(ctx).spec_streams() == old(ctx).spec_streams(),
            final(ctx).allocs() == old(ctx).allocs().update(
                self.spec_id(),
                retired_alloc(old(ctx).allocs()[self.spec_id()]),
            ),
            final(ctx).spec_mem_used() == old(ctx).spec_mem_used() - alloc_contrib(
                old(ctx).allocs()[self.spec_id()],
                device_pred(),
            ),
            match old(ctx).allocs()[self.spec_id()].pool {
                Some(p) => final(ctx).pools() == old(ctx).pools().update(
                    p,
                    pool_after_free(old(ctx).pools()[p], old(ctx).alloc_size(self.spec_id())),
                ),
                None => final(ctx).pools() == old(ctx).pools(),
            },
    {
        let id = self.ptr.inner.alloc_id();
        ctx.kill_raw(id, true);
        Ok(())
    }
}

} // verus!
