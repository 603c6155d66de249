//! Stream-ordered device memory: untyped allocations whose allocate and
//! free calls are enqueued on a stream, convertible to and from their
//! synchronous counterpart by transferring ownership of the raw pointer.

use vstd::prelude::*;

use crate::context::{
    alloc_contrib, can_alloc, ctx_counters_unchanged, device_pred, fresh_alloc, pool_after_alloc,
    pool_after_free, retired_alloc, AddressSpace, CudaContext,
};
use crate::error::{CudaError, CudaResult, CUDA_ERROR_INVALID_VALUE, CUDA_ERROR_OUT_OF_MEMORY};
use crate::memory::device::{CudaDevicePointer, CudaDeviceMemory};
use crate::memory::pooled::{
    spec_export_data_id, CudaMemoryPool, CudaMemoryPoolView, PooledPtrExportData,
};
use crate::memory::{CudaPointer, DevicePtr};
use crate::stream::CudaStream;

verus! {

/// The descriptor of a pool-backed allocation, as the stream-ordered API
/// names it.
pub type MemoryPoolExportData = PooledPtrExportData;

/// An owning handle to one untyped device allocation whose lifetime is
/// ordered on a stream.
#[derive(Debug)]
pub struct CudaOrderedMemory {
    ptr: CudaDevicePointer,
    stream_id: u64,
}

/// Whether the handle owns a live allocation of the context, of exactly its
/// recorded size.
pub open spec fn ordered_memory_valid(m: &CudaOrderedMemory, ctx: CudaContext) -> bool {
    &&& ctx.alloc_live(m.spec_id())
    &&& ctx.alloc_size(m.spec_id()) == m.spec_size()
}

impl CudaOrderedMemory {
    /// The allocation the handle owns.
    pub closed spec fn spec_id(&self) -> int {
        self.ptr.spec_id()
    }

    /// The allocation's size in bytes.
    pub closed spec fn spec_size(&self) -> int {
        self.ptr.spec_size()
    }

    /// The stream the handle's lifetime is ordered on.
    pub closed spec fn spec_stream(&self) -> u64 {
        self.stream_id
    }

    /// Allocates `bytesize` zero-initialized bytes of device memory,
    /// ordered on the given stream; the model drains the stream at once.
    /// Succeeds exactly when [`can_alloc`] grants the size from the
    /// device's plain memory.
    pub fn allocate(ctx: &mut CudaContext, bytesize: usize, stream: &CudaStream) -> (r: CudaResult<
        Self,
    >)
        requires
            old(ctx).wf(),
        ensures
            final(ctx).wf(),
            ctx_counters_unchanged(*old(ctx), *final(ctx)),
            final(ctx).pools() == old(ctx).pools(),
            !can_alloc(*old(ctx), bytesize as int, AddressSpace::Device, None) ==> (r matches Err(
                e,
            ) && e.spec_code() == CUDA_ERROR_OUT_OF_MEMORY && *final(ctx) == *old(ctx)),
            can_alloc(*old(ctx), bytesize as int, AddressSpace::Device, None) ==> (r matches Ok(m)
                && m.spec_id() == old(ctx).alloc_count() && m.spec_size() == bytesize
                && m.spec_stream() == stream.spec_id() && final(ctx).allocs() == old(
                ctx,
            ).allocs().push(fresh_alloc(bytesize as int, AddressSpace::Device, None, false, 0))
                && final(ctx).spec_mem_used() == old(ctx).spec_mem_used() + bytesize),
    {
        let sid = match stream.id() {
            Ok(s) => s,
            Err(e) => {
                return Err(e);
            },
        };
        match ctx.alloc_raw(bytesize, AddressSpace::Device, None, 0) {
            Ok(id) => Ok(
                CudaOrderedMemory {
                    ptr: CudaDevicePointer { inner: DevicePtr::new(id), size: bytesize },
                    stream_id: sid,
                },
            ),
            Err(e) => Err(e),
        }
    }

    /// Allocates `bytesize` zero-initialized bytes from an explicit pool,
    /// ordered on the given stream.  Succeeds exactly when [`can_alloc`]
    /// grants the size from the pool's budget.
    pub fn alloc_from_pool(
        ctx: &mut CudaContext,
        bytesize: usize,
        pool: &CudaMemoryPool,
        stream: &CudaStream,
    ) -> (r: CudaResult<Self>)
        requires
            old(ctx).wf(),
            crate::memory::pooled::pool_valid(pool, *old(ctx)),
        ensures
            final(ctx).wf(),
            ctx_counters_unchanged(*old(ctx), *final(ctx)),
            final(ctx).spec_mem_used() == old(ctx).spec_mem_used(),
            !can_alloc(*old(ctx), bytesize as int, AddressSpace::Device, Some(pool.spec_pid()))
                ==> (r matches Err(e) && e.spec_code() == CUDA_ERROR_OUT_OF_MEMORY && *final(ctx)
                == *old(ctx)),
            can_alloc(*old(ctx), bytesize as int, AddressSpace::Device, Some(pool.spec_pid()))
                ==> (r matches Ok(m) && m.spec_id() == old(ctx).alloc_count() && m.spec_size()
                == bytesize && m.spec_stream() == stream.spec_id() && final(ctx).allocs() == old(
                ctx,
            ).allocs().push(
                fresh_alloc(
                    bytesize as int,
                    AddressSpace::Device,
                    Some(pool.spec_pid()),
                    false,
                    0,
                ),
            ) && final(ctx).pools() == old(ctx).pools().update(
                pool.spec_pid(),
                pool_after_alloc(old(ctx).pools()[pool.spec_pid()], bytesize as int),
            )),
    {
        let sid = match stream.id() {
            Ok(s) => s,
            Err(e) => {
                return Err(e);
            },
        };
        let pid = pool.pid_raw();
        match ctx.alloc_raw(bytesize, AddressSpace::Device, Some(pid), 0) {
            Ok(id) => Ok(
                CudaOrderedMemory {
                    ptr: CudaDevicePointer { inner: DevicePtr::new(id), size: bytesize },
                    stream_id: sid,
                },
            ),
            Err(e) => Err(e),
        }
    }

    /// Exports the allocation as a process-portable descriptor.  Succeeds
    /// exactly when the allocation was drawn from a pool.
    pub fn export(&self, ctx: &CudaContext) -> (r: CudaResult<MemoryPoolExportData>)
        requires
            ctx.wf(),
            ordered_memory_valid(self, *ctx),
        ensures
            ctx.allocs()[self.spec_id()].pool is Some ==> (r matches Ok(d) && d.spec_bytes()
                == crate::memory::pooled::spec_export_data_for(self.spec_id())
                && spec_export_data_id(d.spec_bytes()) == self.spec_id()),
            ctx.allocs()[self.spec_id()].pool is None ==> (r matches Err(e) && e.spec_code()
                == CUDA_ERROR_INVALID_VALUE),
    {
        let id = self.ptr.inner.alloc_id();
        if !ctx.alloc_pooled_check(id) {
            return Err(CudaError::new(CUDA_ERROR_INVALID_VALUE));
        }
        Ok(crate::memory::pooled::export_descriptor_for(id))
    }

    /// Imports an allocation from its export descriptor through a pool
    /// view, ordering its lifetime on the given stream.  Succeeds exactly
    /// when the descriptor names a live allocation drawn from the viewed
    /// pool; the imported handle shares that allocation, with no copy.
    pub fn import(
        ctx: &CudaContext,
        pool: &CudaMemoryPoolView,
        data: &MemoryPoolExportData,
        stream: &CudaStream,
    ) -> (r: CudaResult<Self>)
        requires
            ctx.wf(),
        ensures
            ({
                let id = spec_export_data_id(data.spec_bytes());
                &&& (ctx.alloc_live(id) && ctx.allocs()[id].pool == Some(pool.spec_pid())) ==> (
                r matches Ok(m) && m.spec_id() == id && m.spec_size() == ctx.alloc_size(id)
                    && m.spec_stream() == stream.spec_id())
                &&& !(ctx.alloc_live(id) && ctx.allocs()[id].pool == Some(pool.spec_pid())) ==> (
                r matches Err(e) && e.spec_code() == CUDA_ERROR_INVALID_VALUE)
            }),
    {
        let sid = match stream.id() {
            Ok(s) => s,
            Err(e) => {
                return Err(e);
            },
        };
        match ctx.alloc_resolve_pooled(data.as_bytes(), pool.pid_raw()) {
            Some((id, size)) => Ok(
                CudaOrderedMemory {
                    ptr: CudaDevicePointer { inner: DevicePtr::new(id), size },
                    stream_id: sid,
                },
            ),
            None => Err(CudaError::new(CUDA_ERROR_INVALID_VALUE)),
        }
    }

    /// Returns the allocation's size in bytes.
    pub fn len(&self) -> (n: usize)
        ensures
            n == self.spec_size(),
    {
        match self.ptr.len() {
            Ok(n) => n,
            Err(_) => 0,
        }
    }

    /// Transfers ownership of the allocation to a synchronous handle; the
    /// source handle is consumed, no deallocation call is issued, and the
    /// new owner frees the same allocation synchronously later.
    pub fn into_sync(self) -> (m: CudaDeviceMemory)
        ensures
            m.spec_id() == self.spec_id(),
            m.spec_size() == self.spec_size(),
    {
        CudaDeviceMemory { ptr: self.ptr }
    }

    /// Deallocates the memory on its stream: exactly one deallocation call
    /// is issued and ownership is consumed.
    pub fn free(self, ctx: &mut CudaContext) -> (r: CudaResult<()>)
        requires
            old(ctx).wf(),
            ordered_memory_valid(&self, *old(ctx)),
        ensures
            final(ctx).wf(),
            r is Ok,
            final(ctx).spec_free_count() == old(ctx).spec_free_count() + 1,
            final(ctx).spec_device() == old(ctx).spec_device(),
            final(ctx).spec_streams() == old(ctx).spec_streams(),
            final(ctx).allocs() == old(ctx).allocs().update(
                self.spec_id(),
                retired_alloc(old(ctx).allocs()[self.spec_id()]),
            ),
            final(ctx).spec_mem_used() == old(ctx).spec_mem_used() - alloc_contrib(
                old(ctx).allocs()[self.spec_id()],
                device_pred(),
            ),
            match old(ctx).allocs()[self.spec_id()].pool {
                Some(p) => final(ctx).pools() == old(ctx).pools().update(
                    p,
                    pool_after_free(old(ctx).pools()[p], old(ctx).alloc_size(self.spec_id())),
                ),
                None => final(ctx).pools() == old(ctx).pools(),
            },
    {
        let id = self.ptr.inner.alloc_id();
        ctx.kill_raw(id, true);
        Ok(())
    }
}

impl CudaDeviceMemory {
    /// Transfers ownership of the allocation to a stream-ordered handle;
    /// the source handle is consumed, no deallocation call is issued, and
    /// the new owner frees the same allocation on its stream later.
    pub fn into_async(self, stream: &CudaStream) -> (m: CudaOrderedMemory)
        ensures
            m.spec_id() == self.spec_id(),
            m.spec_size() == self.spec_size(),
            m.spec_stream() == stream.spec_id(),
    {
        let sid = match stream.id() {
            Ok(s) => s,
            Err(_) => 0,
        };
        CudaOrderedMemory { ptr: self.ptr, stream_id: sid }
    }
}

} // verus!
