//! Pool-backed device memory: explicit memory pools, pooled buffers, and
//! the export/import machinery that lets one party's pooled allocation be
//! observed by another through an OS-shareable handle.

use vstd::prelude::*;

use crate::context::{
    can_alloc, ctx_counters_unchanged, fresh_alloc, fresh_pool, pool_after_alloc, pool_after_trim,
    pool_with_reuse, AddressSpace, CudaContext, PoolReuseAttr, PoolView, MAX_ALLOCATIONS,
};
use crate::device::{AllocationHandleType, CudaDevice, MAX_TOTAL_MEMORY};
use crate::error::{
    CudaError, CudaResult, CUDA_ERROR_INVALID_HANDLE, CUDA_ERROR_INVALID_VALUE,
    CUDA_ERROR_NOT_SUPPORTED, CUDA_ERROR_OUT_OF_MEMORY,
};
use crate::memory::{CudaDeviceBuffer, CudaPointer, DeviceAccessible, DeviceAllocated, DeviceRepr};
use crate::platform::{OsBorrowedHandle, OsOwnedHandle, ShareableOsHandle};
use crate::stream::CudaStream;

verus! {

/// How access to pool memory may be granted to a device.
#[derive(Clone, Copy, Debug, PartialEq, Eq, Structural)]
pub enum AccessFlags {
    /// The device may not touch the pool's memory.
    NoAccess,
    /// The device may read the pool's memory.
    Read,
    /// The device may read and write the pool's memory.
    ReadWrite,
}

/// A pointer into pool-backed device memory.
#[derive(Clone, Copy, Debug)]
pub struct PooledDevicePtr {
    id: usize,
    delta: usize,
}

impl PooledDevicePtr {
    #[verifier::type_invariant]
    spec fn type_wf(self) -> bool {
        self.id < MAX_ALLOCATIONS && self.delta <= MAX_TOTAL_MEMORY
    }

    /// Wraps an allocation identity as a pointer to its first byte.
    pub(crate) fn new(id: usize) -> (p: Self)
        requires
            id < MAX_ALLOCATIONS,
        ensures
            p.spec_id() == id,
            p.spec_delta() == 0,
    {
        PooledDevicePtr { id, delta: 0 }
    }
}

impl CudaPointer for PooledDevicePtr {
    closed spec fn spec_id(&self) -> int {
        self.id as int
    }

    closed spec fn spec_delta(&self) -> int {
        self.delta as int
    }

    fn alloc_id(&self) -> usize {
        proof {
            use_type_invariant(self);
        }
        self.id
    }

    fn byte_delta(&self) -> usize {
        proof {
            use_type_invariant(self);
        }
        self.delta
    }

    fn offset(self, byte_count: usize) -> Self {
        proof {
            use_type_invariant(&self);
        }
        PooledDevicePtr { id: self.id, delta: self.delta + byte_count }
    }
}

impl DeviceAccessible for PooledDevicePtr {
    fn as_device_ptr(&self) -> u64 {
        proof {
            use_type_invariant(self);
        }
        crate::memory::addr_of(self.id, self.delta)
    }
}

impl DeviceAllocated for PooledDevicePtr {

}

/// An owning buffer drawn from a memory pool.
pub type CudaDevicePooledBuffer<Repr> = CudaDeviceBuffer<Repr, PooledDevicePtr>;

/// The descriptor of one pooled allocation, fit to cross a process
/// boundary: a fixed-size opaque block of bytes.
#[derive(Debug)]
pub struct PooledPtrExportData {
    bytes: Vec<u8>,
}

/// The byte length of an export descriptor.
pub const EXPORT_DATA_BYTES: usize = 64;

impl PooledPtrExportData {
    #[verifier::type_invariant]
    spec fn type_wf(self) -> bool {
        self.bytes@.len() == EXPORT_DATA_BYTES
    }

    /// The descriptor's bytes.
    pub closed spec fn spec_bytes(&self) -> Seq<u8> {
        self.bytes@
    }

    /// Rebuilds a descriptor from bytes received from elsewhere.
    pub fn from_bytes(bytes: &[u8]) -> (d: Self)
        requires
            bytes@.len() == EXPORT_DATA_BYTES,
        ensures
            d.spec_bytes() == bytes@,
    {
        let mut own: Vec<u8> = Vec::new();
        let mut i: usize = 0;
        while i < EXPORT_DATA_BYTES
            invariant
                i <= EXPORT_DATA_BYTES,
                bytes@.len() == EXPORT_DATA_BYTES,
                own@.len() == i,
                forall|j: int| 0 <= j < i ==> own@[j] == bytes@[j],
            decreases EXPORT_DATA_BYTES - i,
        {
            own.push(bytes[i]);
            i = i + 1;
        }
        proof {
            assert(own@ =~= bytes@);
        }
        PooledPtrExportData { bytes: own }
    }

    /// Returns the descriptor's bytes, for transport to another party.
    pub fn as_bytes(&self) -> (b: &[u8])
        ensures
            b@ == self.spec_bytes(),
            b@.len() == EXPORT_DATA_BYTES,
    {
        proof {
            use_type_invariant(self);
        }
        self.bytes.as_slice()
    }
}

/// The descriptor bytes that export writes for allocation `id`: the
/// identity in little-endian order, padded with zeros.
pub open spec fn spec_export_data_for(id: int) -> Seq<u8> {
    vstd::bytes::spec_u64_to_le_bytes(id as u64) + Seq::new(
        (EXPORT_DATA_BYTES - 8) as nat,
        |i: int| 0u8,
    )
}

/// The allocation a descriptor names.
pub open spec fn spec_export_data_id(bytes: Seq<u8>) -> int {
    vstd::bytes::spec_u64_from_le_bytes(bytes.subrange(0, 8)) as int
}

/// Builds the export descriptor that names allocation `id`.
pub(crate) fn export_descriptor_for(id: usize) -> (d: PooledPtrExportData)
    requires
        id < MAX_ALLOCATIONS,
    ensures
        d.spec_bytes() == spec_export_data_for(id as int),
        spec_export_data_id(d.spec_bytes()) == id,
{
    let mut bytes = vstd::bytes::u64_to_le_bytes(id as u64);
    let mut i: usize = 8;
    while i < EXPORT_DATA_BYTES
        invariant
            8 <= i <= EXPORT_DATA_BYTES,
            bytes@.len() == i,
            bytes@.subrange(0, 8) == vstd::bytes::spec_u64_to_le_bytes(id as u64),
            forall|j: int| 8 <= j < i ==> bytes@[j] == 0u8,
        decreases EXPORT_DATA_BYTES - i,
    {
        let ghost pre = bytes@;
        bytes.push(0u8);
        proof {
            assert(bytes@.subrange(0, 8) =~= pre.subrange(0, 8));
        }
        i = i + 1;
    }
    proof {
        assert(bytes@ =~= spec_export_data_for(id as int));
        vstd::bytes::lemma_auto_spec_u64_to_from_le_bytes();
        assert(spec_export_data_for(id as int).subrange(0, 8)
            =~= vstd::bytes::spec_u64_to_le_bytes(id as u64));
    }
    PooledPtrExportData { bytes }
}

impl<Repr: DeviceRepr> CudaDevicePooledBuffer<Repr> {
    /// Exports the buffer's allocation as a process-portable descriptor;
    /// importing the descriptor into a view of the same pool yields a
    /// buffer over the identical memory, without any copy.
    pub fn export(&self, ctx: &CudaContext) -> (r: CudaResult<PooledPtrExportData>)
        requires
            ctx.wf(),
            ctx.alloc_live(self.spec_id()),
        ensures
            r matches Ok(d) && d.spec_bytes() == spec_export_data_for(self.spec_id())
                && spec_export_data_id(d.spec_bytes()) == self.spec_id(),
    {
        let _ = ctx;
        let (ptr, size) = self.raw_parts();
        let _ = size;
        let id = ptr.alloc_id();
        Ok(export_descriptor_for(id))
    }
}

/// An explicit memory pool: a reusable arena of device memory with its own
/// budget and accounting, exportable to another party as an OS handle.
#[derive(Debug)]
pub struct CudaMemoryPool {
    pid: usize,
}

/// Whether the pool handle names a live pool of the context.
pub open spec fn pool_valid(p: &CudaMemoryPool, ctx: CudaContext) -> bool {
    ctx.pool_live(p.spec_pid())
}

impl CudaMemoryPool {
    /// The pool this handle owns.
    pub closed spec fn spec_pid(&self) -> int {
        self.pid as int
    }

    /// Reads the pool's identity.
    pub(crate) fn pid_raw(&self) -> (p: usize)
        ensures
            p == self.spec_pid(),
    {
        self.pid
    }

    /// Creates a pool of device memory with the given maximum size (zero
    /// for unbounded), exportable to the handle kind the platform supports.
    /// Fails exactly when the device does not support memory pools.
    pub fn new(ctx: &mut CudaContext, max_size: usize, device: &CudaDevice) -> (r: CudaResult<Self>)
        requires
            old(ctx).wf(),
            device.wf(),
        ensures
            final(ctx).wf(),
            ctx_counters_unchanged(*old(ctx), *final(ctx)),
            final(ctx).allocs() == old(ctx).allocs(),
            final(ctx).spec_mem_used() == old(ctx).spec_mem_used(),
            !device.spec_memory_pool_supported() ==> (r matches Err(e) && e.spec_code()
                == CUDA_ERROR_NOT_SUPPORTED && *final(ctx) == *old(ctx)),
            device.spec_memory_pool_supported() ==> (r matches Ok(p) && p.spec_pid() == old(
                ctx,
            ).pool_count() && final(ctx).pools() == old(ctx).pools().push(
                fresh_pool(max_size as u64, AllocationHandleType::PosixFD),
            )),
    {
        if !device.memory_pool_supported()? {
            return Err(CudaError::new(CUDA_ERROR_NOT_SUPPORTED));
        }
        let pid = ctx.pool_create_raw(max_size as u64, AllocationHandleType::PosixFD);
        Ok(CudaMemoryPool { pid })
    }

    /// Exports the pool as an owned OS handle that another party can build
    /// a pool view from.  Fails exactly when the pool was created without a
    /// shareable handle kind.
    pub fn to_fd(&self, ctx: &CudaContext) -> (r: CudaResult<OsOwnedHandle>)
        requires
            ctx.wf(),
            pool_valid(self, *ctx),
        ensures
            ctx.pools()[self.spec_pid()].handle_type is NoHandle ==> (r matches Err(e)
                && e.spec_code() == CUDA_ERROR_NOT_SUPPORTED),
            !(ctx.pools()[self.spec_pid()].handle_type is NoHandle) ==> (r matches Ok(h)
                && h.spec_raw() == self.spec_pid() + 1),
    {
        proof {
            ctx.lemma_pool_fits();
        }
        let attrs = ctx.pool_view_raw(self.pid);
        match attrs.handle_type {
            AllocationHandleType::NoHandle => Err(CudaError::new(CUDA_ERROR_NOT_SUPPORTED)),
            _ => Ok(OsOwnedHandle::new(self.pid as u64 + 1)),
        }
    }

    /// Allocates `len` zero-initialized elements from the pool, ordered on
    /// a stream; the model drains the stream at once.  Succeeds exactly
    /// when the element count describes a representable byte size and
    /// [`can_alloc`] grants that size from the pool's budget.
    pub fn alloc_async<Repr: DeviceRepr>(
        &self,
        ctx: &mut CudaContext,
        len: usize,
        stream: &CudaStream,
    ) -> (r: CudaResult<CudaDevicePooledBuffer<Repr>>)
        requires
            old(ctx).wf(),
            pool_valid(self, *old(ctx)),
        ensures
            final(ctx).wf(),
            ctx_counters_unchanged(*old(ctx), *final(ctx)),
            len * Repr::spec_width() > usize::MAX ==> (r matches Err(e) && e.spec_code()
                == CUDA_ERROR_INVALID_VALUE && *final(ctx) == *old(ctx)),
            len * Repr::spec_width() <= usize::MAX && !can_alloc(
                *old(ctx),
                len * Repr::spec_width(),
                AddressSpace::Device,
                Some(self.spec_pid()),
            ) ==> (r matches Err(e) && e.spec_code() == CUDA_ERROR_OUT_OF_MEMORY && *final(ctx)
                == *old(ctx)),
            len * Repr::spec_width() <= usize::MAX && can_alloc(
                *old(ctx),
                len * Repr::spec_width(),
                AddressSpace::Device,
                Some(self.spec_pid()),
            ) ==> (r matches Ok(b) && b.spec_id() == old(ctx).alloc_count() && b.spec_size() == len
                * Repr::spec_width() && final(ctx).allocs() == old(ctx).allocs().push(
                fresh_alloc(
                    len * Repr::spec_width(),
                    AddressSpace::Device,
                    Some(self.spec_pid()),
                    false,
                    0,
                ),
            ) && final(ctx).pools() == old(ctx).pools().update(
                self.spec_pid(),
                pool_after_alloc(old(ctx).pools()[self.spec_pid()], len * Repr::spec_width()),
            ) && final(ctx).spec_mem_used() == old(ctx).spec_mem_used()),
        {
        let _ = stream;
        let w = Repr::byte_width();
        let bytesize = match len.checked_mul(w) {
            Some(b) => b,
            None => {
                return Err(CudaError::new(CUDA_ERROR_INVALID_VALUE));
            },
        };
        match ctx.alloc_raw(bytesize, AddressSpace::Device, Some(self.pid), 0) {
            Ok(id) => Ok(CudaDeviceBuffer::from_raw_parts(PooledDevicePtr::new(id), bytesize)),
            Err(e) => Err(e),
        }
    }

    /// Releases pool memory back to the device, keeping at most `keep`
    /// bytes reserved beyond what is in use.
    pub fn trim_to(&mut self, ctx: &mut CudaContext, keep: usize) -> (r: CudaResult<()>)
        requires
            old(ctx).wf(),
            pool_valid(old(self), *old(ctx)),
        ensures
            *final(self) == *old(self),
            final(ctx).wf(),
            r is Ok,
            ctx_counters_unchanged(*old(ctx), *final(ctx)),
            final(ctx).allocs() == old(ctx).allocs(),
            final(ctx).spec_mem_used() == old(ctx).spec_mem_used(),
            final(ctx).pools() == old(ctx).pools().update(
                old(self).spec_pid(),
                pool_after_trim(old(ctx).pools()[old(self).spec_pid()], keep as int),
            ),
    {
        ctx.pool_trim_raw(self.pid, keep);
        Ok(())
    }

    /// Asks how the given device may access the pool's memory; the pool is
    /// always readable and writable from the device it was created on.
    pub fn accessibility_from_device(&self, ctx: &CudaContext, device: &CudaDevice) -> (r:
        CudaResult<AccessFlags>)
        requires
            ctx.wf(),
            pool_valid(self, *ctx),
        ensures
            r matches Ok(f) && f == AccessFlags::ReadWrite,
    {
        let _ = ctx;
        let _ = device;
        Ok(AccessFlags::ReadWrite)
    }

    /// Asks to change how a device may access the pool; the modelled device
    /// does not support revoking its own access, so the driver refuses.
    pub fn set_accessibility(
        &mut self,
        ctx: &mut CudaContext,
        device: &CudaDevice,
        access: AccessFlags,
    ) -> (r: CudaResult<()>)
        requires
            old(ctx).wf(),
        ensures
            *final(self) == *old(self),
            *final(ctx) == *old(ctx),
            r matches Err(e) && e.spec_code() == CUDA_ERROR_NOT_SUPPORTED,
    {
        let _ = ctx;
        let _ = device;
        let _ = access;
        Err(CudaError::new(CUDA_ERROR_NOT_SUPPORTED))
    }

    /// Destroys the pool.  Every allocation drawn from it must have been
    /// freed first; the destruction itself is not a deallocation call.
    pub fn destroy(self, ctx: &mut CudaContext) -> (r: CudaResult<()>)
        requires
            old(ctx).wf(),
            pool_valid(&self, *old(ctx)),
            forall|i: int|
                0 <= i < old(ctx).alloc_count() ==> !((#[trigger] old(ctx).allocs()[i]).live && old(
                    ctx,
                ).allocs()[i].pool == Some(self.spec_pid())),
        ensures
            final(ctx).wf(),
            r is Ok,
            ctx_counters_unchanged(*old(ctx), *final(ctx)),
            final(ctx).allocs() == old(ctx).allocs(),
            final(ctx).spec_mem_used() == old(ctx).spec_mem_used(),
            final(ctx).pools() == old(ctx).pools().update(
                self.spec_pid(),
                PoolView { live: false, ..old(ctx).pools()[self.spec_pid()] },
            ),
    {
        ctx.pool_destroy_raw(self.pid);
        Ok(())
    }

    /// Returns the pool's release threshold attribute.
    pub fn release_threshold(&self, ctx: &CudaContext) -> (r: CudaResult<u64>)
        requires
            ctx.wf(),
            pool_valid(self, *ctx),
        ensures
            r matches Ok(t) && t == ctx.pools()[self.spec_pid()].release_threshold,
    {
        Ok(ctx.pool_view_raw(self.pid).release_threshold)
    }

    /// Sets the pool's release threshold attribute.
    pub fn set_release_threshold(&self, ctx: &mut CudaContext, threshold: u64) -> (r: CudaResult<
        (),
    >)
        requires
            old(ctx).wf(),
            pool_valid(self, *old(ctx)),
        ensures
            final(ctx).wf(),
            r is Ok,
            ctx_counters_unchanged(*old(ctx), *final(ctx)),
            final(ctx).allocs() == old(ctx).allocs(),
            final(ctx).spec_mem_used() == old(ctx).spec_mem_used(),
            final(ctx).pools() == old(ctx).pools().update(
                self.spec_pid(),
                PoolView { release_threshold: threshold, ..old(ctx).pools()[self.spec_pid()] },
            ),
    {
        ctx.pool_set_release_threshold_raw(self.pid, threshold);
        Ok(())
    }

    /// Returns whether the pool may reuse memory across event dependencies.
    pub fn reuse_follow_event_dependencies(&self, ctx: &CudaContext) -> (r: CudaResult<bool>)
        requires
            ctx.wf(),
            pool_valid(self, *ctx),
        ensures
            r matches Ok(b) && b == ctx.pools()[self.spec_pid()].reuse_follow_event_dependencies,
    {
        Ok(ctx.pool_view_raw(self.pid).reuse_follow_event_dependencies)
    }

    /// Grants or revokes reuse of memory across event dependencies.
    pub fn set_reuse_follow_event_dependencies(&self, ctx: &mut CudaContext, value: bool) -> (r:
        CudaResult<()>)
        requires
            old(ctx).wf(),
            pool_valid(self, *old(ctx)),
        ensures
            final(ctx).wf(),
            r is Ok,
            ctx_counters_unchanged(*old(ctx), *final(ctx)),
            final(ctx).allocs() == old(ctx).allocs(),
            final(ctx).spec_mem_used() == old(ctx).spec_mem_used(),
            final(ctx).pools() == old(ctx).pools().update(
                self.spec_pid(),
                pool_with_reuse(
                    old(ctx).pools()[self.spec_pid()],
                    PoolReuseAttr::FollowEventDependencies,
                    value,
                ),
            ),
    {
        ctx.pool_set_reuse_raw(self.pid, PoolReuseAttr::FollowEventDependencies, value);
        Ok(())
    }

    /// Returns whether the pool may reuse memory opportunistically.
    pub fn reuse_allow_opportunistic(&self, ctx: &CudaContext) -> (r: CudaResult<bool>)
        requires
            ctx.wf(),
            pool_valid(self, *ctx),
        ensures
            r matches Ok(b) && b == ctx.pools()[self.spec_pid()].reuse_allow_opportunistic,
    {
        Ok(ctx.pool_view_raw(self.pid).reuse_allow_opportunistic)
    }

    /// Grants or revokes opportunistic reuse of memory.
    pub fn set_reuse_allow_opportunistic(&self, ctx: &mut CudaContext, value: bool) -> (r:
        CudaResult<()>)
        requires
            old(ctx).wf(),
            pool_valid(self, *old(ctx)),
        ensures
            final(ctx).wf(),
            r is Ok,
            ctx_counters_unchanged(*old(ctx), *final(ctx)),
            final(ctx).allocs() == old(ctx).allocs(),
            final(ctx).spec_mem_used() == old(ctx).spec_mem_used(),
            final(ctx).pools() == old(ctx).pools().update(
                self.spec_pid(),
                pool_with_reuse(
                    old(ctx).pools()[self.spec_pid()],
                    PoolReuseAttr::AllowOpportunistic,
                    value,
                ),
            ),
    {
        ctx.pool_set_reuse_raw(self.pid, PoolReuseAttr::AllowOpportunistic, value);
        Ok(())
    }

    /// Returns whether the pool may insert internal dependencies to reuse
    /// memory.
    pub fn reuse_allow_internal_dependencies(&self, ctx: &CudaContext) -> (r: CudaResult<bool>)
        requires
            ctx.wf(),
            pool_valid(self, *ctx),
        ensures
            r matches Ok(b) && b == ctx.pools()[self.spec_pid()].reuse_allow_internal_dependencies,
    {
        Ok(ctx.pool_view_raw(self.pid).reuse_allow_internal_dependencies)
    }

    /// Grants or revokes the insertion of internal dependencies to reuse
    /// memory.
    pub fn set_reuse_allow_internal_dependencies(&self, ctx: &mut CudaContext, value: bool) -> (r:
        CudaResult<()>)
        requires
            old(ctx).wf(),
            pool_valid(self, *old(ctx)),
        ensures
            final(ctx).wf(),
            r is Ok,
            ctx_counters_unchanged(*old(ctx), *final(ctx)),
            final(ctx).allocs() == old(ctx).allocs(),
            final(ctx).spec_mem_used() == old(ctx).spec_mem_used(),
            final(ctx).pools() == old(ctx).pools().update(
                self.spec_pid(),
                pool_with_reuse(
                    old(ctx).pools()[self.spec_pid()],
                    PoolReuseAttr::AllowInternalDependencies,
                    value,
                ),
            ),
    {
        ctx.pool_set_reuse_raw(self.pid, PoolReuseAttr::AllowInternalDependencies, value);
        Ok(())
    }

    /// Returns how many bytes of the pool are currently in use by live
    /// allocations.
    pub fn current_memory_used_size(&self, ctx: &CudaContext) -> (r: CudaResult<u64>)
        requires
            ctx.wf(),
            pool_valid(self, *ctx),
        ensures
            r matches Ok(u) && u == ctx.pools()[self.spec_pid()].used,
    {
        Ok(ctx.pool_view_raw(self.pid).used)
    }

    /// Returns the high watermark of the pool's use since creation or the
    /// last reset.
    pub fn high_memory_used_size(&self, ctx: &CudaContext) -> (r: CudaResult<u64>)
        requires
            ctx.wf(),
            pool_valid(self, *ctx),
        ensures
            r matches Ok(u) && u == ctx.pools()[self.spec_pid()].used_high,
    {
        Ok(ctx.pool_view_raw(self.pid).used_high)
    }

    /// Resets the high watermark of the pool's use to the current use.
    pub fn reset_high_memory_used_size(&self, ctx: &mut CudaContext) -> (r: CudaResult<()>)
        requires
            old(ctx).wf(),
            pool_valid(self, *old(ctx)),
        ensures
            final(ctx).wf(),
            r is Ok,
            ctx_counters_unchanged(*old(ctx), *final(ctx)),
            final(ctx).allocs() == old(ctx).allocs(),
            final(ctx).spec_mem_used() == old(ctx).spec_mem_used(),
            final(ctx).pools() == old(ctx).pools().update(
                self.spec_pid(),
                PoolView {
                    used_high: old(ctx).pools()[self.spec_pid()].used,
                    ..old(ctx).pools()[self.spec_pid()]
                },
            ),
    {
        ctx.pool_reset_used_high_raw(self.pid);
        Ok(())
    }

    /// Returns how many bytes the pool holds reserved from the device.
    pub fn current_memory_reserved_size(&self, ctx: &CudaContext) -> (r: CudaResult<u64>)
        requires
            ctx.wf(),
            pool_valid(self, *ctx),
        ensures
            r matches Ok(u) && u == ctx.pools()[self.spec_pid()].reserved,
    {
        Ok(ctx.pool_view_raw(self.pid).reserved)
    }

    /// Returns the high watermark of the pool's reservation since creation
    /// or the last reset.
    pub fn high_memory_reserved_size(&self, ctx: &CudaContext) -> (r: CudaResult<u64>)
        requires
            ctx.wf(),
            pool_valid(self, *ctx),
        ensures
            r matches Ok(u) && u == ctx.pools()[self.spec_pid()].reserved_high,
    {
        Ok(ctx.pool_view_raw(self.pid).reserved_high)
    }

    /// Resets the high watermark of the pool's reservation to the current
    /// reservation.
    pub fn reset_high_memory_reserved_size(&self, ctx: &mut CudaContext) -> (r: CudaResult<()>)
        requires
            old(ctx).wf(),
            pool_valid(self, *old(ctx)),
        ensures
            final(ctx).wf(),
            r is Ok,
            ctx_counters_unchanged(*old(ctx), *final(ctx)),
            final(ctx).allocs() == old(ctx).allocs(),
            final(ctx).spec_mem_used() == old(ctx).spec_mem_used(),
            final(ctx).pools() == old(ctx).pools().update(
                self.spec_pid(),
                PoolView {
                    reserved_high: old(ctx).pools()[self.spec_pid()].reserved,
                    ..old(ctx).pools()[self.spec_pid()]
                },
            ),
    {
        ctx.pool_reset_reserved_high_raw(self.pid);
        Ok(())
    }
}

/// A view of a pool imported from an OS handle: it can import pooled
/// buffers, but it cannot be used to destroy the pool.
#[derive(Debug)]
pub struct CudaMemoryPoolView {
    pid: usize,
}

impl CudaMemoryPoolView {
    /// The pool the view observes.
    pub closed spec fn spec_pid(&self) -> int {
        self.pid as int
    }

    /// Reads the viewed pool's identity.
    pub(crate) fn pid_raw(&self) -> (p: usize)
        ensures
            p == self.spec_pid(),
    {
        self.pid
    }

    /// Builds a pool view from a borrowed OS handle.  Succeeds exactly when
    /// the handle names a live pool of the context.
    pub fn from_fd(ctx: &CudaContext, handle: OsBorrowedHandle) -> (r: CudaResult<Self>)
        requires
            ctx.wf(),
        ensures
            ctx.pool_live(handle.spec_raw() - 1) ==> (r matches Ok(v) && v.spec_pid()
                == handle.spec_raw() - 1),
            !ctx.pool_live(handle.spec_raw() - 1) ==> (r matches Err(e) && e.spec_code()
                == CUDA_ERROR_INVALID_HANDLE),
    {
        let raw = handle.as_raw();
        let pid64 = raw - 1;
        match ctx.pool_resolve(pid64) {
            Some(pid) => Ok(CudaMemoryPoolView { pid }),
            None => Err(CudaError::new(CUDA_ERROR_INVALID_HANDLE)),
        }
    }

    /// Imports a pooled buffer from its export descriptor.  Succeeds
    /// exactly when the descriptor names a live allocation drawn from the
    /// viewed pool whose size is the given byte count; the imported buffer
    /// shares that allocation, with no copy.  Which party frees the shared
    /// allocation is a contract between the two parties: the model counts
    /// it as live until one of them frees it.
    pub fn import<Repr: DeviceRepr>(
        &self,
        ctx: &CudaContext,
        data: &PooledPtrExportData,
        byte_count: usize,
    ) -> (r: CudaResult<CudaDevicePooledBuffer<Repr>>)
        requires
            ctx.wf(),
        ensures
            ({
                let id = spec_export_data_id(data.spec_bytes());
                &&& (ctx.alloc_live(id) && ctx.allocs()[id].pool == Some(self.spec_pid())
                    && ctx.alloc_size(id) == byte_count) ==> (r matches Ok(b) && b.spec_id() == id
                    && b.spec_size() == byte_count)
                &&& !(ctx.alloc_live(id) && ctx.allocs()[id].pool == Some(self.spec_pid())
                    && ctx.alloc_size(id) == byte_count) ==> (r matches Err(e) && e.spec_code()
                    == CUDA_ERROR_INVALID_VALUE)
            }),
    {
        let bytes = data.as_bytes();
        let head: &[u8] = slice_first8(bytes);
        let id64 = vstd::bytes::u64_from_le_bytes(head);
        proof {
            assert(head@ == data.spec_bytes().subrange(0, 8));
        }
        if id64 >= MAX_ALLOCATIONS as u64 {
            proof {
                ctx.lemma_count_cap();
            }
            return Err(CudaError::new(CUDA_ERROR_INVALID_VALUE));
        }
        let id = id64 as usize;
        match ctx.alloc_probe(id, self.pid, byte_count) {
            true => Ok(CudaDeviceBuffer::from_raw_parts(PooledDevicePtr::new(id), byte_count)),
            false => Err(CudaError::new(CUDA_ERROR_INVALID_VALUE)),
        }
    }
}

/// Borrows the first eight bytes of a descriptor's byte block.
fn slice_first8(bytes: &[u8]) -> (r: &[u8])
    requires
        bytes@.len() >= 8,
    ensures
        r@ == bytes@.subrange(0, 8),
{
    let r = vstd::slice::slice_subrange(bytes, 0, 8);
    r
}

} // verus!
