//! Unified (managed) memory: one allocation addressable from the host and
//! the device, migrated between them by prefetch hints or, on devices
//! without concurrent managed access, by attaching the memory to a stream.

use vstd::prelude::*;

use crate::context::{
    can_alloc, ctx_counters_unchanged, fresh_alloc, migrated_alloc, AddressSpace, CudaContext,
    ManagedLocation, MAX_ALLOCATIONS,
};
use crate::device::MAX_TOTAL_MEMORY;
use crate::error::{CudaError, CudaResult, CUDA_ERROR_INVALID_VALUE, CUDA_ERROR_OUT_OF_MEMORY};
use crate::memory::{
    slice_alloc, slice_valid, CudaDeviceBuffer, CudaDeviceSlice, CudaDeviceSliceMut, CudaHostSlice,
    CudaHostSliceMut, CudaPointer, CudaSliceAccess, DeviceAccessible, DeviceAllocated,
    DeviceManaged, DeviceRepr, HostAccessible,
};
use crate::stream::CudaStream;

verus! {

/// How a unified allocation is attached to the work that may touch it.
#[derive(Clone, Copy, Debug, PartialEq, Eq, Structural)]
pub enum MemoryAttachFlags {
    /// The memory is accessible from any stream on any device.
    Global,
    /// The memory is accessible from the host only.
    Host,
    /// The memory is accessible from a single stream.
    Single,
}

/// A pointer into unified memory, dereferenceable from both sides.
#[derive(Clone, Copy, Debug)]
pub struct UnifiedDevicePtr {
    id: usize,
    delta: usize,
}

impl UnifiedDevicePtr {
    #[verifier::type_invariant]
    spec fn type_wf(self) -> bool {
        self.id < MAX_ALLOCATIONS && self.delta <= MAX_TOTAL_MEMORY
    }

    /// Wraps an allocation identity as a pointer to its first byte.
    pub(crate) fn new(id: usize) -> (p: Self)
        requires
            id < MAX_ALLOCATIONS,
        ensures
            p.spec_id() == id,
            p.spec_delta() == 0,
    {
        UnifiedDevicePtr { id, delta: 0 }
    }
}

impl CudaPointer for UnifiedDevicePtr {
    closed spec fn spec_id(&self) -> int {
        self.id as int
    }

    closed spec fn spec_delta(&self) -> int {
        self.delta as int
    }

    fn alloc_id(&self) -> usize {
        proof {
            use_type_invariant(self);
        }
        self.id
    }

    fn byte_delta(&self) -> usize {
        proof {
            use_type_invariant(self);
        }
        self.delta
    }

    fn offset(self, byte_count: usize) -> Self {
        proof {
            use_type_invariant(&self);
        }
        UnifiedDevicePtr { id: self.id, delta: self.delta + byte_count }
    }
}

impl DeviceAccessible for UnifiedDevicePtr {
    fn as_device_ptr(&self) -> u64 {
        proof {
            use_type_invariant(self);
        }
        crate::memory::addr_of(self.id, self.delta)
    }
}

impl HostAccessible for UnifiedDevicePtr {
    fn as_host_ptr(&self) -> u64 {
        proof {
            use_type_invariant(self);
        }
        crate::memory::addr_of(self.id, self.delta)
    }
}

impl DeviceAllocated for UnifiedDevicePtr {

}

impl DeviceManaged for UnifiedDevicePtr {

}

/// Non-binding placement and usage hints for unified memory.
#[derive(Clone, Copy, Debug, PartialEq, Eq, Structural)]
pub enum Advice {
    /// The memory will mostly be read.
    SetReadMostly,
    /// Withdraw the read-mostly hint.
    UnsetReadMostly,
    /// Prefer keeping the memory at the given location.
    SetPreferredLocation,
    /// Withdraw the preferred-location hint.
    UnsetPreferredLocation,
    /// The given location will access the memory.
    SetAccessedBy,
    /// Withdraw the accessed-by hint.
    UnsetAccessedBy,
}

/// An owning buffer of unified memory.
pub type CudaDeviceUnifiedBuffer<Repr> = CudaDeviceBuffer<Repr, UnifiedDevicePtr>;

impl<Repr: DeviceRepr> CudaDeviceUnifiedBuffer<Repr> {
    /// Records a non-binding placement or usage hint for the allocation.
    /// Hints never change what the memory holds, so the model accepts and
    /// discards them.
    pub fn advise(&self, ctx: &CudaContext, advice: Advice, location: ManagedLocation) -> (r:
        CudaResult<()>)
        requires
            ctx.wf(),
            ctx.alloc_live(self.spec_id()),
        ensures
            r is Ok,
    {
        let _ = ctx;
        let _ = advice;
        let _ = location;
        Ok(())
    }
}

impl<Repr: DeviceRepr> CudaDeviceUnifiedBuffer<Repr> {
    /// Allocates `len` zero-initialized elements of unified memory,
    /// accessible from any stream on any device.
    pub fn alloc_unified(ctx: &mut CudaContext, len: usize) -> (r: CudaResult<Self>)
        requires
            old(ctx).wf(),
        ensures
            final(ctx).wf(),
            ctx_counters_unchanged(*old(ctx), *final(ctx)),
            final(ctx).pools() == old(ctx).pools(),
            final(ctx).spec_mem_used() == old(ctx).spec_mem_used(),
            len * Repr::spec_width() > usize::MAX ==> (r matches Err(e) && e.spec_code()
                == CUDA_ERROR_INVALID_VALUE && *final(ctx) == *old(ctx)),
            len * Repr::spec_width() <= usize::MAX && !can_alloc(
                *old(ctx),
                len * Repr::spec_width(),
                AddressSpace::Unified,
                None,
            ) ==> (r matches Err(e) && e.spec_code() == CUDA_ERROR_OUT_OF_MEMORY && *final(ctx)
                == *old(ctx)),
            len * Repr::spec_width() <= usize::MAX && can_alloc(
                *old(ctx),
                len * Repr::spec_width(),
                AddressSpace::Unified,
                None,
            ) ==> (r matches Ok(b) && b.spec_id() == old(ctx).alloc_count() && b.spec_size() == len
                * Repr::spec_width() && final(ctx).allocs() == old(ctx).allocs().push(
                fresh_alloc(len * Repr::spec_width(), AddressSpace::Unified, None, false, 0),
            )),
    {
        Self::alloc_unified_with_flags(ctx, len, MemoryAttachFlags::Global)
    }

    /// Allocates `len` zero-initialized elements of unified memory with the
    /// given attachment.
    pub fn alloc_unified_with_flags(
        ctx: &mut CudaContext,
        len: usize,
        flags: MemoryAttachFlags,
    ) -> (r: CudaResult<Self>)
        requires
            old(ctx).wf(),
        ensures
            final(ctx).wf(),
            ctx_counters_unchanged(*old(ctx), *final(ctx)),
            final(ctx).pools() == old(ctx).pools(),
            final(ctx).spec_mem_used() == old(ctx).spec_mem_used(),
            len * Repr::spec_width() > usize::MAX ==> (r matches Err(e) && e.spec_code()
                == CUDA_ERROR_INVALID_VALUE && *final(ctx) == *old(ctx)),
            len * Repr::spec_width() <= usize::MAX && !can_alloc(
                *old(ctx),
                len * Repr::spec_width(),
                AddressSpace::Unified,
                None,
            ) ==> (r matches Err(e) && e.spec_code() == CUDA_ERROR_OUT_OF_MEMORY && *final(ctx)
                == *old(ctx)),
            len * Repr::spec_width() <= usize::MAX && can_alloc(
                *old(ctx),
                len * Repr::spec_width(),
                AddressSpace::Unified,
                None,
            ) ==> (r matches Ok(b) && b.spec_id() == old(ctx).alloc_count() && b.spec_size() == len
                * Repr::spec_width() && final(ctx).allocs() == old(ctx).allocs().push(
                fresh_alloc(len * Repr::spec_width(), AddressSpace::Unified, None, false, 0),
            )),
    {
        let _ = flags;
        let w = Repr::byte_width();
        let bytesize = match len.checked_mul(w) {
            Some(b) => b,
            None => {
                return Err(CudaError::new(CUDA_ERROR_INVALID_VALUE));
            },
        };
        match ctx.alloc_raw(bytesize, AddressSpace::Unified, None, 0) {
            Ok(id) => Ok(Self::from_raw_parts(UnifiedDevicePtr::new(id), bytesize)),
            Err(e) => Err(e),
        }
    }
}

/// What a prefetch of allocation `id` toward `location` does to the
/// context: only the allocation's residence and attachment change; its
/// bytes and everything else stay as they were.
pub open spec fn prefetch_effect(
    pre: CudaContext,
    post: CudaContext,
    id: int,
    location: ManagedLocation,
    attached: Option<int>,
) -> bool {
    &&& post.allocs() == pre.allocs().update(
        id,
        migrated_alloc(pre.allocs()[id], location, attached),
    )
    &&& post.pools() == pre.pools()
    &&& post.spec_mem_used() == pre.spec_mem_used()
    &&& ctx_counters_unchanged(pre, post)
}

/// The attachment a migration records: none when the device supports
/// concurrent managed access and the move went through a prefetch, or the
/// stream the memory was attached to otherwise.
pub open spec fn migration_attachment(ctx: CudaContext, stream: &CudaStream) -> Option<int> {
    if ctx.spec_device().spec_concurrent_managed_access() {
        None
    } else {
        Some(stream.spec_id() as int)
    }
}

/// Migrates a unified slice's allocation toward the given residence, by
/// prefetch when the device supports concurrent managed access and by
/// attaching the memory to the stream otherwise.
fn migrate_slice<Repr: DeviceRepr, S: CudaSliceAccess<Repr, Ptr = UnifiedDevicePtr>>(
    ctx: &mut CudaContext,
    s: &S,
    stream: &CudaStream,
    location: ManagedLocation,
) -> (r: CudaResult<()>)
    requires
        old(ctx).wf(),
        slice_valid(s, *old(ctx)),
    ensures
        final(ctx).wf(),
        r is Ok,
        prefetch_effect(
            *old(ctx),
            *final(ctx),
            slice_alloc(s),
            location,
            migration_attachment(*old(ctx), stream),
        ),
{
    proof {
        old(ctx).lemma_device_wf();
    }
    let p = s.as_raw_ptr();
    let id = p.alloc_id();
    let cma = match ctx.device().concurrent_managed_access() {
        Ok(b) => b,
        Err(e) => {
            return Err(e);
        },
    };
    if cma {
        ctx.set_location_raw(id, location, None);
    } else {
        let sid = match stream.id() {
            Ok(sv) => sv,
            Err(e) => {
                return Err(e);
            },
        };
        ctx.set_location_raw(id, location, Some(sid));
    }
    Ok(())
}

/// A unified slice that can be migrated while keeping shared access.
pub trait UnifiedSlice<'a, Repr: DeviceRepr>: CudaSliceAccess<Repr, Ptr = UnifiedDevicePtr> {
    /// Migrates the slice's allocation toward the host and returns the same
    /// range as a host view.  The bytes are untouched.
    fn to_host_async(self, ctx: &mut CudaContext, stream: &CudaStream) -> (r: CudaResult<
        CudaHostSlice<'a, Repr, UnifiedDevicePtr>,
    >)
        requires
            old(ctx).wf(),
            slice_valid(&self, *old(ctx)),
        ensures
            final(ctx).wf(),
            prefetch_effect(
                *old(ctx),
                *final(ctx),
                slice_alloc(&self),
                ManagedLocation::OnHost,
                migration_attachment(*old(ctx), stream),
            ),
            r matches Ok(h) && h.spec_ptr() == self.spec_ptr() && h.spec_offset()
                == self.spec_offset() && h.spec_len() == self.spec_len(),
    ;

    /// Migrates the slice's allocation toward the device and returns the
    /// same range as a device view.  The bytes are untouched.
    fn to_device_async(self, ctx: &mut CudaContext, stream: &CudaStream) -> (r: CudaResult<
        CudaDeviceSlice<'a, Repr, UnifiedDevicePtr>,
    >)
        requires
            old(ctx).wf(),
            slice_valid(&self, *old(ctx)),
        ensures
            final(ctx).wf(),
            prefetch_effect(
                *old(ctx),
                *final(ctx),
                slice_alloc(&self),
                ManagedLocation::OnDevice,
                migration_attachment(*old(ctx), stream),
            ),
            r matches Ok(d) && d.spec_ptr() == self.spec_ptr() && d.spec_offset()
                == self.spec_offset() && d.spec_len() == self.spec_len(),
    ;
}

/// A unified slice that can be migrated while keeping exclusive access.
pub trait UnifiedSliceMut<'a, Repr: DeviceRepr>: CudaSliceAccess<
    Repr,
    Ptr = UnifiedDevicePtr,
> {
    /// Migrates the slice's allocation toward the host and returns the same
    /// range as a writable host view.  The bytes are untouched.
    fn to_host_mut_async(self, ctx: &mut CudaContext, stream: &CudaStream) -> (r: CudaResult<
        CudaHostSliceMut<'a, Repr, UnifiedDevicePtr>,
    >)
        requires
            old(ctx).wf(),
            slice_valid(&self, *old(ctx)),
        ensures
            final(ctx).wf(),
            prefetch_effect(
                *old(ctx),
                *final(ctx),
                slice_alloc(&self),
                ManagedLocation::OnHost,
                migration_attachment(*old(ctx), stream),
            ),
            r matches Ok(h) && h.spec_ptr() == self.spec_ptr() && h.spec_offset()
                == self.spec_offset() && h.spec_len() == self.spec_len(),
    ;

    /// Migrates the slice's allocation toward the device and returns the
    /// same range as a writable device view.  The bytes are untouched.
    fn to_device_mut_async(self, ctx: &mut CudaContext, stream: &CudaStream) -> (r: CudaResult<
        CudaDeviceSliceMut<'a, Repr, UnifiedDevicePtr>,
    >)
        requires
            old(ctx).wf(),
            slice_valid(&self, *old(ctx)),
        ensures
            final(ctx).wf(),
            prefetch_effect(
                *old(ctx),
                *final(ctx),
                slice_alloc(&self),
                ManagedLocation::OnDevice,
                migration_attachment(*old(ctx), stream),
            ),
            r matches Ok(d) && d.spec_ptr() == self.spec_ptr() && d.spec_offset()
                == self.spec_offset() && d.spec_len() == self.spec_len(),
    ;
}

impl<'a, Repr: DeviceRepr> UnifiedSlice<'a, Repr> for CudaDeviceSlice<'a, Repr, UnifiedDevicePtr> {
    fn to_host_async(self, ctx: &mut CudaContext, stream: &CudaStream) -> (r: CudaResult<
        CudaHostSlice<'a, Repr, UnifiedDevicePtr>,
    >) {
        proof {
            use_type_invariant(&self);
        }
        migrate_slice(ctx, &self, stream, ManagedLocation::OnHost)?;
        Ok(CudaHostSlice::from_raw_parts(self.as_raw_ptr(), self.offset(), self.len()))
    }

    fn to_device_async(self, ctx: &mut CudaContext, stream: &CudaStream) -> (r: CudaResult<
        CudaDeviceSlice<'a, Repr, UnifiedDevicePtr>,
    >) {
        proof {
            use_type_invariant(&self);
        }
        migrate_slice(ctx, &self, stream, ManagedLocation::OnDevice)?;
        Ok(CudaDeviceSlice::from_raw_parts(self.as_raw_ptr(), self.offset(), self.len()))
    }
}

impl<'a, Repr: DeviceRepr> UnifiedSlice<'a, Repr> for CudaDeviceSliceMut<
    'a,
    Repr,
    UnifiedDevicePtr,
> {
    fn to_host_async(self, ctx: &mut CudaContext, stream: &CudaStream) -> (r: CudaResult<
        CudaHostSlice<'a, Repr, UnifiedDevicePtr>,
    >) {
        proof {
            use_type_invariant(&self);
        }
        migrate_slice(ctx, &self, stream, ManagedLocation::OnHost)?;
        Ok(CudaHostSlice::from_raw_parts(self.as_raw_ptr(), self.offset(), self.len()))
    }

    fn to_device_async(self, ctx: &mut CudaContext, stream: &CudaStream) -> (r: CudaResult<
        CudaDeviceSlice<'a, Repr, UnifiedDevicePtr>,
    >) {
        proof {
            use_type_invariant(&self);
        }
        migrate_slice(ctx, &self, stream, ManagedLocation::OnDevice)?;
        Ok(CudaDeviceSlice::from_raw_parts(self.as_raw_ptr(), self.offset(), self.len()))
    }
}

impl<'a, Repr: DeviceRepr> UnifiedSlice<'a, Repr> for CudaHostSlice<'a, Repr, UnifiedDevicePtr> {
    fn to_host_async(self, ctx: &mut CudaContext, stream: &CudaStream) -> (r: CudaResult<
        CudaHostSlice<'a, Repr, UnifiedDevicePtr>,
    >) {
        proof {
            use_type_invariant(&self);
        }
        migrate_slice(ctx, &self, stream, ManagedLocation::OnHost)?;
        Ok(CudaHostSlice::from_raw_parts(self.as_raw_ptr(), self.offset(), self.len()))
    }

    fn to_device_async(self, ctx: &mut CudaContext, stream: &CudaStream) -> (r: CudaResult<
        CudaDeviceSlice<'a, Repr, UnifiedDevicePtr>,
    >) {
        proof {
            use_type_invariant(&self);
        }
        migrate_slice(ctx, &self, stream, ManagedLocation::OnDevice)?;
        Ok(CudaDeviceSlice::from_raw_parts(self.as_raw_ptr(), self.offset(), self.len()))
    }
}

impl<'a, Repr: DeviceRepr> UnifiedSlice<'a, Repr> for CudaHostSliceMut<
    'a,
    Repr,
    UnifiedDevicePtr,
> {
    fn to_host_async(self, ctx: &mut CudaContext, stream: &CudaStream) -> (r: CudaResult<
        CudaHostSlice<'a, Repr, UnifiedDevicePtr>,
    >) {
        proof {
            use_type_invariant(&self);
        }
        migrate_slice(ctx, &self, stream, ManagedLocation::OnHost)?;
        Ok(CudaHostSlice::from_raw_parts(self.as_raw_ptr(), self.offset(), self.len()))
    }

    fn to_device_async(self, ctx: &mut CudaContext, stream: &CudaStream) -> (r: CudaResult<
        CudaDeviceSlice<'a, Repr, UnifiedDevicePtr>,
    >) {
        proof {
            use_type_invariant(&self);
        }
        migrate_slice(ctx, &self, stream, ManagedLocation::OnDevice)?;
        Ok(CudaDeviceSlice::from_raw_parts(self.as_raw_ptr(), self.offset(), self.len()))
    }
}

impl<'a, Repr: DeviceRepr> UnifiedSliceMut<'a, Repr> for CudaDeviceSliceMut<
    'a,
    Repr,
    UnifiedDevicePtr,
> {
    fn to_host_mut_async(self, ctx: &mut CudaContext, stream: &CudaStream) -> (r: CudaResult<
        CudaHostSliceMut<'a, Repr, UnifiedDevicePtr>,
    >) {
        proof {
            use_type_invariant(&self);
        }
        migrate_slice(ctx, &self, stream, ManagedLocation::OnHost)?;
        Ok(CudaHostSliceMut::from_raw_parts(self.as_raw_ptr(), self.offset(), self.len()))
    }

    fn to_device_mut_async(self, ctx: &mut CudaContext, stream: &CudaStream) -> (r: CudaResult<
        CudaDeviceSliceMut<'a, Repr, UnifiedDevicePtr>,
    >) {
        proof {
            use_type_invariant(&self);
        }
        migrate_slice(ctx, &self, stream, ManagedLocation::OnDevice)?;
        Ok(CudaDeviceSliceMut::from_raw_parts(self.as_raw_ptr(), self.offset(), self.len()))
    }
}

impl<'a, Repr: DeviceRepr> UnifiedSliceMut<'a, Repr> for CudaHostSliceMut<
    'a,
    Repr,
    UnifiedDevicePtr,
> {
    fn to_host_mut_async(self, ctx: &mut CudaContext, stream: &CudaStream) -> (r: CudaResult<
        CudaHostSliceMut<'a, Repr, UnifiedDevicePtr>,
    >) {
        proof {
            use_type_invariant(&self);
        }
        migrate_slice(ctx, &self, stream, ManagedLocation::OnHost)?;
        Ok(CudaHostSliceMut::from_raw_parts(self.as_raw_ptr(), self.offset(), self.len()))
    }

    fn to_device_mut_async(self, ctx: &mut CudaContext, stream: &CudaStream) -> (r: CudaResult<
        CudaDeviceSliceMut<'a, Repr, UnifiedDevicePtr>,
    >) {
        proof {
            use_type_invariant(&self);
        }
        migrate_slice(ctx, &self, stream, ManagedLocation::OnDevice)?;
        Ok(CudaDeviceSliceMut::from_raw_parts(self.as_raw_ptr(), self.offset(), self.len()))
    }
}

} // verus!
