//! Page-locked host memory: allocations the operating system will not page
//! out, visible to the host and, when mapped, to the device as well.
//!
//! Two owning forms exist: [`CudaHostPinnedBuffer`], whose storage the
//! driver allocates and frees, and [`CudaHostRegisteredBuffer`], which takes
//! over the lifetime bookkeeping of caller-supplied memory and gives the
//! storage back, rather than freeing it, when the registration is undone.

use vstd::prelude::*;

use crate::context::{
    can_alloc, can_register, ctx_counters_unchanged, fresh_alloc, registered_alloc, retired_alloc,
    AddressSpace, CudaContext, MAX_ALLOCATIONS,
};
use crate::error::{
    CudaError, CudaResult, DropResult, CUDA_ERROR_INVALID_VALUE, CUDA_ERROR_NOT_SUPPORTED,
    CUDA_ERROR_OUT_OF_MEMORY,
};
use crate::memory::{
    CudaDeviceSlice, CudaDeviceSliceMut, CudaHostSlice, CudaHostSliceMut, CudaPointer,
    CudaSliceAccess, DeviceAccessible, DevicePinned, DeviceRepr, HostAccessible,
};
use crate::device::MAX_TOTAL_MEMORY;

verus! {

/// Flags a pinned host allocation carries.
#[derive(Clone, Copy, Debug, PartialEq, Eq, Structural)]
pub struct PinnedFlags {
    bits: u32,
}

/// The bit that makes a pinned allocation usable from any context.
pub const PINNED_PORTABLE: u32 = 0x1;

/// The bit that maps a pinned allocation into the device address space.
pub const PINNED_DEVICEMAP: u32 = 0x2;

/// The bit that allocates a pinned allocation as write-combined memory.
pub const PINNED_WRITECOMBINED: u32 = 0x4;

impl PinnedFlags {
    /// The raw bits of the flag set.
    pub closed spec fn spec_bits(&self) -> u32 {
        self.bits
    }

    /// No flags.
    pub fn empty() -> (f: Self)
        ensures
            f.spec_bits() == 0u32,
    {
        PinnedFlags { bits: 0 }
    }

    /// The portable flag alone.
    pub fn portable() -> (f: Self)
        ensures
            f.spec_bits() == PINNED_PORTABLE,
    {
        PinnedFlags { bits: PINNED_PORTABLE }
    }

    /// The device-mapped flag alone.
    pub fn devicemap() -> (f: Self)
        ensures
            f.spec_bits() == PINNED_DEVICEMAP,
    {
        PinnedFlags { bits: PINNED_DEVICEMAP }
    }

    /// The write-combined flag alone.
    pub fn writecombined() -> (f: Self)
        ensures
            f.spec_bits() == PINNED_WRITECOMBINED,
    {
        PinnedFlags { bits: PINNED_WRITECOMBINED }
    }

    /// The union of two flag sets.
    pub fn union(self, other: Self) -> (f: Self)
        ensures
            f.spec_bits() == self.spec_bits() | other.spec_bits(),
    {
        PinnedFlags { bits: self.bits | other.bits }
    }

    /// Whether every flag of `other` is set in `self`.
    pub fn contains(self, other: Self) -> (b: bool)
        ensures
            b == (self.spec_bits() & other.spec_bits() == other.spec_bits()),
    {
        self.bits & other.bits == other.bits
    }

    /// Returns the raw bits of the flag set.
    pub fn bits(self) -> (b: u32)
        ensures
            b == self.spec_bits(),
    {
        self.bits
    }

    /// Wraps raw bits.
    pub fn from_bits(bits: u32) -> (f: Self)
        ensures
            f.spec_bits() == bits,
    {
        PinnedFlags { bits }
    }
}

/// Flags a host registration carries.
#[derive(Clone, Copy, Debug, PartialEq, Eq, Structural)]
pub struct HostRegisterFlags {
    bits: u32,
}

/// The bit that makes a registration usable from any context.
pub const REGISTER_PORTABLE: u32 = 0x1;

/// The bit that maps a registration into the device address space.
pub const REGISTER_DEVICEMAP: u32 = 0x2;

/// The bit that marks a registration as IO memory.
pub const REGISTER_IOMEMORY: u32 = 0x4;

/// The bit that marks a registration read-only for the host.
pub const REGISTER_READ_ONLY: u32 = 0x8;

impl HostRegisterFlags {
    /// The raw bits of the flag set.
    pub closed spec fn spec_bits(&self) -> u32 {
        self.bits
    }

    /// No flags.
    pub fn empty() -> (f: Self)
        ensures
            f.spec_bits() == 0u32,
    {
        HostRegisterFlags { bits: 0 }
    }

    /// The portable flag alone.
    pub fn portable() -> (f: Self)
        ensures
            f.spec_bits() == REGISTER_PORTABLE,
    {
        HostRegisterFlags { bits: REGISTER_PORTABLE }
    }

    /// The device-mapped flag alone.
    pub fn devicemap() -> (f: Self)
        ensures
            f.spec_bits() == REGISTER_DEVICEMAP,
    {
        HostRegisterFlags { bits: REGISTER_DEVICEMAP }
    }

    /// The IO-memory flag alone.
    pub fn iomemory() -> (f: Self)
        ensures
            f.spec_bits() == REGISTER_IOMEMORY,
    {
        HostRegisterFlags { bits: REGISTER_IOMEMORY }
    }

    /// The read-only flag alone.
    pub fn read_only() -> (f: Self)
        ensures
            f.spec_bits() == REGISTER_READ_ONLY,
    {
        HostRegisterFlags { bits: REGISTER_READ_ONLY }
    }

    /// The union of two flag sets.
    pub fn union(self, other: Self) -> (f: Self)
        ensures
            f.spec_bits() == self.spec_bits() | other.spec_bits(),
    {
        HostRegisterFlags { bits: self.bits | other.bits }
    }

    /// Returns the raw bits of the flag set.
    pub fn bits(self) -> (b: u32)
        ensures
            b == self.spec_bits(),
    {
        self.bits
    }
}

/// A host pointer into driver-allocated pinned memory.
#[derive(Clone, Copy, Debug)]
pub struct PinnedHostPtr {
    id: usize,
    delta: usize,
}

impl PinnedHostPtr {
    #[verifier::type_invariant]
    spec fn type_wf(self) -> bool {
        self.id < MAX_ALLOCATIONS && self.delta <= MAX_TOTAL_MEMORY
    }

    /// Wraps an allocation identity as a pointer to its first byte.
    pub(crate) fn new(id: usize) -> (p: Self)
        requires
            id < MAX_ALLOCATIONS,
        ensures
            p.spec_id() == id,
            p.spec_delta() == 0,
    {
        PinnedHostPtr { id, delta: 0 }
    }
}

impl CudaPointer for PinnedHostPtr {
    closed spec fn spec_id(&self) -> int {
        self.id as int
    }

    closed spec fn spec_delta(&self) -> int {
        self.delta as int
    }

    fn alloc_id(&self) -> usize {
        proof {
            use_type_invariant(self);
        }
        self.id
    }

    fn byte_delta(&self) -> usize {
        proof {
            use_type_invariant(self);
        }
        self.delta
    }

    fn offset(self, byte_count: usize) -> Self {
        proof {
            use_type_invariant(&self);
        }
        PinnedHostPtr { id: self.id, delta: self.delta + byte_count }
    }
}

impl HostAccessible for PinnedHostPtr {
    fn as_host_ptr(&self) -> u64 {
        proof {
            use_type_invariant(self);
        }
        crate::memory::addr_of(self.id, self.delta)
    }
}

impl DevicePinned for PinnedHostPtr {

}

/// A device pointer into pinned host memory that was mapped for device
/// access.
#[derive(Clone, Copy, Debug)]
pub struct PinnedDevicePtr {
    id: usize,
    delta: usize,
}

impl PinnedDevicePtr {
    #[verifier::type_invariant]
    spec fn type_wf(self) -> bool {
        self.id < MAX_ALLOCATIONS && self.delta <= MAX_TOTAL_MEMORY
    }

    /// Wraps an allocation identity as a pointer to its first byte.
    pub(crate) fn new(id: usize) -> (p: Self)
        requires
            id < MAX_ALLOCATIONS,
        ensures
            p.spec_id() == id,
            p.spec_delta() == 0,
    {
        PinnedDevicePtr { id, delta: 0 }
    }
}

impl CudaPointer for PinnedDevicePtr {
    closed spec fn spec_id(&self) -> int {
        self.id as int
    }

    closed spec fn spec_delta(&self) -> int {
        self.delta as int
    }

    fn alloc_id(&self) -> usize {
        proof {
            use_type_invariant(self);
        }
        self.id
    }

    fn byte_delta(&self) -> usize {
        proof {
            use_type_invariant(self);
        }
        self.delta
    }

    fn offset(self, byte_count: usize) -> Self {
        proof {
            use_type_invariant(&self);
        }
        PinnedDevicePtr { id: self.id, delta: self.delta + byte_count }
    }
}

impl DeviceAccessible for PinnedDevicePtr {
    fn as_device_ptr(&self) -> u64 {
        proof {
            use_type_invariant(self);
        }
        crate::memory::addr_of(self.id, self.delta)
    }
}

/// A host pointer into registered, caller-owned pinned memory.
#[derive(Clone, Copy, Debug)]
pub struct RegisteredHostPtr {
    id: usize,
    delta: usize,
}

impl RegisteredHostPtr {
    #[verifier::type_invariant]
    spec fn type_wf(self) -> bool {
        self.id < MAX_ALLOCATIONS && self.delta <= MAX_TOTAL_MEMORY
    }

    /// Wraps an allocation identity as a pointer to its first byte.
    pub(crate) fn new(id: usize) -> (p: Self)
        requires
            id < MAX_ALLOCATIONS,
        ensures
            p.spec_id() == id,
            p.spec_delta() == 0,
    {
        RegisteredHostPtr { id, delta: 0 }
    }
}

impl CudaPointer for RegisteredHostPtr {
    closed spec fn spec_id(&self) -> int {
        self.id as int
    }

    closed spec fn spec_delta(&self) -> int {
        self.delta as int
    }

    fn alloc_id(&self) -> usize {
        proof {
            use_type_invariant(self);
        }
        self.id
    }

    fn byte_delta(&self) -> usize {
        proof {
            use_type_invariant(self);
        }
        self.delta
    }

    fn offset(self, byte_count: usize) -> Self {
        proof {
            use_type_invariant(&self);
        }
        RegisteredHostPtr { id: self.id, delta: self.delta + byte_count }
    }
}

impl HostAccessible for RegisteredHostPtr {
    fn as_host_ptr(&self) -> u64 {
        proof {
            use_type_invariant(self);
        }
        crate::memory::addr_of(self.id, self.delta)
    }
}

impl DevicePinned for RegisteredHostPtr {

}

/// An owner of pinned host memory: it can hand out host views, device
/// views when the memory is mapped for device access, and its flags.
pub trait PinnedBuffer<Repr: DeviceRepr>: Sized {
    /// The pinned pointer type the buffer owns.
    type Ptr: DevicePinned;

    /// The allocation the buffer owns.
    spec fn pinned_id(&self) -> int;

    /// The buffer's size in bytes.
    spec fn pinned_size(&self) -> int;

    /// Returns the buffer's pinned base pointer.
    fn as_pinned_ptr(&self) -> (p: Self::Ptr)
        ensures
            p.spec_id() == self.pinned_id(),
            p.spec_delta() == 0,
    ;

    /// Returns the buffer's size in bytes, always within the model's
    /// bounds.
    fn size(&self) -> (s: usize)
        ensures
            s == self.pinned_size(),
            s <= MAX_TOTAL_MEMORY,
    ;

    /// Borrows the buffer as a read-only device slice.  Succeeds exactly
    /// when the memory was allocated or registered with the device-mapped
    /// flag.
    fn as_device(&self, ctx: &CudaContext) -> (r: CudaResult<
        CudaDeviceSlice<Repr, PinnedDevicePtr>,
    >)
        requires
            ctx.wf(),
            pinned_valid_spec(self.pinned_id(), self.pinned_size(), *ctx),
        ensures
            ctx.allocs()[self.pinned_id()].pinned_flags & PINNED_DEVICEMAP != 0 ==> (r matches Ok(s)
                && s.spec_ptr().spec_id() == self.pinned_id() && s.spec_ptr().spec_delta() == 0
                && s.spec_offset() == 0 && s.spec_len() == self.pinned_size()
                / Repr::spec_width()),
            ctx.allocs()[self.pinned_id()].pinned_flags & PINNED_DEVICEMAP == 0 ==> (r matches Err(e)
                && e.spec_code() == CUDA_ERROR_NOT_SUPPORTED),
    ;

    /// Borrows the buffer as a writable device slice.  Succeeds exactly
    /// when the memory was allocated or registered with the device-mapped
    /// flag.
    fn as_device_mut(&mut self, ctx: &CudaContext) -> (r: CudaResult<
        CudaDeviceSliceMut<Repr, PinnedDevicePtr>,
    >)
        requires
            ctx.wf(),
            pinned_valid_spec(old(self).pinned_id(), old(self).pinned_size(), *ctx),
        ensures
            *final(self) == *old(self),
            ctx.allocs()[old(self).pinned_id()].pinned_flags & PINNED_DEVICEMAP != 0 ==> (
            r matches Ok(s) && s.spec_ptr().spec_id() == old(self).pinned_id()
                && s.spec_ptr().spec_delta() == 0 && s.spec_offset() == 0 && s.spec_len() == old(
                self,
            ).pinned_size() / Repr::spec_width()),
            ctx.allocs()[old(self).pinned_id()].pinned_flags & PINNED_DEVICEMAP == 0 ==> (
            r matches Err(e) && e.spec_code() == CUDA_ERROR_NOT_SUPPORTED),
    ;

    /// Returns the flags the memory was allocated or registered with.
    fn flags(&self, ctx: &CudaContext) -> (r: CudaResult<PinnedFlags>)
        requires
            ctx.wf(),
            pinned_valid_spec(self.pinned_id(), self.pinned_size(), *ctx),
        ensures
            r matches Ok(f) && f.spec_bits() == ctx.allocs()[self.pinned_id()].pinned_flags,
    ;
}

/// Whether an allocation identity and size describe a live pinned host
/// allocation of the context.
pub open spec fn pinned_valid_spec(id: int, size: int, ctx: CudaContext) -> bool {
    &&& ctx.alloc_live(id)
    &&& ctx.alloc_size(id) == size
    &&& ctx.alloc_space(id) is Pinned
    &&& ctx.allocs()[id].pool is None
}

/// Builds the device view of a mapped pinned allocation.
fn pinned_device_view<'s, Repr: DeviceRepr>(id: usize, size: usize, ctx: &CudaContext) -> (r:
    CudaResult<CudaDeviceSlice<'s, Repr, PinnedDevicePtr>>)
    requires
        ctx.wf(),
        id < MAX_ALLOCATIONS,
        size <= MAX_TOTAL_MEMORY,
        pinned_valid_spec(id as int, size as int, *ctx),
    ensures
        ctx.allocs()[id as int].pinned_flags & PINNED_DEVICEMAP != 0 ==> (r matches Ok(s)
            && s.spec_ptr().spec_id() == id && s.spec_ptr().spec_delta() == 0 && s.spec_offset()
            == 0 && s.spec_len() == size as int / Repr::spec_width()),
        ctx.allocs()[id as int].pinned_flags & PINNED_DEVICEMAP == 0 ==> (r matches Err(e)
            && e.spec_code() == CUDA_ERROR_NOT_SUPPORTED),
{
    let f = ctx.alloc_pinned_flags(id);
    if f & PINNED_DEVICEMAP == 0 {
        return Err(CudaError::new(CUDA_ERROR_NOT_SUPPORTED));
    }
    proof {
        Repr::lemma_width();
        vstd::arithmetic::div_mod::lemma_fundamental_div_mod(size as int, Repr::spec_width());
        vstd::arithmetic::div_mod::lemma_mod_bound(size as int, Repr::spec_width());
    }
    let len = size / Repr::byte_width();
    Ok(CudaDeviceSlice::from_raw_parts(PinnedDevicePtr::new(id), 0, len))
}

/// Builds the writable device view of a mapped pinned allocation.
fn pinned_device_view_mut<'s, Repr: DeviceRepr>(id: usize, size: usize, ctx: &CudaContext) -> (r:
    CudaResult<CudaDeviceSliceMut<'s, Repr, PinnedDevicePtr>>)
    requires
        ctx.wf(),
        id < MAX_ALLOCATIONS,
        size <= MAX_TOTAL_MEMORY,
        pinned_valid_spec(id as int, size as int, *ctx),
    ensures
        ctx.allocs()[id as int].pinned_flags & PINNED_DEVICEMAP != 0 ==> (r matches Ok(s)
            && s.spec_ptr().spec_id() == id && s.spec_ptr().spec_delta() == 0 && s.spec_offset()
            == 0 && s.spec_len() == size as int / Repr::spec_width()),
        ctx.allocs()[id as int].pinned_flags & PINNED_DEVICEMAP == 0 ==> (r matches Err(e)
            && e.spec_code() == CUDA_ERROR_NOT_SUPPORTED),
{
    let f = ctx.alloc_pinned_flags(id);
    if f & PINNED_DEVICEMAP == 0 {
        return Err(CudaError::new(CUDA_ERROR_NOT_SUPPORTED));
    }
    proof {
        Repr::lemma_width();
        vstd::arithmetic::div_mod::lemma_fundamental_div_mod(size as int, Repr::spec_width());
        vstd::arithmetic::div_mod::lemma_mod_bound(size as int, Repr::spec_width());
    }
    let len = size / Repr::byte_width();
    Ok(CudaDeviceSliceMut::from_raw_parts(PinnedDevicePtr::new(id), 0, len))
}

/// An owning buffer of pinned host memory, allocated and freed by the
/// driver.
#[derive(Debug)]
pub struct CudaHostPinnedBuffer<Repr: DeviceRepr> {
    ptr: PinnedHostPtr,
    size: usize,
    _marker: core::marker::PhantomData<Repr>,
}

/// Whether the buffer owns a live allocation of the context, of exactly its
/// recorded size.
pub open spec fn pinned_buffer_valid<Repr: DeviceRepr>(
    b: &CudaHostPinnedBuffer<Repr>,
    ctx: CudaContext,
) -> bool {
    pinned_valid_spec(b.spec_id(), b.spec_size(), ctx)
}

impl<Repr: DeviceRepr> CudaHostPinnedBuffer<Repr> {
    #[verifier::type_invariant]
    spec fn type_wf(self) -> bool {
        &&& self.ptr.spec_delta() == 0
        &&& self.size <= MAX_TOTAL_MEMORY
    }

    /// The allocation the buffer owns.
    pub closed spec fn spec_id(&self) -> int {
        self.ptr.spec_id()
    }

    /// The buffer's size in bytes.
    pub closed spec fn spec_size(&self) -> int {
        self.size as int
    }

    /// Allocates `len` zero-initialized elements of pinned host memory,
    /// mapped for device access and portable across contexts.  Succeeds
    /// exactly when the element count describes a representable byte size
    /// and the context has room for another allocation.
    pub fn allocate(ctx: &mut CudaContext, len: usize) -> (r: CudaResult<Self>)
        requires
            old(ctx).wf(),
        ensures
            final(ctx).wf(),
            ctx_counters_unchanged(*old(ctx), *final(ctx)),
            final(ctx).pools() == old(ctx).pools(),
            final(ctx).spec_mem_used() == old(ctx).spec_mem_used(),
            len * Repr::spec_width() > usize::MAX ==> (r matches Err(e) && e.spec_code()
                == CUDA_ERROR_INVALID_VALUE && *final(ctx) == *old(ctx)),
            len * Repr::spec_width() <= usize::MAX && !can_alloc(
                *old(ctx),
                len * Repr::spec_width(),
                AddressSpace::Pinned,
                None,
            ) ==> (r matches Err(e) && e.spec_code() == CUDA_ERROR_OUT_OF_MEMORY && *final(ctx)
                == *old(ctx)),
            len * Repr::spec_width() <= usize::MAX && can_alloc(
                *old(ctx),
                len * Repr::spec_width(),
                AddressSpace::Pinned,
                None,
            ) ==> (r matches Ok(b) && b.spec_id() == old(ctx).alloc_count() && b.spec_size() == len
                * Repr::spec_width() && final(ctx).allocs() == old(ctx).allocs().push(
                fresh_alloc(
                    len * Repr::spec_width(),
                    AddressSpace::Pinned,
                    None,
                    false,
                    PINNED_PORTABLE | PINNED_DEVICEMAP,
                ),
            )),
    {
        Self::alloc_with_flags(ctx, len, PinnedFlags::portable().union(PinnedFlags::devicemap()))
    }

    /// Allocates `len` zero-initialized elements of pinned host memory with
    /// the given flags.
    pub fn alloc_with_flags(ctx: &mut CudaContext, len: usize, flags: PinnedFlags) -> (r:
        CudaResult<Self>)
        requires
            old(ctx).wf(),
        ensures
            final(ctx).wf(),
            ctx_counters_unchanged(*old(ctx), *final(ctx)),
            final(ctx).pools() == old(ctx).pools(),
            final(ctx).spec_mem_used() == old(ctx).spec_mem_used(),
            len * Repr::spec_width() > usize::MAX ==> (r matches Err(e) && e.spec_code()
                == CUDA_ERROR_INVALID_VALUE && *final(ctx) == *old(ctx)),
            len * Repr::spec_width() <= usize::MAX && !can_alloc(
                *old(ctx),
                len * Repr::spec_width(),
                AddressSpace::Pinned,
                None,
            ) ==> (r matches Err(e) && e.spec_code() == CUDA_ERROR_OUT_OF_MEMORY && *final(ctx)
                == *old(ctx)),
            len * Repr::spec_width() <= usize::MAX && can_alloc(
                *old(ctx),
                len * Repr::spec_width(),
                AddressSpace::Pinned,
                None,
            ) ==> (r matches Ok(b) && b.spec_id() == old(ctx).alloc_count() && b.spec_size() == len
                * Repr::spec_width() && final(ctx).allocs() == old(ctx).allocs().push(
                fresh_alloc(
                    len * Repr::spec_width(),
                    AddressSpace::Pinned,
                    None,
                    false,
                    flags.spec_bits(),
                ),
            )),
    {
        let w = Repr::byte_width();
        let bytesize = match len.checked_mul(w) {
            Some(b) => b,
            None => {
                return Err(CudaError::new(CUDA_ERROR_INVALID_VALUE));
            },
        };
        match ctx.alloc_raw(bytesize, AddressSpace::Pinned, None, flags.bits()) {
            Ok(id) => Ok(
                CudaHostPinnedBuffer {
                    ptr: PinnedHostPtr::new(id),
                    size: bytesize,
                    _marker: core::marker::PhantomData,
                },
            ),
            Err(e) => Err(e),
        }
    }

    /// Deallocates the buffer through the driver: exactly one deallocation
    /// call is issued and ownership is consumed.
    pub fn free(self, ctx: &mut CudaContext) -> (r: DropResult<Self>)
        requires
            old(ctx).wf(),
            pinned_buffer_valid(&self, *old(ctx)),
        ensures
            final(ctx).wf(),
            r is Ok,
            final(ctx).spec_free_count() == old(ctx).spec_free_count() + 1,
            final(ctx).spec_device() == old(ctx).spec_device(),
            final(ctx).spec_streams() == old(ctx).spec_streams(),
            final(ctx).allocs() == old(ctx).allocs().update(
                self.spec_id(),
                retired_alloc(old(ctx).allocs()[self.spec_id()]),
            ),
            final(ctx).spec_mem_used() == old(ctx).spec_mem_used(),
            final(ctx).pools() == old(ctx).pools(),
    {
        let id = self.ptr.alloc_id();
        proof {
            assert(!crate::context::counts_against_device(old(ctx).allocs()[self.spec_id()]));
        }
        ctx.kill_raw(id, true);
        Ok(())
    }

    /// Borrows the whole buffer as a read-only host slice.
    pub fn as_slice(&self) -> (r: CudaHostSlice<Repr, PinnedHostPtr>)
        ensures
            r.spec_ptr().spec_id() == self.spec_id(),
            r.spec_ptr().spec_delta() == 0,
            r.spec_offset() == 0,
            r.spec_len() == self.spec_size() / Repr::spec_width(),
    {
        proof {
            use_type_invariant(self);
            Repr::lemma_width();
            vstd::arithmetic::div_mod::lemma_fundamental_div_mod(
                self.size as int,
                Repr::spec_width(),
            );
            vstd::arithmetic::div_mod::lemma_mod_bound(self.size as int, Repr::spec_width());
        }
        let len = self.size / Repr::byte_width();
        CudaHostSlice::from_raw_parts(self.ptr, 0, len)
    }

    /// Borrows the whole buffer as a writable host slice.
    pub fn as_mut_slice(&mut self) -> (r: CudaHostSliceMut<Repr, PinnedHostPtr>)
        ensures
            *final(self) == *old(self),
            r.spec_ptr().spec_id() == old(self).spec_id(),
            r.spec_ptr().spec_delta() == 0,
            r.spec_offset() == 0,
            r.spec_len() == old(self).spec_size() / Repr::spec_width(),
    {
        proof {
            use_type_invariant(&*self);
            Repr::lemma_width();
            vstd::arithmetic::div_mod::lemma_fundamental_div_mod(
                self.size as int,
                Repr::spec_width(),
            );
            vstd::arithmetic::div_mod::lemma_mod_bound(self.size as int, Repr::spec_width());
        }
        let len = self.size / Repr::byte_width();
        CudaHostSliceMut::from_raw_parts(self.ptr, 0, len)
    }
}

impl<Repr: DeviceRepr> PinnedBuffer<Repr> for CudaHostPinnedBuffer<Repr> {
    type Ptr = PinnedHostPtr;

    open spec fn pinned_id(&self) -> int {
        self.spec_id()
    }

    open spec fn pinned_size(&self) -> int {
        self.spec_size()
    }

    fn as_pinned_ptr(&self) -> PinnedHostPtr {
        proof {
            use_type_invariant(self);
        }
        self.ptr
    }

    fn size(&self) -> usize {
        proof {
            use_type_invariant(self);
        }
        self.size
    }

    fn as_device(&self, ctx: &CudaContext) -> (r: CudaResult<
        CudaDeviceSlice<Repr, PinnedDevicePtr>,
    >) {
        proof {
            use_type_invariant(self);
        }
        let id = self.ptr.alloc_id();
        pinned_device_view(id, self.size, ctx)
    }

    fn as_device_mut(&mut self, ctx: &CudaContext) -> (r: CudaResult<
        CudaDeviceSliceMut<Repr, PinnedDevicePtr>,
    >) {
        proof {
            use_type_invariant(&*self);
        }
        let id = self.ptr.alloc_id();
        pinned_device_view_mut(id, self.size, ctx)
    }

    fn flags(&self, ctx: &CudaContext) -> (r: CudaResult<PinnedFlags>) {
        let id = self.ptr.alloc_id();
        Ok(PinnedFlags::from_bits(ctx.alloc_pinned_flags(id)))
    }
}

/// The byte image of a sequence of elements, laid out one after another.
pub open spec fn spec_encode_elems<Repr: DeviceRepr>(s: Seq<Repr>) -> Seq<u8>
    decreases s.len(),
{
    if s.len() == 0 {
        Seq::empty()
    } else {
        spec_encode_elems(s.drop_last()) + s.last().spec_bytes()
    }
}

/// The encoding of `n` elements takes `n` times the element width.
pub proof fn lemma_encode_len<Repr: DeviceRepr>(s: Seq<Repr>)
    ensures
        spec_encode_elems(s).len() == s.len() * Repr::spec_width(),
    decreases s.len(),
{
    Repr::lemma_width();
    if s.len() == 0 {
    } else {
        lemma_encode_len::<Repr>(s.drop_last());
        s.last().lemma_bytes_len();
        assert((s.len() - 1) * Repr::spec_width() + Repr::spec_width() == s.len()
            * Repr::spec_width()) by (nonlinear_arith);
    }
}

/// Each aligned chunk of an encoding is the byte image of one element.
pub proof fn lemma_encode_chunk<Repr: DeviceRepr>(s: Seq<Repr>, k: int)
    requires
        0 <= k < s.len(),
    ensures
        spec_encode_elems(s).subrange(
            k * Repr::spec_width(),
            k * Repr::spec_width() + Repr::spec_width(),
        ) == s[k].spec_bytes(),
    decreases s.len(),
{
    let w = Repr::spec_width();
    Repr::lemma_width();
    lemma_encode_len::<Repr>(s);
    lemma_encode_len::<Repr>(s.drop_last());
    s.last().lemma_bytes_len();
    if k == s.len() - 1 {
        assert((s.len() - 1) * w + w == s.len() * w) by (nonlinear_arith);
        assert(spec_encode_elems(s).subrange(k * w, k * w + w) =~= s.last().spec_bytes());
    } else {
        lemma_encode_chunk::<Repr>(s.drop_last(), k);
        assert((k + 1) * w <= (s.len() - 1) * w) by (nonlinear_arith)
            requires
                w >= 1,
                0 <= k < s.len() - 1,
        ;
        assert(k * w + w == (k + 1) * w) by (nonlinear_arith);
        assert(k * w >= 0) by (nonlinear_arith)
            requires
                k >= 0,
                w >= 1,
        ;
        assert(spec_encode_elems(s).subrange(k * w, k * w + w) =~= spec_encode_elems(
            s.drop_last(),
        ).subrange(k * w, k * w + w));
    }
}

/// Registration and unregistration are exact inverses: decoding the bytes
/// an element sequence was encoded to yields that sequence again.
pub proof fn lemma_register_unlock_inverse<Repr: DeviceRepr>(src: Seq<Repr>, out: Seq<Repr>)
    requires
        out.len() == src.len(),
        forall|k: int|
            0 <= k < src.len() ==> (#[trigger] out[k]).spec_bytes() == spec_encode_elems(
                src,
            ).subrange(k * Repr::spec_width(), k * Repr::spec_width() + Repr::spec_width()),
    ensures
        out == src,
{
    assert forall|k: int| 0 <= k < src.len() implies out[k] == src[k] by {
        lemma_encode_chunk::<Repr>(src, k);
        out[k].lemma_bytes_injective(src[k]);
    }
    assert(out =~= src);
}

/// Encodes a vector of elements into its byte image.
fn encode_elems<Repr: DeviceRepr>(src: &Vec<Repr>) -> (r: Option<Vec<u8>>)
    ensures
        src@.len() * Repr::spec_width() > usize::MAX ==> r is None,
        src@.len() * Repr::spec_width() <= usize::MAX ==> (r matches Some(b) && b@
            == spec_encode_elems(src@)),
{
    let w = Repr::byte_width();
    proof {
        Repr::lemma_width();
    }
    let n = src.len();
    if n > 0 {
        let limit = usize::MAX / w;
        if n > limit {
            proof {
                vstd::arithmetic::div_mod::lemma_fundamental_div_mod(usize::MAX as int, w as int);
                vstd::arithmetic::div_mod::lemma_mod_bound(usize::MAX as int, w as int);
                assert(n * w > usize::MAX) by (nonlinear_arith)
                    requires
                        w >= 1,
                        n > (usize::MAX as int) / (w as int),
                        w as int * ((usize::MAX as int) / (w as int)) + ((usize::MAX as int) % (
                        w as int)) == usize::MAX as int,
                        0 <= (usize::MAX as int) % (w as int) < w,
                ;
            }
            return None;
        }
        proof {
            vstd::arithmetic::div_mod::lemma_fundamental_div_mod(usize::MAX as int, w as int);
            vstd::arithmetic::div_mod::lemma_mod_bound(usize::MAX as int, w as int);
            assert(n * w <= usize::MAX) by (nonlinear_arith)
                requires
                    w >= 1,
                    0 <= n <= (usize::MAX as int) / (w as int),
                    w as int * ((usize::MAX as int) / (w as int)) + ((usize::MAX as int) % (
                    w as int)) == usize::MAX as int,
                    0 <= (usize::MAX as int) % (w as int) < w,
            ;
        }
    }
    let mut out: Vec<u8> = Vec::new();
    let mut k: usize = 0;
    while k < n
        invariant
            k <= n,
            n == src@.len(),
            w == Repr::spec_width(),
            n * w <= usize::MAX,
            out@ == spec_encode_elems(src@.take(k as int)),
            out@.len() == k * w,
        decreases n - k,
    {
        let mut eb = src[k].to_bytes();
        proof {
            Repr::lemma_width();
            src@[k as int].lemma_bytes_len();
            assert(src@.take(k as int + 1).drop_last() =~= src@.take(k as int));
            assert(src@.take(k as int + 1).last() == src@[k as int]);
            assert((k + 1) * w == k * w + w) by (nonlinear_arith);
            assert((k + 1) * w <= n * w) by (nonlinear_arith)
                requires
                    w >= 1,
                    k < n,
            ;
        }
        out.append(&mut eb);
        k = k + 1;
    }
    proof {
        assert(src@.take(n as int) =~= src@);
    }
    Some(out)
}

/// An owning registration of caller-supplied host memory: the driver pins
/// the pages for the registration's lifetime, and unregistering hands the
/// storage back instead of freeing it.
#[derive(Debug)]
pub struct CudaHostRegisteredBuffer<Repr: DeviceRepr> {
    ptr: RegisteredHostPtr,
    size: usize,
    _marker: core::marker::PhantomData<Repr>,
}

/// Whether the registration owns a live registered allocation of the
/// context, of exactly its recorded size.
pub open spec fn registered_buffer_valid<Repr: DeviceRepr>(
    b: &CudaHostRegisteredBuffer<Repr>,
    ctx: CudaContext,
) -> bool {
    &&& pinned_valid_spec(b.spec_id(), b.spec_size(), ctx)
    &&& ctx.allocs()[b.spec_id()].registered
}

impl<Repr: DeviceRepr> CudaHostRegisteredBuffer<Repr> {
    #[verifier::type_invariant]
    spec fn type_wf(self) -> bool {
        &&& self.ptr.spec_delta() == 0
        &&& self.size <= MAX_TOTAL_MEMORY
    }

    /// The allocation the registration owns.
    pub closed spec fn spec_id(&self) -> int {
        self.ptr.spec_id()
    }

    /// The registration's size in bytes.
    pub closed spec fn spec_size(&self) -> int {
        self.size as int
    }

    /// Registers the elements of a vector as pinned host memory: the driver
    /// takes over the lifetime bookkeeping of the storage, whose bytes
    /// become the new allocation's contents.  The storage is reclaimed by
    /// [`CudaHostRegisteredBuffer::unlock`], the exact inverse.
    pub fn lock_vec(ctx: &mut CudaContext, src: Vec<Repr>, flags: HostRegisterFlags) -> (r:
        CudaResult<Self>)
        requires
            old(ctx).wf(),
        ensures
            final(ctx).wf(),
            ctx_counters_unchanged(*old(ctx), *final(ctx)),
            final(ctx).pools() == old(ctx).pools(),
            final(ctx).spec_mem_used() == old(ctx).spec_mem_used(),
            src@.len() * Repr::spec_width() > usize::MAX ==> (r matches Err(e) && e.spec_code()
                == CUDA_ERROR_INVALID_VALUE && *final(ctx) == *old(ctx)),
            src@.len() * Repr::spec_width() <= usize::MAX && !can_register(
                *old(ctx),
                src@.len() * Repr::spec_width(),
            ) ==> (r matches Err(e) && e.spec_code() == CUDA_ERROR_OUT_OF_MEMORY && *final(ctx)
                == *old(ctx)),
            src@.len() * Repr::spec_width() <= usize::MAX && can_register(
                *old(ctx),
                src@.len() * Repr::spec_width(),
            ) ==> (r matches Ok(b) && b.spec_id() == old(ctx).alloc_count() && b.spec_size()
                == src@.len() * Repr::spec_width() && final(ctx).allocs() == old(
                ctx,
            ).allocs().push(registered_alloc(spec_encode_elems(src@), flags.spec_bits()))),
    {
        let ghost srcv = src@;
        let bytes = match encode_elems(&src) {
            Some(b) => b,
            None => {
                return Err(CudaError::new(CUDA_ERROR_INVALID_VALUE));
            },
        };
        proof {
            lemma_encode_len::<Repr>(srcv);
        }
        let size = bytes.len();
        match ctx.register_raw(bytes, flags.bits()) {
            Ok(id) => Ok(
                CudaHostRegisteredBuffer {
                    ptr: RegisteredHostPtr::new(id),
                    size,
                    _marker: core::marker::PhantomData,
                },
            ),
            Err(e) => Err(e),
        }
    }

    /// Unregisters the memory and hands the storage back as a vector of
    /// elements holding the registration's final bytes.  No deallocation
    /// call is issued: unregistration is the exact inverse of registration.
    pub fn unlock(self, ctx: &mut CudaContext) -> (r: CudaResult<Vec<Repr>>)
        requires
            old(ctx).wf(),
            registered_buffer_valid(&self, *old(ctx)),
            self.spec_size() % Repr::spec_width() == 0,
        ensures
            final(ctx).wf(),
            final(ctx).spec_free_count() == old(ctx).spec_free_count(),
            final(ctx).spec_device() == old(ctx).spec_device(),
            final(ctx).spec_streams() == old(ctx).spec_streams(),
            final(ctx).pools() == old(ctx).pools(),
            final(ctx).spec_mem_used() == old(ctx).spec_mem_used(),
            final(ctx).allocs() == old(ctx).allocs().update(
                self.spec_id(),
                retired_alloc(old(ctx).allocs()[self.spec_id()]),
            ),
            r matches Ok(v) && v@.len() * Repr::spec_width() == self.spec_size() && forall|k: int|
                0 <= k < v@.len() ==> (#[trigger] v@[k]).spec_bytes() == old(ctx).alloc_bytes(
                    self.spec_id(),
                ).subrange(k * Repr::spec_width(), k * Repr::spec_width() + Repr::spec_width()),
    {
        proof {
            use_type_invariant(&self);
            Repr::lemma_width();
        }
        let id = self.ptr.alloc_id();
        let w = Repr::byte_width();
        let n = self.size / w;
        proof {
            vstd::arithmetic::div_mod::lemma_fundamental_div_mod(self.size as int, w as int);
            assert(n * w == w * n) by (nonlinear_arith);
        }
        let mut out: Vec<Repr> = Vec::new();
        let mut k: usize = 0;
        while k < n
            invariant
                k <= n,
                w == Repr::spec_width(),
                w >= 1,
                n * w == self.spec_size(),
                ctx.wf(),
                ctx.alloc_live(self.spec_id()),
                ctx.alloc_size(self.spec_id()) == self.spec_size(),
                id == self.spec_id(),
                out@.len() == k,
                forall|kk: int|
                    0 <= kk < k ==> (#[trigger] out@[kk]).spec_bytes() == ctx.alloc_bytes(
                        self.spec_id(),
                    ).subrange(
                        kk * Repr::spec_width(),
                        kk * Repr::spec_width() + Repr::spec_width(),
                    ),
            decreases n - k,
        {
            proof {
                assert(k * w + w == (k + 1) * w) by (nonlinear_arith);
                assert((k + 1) * w <= n * w) by (nonlinear_arith)
                    requires
                        w >= 1,
                        k < n,
                ;
                assert(k * w >= 0) by (nonlinear_arith)
                    requires
                        k >= 0,
                        w >= 1,
                ;
            }
            let chunk = ctx.read_range(id, k * w, w);
            let v = Repr::from_bytes(chunk.as_slice());
            out.push(v);
            k = k + 1;
        }
        ctx.kill_raw(id, false);
        Ok(out)
    }
}

impl<Repr: DeviceRepr> PinnedBuffer<Repr> for CudaHostRegisteredBuffer<Repr> {
    type Ptr = RegisteredHostPtr;

    open spec fn pinned_id(&self) -> int {
        self.spec_id()
    }

    open spec fn pinned_size(&self) -> int {
        self.spec_size()
    }

    fn as_pinned_ptr(&self) -> RegisteredHostPtr {
        proof {
            use_type_invariant(self);
        }
        self.ptr
    }

    fn size(&self) -> usize {
        proof {
            use_type_invariant(self);
        }
        self.size
    }

    fn as_device(&self, ctx: &CudaContext) -> (r: CudaResult<
        CudaDeviceSlice<Repr, PinnedDevicePtr>,
    >) {
        proof {
            use_type_invariant(self);
        }
        let id = self.ptr.alloc_id();
        pinned_device_view(id, self.size, ctx)
    }

    fn as_device_mut(&mut self, ctx: &CudaContext) -> (r: CudaResult<
        CudaDeviceSliceMut<Repr, PinnedDevicePtr>,
    >) {
        proof {
            use_type_invariant(&*self);
        }
        let id = self.ptr.alloc_id();
        pinned_device_view_mut(id, self.size, ctx)
    }

    fn flags(&self, ctx: &CudaContext) -> (r: CudaResult<PinnedFlags>) {
        let id = self.ptr.alloc_id();
        Ok(PinnedFlags::from_bits(ctx.alloc_pinned_flags(id)))
    }
}

} // verus!
