//! Typed memory: element representations, capability-tagged pointers, slice
//! views, owning buffers and the copy/fill engine.
//!
//! A pointer value carries the identity of the allocation it addresses and a
//! byte offset into it; which operations may accept it is decided at compile
//! time by the capability traits ([`DeviceAccessible`], [`HostAccessible`]
//! and their refinements), never by a runtime check.  Slice views add an
//! element type and a bounds-checked range; owning buffers tie the
//! allocation to a consuming `free`.  Every operation that touches memory
//! takes the [`CudaContext`] and states exactly which bytes it reads or
//! writes.

use vstd::prelude::*;

use crate::context::{
    alloc_with_bytes, can_alloc, ctx_counters_unchanged, fresh_alloc, lemma_repeat_chunk,
    pool_after_free, repeat_bytes, retired_alloc, splice_bytes, AddressSpace, CudaContext,
    ALLOCATION_SPACING, MAX_ALLOCATIONS,
};
use crate::device::MAX_TOTAL_MEMORY;
use crate::error::{
    CudaError, CudaResult, DropResult, CUDA_ERROR_INVALID_VALUE, CUDA_ERROR_OUT_OF_MEMORY,
};

pub mod device;
pub mod ordered;
pub mod pinned;
pub mod pooled;
pub mod unified;

verus! {

/// A value that can live in device memory: it has a fixed byte width and a
/// byte image, and it is exactly determined by that image.
pub trait DeviceRepr: Sized + Copy {
    /// The element's width in bytes.
    spec fn spec_width() -> int;

    /// The element's byte image, in the order the device stores it.
    spec fn spec_bytes(self) -> Seq<u8>;

    /// The width is a small power of two.
    proof fn lemma_width()
        ensures
            Self::spec_width() == 1 || Self::spec_width() == 2 || Self::spec_width() == 4
                || Self::spec_width() == 8 || Self::spec_width() == 16,
    ;

    /// The byte image has exactly the element's width.
    proof fn lemma_bytes_len(self)
        ensures
            self.spec_bytes().len() == Self::spec_width(),
    ;

    /// Two elements with the same byte image are the same element.
    proof fn lemma_bytes_injective(self, other: Self)
        ensures
            self.spec_bytes() == other.spec_bytes() ==> self == other,
    ;

    /// Returns the element's width in bytes.
    fn byte_width() -> (w: usize)
        ensures
            w == Self::spec_width(),
    ;

    /// Encodes the element into its byte image.
    fn to_bytes(self) -> (b: Vec<u8>)
        ensures
            b@ == self.spec_bytes(),
    ;

    /// Decodes the element whose byte image is `b`.
    fn from_bytes(b: &[u8]) -> (r: Self)
        requires
            b@.len() == Self::spec_width(),
        ensures
            r.spec_bytes() == b@,
    ;
}

/// An element one byte wide, eligible for the 8-bit fill primitive.
pub trait Align1: DeviceRepr {
    /// One byte wide.
    proof fn lemma_align1()
        ensures
            Self::spec_width() == 1,
    ;
}

/// An element two bytes wide, eligible for the 16-bit fill primitive.
pub trait Align2: DeviceRepr {
    /// Two bytes wide.
    proof fn lemma_align2()
        ensures
            Self::spec_width() == 2,
    ;
}

/// An element four bytes wide, eligible for the 32-bit fill primitive.
pub trait Align4: DeviceRepr {
    /// Four bytes wide.
    proof fn lemma_align4()
        ensures
            Self::spec_width() == 4,
    ;
}

impl DeviceRepr for u8 {
    open spec fn spec_width() -> int {
        1
    }

    open spec fn spec_bytes(self) -> Seq<u8> {
        seq![self]
    }

    proof fn lemma_width() {
    }

    proof fn lemma_bytes_len(self) {
    }

    proof fn lemma_bytes_injective(self, other: Self) {
        if self.spec_bytes() == other.spec_bytes() {
            assert(self.spec_bytes()[0] == other.spec_bytes()[0]);
        }
    }

    fn byte_width() -> usize {
        1
    }

    fn to_bytes(self) -> (b: Vec<u8>) {
        let mut b: Vec<u8> = Vec::new();
        b.push(self);
        proof {
            assert(b@ =~= seq![self]);
        }
        b
    }

    fn from_bytes(b: &[u8]) -> (r: Self) {
        let r = b[0];
        proof {
            assert(r.spec_bytes() =~= b@);
        }
        r
    }
}

impl Align1 for u8 {
    proof fn lemma_align1() {
    }
}

impl DeviceRepr for u16 {
    open spec fn spec_width() -> int {
        2
    }

    open spec fn spec_bytes(self) -> Seq<u8> {
        vstd::bytes::spec_u16_to_le_bytes(self)
    }

    proof fn lemma_width() {
    }

    proof fn lemma_bytes_len(self) {
        vstd::bytes::lemma_auto_spec_u16_to_from_le_bytes();
    }

    proof fn lemma_bytes_injective(self, other: Self) {
        vstd::bytes::lemma_auto_spec_u16_to_from_le_bytes();
        assert(vstd::bytes::spec_u16_to_le_bytes(self).len() == 2);
        assert(vstd::bytes::spec_u16_to_le_bytes(other).len() == 2);
        assert(vstd::bytes::spec_u16_from_le_bytes(vstd::bytes::spec_u16_to_le_bytes(self)) == self);
        assert(vstd::bytes::spec_u16_from_le_bytes(vstd::bytes::spec_u16_to_le_bytes(other)) == other);
        if self.spec_bytes() == other.spec_bytes() {
            assert(vstd::bytes::spec_u16_from_le_bytes(self.spec_bytes())
                == vstd::bytes::spec_u16_from_le_bytes(other.spec_bytes()));
        }
    }

    fn byte_width() -> usize {
        2
    }

    fn to_bytes(self) -> (b: Vec<u8>) {
        vstd::bytes::u16_to_le_bytes(self)
    }

    fn from_bytes(b: &[u8]) -> (r: Self) {
        let r = vstd::bytes::u16_from_le_bytes(b);
        proof {
            vstd::bytes::lemma_auto_spec_u16_to_from_le_bytes();
        }
        r
    }
}

impl Align2 for u16 {
    proof fn lemma_align2() {
    }
}

impl DeviceRepr for u32 {
    open spec fn spec_width() -> int {
        4
    }

    open spec fn spec_bytes(self) -> Seq<u8> {
        vstd::bytes::spec_u32_to_le_bytes(self)
    }

    proof fn lemma_width() {
    }

    proof fn lemma_bytes_len(self) {
        vstd::bytes::lemma_auto_spec_u32_to_from_le_bytes();
    }

    proof fn lemma_bytes_injective(self, other: Self) {
        vstd::bytes::lemma_auto_spec_u32_to_from_le_bytes();
        assert(vstd::bytes::spec_u32_to_le_bytes(self).len() == 4);
        assert(vstd::bytes::spec_u32_to_le_bytes(other).len() == 4);
        assert(vstd::bytes::spec_u32_from_le_bytes(vstd::bytes::spec_u32_to_le_bytes(self)) == self);
        assert(vstd::bytes::spec_u32_from_le_bytes(vstd::bytes::spec_u32_to_le_bytes(other)) == other);
        if self.spec_bytes() == other.spec_bytes() {
            assert(vstd::bytes::spec_u32_from_le_bytes(self.spec_bytes())
                == vstd::bytes::spec_u32_from_le_bytes(other.spec_bytes()));
        }
    }

    fn byte_width() -> usize {
        4
    }

    fn to_bytes(self) -> (b: Vec<u8>) {
        vstd::bytes::u32_to_le_bytes(self)
    }

    fn from_bytes(b: &[u8]) -> (r: Self) {
        let r = vstd::bytes::u32_from_le_bytes(b);
        proof {
            vstd::bytes::lemma_auto_spec_u32_to_from_le_bytes();
        }
        r
    }
}

impl Align4 for u32 {
    proof fn lemma_align4() {
    }
}

impl DeviceRepr for u64 {
    open spec fn spec_width() -> int {
        8
    }

    open spec fn spec_bytes(self) -> Seq<u8> {
        vstd::bytes::spec_u64_to_le_bytes(self)
    }

    proof fn lemma_width() {
    }

    proof fn lemma_bytes_len(self) {
        vstd::bytes::lemma_auto_spec_u64_to_from_le_bytes();
    }

    proof fn lemma_bytes_injective(self, other: Self) {
        vstd::bytes::lemma_auto_spec_u64_to_from_le_bytes();
        if self.spec_bytes() == other.spec_bytes() {
            assert(vstd::bytes::spec_u64_from_le_bytes(self.spec_bytes())
                == vstd::bytes::spec_u64_from_le_bytes(other.spec_bytes()));
        }
    }

    fn byte_width() -> usize {
        8
    }

    fn to_bytes(self) -> (b: Vec<u8>) {
        vstd::bytes::u64_to_le_bytes(self)
    }

    fn from_bytes(b: &[u8]) -> (r: Self) {
        let r = vstd::bytes::u64_from_le_bytes(b);
        proof {
            vstd::bytes::lemma_auto_spec_u64_to_from_le_bytes();
        }
        r
    }
}


impl DeviceRepr for i8 {
    open spec fn spec_width() -> int {
        1
    }

    open spec fn spec_bytes(self) -> Seq<u8> {
        seq![self as u8]
    }

    proof fn lemma_width() {
    }

    proof fn lemma_bytes_len(self) {
    }

    proof fn lemma_bytes_injective(self, other: Self) {
        if self.spec_bytes() == other.spec_bytes() {
            assert(self.spec_bytes()[0] == other.spec_bytes()[0]);
            assert(self as u8 == other as u8 ==> self == other) by (bit_vector);
        }
    }

    fn byte_width() -> usize {
        1
    }

    fn to_bytes(self) -> (b: Vec<u8>) {
        let mut b: Vec<u8> = Vec::new();
        #[verifier::truncate]
        let u = self as u8;
        b.push(u);
        proof {
            assert(b@ =~= seq![self as u8]);
        }
        b
    }

    fn from_bytes(b: &[u8]) -> (r: Self) {
        #[verifier::truncate]
        let r = b[0] as i8;
        proof {
            assert(r as u8 == b[0int] ==> r.spec_bytes() =~= b@);
            let u = b[0int];
            assert(u as i8 as u8 == u) by (bit_vector);
        }
        r
    }
}

impl Align1 for i8 {
    proof fn lemma_align1() {
    }
}

impl DeviceRepr for i16 {
    open spec fn spec_width() -> int {
        2
    }

    open spec fn spec_bytes(self) -> Seq<u8> {
        vstd::bytes::spec_u16_to_le_bytes(self as u16)
    }

    proof fn lemma_width() {
    }

    proof fn lemma_bytes_len(self) {
        vstd::bytes::lemma_auto_spec_u16_to_from_le_bytes();
    }

    proof fn lemma_bytes_injective(self, other: Self) {
        vstd::bytes::lemma_auto_spec_u16_to_from_le_bytes();
        let a = self as u16;
        let b = other as u16;
        assert(vstd::bytes::spec_u16_to_le_bytes(a).len() == 2);
        assert(vstd::bytes::spec_u16_to_le_bytes(b).len() == 2);
        assert(vstd::bytes::spec_u16_from_le_bytes(vstd::bytes::spec_u16_to_le_bytes(a)) == a);
        assert(vstd::bytes::spec_u16_from_le_bytes(vstd::bytes::spec_u16_to_le_bytes(b)) == b);
        assert(self as u16 == other as u16 ==> self == other) by (bit_vector);
    }

    fn byte_width() -> usize {
        2
    }

    fn to_bytes(self) -> (b: Vec<u8>) {
        #[verifier::truncate]
        let u = self as u16;
        vstd::bytes::u16_to_le_bytes(u)
    }

    fn from_bytes(b: &[u8]) -> (r: Self) {
        let u = vstd::bytes::u16_from_le_bytes(b);
        proof {
            vstd::bytes::lemma_auto_spec_u16_to_from_le_bytes();
            assert(vstd::bytes::spec_u16_to_le_bytes(u as i16 as u16) == vstd::bytes::spec_u16_to_le_bytes(u)) by {
                assert(u as i16 as u16 == u) by (bit_vector);
            }
        }
        #[verifier::truncate]
        let r = u as i16;
        r
    }
}

impl DeviceRepr for i32 {
    open spec fn spec_width() -> int {
        4
    }

    open spec fn spec_bytes(self) -> Seq<u8> {
        vstd::bytes::spec_u32_to_le_bytes(self as u32)
    }

    proof fn lemma_width() {
    }

    proof fn lemma_bytes_len(self) {
        vstd::bytes::lemma_auto_spec_u32_to_from_le_bytes();
    }

    proof fn lemma_bytes_injective(self, other: Self) {
        vstd::bytes::lemma_auto_spec_u32_to_from_le_bytes();
        let a = self as u32;
        let b = other as u32;
        assert(vstd::bytes::spec_u32_to_le_bytes(a).len() == 4);
        assert(vstd::bytes::spec_u32_to_le_bytes(b).len() == 4);
        assert(vstd::bytes::spec_u32_from_le_bytes(vstd::bytes::spec_u32_to_le_bytes(a)) == a);
        assert(vstd::bytes::spec_u32_from_le_bytes(vstd::bytes::spec_u32_to_le_bytes(b)) == b);
        assert(self as u32 == other as u32 ==> self == other) by (bit_vector);
    }

    fn byte_width() -> usize {
        4
    }

    fn to_bytes(self) -> (b: Vec<u8>) {
        #[verifier::truncate]
        let u = self as u32;
        vstd::bytes::u32_to_le_bytes(u)
    }

    fn from_bytes(b: &[u8]) -> (r: Self) {
        let u = vstd::bytes::u32_from_le_bytes(b);
        proof {
            vstd::bytes::lemma_auto_spec_u32_to_from_le_bytes();
            assert(vstd::bytes::spec_u32_to_le_bytes(u as i32 as u32) == vstd::bytes::spec_u32_to_le_bytes(u)) by {
                assert(u as i32 as u32 == u) by (bit_vector);
            }
        }
        #[verifier::truncate]
        let r = u as i32;
        r
    }
}

impl DeviceRepr for i64 {
    open spec fn spec_width() -> int {
        8
    }

    open spec fn spec_bytes(self) -> Seq<u8> {
        vstd::bytes::spec_u64_to_le_bytes(self as u64)
    }

    proof fn lemma_width() {
    }

    proof fn lemma_bytes_len(self) {
        vstd::bytes::lemma_auto_spec_u64_to_from_le_bytes();
    }

    proof fn lemma_bytes_injective(self, other: Self) {
        vstd::bytes::lemma_auto_spec_u64_to_from_le_bytes();
        let a = self as u64;
        let b = other as u64;
        assert(vstd::bytes::spec_u64_to_le_bytes(a).len() == 8);
        assert(vstd::bytes::spec_u64_to_le_bytes(b).len() == 8);
        assert(vstd::bytes::spec_u64_from_le_bytes(vstd::bytes::spec_u64_to_le_bytes(a)) == a);
        assert(vstd::bytes::spec_u64_from_le_bytes(vstd::bytes::spec_u64_to_le_bytes(b)) == b);
        assert(self as u64 == other as u64 ==> self == other) by (bit_vector);
    }

    fn byte_width() -> usize {
        8
    }

    fn to_bytes(self) -> (b: Vec<u8>) {
        #[verifier::truncate]
        let u = self as u64;
        vstd::bytes::u64_to_le_bytes(u)
    }

    fn from_bytes(b: &[u8]) -> (r: Self) {
        let u = vstd::bytes::u64_from_le_bytes(b);
        proof {
            vstd::bytes::lemma_auto_spec_u64_to_from_le_bytes();
            assert(vstd::bytes::spec_u64_to_le_bytes(u as i64 as u64) == vstd::bytes::spec_u64_to_le_bytes(u)) by {
                assert(u as i64 as u64 == u) by (bit_vector);
            }
        }
        #[verifier::truncate]
        let r = u as i64;
        r
    }
}

impl Align2 for i16 {
    proof fn lemma_align2() {
    }
}

impl Align4 for i32 {
    proof fn lemma_align4() {
    }
}


impl DeviceRepr for u128 {
    open spec fn spec_width() -> int {
        16
    }

    open spec fn spec_bytes(self) -> Seq<u8> {
        vstd::bytes::spec_u128_to_le_bytes(self)
    }

    proof fn lemma_width() {
    }

    proof fn lemma_bytes_len(self) {
        vstd::bytes::lemma_auto_spec_u128_to_from_le_bytes();
    }

    proof fn lemma_bytes_injective(self, other: Self) {
        vstd::bytes::lemma_auto_spec_u128_to_from_le_bytes();
        assert(vstd::bytes::spec_u128_to_le_bytes(self).len() == 16);
        assert(vstd::bytes::spec_u128_to_le_bytes(other).len() == 16);
        assert(vstd::bytes::spec_u128_from_le_bytes(vstd::bytes::spec_u128_to_le_bytes(self))
            == self);
        assert(vstd::bytes::spec_u128_from_le_bytes(vstd::bytes::spec_u128_to_le_bytes(other))
            == other);
    }

    fn byte_width() -> usize {
        16
    }

    fn to_bytes(self) -> (b: Vec<u8>) {
        vstd::bytes::u128_to_le_bytes(self)
    }

    fn from_bytes(b: &[u8]) -> (r: Self) {
        let r = vstd::bytes::u128_from_le_bytes(b);
        proof {
            vstd::bytes::lemma_auto_spec_u128_to_from_le_bytes();
        }
        r
    }
}

impl DeviceRepr for i128 {
    open spec fn spec_width() -> int {
        16
    }

    open spec fn spec_bytes(self) -> Seq<u8> {
        vstd::bytes::spec_u128_to_le_bytes(self as u128)
    }

    proof fn lemma_width() {
    }

    proof fn lemma_bytes_len(self) {
        vstd::bytes::lemma_auto_spec_u128_to_from_le_bytes();
    }

    proof fn lemma_bytes_injective(self, other: Self) {
        vstd::bytes::lemma_auto_spec_u128_to_from_le_bytes();
        let a = self as u128;
        let b = other as u128;
        assert(vstd::bytes::spec_u128_to_le_bytes(a).len() == 16);
        assert(vstd::bytes::spec_u128_to_le_bytes(b).len() == 16);
        assert(vstd::bytes::spec_u128_from_le_bytes(vstd::bytes::spec_u128_to_le_bytes(a)) == a);
        assert(vstd::bytes::spec_u128_from_le_bytes(vstd::bytes::spec_u128_to_le_bytes(b)) == b);
        assert(self as u128 == other as u128 ==> self == other) by (bit_vector);
    }

    fn byte_width() -> usize {
        16
    }

    fn to_bytes(self) -> (b: Vec<u8>) {
        #[verifier::truncate]
        let u = self as u128;
        vstd::bytes::u128_to_le_bytes(u)
    }

    fn from_bytes(b: &[u8]) -> (r: Self) {
        let u = vstd::bytes::u128_from_le_bytes(b);
        proof {
            vstd::bytes::lemma_auto_spec_u128_to_from_le_bytes();
            assert(vstd::bytes::spec_u128_to_le_bytes(u as i128 as u128)
                == vstd::bytes::spec_u128_to_le_bytes(u)) by {
                assert(u as i128 as u128 == u) by (bit_vector);
            }
        }
        #[verifier::truncate]
        let r = u as i128;
        r
    }
}

/// The model address of byte `delta` of allocation `id`: allocations sit at
/// fixed, non-overlapping base addresses.
pub open spec fn spec_addr_of(id: int, delta: int) -> int {
    (id + 1) * ALLOCATION_SPACING + delta
}

/// Computes the model address of byte `delta` of allocation `id`.
pub(crate) fn addr_of(id: usize, delta: usize) -> (a: u64)
    requires
        id < MAX_ALLOCATIONS,
        delta <= MAX_TOTAL_MEMORY,
    ensures
        a == spec_addr_of(id as int, delta as int),
        a != 0,
{
    proof {
        assert((id + 1) * ALLOCATION_SPACING <= MAX_ALLOCATIONS * ALLOCATION_SPACING)
            by (nonlinear_arith)
            requires
                id < MAX_ALLOCATIONS,
        ;
        assert((id + 1) * ALLOCATION_SPACING >= ALLOCATION_SPACING) by (nonlinear_arith)
            requires
                id >= 0,
        ;
    }
    (id as u64 + 1) * ALLOCATION_SPACING + delta as u64
}

/// A pointer-like value: it names an allocation and a byte offset into it,
/// and supports offset computation without dereferencing.
pub trait CudaPointer: Sized + Copy {
    /// The allocation this pointer addresses.
    spec fn spec_id(&self) -> int;

    /// The pointer's byte offset from the allocation's base address.
    spec fn spec_delta(&self) -> int;

    /// Returns the identity of the allocation this pointer addresses,
    /// always inside the model's bounds.
    fn alloc_id(&self) -> (id: usize)
        ensures
            id == self.spec_id(),
            id < MAX_ALLOCATIONS,
    ;

    /// Returns the pointer's byte offset from the allocation's base, always
    /// inside the model's bounds.
    fn byte_delta(&self) -> (d: usize)
        ensures
            d == self.spec_delta(),
            d <= MAX_TOTAL_MEMORY,
    ;

    /// The same pointer advanced by `byte_count` bytes.
    fn offset(self, byte_count: usize) -> (r: Self)
        requires
            self.spec_delta() + byte_count <= MAX_TOTAL_MEMORY,
            self.spec_delta() + byte_count <= usize::MAX,
        ensures
            r.spec_id() == self.spec_id(),
            r.spec_delta() == self.spec_delta() + byte_count,
    ;
}

/// A pointer that the device may dereference.
pub trait DeviceAccessible: CudaPointer {
    /// Returns the raw device address: base of the allocation plus the
    /// pointer's byte offset, never null.
    fn as_device_ptr(&self) -> (a: u64)
        ensures
            a == spec_addr_of(self.spec_id(), self.spec_delta()),
            a != 0,
    ;
}

/// A pointer that the host may dereference.
pub trait HostAccessible: CudaPointer {
    /// Returns the raw host address: base of the allocation plus the
    /// pointer's byte offset, never null.
    fn as_host_ptr(&self) -> (a: u64)
        ensures
            a == spec_addr_of(self.spec_id(), self.spec_delta()),
            a != 0,
    ;
}

/// A device pointer whose allocation the driver owns: it must be released
/// through the device deallocation path.
pub trait DeviceAllocated: DeviceAccessible {

}

/// A host pointer into page-locked memory.
pub trait DevicePinned: HostAccessible {

}

/// A pointer into unified memory, dereferenceable from both sides.
pub trait DeviceManaged: DeviceAccessible + HostAccessible {

}

/// A pointer into plain device memory.
#[derive(Clone, Copy, Debug)]
pub struct DevicePtr {
    id: usize,
    delta: usize,
}

impl DevicePtr {
    #[verifier::type_invariant]
    spec fn type_wf(self) -> bool {
        self.id < MAX_ALLOCATIONS && self.delta <= MAX_TOTAL_MEMORY
    }

    /// Wraps an allocation identity as a pointer to its first byte.
    pub(crate) fn new(id: usize) -> (p: Self)
        requires
            id < MAX_ALLOCATIONS,
        ensures
            p.spec_id() == id,
            p.spec_delta() == 0,
    {
        DevicePtr { id, delta: 0 }
    }
}

impl CudaPointer for DevicePtr {
    closed spec fn spec_id(&self) -> int {
        self.id as int
    }

    closed spec fn spec_delta(&self) -> int {
        self.delta as int
    }

    fn alloc_id(&self) -> usize {
        proof {
            use_type_invariant(self);
        }
        self.id
    }

    fn byte_delta(&self) -> usize {
        proof {
            use_type_invariant(self);
        }
        self.delta
    }

    fn offset(self, byte_count: usize) -> Self {
        proof {
            use_type_invariant(&self);
        }
        DevicePtr { id: self.id, delta: self.delta + byte_count }
    }
}

impl DeviceAccessible for DevicePtr {
    fn as_device_ptr(&self) -> u64 {
        proof {
            use_type_invariant(self);
        }
        addr_of(self.id, self.delta)
    }
}

impl DeviceAllocated for DevicePtr {

}

/// The allocation a slice views.
pub open spec fn slice_alloc<Repr: DeviceRepr, S: CudaSliceAccess<Repr>>(s: &S) -> int {
    s.spec_ptr().spec_id()
}

/// The byte position of a slice's first element within its allocation.
pub open spec fn slice_start<Repr: DeviceRepr, S: CudaSliceAccess<Repr>>(s: &S) -> int {
    s.spec_ptr().spec_delta() + s.spec_offset() * Repr::spec_width()
}

/// The byte length of a slice.
pub open spec fn slice_byte_len<Repr: DeviceRepr, S: CudaSliceAccess<Repr>>(s: &S) -> int {
    s.spec_len() * Repr::spec_width()
}

/// Whether a slice views a live allocation of the context and lies inside
/// it.  Every operation that touches memory through a slice asks for this:
/// it is what rules out use after free and out-of-bounds transfers.
pub open spec fn slice_valid<Repr: DeviceRepr, S: CudaSliceAccess<Repr>>(
    s: &S,
    ctx: CudaContext,
) -> bool {
    &&& ctx.alloc_live(slice_alloc(s))
    &&& 0 <= slice_start(s)
    &&& slice_start(s) + slice_byte_len(s) <= ctx.alloc_size(slice_alloc(s))
}

/// The bytes a slice views in the given context.
pub open spec fn slice_bytes<Repr: DeviceRepr, S: CudaSliceAccess<Repr>>(
    s: &S,
    ctx: CudaContext,
) -> Seq<u8> {
    ctx.alloc_bytes(slice_alloc(s)).subrange(slice_start(s), slice_start(s) + slice_byte_len(s))
}

/// The byte image of element `k` of a slice in the given context.
pub open spec fn slice_elem_bytes<Repr: DeviceRepr, S: CudaSliceAccess<Repr>>(
    s: &S,
    ctx: CudaContext,
    k: int,
) -> Seq<u8> {
    ctx.alloc_bytes(slice_alloc(s)).subrange(
        slice_start(s) + k * Repr::spec_width(),
        slice_start(s) + k * Repr::spec_width() + Repr::spec_width(),
    )
}

/// The range of raw memory a slice addresses: its allocation, its first
/// byte, and its byte length.  Two slices with the same range address the
/// identical underlying memory.
pub struct SliceRange {
    /// The allocation addressed.
    pub alloc: int,
    /// The first byte addressed, counted from the allocation's base.
    pub start: int,
    /// The number of bytes addressed.
    pub byte_len: int,
}

/// The range of raw memory a slice addresses.
pub open spec fn spec_range<Repr: DeviceRepr, S: CudaSliceAccess<Repr>>(s: &S) -> SliceRange {
    SliceRange { alloc: slice_alloc(s), start: slice_start(s), byte_len: slice_byte_len(s) }
}

/// A view of typed memory: an allocation, an element offset and an element
/// count, with byte positions derived from the element width.
pub trait CudaSliceAccess<Repr: DeviceRepr>: Sized {
    /// The pointer type the slice was built over, which fixes its
    /// capability.
    type Ptr: CudaPointer;

    /// The slice's base pointer.
    spec fn spec_ptr(&self) -> Self::Ptr;

    /// The slice's element offset from the base pointer.
    spec fn spec_offset(&self) -> int;

    /// The slice's element count.
    spec fn spec_len(&self) -> int;

    /// Returns the element offset of the slice within its allocation.
    fn offset(&self) -> (o: usize)
        ensures
            o == self.spec_offset(),
    ;

    /// Returns the element count of the slice.
    fn len(&self) -> (l: usize)
        ensures
            l == self.spec_len(),
    ;

    /// Returns the slice's base pointer, not yet advanced by the offset.
    fn as_raw_ptr(&self) -> (p: Self::Ptr)
        ensures
            p == self.spec_ptr(),
    ;

    /// Returns the slice's first byte as a pointer: the base pointer
    /// advanced by the byte offset.
    fn as_ptr(&self) -> (p: Self::Ptr)
        ensures
            p.spec_id() == self.spec_ptr().spec_id(),
            p.spec_delta() == self.spec_ptr().spec_delta() + self.spec_offset()
                * Repr::spec_width(),
    ;

    /// Returns the slice's byte offset from the base pointer.
    fn byte_offset(&self) -> (b: usize)
        ensures
            b == self.spec_offset() * Repr::spec_width(),
    ;

    /// Returns the slice's length in bytes.
    fn byte_size(&self) -> (b: usize)
        ensures
            b == self.spec_len() * Repr::spec_width(),
    ;
}

/// A slice that can be narrowed to a sub-slice with shared access.
pub trait CudaSliceReadable<Repr: DeviceRepr>: CudaSliceAccess<Repr> {
    /// The type of the narrowed slice.
    type Target: CudaSliceAccess<Repr, Ptr = Self::Ptr>;

    /// Narrows the slice to `range`, which must lie inside it; the result
    /// addresses the corresponding part of the same memory with the same
    /// capability.
    fn index(&self, range: core::ops::Range<usize>) -> (r: Self::Target)
        requires
            range.start <= range.end,
            range.end <= self.spec_len(),
        ensures
            r.spec_ptr() == self.spec_ptr(),
            r.spec_offset() == self.spec_offset() + range.start,
            r.spec_len() == range.end - range.start,
    ;

    /// Narrows the slice to `range` exactly when the range lies inside it,
    /// and reports "no slice" otherwise.
    fn get(&self, range: core::ops::Range<usize>) -> (r: Option<Self::Target>)
        ensures
            r is Some <==> range.start <= range.end <= self.spec_len(),
            r matches Some(t) ==> t.spec_ptr() == self.spec_ptr() && t.spec_offset()
                == self.spec_offset() + range.start && t.spec_len() == range.end - range.start,
    ;

    /// Narrows the slice to `range`, which must lie inside it.  The same
    /// operation as `index`, under the name the copy engine documents.
    fn sub_slice(&self, range: core::ops::Range<usize>) -> (r: Self::Target)
        requires
            range.start <= range.end,
            range.end <= self.spec_len(),
        ensures
            r.spec_ptr() == self.spec_ptr(),
            r.spec_offset() == self.spec_offset() + range.start,
            r.spec_len() == range.end - range.start,
    ;
}

/// A slice that can be narrowed to a sub-slice with exclusive access.
pub trait CudaSliceWritable<Repr: DeviceRepr>: CudaSliceAccess<Repr> {
    /// The type of the narrowed slice.
    type TargetMut: CudaSliceAccess<Repr, Ptr = Self::Ptr>;

    /// Narrows the slice to `range`, which must lie inside it, with
    /// exclusive access to the corresponding part of the same memory.
    fn index_mut(&mut self, range: core::ops::Range<usize>) -> (r: Self::TargetMut)
        requires
            range.start <= range.end,
            range.end <= old(self).spec_len(),
        ensures
            *final(self) == *old(self),
            r.spec_ptr() == old(self).spec_ptr(),
            r.spec_offset() == old(self).spec_offset() + range.start,
            r.spec_len() == range.end - range.start,
    ;

    /// Narrows the slice to `range` exactly when the range lies inside it,
    /// and reports "no slice" otherwise.
    fn get_mut(&mut self, range: core::ops::Range<usize>) -> (r: Option<Self::TargetMut>)
        ensures
            *final(self) == *old(self),
            r is Some <==> range.start <= range.end <= old(self).spec_len(),
            r matches Some(t) ==> t.spec_ptr() == old(self).spec_ptr() && t.spec_offset() == old(
                self,
            ).spec_offset() + range.start && t.spec_len() == range.end - range.start,
    ;

    /// Narrows the slice to `range`, which must lie inside it, with
    /// exclusive access.  The same operation as `index_mut`, under the name
    /// the copy engine documents.
    fn sub_slice_mut(&mut self, range: core::ops::Range<usize>) -> (r: Self::TargetMut)
        requires
            range.start <= range.end,
            range.end <= old(self).spec_len(),
        ensures
            *final(self) == *old(self),
            r.spec_ptr() == old(self).spec_ptr(),
            r.spec_offset() == old(self).spec_offset() + range.start,
            r.spec_len() == range.end - range.start,
    ;
}

/// A read-only view of device-accessible elements.
#[derive(Debug)]
pub struct CudaDeviceSlice<'a, Repr: DeviceRepr, Ptr: DeviceAccessible> {
    ptr: Ptr,
    offset: usize,
    len: usize,
    _marker: core::marker::PhantomData<&'a [Repr]>,
}

/// A writable view of device-accessible elements, the target of the fill
/// and copy operations.
#[derive(Debug)]
pub struct CudaDeviceSliceMut<'a, Repr: DeviceRepr, Ptr: DeviceAccessible> {
    ptr: Ptr,
    offset: usize,
    len: usize,
    _marker: core::marker::PhantomData<&'a mut [Repr]>,
}

/// A read-only view of host-accessible elements.
#[derive(Debug)]
pub struct CudaHostSlice<'a, Repr: DeviceRepr, Ptr: HostAccessible> {
    ptr: Ptr,
    offset: usize,
    len: usize,
    _marker: core::marker::PhantomData<&'a [Repr]>,
}

/// A writable view of host-accessible elements.
#[derive(Debug)]
pub struct CudaHostSliceMut<'a, Repr: DeviceRepr, Ptr: HostAccessible> {
    ptr: Ptr,
    offset: usize,
    len: usize,
    _marker: core::marker::PhantomData<&'a mut [Repr]>,
}

/// The invariant every slice keeps: its whole element range, placed after
/// its base pointer, stays inside the model's byte bounds.
pub open spec fn slice_fields_wf<Ptr: CudaPointer>(ptr: Ptr, offset: int, len: int, w: int) -> bool {
    &&& 0 <= ptr.spec_delta()
    &&& ptr.spec_delta() + (offset + len) * w <= MAX_TOTAL_MEMORY
    &&& ptr.spec_delta() + (offset + len) * w <= usize::MAX
}

impl<'a, Repr: DeviceRepr, Ptr: DeviceAccessible> CudaDeviceSlice<'a, Repr, Ptr> {
    #[verifier::type_invariant]
    spec fn type_wf(self) -> bool {
        slice_fields_wf(self.ptr, self.offset as int, self.len as int, Repr::spec_width())
    }

    /// Builds a view from its parts; the range must stay inside the model's
    /// byte bounds.
    pub(crate) fn from_raw_parts(ptr: Ptr, offset: usize, len: usize) -> (r: Self)
        requires
            slice_fields_wf(ptr, offset as int, len as int, Repr::spec_width()),
        ensures
            r.spec_ptr() == ptr,
            r.spec_offset() == offset,
            r.spec_len() == len,
    {
        CudaDeviceSlice { ptr, offset, len, _marker: core::marker::PhantomData }
    }
}

impl<'a, Repr: DeviceRepr, Ptr: DeviceAccessible> CudaSliceAccess<Repr> for CudaDeviceSlice<'a, Repr, Ptr> {
    type Ptr = Ptr;

    closed spec fn spec_ptr(&self) -> Ptr {
        self.ptr
    }

    closed spec fn spec_offset(&self) -> int {
        self.offset as int
    }

    closed spec fn spec_len(&self) -> int {
        self.len as int
    }

    fn offset(&self) -> usize {
        self.offset
    }

    fn len(&self) -> usize {
        self.len
    }

    fn as_raw_ptr(&self) -> Ptr {
        self.ptr
    }

    fn as_ptr(&self) -> Ptr {
        proof {
            use_type_invariant(self);
            Repr::lemma_width();
            let w = Repr::spec_width();
            assert(self.offset * w >= 0 && self.offset * w <= (self.offset + self.len) * w)
                by (nonlinear_arith)
                requires
                    w >= 1,
                    self.offset >= 0,
                    self.len >= 0,
            ;
        }
        let b = self.byte_offset();
        self.ptr.offset(b)
    }

    fn byte_offset(&self) -> usize {
        proof {
            use_type_invariant(self);
            Repr::lemma_width();
            let w = Repr::spec_width();
            assert(self.offset * w >= 0 && self.offset * w <= (self.offset + self.len) * w)
                by (nonlinear_arith)
                requires
                    w >= 1,
                    self.offset >= 0,
                    self.len >= 0,
            ;
        }
        self.offset * Repr::byte_width()
    }

    fn byte_size(&self) -> usize {
        proof {
            use_type_invariant(self);
            Repr::lemma_width();
            let w = Repr::spec_width();
            assert(self.len * w >= 0 && self.len * w <= (self.offset + self.len) * w)
                by (nonlinear_arith)
                requires
                    w >= 1,
                    self.offset >= 0,
                    self.len >= 0,
            ;
        }
        self.len * Repr::byte_width()
    }
}

impl<'a, Repr: DeviceRepr, Ptr: DeviceAccessible> CudaSliceReadable<Repr> for CudaDeviceSlice<'a, Repr, Ptr> {
    type Target = CudaDeviceSlice<'a, Repr, Ptr>;

    fn index(&self, range: core::ops::Range<usize>) -> (r: Self::Target) {
        proof {
            use_type_invariant(self);
            Repr::lemma_width();
            let w = Repr::spec_width();
            assert((self.offset + range.end) * w <= (self.offset + self.len) * w)
                by (nonlinear_arith)
                requires
                    w >= 1,
                    self.offset >= 0,
                    0 <= range.end <= self.len,
            ;
            assert(self.offset + self.len <= (self.offset + self.len) * w) by (nonlinear_arith)
                requires
                    w >= 1,
                    self.offset >= 0,
                    self.len >= 0,
            ;
        }
        CudaDeviceSlice {
            ptr: self.ptr,
            offset: self.offset + range.start,
            len: range.end - range.start,
            _marker: core::marker::PhantomData,
        }
    }

    fn get(&self, range: core::ops::Range<usize>) -> (r: Option<Self::Target>) {
        if range.start > range.end || range.end > self.len {
            return None;
        }
        Some(self.index(range))
    }

    fn sub_slice(&self, range: core::ops::Range<usize>) -> (r: Self::Target) {
        self.index(range)
    }
}

impl<'a, Repr: DeviceRepr, Ptr: DeviceAccessible> CudaDeviceSliceMut<'a, Repr, Ptr> {
    #[verifier::type_invariant]
    spec fn type_wf(self) -> bool {
        slice_fields_wf(self.ptr, self.offset as int, self.len as int, Repr::spec_width())
    }

    /// Builds a view from its parts; the range must stay inside the model's
    /// byte bounds.
    pub(crate) fn from_raw_parts(ptr: Ptr, offset: usize, len: usize) -> (r: Self)
        requires
            slice_fields_wf(ptr, offset as int, len as int, Repr::spec_width()),
        ensures
            r.spec_ptr() == ptr,
            r.spec_offset() == offset,
            r.spec_len() == len,
    {
        CudaDeviceSliceMut { ptr, offset, len, _marker: core::marker::PhantomData }
    }
}

impl<'a, Repr: DeviceRepr, Ptr: DeviceAccessible> CudaSliceAccess<Repr> for CudaDeviceSliceMut<'a, Repr, Ptr> {
    type Ptr = Ptr;

    closed spec fn spec_ptr(&self) -> Ptr {
        self.ptr
    }

    closed spec fn spec_offset(&self) -> int {
        self.offset as int
    }

    closed spec fn spec_len(&self) -> int {
        self.len as int
    }

    fn offset(&self) -> usize {
        self.offset
    }

    fn len(&self) -> usize {
        self.len
    }

    fn as_raw_ptr(&self) -> Ptr {
        self.ptr
    }

    fn as_ptr(&self) -> Ptr {
        proof {
            use_type_invariant(self);
            Repr::lemma_width();
            let w = Repr::spec_width();
            assert(self.offset * w >= 0 && self.offset * w <= (self.offset + self.len) * w)
                by (nonlinear_arith)
                requires
                    w >= 1,
                    self.offset >= 0,
                    self.len >= 0,
            ;
        }
        let b = self.byte_offset();
        self.ptr.offset(b)
    }

    fn byte_offset(&self) -> usize {
        proof {
            use_type_invariant(self);
            Repr::lemma_width();
            let w = Repr::spec_width();
            assert(self.offset * w >= 0 && self.offset * w <= (self.offset + self.len) * w)
                by (nonlinear_arith)
                requires
                    w >= 1,
                    self.offset >= 0,
                    self.len >= 0,
            ;
        }
        self.offset * Repr::byte_width()
    }

    fn byte_size(&self) -> usize {
        proof {
            use_type_invariant(self);
            Repr::lemma_width();
            let w = Repr::spec_width();
            assert(self.len * w >= 0 && self.len * w <= (self.offset + self.len) * w)
                by (nonlinear_arith)
                requires
                    w >= 1,
                    self.offset >= 0,
                    self.len >= 0,
            ;
        }
        self.len * Repr::byte_width()
    }
}

impl<'a, Repr: DeviceRepr, Ptr: DeviceAccessible> CudaSliceReadable<Repr> for CudaDeviceSliceMut<'a, Repr, Ptr> {
    type Target = CudaDeviceSlice<'a, Repr, Ptr>;

    fn index(&self, range: core::ops::Range<usize>) -> (r: Self::Target) {
        proof {
            use_type_invariant(self);
            Repr::lemma_width();
            let w = Repr::spec_width();
            assert((self.offset + range.end) * w <= (self.offset + self.len) * w)
                by (nonlinear_arith)
                requires
                    w >= 1,
                    self.offset >= 0,
                    0 <= range.end <= self.len,
            ;
            assert(self.offset + self.len <= (self.offset + self.len) * w) by (nonlinear_arith)
                requires
                    w >= 1,
                    self.offset >= 0,
                    self.len >= 0,
            ;
        }
        CudaDeviceSlice {
            ptr: self.ptr,
            offset: self.offset + range.start,
            len: range.end - range.start,
            _marker: core::marker::PhantomData,
        }
    }

    fn get(&self, range: core::ops::Range<usize>) -> (r: Option<Self::Target>) {
        if range.start > range.end || range.end > self.len {
            return None;
        }
        Some(self.index(range))
    }

    fn sub_slice(&self, range: core::ops::Range<usize>) -> (r: Self::Target) {
        self.index(range)
    }
}

impl<'a, Repr: DeviceRepr, Ptr: DeviceAccessible> CudaSliceWritable<Repr> for CudaDeviceSliceMut<'a, Repr, Ptr> {
    type TargetMut = CudaDeviceSliceMut<'a, Repr, Ptr>;

    fn index_mut(&mut self, range: core::ops::Range<usize>) -> (r: Self::TargetMut) {
        proof {
            use_type_invariant(&*self);
            Repr::lemma_width();
            let w = Repr::spec_width();
            assert((self.offset + range.end) * w <= (self.offset + self.len) * w)
                by (nonlinear_arith)
                requires
                    w >= 1,
                    self.offset >= 0,
                    0 <= range.end <= self.len,
            ;
            assert(self.offset + self.len <= (self.offset + self.len) * w) by (nonlinear_arith)
                requires
                    w >= 1,
                    self.offset >= 0,
                    self.len >= 0,
            ;
        }
        CudaDeviceSliceMut {
            ptr: self.ptr,
            offset: self.offset + range.start,
            len: range.end - range.start,
            _marker: core::marker::PhantomData,
        }
    }

    fn get_mut(&mut self, range: core::ops::Range<usize>) -> (r: Option<Self::TargetMut>) {
        if range.start > range.end || range.end > self.len {
            return None;
        }
        Some(self.index_mut(range))
    }

    fn sub_slice_mut(&mut self, range: core::ops::Range<usize>) -> (r: Self::TargetMut) {
        self.index_mut(range)
    }
}

impl<'a, Repr: DeviceRepr, Ptr: HostAccessible> CudaHostSlice<'a, Repr, Ptr> {
    #[verifier::type_invariant]
    spec fn type_wf(self) -> bool {
        slice_fields_wf(self.ptr, self.offset as int, self.len as int, Repr::spec_width())
    }

    /// Builds a view from its parts; the range must stay inside the model's
    /// byte bounds.
    pub(crate) fn from_raw_parts(ptr: Ptr, offset: usize, len: usize) -> (r: Self)
        requires
            slice_fields_wf(ptr, offset as int, len as int, Repr::spec_width()),
        ensures
            r.spec_ptr() == ptr,
            r.spec_offset() == offset,
            r.spec_len() == len,
    {
        CudaHostSlice { ptr, offset, len, _marker: core::marker::PhantomData }
    }
}

impl<'a, Repr: DeviceRepr, Ptr: HostAccessible> CudaSliceAccess<Repr> for CudaHostSlice<'a, Repr, Ptr> {
    type Ptr = Ptr;

    closed spec fn spec_ptr(&self) -> Ptr {
        self.ptr
    }

    closed spec fn spec_offset(&self) -> int {
        self.offset as int
    }

    closed spec fn spec_len(&self) -> int {
        self.len as int
    }

    fn offset(&self) -> usize {
        self.offset
    }

    fn len(&self) -> usize {
        self.len
    }

    fn as_raw_ptr(&self) -> Ptr {
        self.ptr
    }

    fn as_ptr(&self) -> Ptr {
        proof {
            use_type_invariant(self);
            Repr::lemma_width();
            let w = Repr::spec_width();
            assert(self.offset * w >= 0 && self.offset * w <= (self.offset + self.len) * w)
                by (nonlinear_arith)
                requires
                    w >= 1,
                    self.offset >= 0,
                    self.len >= 0,
            ;
        }
        let b = self.byte_offset();
        self.ptr.offset(b)
    }

    fn byte_offset(&self) -> usize {
        proof {
            use_type_invariant(self);
            Repr::lemma_width();
            let w = Repr::spec_width();
            assert(self.offset * w >= 0 && self.offset * w <= (self.offset + self.len) * w)
                by (nonlinear_arith)
                requires
                    w >= 1,
                    self.offset >= 0,
                    self.len >= 0,
            ;
        }
        self.offset * Repr::byte_width()
    }

    fn byte_size(&self) -> usize {
        proof {
            use_type_invariant(self);
            Repr::lemma_width();
            let w = Repr::spec_width();
            assert(self.len * w >= 0 && self.len * w <= (self.offset + self.len) * w)
                by (nonlinear_arith)
                requires
                    w >= 1,
                    self.offset >= 0,
                    self.len >= 0,
            ;
        }
        self.len * Repr::byte_width()
    }
}

impl<'a, Repr: DeviceRepr, Ptr: HostAccessible> CudaSliceReadable<Repr> for CudaHostSlice<'a, Repr, Ptr> {
    type Target = CudaHostSlice<'a, Repr, Ptr>;

    fn index(&self, range: core::ops::Range<usize>) -> (r: Self::Target) {
        proof {
            use_type_invariant(self);
            Repr::lemma_width();
            let w = Repr::spec_width();
            assert((self.offset + range.end) * w <= (self.offset + self.len) * w)
                by (nonlinear_arith)
                requires
                    w >= 1,
                    self.offset >= 0,
                    0 <= range.end <= self.len,
            ;
            assert(self.offset + self.len <= (self.offset + self.len) * w) by (nonlinear_arith)
                requires
                    w >= 1,
                    self.offset >= 0,
                    self.len >= 0,
            ;
        }
        CudaHostSlice {
            ptr: self.ptr,
            offset: self.offset + range.start,
            len: range.end - range.start,
            _marker: core::marker::PhantomData,
        }
    }

    fn get(&self, range: core::ops::Range<usize>) -> (r: Option<Self::Target>) {
        if range.start > range.end || range.end > self.len {
            return None;
        }
        Some(self.index(range))
    }

    fn sub_slice(&self, range: core::ops::Range<usize>) -> (r: Self::Target) {
        self.index(range)
    }
}

impl<'a, Repr: DeviceRepr, Ptr: HostAccessible> CudaHostSliceMut<'a, Repr, Ptr> {
    #[verifier::type_invariant]
    spec fn type_wf(self) -> bool {
        slice_fields_wf(self.ptr, self.offset as int, self.len as int, Repr::spec_width())
    }

    /// Builds a view from its parts; the range must stay inside the model's
    /// byte bounds.
    pub(crate) fn from_raw_parts(ptr: Ptr, offset: usize, len: usize) -> (r: Self)
        requires
            slice_fields_wf(ptr, offset as int, len as int, Repr::spec_width()),
        ensures
            r.spec_ptr() == ptr,
            r.spec_offset() == offset,
            r.spec_len() == len,
    {
        CudaHostSliceMut { ptr, offset, len, _marker: core::marker::PhantomData }
    }
}

impl<'a, Repr: DeviceRepr, Ptr: HostAccessible> CudaSliceAccess<Repr> for CudaHostSliceMut<'a, Repr, Ptr> {
    type Ptr = Ptr;

    closed spec fn spec_ptr(&self) -> Ptr {
        self.ptr
    }

    closed spec fn spec_offset(&self) -> int {
        self.offset as int
    }

    closed spec fn spec_len(&self) -> int {
        self.len as int
    }

    fn offset(&self) -> usize {
        self.offset
    }

    fn len(&self) -> usize {
        self.len
    }

    fn as_raw_ptr(&self) -> Ptr {
        self.ptr
    }

    fn as_ptr(&self) -> Ptr {
        proof {
            use_type_invariant(self);
            Repr::lemma_width();
            let w = Repr::spec_width();
            assert(self.offset * w >= 0 && self.offset * w <= (self.offset + self.len) * w)
                by (nonlinear_arith)
                requires
                    w >= 1,
                    self.offset >= 0,
                    self.len >= 0,
            ;
        }
        let b = self.byte_offset();
        self.ptr.offset(b)
    }

    fn byte_offset(&self) -> usize {
        proof {
            use_type_invariant(self);
            Repr::lemma_width();
            let w = Repr::spec_width();
            assert(self.offset * w >= 0 && self.offset * w <= (self.offset + self.len) * w)
                by (nonlinear_arith)
                requires
                    w >= 1,
                    self.offset >= 0,
                    self.len >= 0,
            ;
        }
        self.offset * Repr::byte_width()
    }

    fn byte_size(&self) -> usize {
        proof {
            use_type_invariant(self);
            Repr::lemma_width();
            let w = Repr::spec_width();
            assert(self.len * w >= 0 && self.len * w <= (self.offset + self.len) * w)
                by (nonlinear_arith)
                requires
                    w >= 1,
                    self.offset >= 0,
                    self.len >= 0,
            ;
        }
        self.len * Repr::byte_width()
    }
}

impl<'a, Repr: DeviceRepr, Ptr: HostAccessible> CudaSliceReadable<Repr> for CudaHostSliceMut<'a, Repr, Ptr> {
    type Target = CudaHostSlice<'a, Repr, Ptr>;

    fn index(&self, range: core::ops::Range<usize>) -> (r: Self::Target) {
        proof {
            use_type_invariant(self);
            Repr::lemma_width();
            let w = Repr::spec_width();
            assert((self.offset + range.end) * w <= (self.offset + self.len) * w)
                by (nonlinear_arith)
                requires
                    w >= 1,
                    self.offset >= 0,
                    0 <= range.end <= self.len,
            ;
            assert(self.offset + self.len <= (self.offset + self.len) * w) by (nonlinear_arith)
                requires
                    w >= 1,
                    self.offset >= 0,
                    self.len >= 0,
            ;
        }
        CudaHostSlice {
            ptr: self.ptr,
            offset: self.offset + range.start,
            len: range.end - range.start,
            _marker: core::marker::PhantomData,
        }
    }

    fn get(&self, range: core::ops::Range<usize>) -> (r: Option<Self::Target>) {
        if range.start > range.end || range.end > self.len {
            return None;
        }
        Some(self.index(range))
    }

    fn sub_slice(&self, range: core::ops::Range<usize>) -> (r: Self::Target) {
        self.index(range)
    }
}

impl<'a, Repr: DeviceRepr, Ptr: HostAccessible> CudaSliceWritable<Repr> for CudaHostSliceMut<'a, Repr, Ptr> {
    type TargetMut = CudaHostSliceMut<'a, Repr, Ptr>;

    fn index_mut(&mut self, range: core::ops::Range<usize>) -> (r: Self::TargetMut) {
        proof {
            use_type_invariant(&*self);
            Repr::lemma_width();
            let w = Repr::spec_width();
            assert((self.offset + range.end) * w <= (self.offset + self.len) * w)
                by (nonlinear_arith)
                requires
                    w >= 1,
                    self.offset >= 0,
                    0 <= range.end <= self.len,
            ;
            assert(self.offset + self.len <= (self.offset + self.len) * w) by (nonlinear_arith)
                requires
                    w >= 1,
                    self.offset >= 0,
                    self.len >= 0,
            ;
        }
        CudaHostSliceMut {
            ptr: self.ptr,
            offset: self.offset + range.start,
            len: range.end - range.start,
            _marker: core::marker::PhantomData,
        }
    }

    fn get_mut(&mut self, range: core::ops::Range<usize>) -> (r: Option<Self::TargetMut>) {
        if range.start > range.end || range.end > self.len {
            return None;
        }
        Some(self.index_mut(range))
    }

    fn sub_slice_mut(&mut self, range: core::ops::Range<usize>) -> (r: Self::TargetMut) {
        self.index_mut(range)
    }
}

/// An owning buffer of device-accessible elements.  It ties its allocation
/// to a consuming [`CudaDeviceBuffer::free`]; a buffer that is dropped
/// without an explicit free leaks its allocation, because the context the
/// deallocation call needs is not available to an implicit destructor.
#[derive(Debug)]
pub struct CudaDeviceBuffer<Repr: DeviceRepr, Ptr: DeviceAllocated> {
    ptr: Ptr,
    size: usize,
    _marker: core::marker::PhantomData<Repr>,
}

/// Whether a buffer owns a live allocation of the context, of exactly its
/// recorded size.
pub open spec fn buffer_valid<Repr: DeviceRepr, Ptr: DeviceAllocated>(
    b: &CudaDeviceBuffer<Repr, Ptr>,
    ctx: CudaContext,
) -> bool {
    &&& ctx.alloc_live(b.spec_id())
    &&& ctx.alloc_size(b.spec_id()) == b.spec_size()
}

impl<Repr: DeviceRepr, Ptr: DeviceAllocated> CudaDeviceBuffer<Repr, Ptr> {
    #[verifier::type_invariant]
    spec fn type_wf(self) -> bool {
        &&& self.ptr.spec_delta() == 0
        &&& self.size <= MAX_TOTAL_MEMORY
    }

    /// The allocation the buffer owns.
    pub closed spec fn spec_id(&self) -> int {
        self.ptr.spec_id()
    }

    /// The buffer's total size in bytes.
    pub closed spec fn spec_size(&self) -> int {
        self.size as int
    }

    /// The buffer's base pointer.
    pub closed spec fn spec_ptr(&self) -> Ptr {
        self.ptr
    }

    /// Takes ownership of an allocation's base pointer and byte size.
    pub(crate) fn from_raw_parts(ptr: Ptr, size: usize) -> (b: Self)
        requires
            ptr.spec_delta() == 0,
            size <= MAX_TOTAL_MEMORY,
        ensures
            b.spec_ptr() == ptr,
            b.spec_id() == ptr.spec_id(),
            b.spec_size() == size,
    {
        CudaDeviceBuffer { ptr, size, _marker: core::marker::PhantomData }
    }

    /// Reads the buffer's base pointer and byte size without giving up
    /// ownership.
    pub(crate) fn raw_parts(&self) -> (r: (Ptr, usize))
        ensures
            r.0 == self.spec_ptr(),
            r.1 == self.spec_size(),
            r.0.spec_delta() == 0,
            r.1 <= MAX_TOTAL_MEMORY,
    {
        proof {
            use_type_invariant(self);
        }
        (self.ptr, self.size)
    }

    /// Gives up ownership of the allocation and hands back its parts; the
    /// caller becomes responsible for the eventual free.
    pub(crate) fn into_raw_parts(self) -> (r: (Ptr, usize))
        ensures
            r.0 == self.spec_ptr(),
            r.1 == self.spec_size(),
            r.0.spec_delta() == 0,
            r.1 <= MAX_TOTAL_MEMORY,
    {
        proof {
            use_type_invariant(&self);
        }
        (self.ptr, self.size)
    }

    /// Deallocates the buffer through the driver: exactly one deallocation
    /// call is issued, the allocation stops being live, and ownership is
    /// consumed, so no second free of the same buffer can be written.
    pub fn free(self, ctx: &mut CudaContext) -> (r: DropResult<Self>)
        requires
            old(ctx).wf(),
            buffer_valid(&self, *old(ctx)),
        ensures
            final(ctx).wf(),
            r is Ok,
            final(ctx).spec_free_count() == old(ctx).spec_free_count() + 1,
            final(ctx).spec_device() == old(ctx).spec_device(),
            final(ctx).spec_streams() == old(ctx).spec_streams(),
            final(ctx).allocs() == old(ctx).allocs().update(
                self.spec_id(),
                retired_alloc(old(ctx).allocs()[self.spec_id()]),
            ),
            final(ctx).spec_mem_used() == old(ctx).spec_mem_used() - crate::context::alloc_contrib(
                old(ctx).allocs()[self.spec_id()],
                crate::context::device_pred(),
            ),
            match old(ctx).allocs()[self.spec_id()].pool {
                Some(p) => final(ctx).pools() == old(ctx).pools().update(
                    p,
                    pool_after_free(old(ctx).pools()[p], old(ctx).alloc_size(self.spec_id())),
                ),
                None => final(ctx).pools() == old(ctx).pools(),
            },
    {
        let id = self.ptr.alloc_id();
        ctx.kill_raw(id, true);
        Ok(())
    }

    /// Deallocates the buffer on a stream; the model drains the stream at
    /// once, so the effect equals that of [`CudaDeviceBuffer::free`].
    pub fn free_async(self, ctx: &mut CudaContext, stream: &crate::stream::CudaStream) -> (r:
        DropResult<Self>)
        requires
            old(ctx).wf(),
            buffer_valid(&self, *old(ctx)),
        ensures
            final(ctx).wf(),
            r is Ok,
            final(ctx).spec_free_count() == old(ctx).spec_free_count() + 1,
            final(ctx).spec_device() == old(ctx).spec_device(),
            final(ctx).spec_streams() == old(ctx).spec_streams(),
            final(ctx).allocs() == old(ctx).allocs().update(
                self.spec_id(),
                retired_alloc(old(ctx).allocs()[self.spec_id()]),
            ),
            final(ctx).spec_mem_used() == old(ctx).spec_mem_used() - crate::context::alloc_contrib(
                old(ctx).allocs()[self.spec_id()],
                crate::context::device_pred(),
            ),
            match old(ctx).allocs()[self.spec_id()].pool {
                Some(p) => final(ctx).pools() == old(ctx).pools().update(
                    p,
                    pool_after_free(old(ctx).pools()[p], old(ctx).alloc_size(self.spec_id())),
                ),
                None => final(ctx).pools() == old(ctx).pools(),
            },
    {
        let _ = stream;
        let id = self.ptr.alloc_id();
        ctx.kill_raw(id, true);
        Ok(())
    }

    /// Borrows the whole buffer as a read-only slice of its element type.
    pub fn as_slice(&self) -> (r: CudaDeviceSlice<Repr, Ptr>)
        ensures
            r.spec_ptr() == self.spec_ptr(),
            r.spec_ptr().spec_id() == self.spec_id(),
            r.spec_ptr().spec_delta() == 0,
            r.spec_offset() == 0,
            r.spec_len() == self.spec_size() / Repr::spec_width(),
    {
        proof {
            use_type_invariant(self);
            Repr::lemma_width();
            vstd::arithmetic::div_mod::lemma_fundamental_div_mod(
                self.size as int,
                Repr::spec_width(),
            );
            vstd::arithmetic::div_mod::lemma_mod_bound(self.size as int, Repr::spec_width());
        }
        let len = self.size / Repr::byte_width();
        CudaDeviceSlice::from_raw_parts(self.ptr, 0, len)
    }

    /// Borrows the whole buffer as a writable slice of its element type.
    pub fn as_mut_slice(&mut self) -> (r: CudaDeviceSliceMut<Repr, Ptr>)
        ensures
            *final(self) == *old(self),
            r.spec_ptr() == old(self).spec_ptr(),
            r.spec_ptr().spec_id() == old(self).spec_id(),
            r.spec_ptr().spec_delta() == 0,
            r.spec_offset() == 0,
            r.spec_len() == old(self).spec_size() / Repr::spec_width(),
    {
        proof {
            use_type_invariant(&*self);
            Repr::lemma_width();
            vstd::arithmetic::div_mod::lemma_fundamental_div_mod(
                self.size as int,
                Repr::spec_width(),
            );
            vstd::arithmetic::div_mod::lemma_mod_bound(self.size as int, Repr::spec_width());
        }
        let len = self.size / Repr::byte_width();
        CudaDeviceSliceMut::from_raw_parts(self.ptr, 0, len)
    }
}

impl<Repr: DeviceRepr> CudaDeviceBuffer<Repr, DevicePtr> {
    /// Allocates `len` zero-initialized elements of plain device memory.
    /// Succeeds exactly when the element count describes a representable
    /// byte size and [`can_alloc`] grants that size from the device's plain
    /// memory; on failure the context is untouched.
    pub fn allocate(ctx: &mut CudaContext, len: usize) -> (r: CudaResult<Self>)
        requires
            old(ctx).wf(),
        ensures
            final(ctx).wf(),
            ctx_counters_unchanged(*old(ctx), *final(ctx)),
            final(ctx).pools() == old(ctx).pools(),
            len * Repr::spec_width() > usize::MAX ==> (r matches Err(e) && e.spec_code()
                == CUDA_ERROR_INVALID_VALUE && *final(ctx) == *old(ctx)),
            len * Repr::spec_width() <= usize::MAX && !can_alloc(
                *old(ctx),
                len * Repr::spec_width(),
                AddressSpace::Device,
                None,
            ) ==> (r matches Err(e) && e.spec_code() == CUDA_ERROR_OUT_OF_MEMORY && *final(ctx)
                == *old(ctx)),
            len * Repr::spec_width() <= usize::MAX && can_alloc(
                *old(ctx),
                len * Repr::spec_width(),
                AddressSpace::Device,
                None,
            ) ==> (r matches Ok(b) && b.spec_id() == old(ctx).alloc_count() && b.spec_size() == len
                * Repr::spec_width() && final(ctx).allocs() == old(ctx).allocs().push(
                fresh_alloc(len * Repr::spec_width(), AddressSpace::Device, None, false, 0),
            ) && final(ctx).spec_mem_used() == old(ctx).spec_mem_used() + len
                * Repr::spec_width()),
    {
        let w = Repr::byte_width();
        let bytesize = match len.checked_mul(w) {
            Some(b) => b,
            None => {
                return Err(CudaError::new(CUDA_ERROR_INVALID_VALUE));
            },
        };
        match ctx.alloc_raw(bytesize, AddressSpace::Device, None, 0) {
            Ok(id) => Ok(Self::from_raw_parts(DevicePtr::new(id), bytesize)),
            Err(e) => Err(e),
        }
    }

    /// Allocates `len` zero-initialized elements of device memory, ordered
    /// on a stream; the model drains the stream at once, so the effect
    /// equals that of [`CudaDeviceBuffer::allocate`].
    pub fn alloc_async(ctx: &mut CudaContext, len: usize, stream: &crate::stream::CudaStream) -> (r:
        CudaResult<Self>)
        requires
            old(ctx).wf(),
        ensures
            final(ctx).wf(),
            ctx_counters_unchanged(*old(ctx), *final(ctx)),
            final(ctx).pools() == old(ctx).pools(),
            len * Repr::spec_width() > usize::MAX ==> (r matches Err(e) && e.spec_code()
                == CUDA_ERROR_INVALID_VALUE && *final(ctx) == *old(ctx)),
            len * Repr::spec_width() <= usize::MAX && !can_alloc(
                *old(ctx),
                len * Repr::spec_width(),
                AddressSpace::Device,
                None,
            ) ==> (r matches Err(e) && e.spec_code() == CUDA_ERROR_OUT_OF_MEMORY && *final(ctx)
                == *old(ctx)),
            len * Repr::spec_width() <= usize::MAX && can_alloc(
                *old(ctx),
                len * Repr::spec_width(),
                AddressSpace::Device,
                None,
            ) ==> (r matches Ok(b) && b.spec_id() == old(ctx).alloc_count() && b.spec_size() == len
                * Repr::spec_width() && final(ctx).allocs() == old(ctx).allocs().push(
                fresh_alloc(len * Repr::spec_width(), AddressSpace::Device, None, false, 0),
            ) && final(ctx).spec_mem_used() == old(ctx).spec_mem_used() + len
                * Repr::spec_width()),
    {
        let _ = stream;
        Self::allocate(ctx, len)
    }

    /// Allocates a two-dimensional region: `width` elements per row, over
    /// `height` rows, each row padded to the device's pitch alignment.  On
    /// success the pitch is a multiple of [`PITCH_ALIGN`], at least the byte
    /// width of a row, and the buffer's size is exactly the pitch times the
    /// height.
    pub fn alloc_pitch(ctx: &mut CudaContext, width: usize, height: usize) -> (r: CudaResult<
        (Self, usize),
    >)
        requires
            old(ctx).wf(),
        ensures
            final(ctx).wf(),
            ctx_counters_unchanged(*old(ctx), *final(ctx)),
            final(ctx).pools() == old(ctx).pools(),
            r matches Ok(bp) ==> {
                let (b, pitch) = bp;
                &&& pitch == spec_pitch_for(width * Repr::spec_width())
                &&& pitch >= width * Repr::spec_width()
                &&& (pitch as int) % (PITCH_ALIGN as int) == 0
                &&& b.spec_size() == pitch * height
                &&& b.spec_id() == old(ctx).alloc_count()
                &&& final(ctx).allocs() == old(ctx).allocs().push(
                    fresh_alloc(pitch * height, AddressSpace::Device, None, false, 0),
                )
                &&& final(ctx).spec_mem_used() == old(ctx).spec_mem_used() + pitch * height
            },
            r is Err ==> *final(ctx) == *old(ctx),
            width * Repr::spec_width() + PITCH_ALIGN <= usize::MAX && spec_pitch_for(
                width * Repr::spec_width(),
            ) * height <= usize::MAX && can_alloc(
                *old(ctx),
                spec_pitch_for(width * Repr::spec_width()) * height,
                AddressSpace::Device,
                None,
            ) ==> r is Ok,
    {
        let w = Repr::byte_width();
        let wbytes = match width.checked_mul(w) {
            Some(b) => b,
            None => {
                return Err(CudaError::new(CUDA_ERROR_INVALID_VALUE));
            },
        };
        if wbytes > usize::MAX - PITCH_ALIGN {
            return Err(CudaError::new(CUDA_ERROR_INVALID_VALUE));
        }
        let pitch = ((wbytes + (PITCH_ALIGN - 1)) / PITCH_ALIGN) * PITCH_ALIGN;
        proof {
            lemma_pitch_bounds(wbytes as int);
        }
        let bytesize = match pitch.checked_mul(height) {
            Some(b) => b,
            None => {
                return Err(CudaError::new(CUDA_ERROR_INVALID_VALUE));
            },
        };
        match ctx.alloc_raw(bytesize, AddressSpace::Device, None, 0) {
            Ok(id) => Ok((Self::from_raw_parts(DevicePtr::new(id), bytesize), pitch)),
            Err(e) => Err(e),
        }
    }
}

/// The pitch alignment of two-dimensional allocations, in bytes.
pub const PITCH_ALIGN: usize = 256;

/// The pitch chosen for a row of `wbytes` bytes: the least multiple of
/// [`PITCH_ALIGN`] that holds a row.
pub open spec fn spec_pitch_for(wbytes: int) -> int {
    ((wbytes + PITCH_ALIGN - 1) / (PITCH_ALIGN as int)) * PITCH_ALIGN
}

/// The pitch is aligned and at least the row width.
pub proof fn lemma_pitch_bounds(wbytes: int)
    requires
        wbytes >= 0,
    ensures
        spec_pitch_for(wbytes) >= wbytes,
        spec_pitch_for(wbytes) % (PITCH_ALIGN as int) == 0,
        spec_pitch_for(wbytes) < wbytes + PITCH_ALIGN,
{
    let a = PITCH_ALIGN as int;
    let q = (wbytes + a - 1) / a;
    vstd::arithmetic::div_mod::lemma_fundamental_div_mod(wbytes + a - 1, a);
    vstd::arithmetic::div_mod::lemma_mod_bound(wbytes + a - 1, a);
    assert(q * a == wbytes + a - 1 - ((wbytes + a - 1) % a));
    vstd::arithmetic::div_mod::lemma_mod_multiples_basic(q, a);
}

/// What a copy into allocation `dst_alloc` at byte `dst_start` does to the
/// context: the copied bytes land there, and nothing else moves.
pub open spec fn copy_effect(
    pre: CudaContext,
    post: CudaContext,
    dst_alloc: int,
    dst_start: int,
    bytes: Seq<u8>,
) -> bool {
    &&& post.allocs() == pre.allocs().update(
        dst_alloc,
        alloc_with_bytes(
            pre.allocs()[dst_alloc],
            splice_bytes(pre.alloc_bytes(dst_alloc), dst_start, bytes),
        ),
    )
    &&& post.pools() == pre.pools()
    &&& post.spec_mem_used() == pre.spec_mem_used()
    &&& ctx_counters_unchanged(pre, post)
}

/// Copies the bytes of `src` over the start of `dst`, which must be at
/// least as long; the direction's legality is decided by the capability
/// bounds of the callers.
fn copy_slice<Repr: DeviceRepr, D: CudaSliceAccess<Repr>, S: CudaSliceAccess<Repr>>(
    ctx: &mut CudaContext,
    dst: &D,
    src: &S,
) -> (r: CudaResult<()>)
    requires
        old(ctx).wf(),
        slice_valid(dst, *old(ctx)),
        slice_valid(src, *old(ctx)),
        src.spec_len() <= dst.spec_len(),
    ensures
        final(ctx).wf(),
        r is Ok,
        copy_effect(
            *old(ctx),
            *final(ctx),
            slice_alloc(dst),
            slice_start(dst),
            slice_bytes(src, *old(ctx)),
        ),
{
    proof {
        Repr::lemma_width();
        let w = Repr::spec_width();
        assert(src.spec_len() * w <= dst.spec_len() * w) by (nonlinear_arith)
            requires
                w >= 0,
                src.spec_len() <= dst.spec_len(),
        ;
    }
    let ps = src.as_ptr();
    let n = src.byte_size();
    let data = ctx.read_range(ps.alloc_id(), ps.byte_delta(), n);
    let pd = dst.as_ptr();
    ctx.write_range(pd.alloc_id(), pd.byte_delta(), &data);
    Ok(())
}

/// What a fill of `n` elements with the pattern `pat` does to allocation
/// `alloc` at byte `start`: the repeated pattern lands there, and nothing
/// else moves.
pub open spec fn fill_effect(
    pre: CudaContext,
    post: CudaContext,
    alloc: int,
    start: int,
    pat: Seq<u8>,
    n: int,
) -> bool {
    &&& post.allocs() == pre.allocs().update(
        alloc,
        alloc_with_bytes(
            pre.allocs()[alloc],
            splice_bytes(pre.alloc_bytes(alloc), start, repeat_bytes(pat, n)),
        ),
    )
    &&& post.pools() == pre.pools()
    &&& post.spec_mem_used() == pre.spec_mem_used()
    &&& ctx_counters_unchanged(pre, post)
}

/// Fills every element of `dst` with the byte image of `value`.
fn fill_slice<Repr: DeviceRepr, D: CudaSliceAccess<Repr>>(
    ctx: &mut CudaContext,
    dst: &D,
    value: Repr,
) -> (r: CudaResult<()>)
    requires
        old(ctx).wf(),
        slice_valid(dst, *old(ctx)),
    ensures
        final(ctx).wf(),
        r is Ok,
        fill_effect(
            *old(ctx),
            *final(ctx),
            slice_alloc(dst),
            slice_start(dst),
            value.spec_bytes(),
            dst.spec_len(),
        ),
{
    proof {
        Repr::lemma_width();
        value.lemma_bytes_len();
    }
    let pat = value.to_bytes();
    let pd = dst.as_ptr();
    let n = dst.len();
    ctx.fill_range(pd.alloc_id(), pd.byte_delta(), n, &pat);
    Ok(())
}

impl<'t, Repr: DeviceRepr, Dst: DeviceAccessible> CudaDeviceSliceMut<'t, Repr, Dst> {
    /// Copies the elements of a device-accessible slice over the start of
    /// this slice, synchronously.  The source must not be longer than the
    /// destination.
    pub fn copy_from_device<Src: DeviceAccessible, S: CudaSliceAccess<Repr, Ptr = Src>>(
        &mut self,
        ctx: &mut CudaContext,
        src: &S,
    ) -> (r: CudaResult<()>)
        requires
            old(ctx).wf(),
            slice_valid(old(self), *old(ctx)),
            slice_valid(src, *old(ctx)),
            src.spec_len() <= old(self).spec_len(),
        ensures
            *final(self) == *old(self),
            final(ctx).wf(),
            r is Ok,
            copy_effect(
                *old(ctx),
                *final(ctx),
                slice_alloc(old(self)),
                slice_start(old(self)),
                slice_bytes(src, *old(ctx)),
            ),
    {
        copy_slice(ctx, &*self, src)
    }

    /// Copies the elements of a device-accessible slice over the start of
    /// this slice, ordered on a stream; the model drains the stream at
    /// once.
    pub fn copy_from_device_async<Src: DeviceAccessible, S: CudaSliceAccess<Repr, Ptr = Src>>(
        &mut self,
        ctx: &mut CudaContext,
        src: &S,
        stream: &crate::stream::CudaStream,
    ) -> (r: CudaResult<()>)
        requires
            old(ctx).wf(),
            slice_valid(old(self), *old(ctx)),
            slice_valid(src, *old(ctx)),
            src.spec_len() <= old(self).spec_len(),
        ensures
            *final(self) == *old(self),
            final(ctx).wf(),
            r is Ok,
            copy_effect(
                *old(ctx),
                *final(ctx),
                slice_alloc(old(self)),
                slice_start(old(self)),
                slice_bytes(src, *old(ctx)),
            ),
    {
        let _ = stream;
        copy_slice(ctx, &*self, src)
    }

    /// Copies the elements of a host-accessible slice over the start of
    /// this slice, synchronously.
    pub fn copy_from_host<Src: HostAccessible, S: CudaSliceAccess<Repr, Ptr = Src>>(
        &mut self,
        ctx: &mut CudaContext,
        src: &S,
    ) -> (r: CudaResult<()>)
        requires
            old(ctx).wf(),
            slice_valid(old(self), *old(ctx)),
            slice_valid(src, *old(ctx)),
            src.spec_len() <= old(self).spec_len(),
        ensures
            *final(self) == *old(self),
            final(ctx).wf(),
            r is Ok,
            copy_effect(
                *old(ctx),
                *final(ctx),
                slice_alloc(old(self)),
                slice_start(old(self)),
                slice_bytes(src, *old(ctx)),
            ),
    {
        copy_slice(ctx, &*self, src)
    }

    /// Copies the elements of a host-accessible slice over the start of
    /// this slice, ordered on a stream; the model drains the stream at
    /// once.
    pub fn copy_from_host_async<Src: HostAccessible, S: CudaSliceAccess<Repr, Ptr = Src>>(
        &mut self,
        ctx: &mut CudaContext,
        src: &S,
        stream: &crate::stream::CudaStream,
    ) -> (r: CudaResult<()>)
        requires
            old(ctx).wf(),
            slice_valid(old(self), *old(ctx)),
            slice_valid(src, *old(ctx)),
            src.spec_len() <= old(self).spec_len(),
        ensures
            *final(self) == *old(self),
            final(ctx).wf(),
            r is Ok,
            copy_effect(
                *old(ctx),
                *final(ctx),
                slice_alloc(old(self)),
                slice_start(old(self)),
                slice_bytes(src, *old(ctx)),
            ),
    {
        let _ = stream;
        copy_slice(ctx, &*self, src)
    }
}

impl<'t, Repr: Align1, Dst: DeviceAccessible> CudaDeviceSliceMut<'t, Repr, Dst> {
    /// Fills every element of the slice with `value`, using the 8-bit fill
    /// primitive the element width selects.
    pub fn set_d8(&mut self, ctx: &mut CudaContext, value: Repr) -> (r: CudaResult<()>)
        requires
            old(ctx).wf(),
            slice_valid(old(self), *old(ctx)),
        ensures
            *final(self) == *old(self),
            final(ctx).wf(),
            r is Ok,
            fill_effect(
                *old(ctx),
                *final(ctx),
                slice_alloc(old(self)),
                slice_start(old(self)),
                value.spec_bytes(),
                old(self).spec_len(),
            ),
    {
        proof {
            Repr::lemma_align1();
        }
        fill_slice(ctx, &*self, value)
    }

    /// Fills every element of the slice with `value` on a stream, using the
    /// 8-bit fill primitive; the model drains the stream at once.
    pub fn set_d8_async(
        &mut self,
        ctx: &mut CudaContext,
        value: Repr,
        stream: &crate::stream::CudaStream,
    ) -> (r: CudaResult<()>)
        requires
            old(ctx).wf(),
            slice_valid(old(self), *old(ctx)),
        ensures
            *final(self) == *old(self),
            final(ctx).wf(),
            r is Ok,
            fill_effect(
                *old(ctx),
                *final(ctx),
                slice_alloc(old(self)),
                slice_start(old(self)),
                value.spec_bytes(),
                old(self).spec_len(),
            ),
    {
        let _ = stream;
        proof {
            Repr::lemma_align1();
        }
        fill_slice(ctx, &*self, value)
    }
}

impl<'t, Repr: Align2, Dst: DeviceAccessible> CudaDeviceSliceMut<'t, Repr, Dst> {
    /// Fills every element of the slice with `value`, using the 16-bit fill
    /// primitive the element width selects.
    pub fn set_d16(&mut self, ctx: &mut CudaContext, value: Repr) -> (r: CudaResult<()>)
        requires
            old(ctx).wf(),
            slice_valid(old(self), *old(ctx)),
        ensures
            *final(self) == *old(self),
            final(ctx).wf(),
            r is Ok,
            fill_effect(
                *old(ctx),
                *final(ctx),
                slice_alloc(old(self)),
                slice_start(old(self)),
                value.spec_bytes(),
                old(self).spec_len(),
            ),
    {
        proof {
            Repr::lemma_align2();
        }
        fill_slice(ctx, &*self, value)
    }

    /// Fills every element of the slice with `value` on a stream, using the
    /// 16-bit fill primitive; the model drains the stream at once.
    pub fn set_d16_async(
        &mut self,
        ctx: &mut CudaContext,
        value: Repr,
        stream: &crate::stream::CudaStream,
    ) -> (r: CudaResult<()>)
        requires
            old(ctx).wf(),
            slice_valid(old(self), *old(ctx)),
        ensures
            *final(self) == *old(self),
            final(ctx).wf(),
            r is Ok,
            fill_effect(
                *old(ctx),
                *final(ctx),
                slice_alloc(old(self)),
                slice_start(old(self)),
                value.spec_bytes(),
                old(self).spec_len(),
            ),
    {
        let _ = stream;
        proof {
            Repr::lemma_align2();
        }
        fill_slice(ctx, &*self, value)
    }
}

impl<'t, Repr: Align4, Dst: DeviceAccessible> CudaDeviceSliceMut<'t, Repr, Dst> {
    /// Fills every element of the slice with `value`, using the 32-bit fill
    /// primitive the element width selects.
    pub fn set_d32(&mut self, ctx: &mut CudaContext, value: Repr) -> (r: CudaResult<()>)
        requires
            old(ctx).wf(),
            slice_valid(old(self), *old(ctx)),
        ensures
            *final(self) == *old(self),
            final(ctx).wf(),
            r is Ok,
            fill_effect(
                *old(ctx),
                *final(ctx),
                slice_alloc(old(self)),
                slice_start(old(self)),
                value.spec_bytes(),
                old(self).spec_len(),
            ),
    {
        proof {
            Repr::lemma_align4();
        }
        fill_slice(ctx, &*self, value)
    }

    /// Fills every element of the slice with `value` on a stream, using the
    /// 32-bit fill primitive; the model drains the stream at once.
    pub fn set_d32_async(
        &mut self,
        ctx: &mut CudaContext,
        value: Repr,
        stream: &crate::stream::CudaStream,
    ) -> (r: CudaResult<()>)
        requires
            old(ctx).wf(),
            slice_valid(old(self), *old(ctx)),
        ensures
            *final(self) == *old(self),
            final(ctx).wf(),
            r is Ok,
            fill_effect(
                *old(ctx),
                *final(ctx),
                slice_alloc(old(self)),
                slice_start(old(self)),
                value.spec_bytes(),
                old(self).spec_len(),
            ),
    {
        let _ = stream;
        proof {
            Repr::lemma_align4();
        }
        fill_slice(ctx, &*self, value)
    }
}

impl<'t, Repr: DeviceRepr, Dst: HostAccessible> CudaHostSliceMut<'t, Repr, Dst> {
    /// Copies the elements of a device-accessible slice over the start of
    /// this host slice, synchronously.
    pub fn copy_from_device<Src: DeviceAccessible, S: CudaSliceAccess<Repr, Ptr = Src>>(
        &mut self,
        ctx: &mut CudaContext,
        src: &S,
    ) -> (r: CudaResult<()>)
        requires
            old(ctx).wf(),
            slice_valid(old(self), *old(ctx)),
            slice_valid(src, *old(ctx)),
            src.spec_len() <= old(self).spec_len(),
        ensures
            *final(self) == *old(self),
            final(ctx).wf(),
            r is Ok,
            copy_effect(
                *old(ctx),
                *final(ctx),
                slice_alloc(old(self)),
                slice_start(old(self)),
                slice_bytes(src, *old(ctx)),
            ),
    {
        copy_slice(ctx, &*self, src)
    }

    /// Copies the elements of a device-accessible slice over the start of
    /// this host slice, ordered on a stream; the model drains the stream at
    /// once.
    pub fn copy_from_device_async<Src: DeviceAccessible, S: CudaSliceAccess<Repr, Ptr = Src>>(
        &mut self,
        ctx: &mut CudaContext,
        src: &S,
        stream: &crate::stream::CudaStream,
    ) -> (r: CudaResult<()>)
        requires
            old(ctx).wf(),
            slice_valid(old(self), *old(ctx)),
            slice_valid(src, *old(ctx)),
            src.spec_len() <= old(self).spec_len(),
        ensures
            *final(self) == *old(self),
            final(ctx).wf(),
            r is Ok,
            copy_effect(
                *old(ctx),
                *final(ctx),
                slice_alloc(old(self)),
                slice_start(old(self)),
                slice_bytes(src, *old(ctx)),
            ),
    {
        let _ = stream;
        copy_slice(ctx, &*self, src)
    }

    /// Reads element `idx` through the host mapping.
    pub fn read(&self, ctx: &CudaContext, idx: usize) -> (r: Repr)
        requires
            ctx.wf(),
            slice_valid(self, *ctx),
            idx < self.spec_len(),
        ensures
            r.spec_bytes() == slice_elem_bytes(self, *ctx, idx as int),
    {
        read_elem(ctx, self, idx)
    }

    /// Writes element `idx` through the host mapping.
    pub fn write(&mut self, ctx: &mut CudaContext, idx: usize, value: Repr)
        requires
            old(ctx).wf(),
            slice_valid(old(self), *old(ctx)),
            idx < old(self).spec_len(),
        ensures
            *final(self) == *old(self),
            final(ctx).wf(),
            copy_effect(
                *old(ctx),
                *final(ctx),
                slice_alloc(old(self)),
                slice_start(old(self)) + idx as int * Repr::spec_width(),
                value.spec_bytes(),
            ),
    {
        write_elem(ctx, &*self, idx, value)
    }
}

impl<'t, Repr: DeviceRepr, Ptr: HostAccessible> CudaHostSlice<'t, Repr, Ptr> {
    /// Reads element `idx` through the host mapping.
    pub fn read(&self, ctx: &CudaContext, idx: usize) -> (r: Repr)
        requires
            ctx.wf(),
            slice_valid(self, *ctx),
            idx < self.spec_len(),
        ensures
            r.spec_bytes() == slice_elem_bytes(self, *ctx, idx as int),
    {
        read_elem(ctx, self, idx)
    }
}

/// Reads one element of a host-accessible slice.
fn read_elem<Repr: DeviceRepr, S: CudaSliceAccess<Repr>>(
    ctx: &CudaContext,
    s: &S,
    idx: usize,
) -> (r: Repr)
    requires
        ctx.wf(),
        slice_valid(s, *ctx),
        idx < s.spec_len(),
    ensures
        r.spec_bytes() == slice_elem_bytes(s, *ctx, idx as int),
{
    proof {
        Repr::lemma_width();
        let w = Repr::spec_width();
        assert(idx * w >= 0 && idx * w + w <= s.spec_len() * w) by (nonlinear_arith)
            requires
                w >= 1,
                0 <= idx < s.spec_len(),
        ;
        ctx.lemma_alloc_fits(slice_alloc(s));
    }
    let p = s.as_ptr();
    let w = Repr::byte_width();
    let data = ctx.read_range(p.alloc_id(), p.byte_delta() + idx * w, w);
    Repr::from_bytes(data.as_slice())
}

/// Writes one element of a host-accessible slice.
fn write_elem<Repr: DeviceRepr, S: CudaSliceAccess<Repr>>(
    ctx: &mut CudaContext,
    s: &S,
    idx: usize,
    value: Repr,
)
    requires
        old(ctx).wf(),
        slice_valid(s, *old(ctx)),
        idx < s.spec_len(),
    ensures
        final(ctx).wf(),
        copy_effect(
            *old(ctx),
            *final(ctx),
            slice_alloc(s),
            slice_start(s) + idx as int * Repr::spec_width(),
            value.spec_bytes(),
        ),
{
    proof {
        Repr::lemma_width();
        value.lemma_bytes_len();
        let w = Repr::spec_width();
        assert(idx * w >= 0 && idx * w + w <= s.spec_len() * w) by (nonlinear_arith)
            requires
                w >= 1,
                0 <= idx < s.spec_len(),
        ;
        old(ctx).lemma_alloc_fits(slice_alloc(s));
    }
    let p = s.as_ptr();
    let w = Repr::byte_width();
    let data = value.to_bytes();
    ctx.write_range(p.alloc_id(), p.byte_delta() + idx * w, &data);
}

/// Written bytes read back: the spliced range holds exactly the source
/// bytes, and every byte outside it is untouched.
pub proof fn lemma_splice_reads_back(dst: Seq<u8>, at: int, src: Seq<u8>)
    requires
        0 <= at,
        at + src.len() <= dst.len(),
    ensures
        splice_bytes(dst, at, src).subrange(at, at + src.len()) == src,
        splice_bytes(dst, at, src).len() == dst.len(),
        forall|i: int|
            0 <= i < dst.len() && !(at <= i < at + src.len()) ==> splice_bytes(dst, at, src)[i]
                == dst[i],
{
    assert(splice_bytes(dst, at, src).subrange(at, at + src.len()) =~= src);
}

/// A fill read back element by element: after the repeated pattern is
/// spliced in, every aligned chunk of the filled range is the pattern.
pub proof fn lemma_fill_reads_back(pre: Seq<u8>, start: int, pat: Seq<u8>, n: int, k: int)
    requires
        pat.len() >= 1,
        0 <= start,
        0 <= k < n,
        start + n * pat.len() <= pre.len(),
    ensures
        splice_bytes(pre, start, repeat_bytes(pat, n)).subrange(
            start + k * pat.len(),
            start + k * pat.len() + pat.len(),
        ) == pat,
{
    let w = pat.len() as int;
    let rep = repeat_bytes(pat, n);
    lemma_repeat_chunk(pat, n, k);
    assert((k + 1) * w <= n * w) by (nonlinear_arith)
        requires
            0 <= k < n,
            w > 0,
    ;
    assert((k + 1) * w == k * w + w) by (nonlinear_arith);
    assert(k * w >= 0) by (nonlinear_arith)
        requires
            k >= 0,
            w > 0,
    ;
    assert(splice_bytes(pre, start, rep).subrange(start + k * w, start + k * w + w) =~= rep
        .subrange(k * w, k * w + w));
}

/// Sub-slice composition: narrowing a slice to `a..b` yields length
/// `b - a`, and narrowing the result again to its whole extent,
/// `0..(b - a)`, addresses the identical underlying range of memory.  The
/// premises are exactly what `sub_slice` ensures of its results.
pub proof fn lemma_sub_slice_composition<
    Repr: DeviceRepr,
    S: CudaSliceAccess<Repr>,
    T: CudaSliceAccess<Repr, Ptr = S::Ptr>,
    U: CudaSliceAccess<Repr, Ptr = S::Ptr>,
>(s: &S, t: &T, u: &U, a: int, b: int)
    requires
        0 <= a <= b <= s.spec_len(),
        t.spec_ptr() == s.spec_ptr(),
        t.spec_offset() == s.spec_offset() + a,
        t.spec_len() == b - a,
        u.spec_ptr() == t.spec_ptr(),
        u.spec_offset() == t.spec_offset() + 0,
        u.spec_len() == (b - a) - 0,
    ensures
        t.spec_len() == b - a,
        spec_range(u) == spec_range(t),
        slice_alloc(t) == slice_alloc(s),
        slice_start(t) == slice_start(s) + a * Repr::spec_width(),
{
    let w = Repr::spec_width();
    assert((s.spec_offset() + a) * w == s.spec_offset() * w + a * w) by (nonlinear_arith);
}

/// The round trip: fill a device range with `v`, copy the range into a
/// host-visible allocation, and every element of the copied range reads
/// back as `v` — for any length, any element position and any value.  The
/// premises are exactly the `fill_effect` and `copy_effect` the fill and
/// copy operations ensure.
pub proof fn lemma_round_trip<Repr: DeviceRepr>(
    c0: CudaContext,
    c1: CudaContext,
    c2: CudaContext,
    v: Repr,
    dev: int,
    host: int,
    dstart: int,
    hstart: int,
    n: int,
    k: int,
)
    requires
        0 <= dev < c0.alloc_count(),
        0 <= host < c0.alloc_count(),
        dev != host,
        0 <= dstart,
        0 <= hstart,
        0 <= k < n,
        dstart + n * Repr::spec_width() <= c0.alloc_size(dev),
        hstart + n * Repr::spec_width() <= c0.alloc_size(host),
        fill_effect(c0, c1, dev, dstart, v.spec_bytes(), n),
        copy_effect(
            c1,
            c2,
            host,
            hstart,
            c1.alloc_bytes(dev).subrange(dstart, dstart + n * Repr::spec_width()),
        ),
    ensures
        c2.alloc_bytes(host).subrange(
            hstart + k * Repr::spec_width(),
            hstart + k * Repr::spec_width() + Repr::spec_width(),
        ) == v.spec_bytes(),
        forall|r: Repr|
            r.spec_bytes() == c2.alloc_bytes(host).subrange(
                hstart + k * Repr::spec_width(),
                hstart + k * Repr::spec_width() + Repr::spec_width(),
            ) ==> r == v,
{
    let w = Repr::spec_width();
    Repr::lemma_width();
    v.lemma_bytes_len();
    let rep = repeat_bytes(v.spec_bytes(), n);
    assert(rep.len() == n * w);
    assert(n * w >= 0) by (nonlinear_arith)
        requires
            n > 0,
            w > 0,
    ;
    // After the fill, the device range holds the repeated pattern.
    assert(c1.alloc_bytes(dev) == splice_bytes(c0.alloc_bytes(dev), dstart, rep));
    lemma_splice_reads_back(c0.alloc_bytes(dev), dstart, rep);
    assert(c1.alloc_bytes(dev).subrange(dstart, dstart + n * w) == rep);
    // The copy splices that pattern into the host allocation.
    assert(c2.alloc_bytes(host) == splice_bytes(c1.alloc_bytes(host), hstart, rep));
    // The host allocation was not touched by the fill.
    assert(c1.alloc_bytes(host) == c0.alloc_bytes(host));
    lemma_fill_reads_back(c1.alloc_bytes(host), hstart, v.spec_bytes(), n, k);
    assert forall|r: Repr|
        r.spec_bytes() == c2.alloc_bytes(host).subrange(
            hstart + k * w,
            hstart + k * w + w,
        ) implies r == v by {
        r.lemma_bytes_injective(v);
    }
}

} // verus!
