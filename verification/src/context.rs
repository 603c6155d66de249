//! The driver state, threaded explicitly through every operation.
//!
//! A [`CudaContext`] stands for an initialized driver with one current
//! context on one device.  It records every allocation the driver has served
//! (its bytes, its address space, whether it is still live, and the pool it
//! was drawn from), every memory pool, and how many deallocation calls the
//! driver has performed.  Buffers, slices and the copy engine state their
//! contracts over this record: what an allocation holds after a fill, which
//! allocations a copy leaves untouched, and that a consuming `free` issues
//! exactly one deallocation call.
//!
//! The context is deterministic and eager: a stream-ordered operation takes
//! effect when it is enqueued, which realizes the one schedule the stream
//! model guarantees (FIFO completion on a single stream).  Contracts
//! therefore describe the state as it stands once the stream has drained;
//! `synchronize` is a no-op.

use vstd::prelude::*;

use crate::device::{CudaDevice, AllocationHandleType, MAX_TOTAL_MEMORY};
use crate::error::{CudaError, CudaResult, CUDA_ERROR_OUT_OF_MEMORY};
use vstd::std_specs::vec::vec_index_mut;

verus! {

/// The most allocations one context will serve.  Together with the cap on a
/// single allocation's size this keeps every model address inside `u64`.
pub const MAX_ALLOCATIONS: usize = 0x40_0000;

/// The most streams one context will create.
pub const MAX_STREAMS: u64 = 0x1_0000_0000;

/// The byte distance between the base addresses of two successive
/// allocations: twice the largest allocation, so regions never overlap.
pub const ALLOCATION_SPACING: u64 = 0x200_0000_0000;

/// The address space an allocation lives in.
#[derive(Clone, Copy, Debug, PartialEq, Eq, Structural)]
pub enum AddressSpace {
    /// Ordinary device memory: device-accessible only.
    Device,
    /// Page-locked host memory: host-accessible, and device-accessible when
    /// mapped.
    Pinned,
    /// Unified (managed) memory: accessible from both sides, migrated by
    /// prefetch or by attaching to a stream.
    Unified,
}

/// Where the backing pages of a unified allocation currently reside.
#[derive(Clone, Copy, Debug, PartialEq, Eq, Structural)]
pub enum ManagedLocation {
    /// Resident on the device.
    OnDevice,
    /// Migrated to the host.
    OnHost,
}

/// What the context records of one allocation, as seen by specifications.
pub struct AllocView {
    /// The bytes the allocation holds.
    pub bytes: Seq<u8>,
    /// The address space it lives in.
    pub space: AddressSpace,
    /// Whether it has not been freed yet.
    pub live: bool,
    /// The pool it was drawn from, if any.
    pub pool: Option<int>,
    /// For unified memory: where its pages reside.
    pub location: ManagedLocation,
    /// For unified memory: the stream it is attached to, if migration went
    /// through the attach mechanism.
    pub attached: Option<int>,
    /// Whether it wraps host memory registered with the driver rather than
    /// memory the driver allocated.
    pub registered: bool,
    /// For pinned memory: the flags it was allocated or registered with.
    pub pinned_flags: u32,
}

/// What the context records of one memory pool, as seen by specifications.
pub struct PoolView {
    /// Whether the pool has not been destroyed yet.
    pub live: bool,
    /// The pool's maximum size in bytes; zero means unbounded.
    pub max_size: u64,
    /// The release threshold attribute.
    pub release_threshold: u64,
    /// Bytes of live allocations drawn from the pool.
    pub used: int,
    /// The high watermark of `used` since creation or the last reset.
    pub used_high: int,
    /// Bytes the pool holds from the device, at least `used`.
    pub reserved: int,
    /// The high watermark of `reserved` since creation or the last reset.
    pub reserved_high: int,
    /// Whether the pool may reuse memory across event dependencies.
    pub reuse_follow_event_dependencies: bool,
    /// Whether the pool may reuse memory opportunistically.
    pub reuse_allow_opportunistic: bool,
    /// Whether the pool may insert internal dependencies to reuse memory.
    pub reuse_allow_internal_dependencies: bool,
    /// The kind of OS handle the pool can be exported to.
    pub handle_type: AllocationHandleType,
}

struct Allocation {
    data: Vec<u8>,
    space: AddressSpace,
    live: bool,
    pool: Option<usize>,
    location: ManagedLocation,
    attached: Option<u64>,
    registered: bool,
    pinned_flags: u32,
}

impl View for Allocation {
    type V = AllocView;

    closed spec fn view(&self) -> AllocView {
        AllocView {
            bytes: self.data@,
            space: self.space,
            live: self.live,
            pool: match self.pool {
                Some(p) => Some(p as int),
                None => None,
            },
            location: self.location,
            attached: match self.attached {
                Some(s) => Some(s as int),
                None => None,
            },
            registered: self.registered,
            pinned_flags: self.pinned_flags,
        }
    }
}

struct PoolRec {
    live: bool,
    max_size: u64,
    release_threshold: u64,
    used: u64,
    used_high: u64,
    reserved: u64,
    reserved_high: u64,
    reuse_follow_event_dependencies: bool,
    reuse_allow_opportunistic: bool,
    reuse_allow_internal_dependencies: bool,
    handle_type: AllocationHandleType,
}

impl View for PoolRec {
    type V = PoolView;

    closed spec fn view(&self) -> PoolView {
        PoolView {
            live: self.live,
            max_size: self.max_size,
            release_threshold: self.release_threshold,
            used: self.used as int,
            used_high: self.used_high as int,
            reserved: self.reserved as int,
            reserved_high: self.reserved_high as int,
            reuse_follow_event_dependencies: self.reuse_follow_event_dependencies,
            reuse_allow_opportunistic: self.reuse_allow_opportunistic,
            reuse_allow_internal_dependencies: self.reuse_allow_internal_dependencies,
            handle_type: self.handle_type,
        }
    }
}

/// What one allocation adds to a byte total counted by `f`.
pub open spec fn alloc_contrib(a: AllocView, f: spec_fn(AllocView) -> bool) -> int {
    if f(a) {
        a.bytes.len() as int
    } else {
        0
    }
}

/// The bytes held by the allocations that `f` counts.
pub open spec fn sum_allocs(s: Seq<AllocView>, f: spec_fn(AllocView) -> bool) -> int
    decreases s.len(),
{
    if s.len() == 0 {
        0
    } else {
        sum_allocs(s.drop_last(), f) + alloc_contrib(s.last(), f)
    }
}

/// The number of allocations that `f` counts.
pub open spec fn count_allocs(s: Seq<AllocView>, f: spec_fn(AllocView) -> bool) -> int
    decreases s.len(),
{
    if s.len() == 0 {
        0
    } else {
        count_allocs(s.drop_last(), f) + (if f(s.last()) {
            1int
        } else {
            0int
        })
    }
}

/// Whether an allocation counts against the device's plain memory budget:
/// live device memory drawn from no pool.
pub open spec fn counts_against_device(a: AllocView) -> bool {
    a.live && a.space is Device && a.pool is None
}

/// The counting function for one pool: live allocations drawn from it.
pub open spec fn counts_against_pool(p: int) -> spec_fn(AllocView) -> bool {
    |a: AllocView| a.live && a.pool == Some(p)
}

/// The counting function for liveness alone.
pub open spec fn counts_live(a: AllocView) -> bool {
    a.live
}

proof fn lemma_sum_push(s: Seq<AllocView>, f: spec_fn(AllocView) -> bool, a: AllocView)
    ensures
        sum_allocs(s.push(a), f) == sum_allocs(s, f) + alloc_contrib(a, f),
        count_allocs(s.push(a), f) == count_allocs(s, f) + (if f(a) {
            1int
        } else {
            0int
        }),
{
    assert(s.push(a).drop_last() =~= s);
    assert(s.push(a).last() == a);
}

proof fn lemma_sum_update(s: Seq<AllocView>, f: spec_fn(AllocView) -> bool, j: int, a: AllocView)
    requires
        0 <= j < s.len(),
    ensures
        sum_allocs(s.update(j, a), f) == sum_allocs(s, f) - alloc_contrib(s[j], f)
            + alloc_contrib(a, f),
        count_allocs(s.update(j, a), f) == count_allocs(s, f) - (if f(s[j]) {
            1int
        } else {
            0int
        }) + (if f(a) {
            1int
        } else {
            0int
        }),
    decreases s.len(),
{
    let t = s.update(j, a);
    if j == s.len() - 1 {
        assert(t.drop_last() =~= s.drop_last());
        assert(t.last() == a);
    } else {
        assert(t.drop_last() =~= s.drop_last().update(j, a));
        assert(t.last() == s.last());
        lemma_sum_update(s.drop_last(), f, j, a);
    }
}

proof fn lemma_sum_nonneg(s: Seq<AllocView>, f: spec_fn(AllocView) -> bool)
    ensures
        sum_allocs(s, f) >= 0,
        count_allocs(s, f) >= 0,
    decreases s.len(),
{
    if s.len() > 0 {
        lemma_sum_nonneg(s.drop_last(), f);
    }
}

proof fn lemma_sum_member(s: Seq<AllocView>, f: spec_fn(AllocView) -> bool, j: int)
    requires
        0 <= j < s.len(),
        f(s[j]),
    ensures
        alloc_contrib(s[j], f) <= sum_allocs(s, f),
        count_allocs(s, f) >= 1,
    decreases s.len(),
{
    lemma_sum_nonneg(s, f);
    if j == s.len() - 1 {
        lemma_sum_nonneg(s.drop_last(), f);
    } else {
        lemma_sum_member(s.drop_last(), f, j);
    }
}

proof fn lemma_sum_cap(s: Seq<AllocView>, f: spec_fn(AllocView) -> bool, m: int)
    requires
        forall|i: int| 0 <= i < s.len() ==> (#[trigger] s[i]).bytes.len() <= m,
        m >= 0,
    ensures
        sum_allocs(s, f) <= s.len() * m,
        count_allocs(s, f) <= s.len(),
    decreases s.len(),
{
    if s.len() > 0 {
        lemma_sum_cap(s.drop_last(), f, m);
        assert((s.len() - 1) * m + m == s.len() * m) by (nonlinear_arith);
    }
}

/// The driver state: the device it serves, every allocation and pool it has
/// created, and its operation counters.
pub struct CudaContext {
    device: CudaDevice,
    allocs: Vec<Allocation>,
    pools: Vec<PoolRec>,
    mem_used: u64,
    free_count: u64,
    streams: u64,
}

impl CudaContext {
    /// The record of every allocation the context has served, live or not,
    /// in order of creation.
    pub closed spec fn allocs(self) -> Seq<AllocView> {
        self.allocs@.map_values(|a: Allocation| a@)
    }

    /// The record of every pool the context has created, live or not.
    pub closed spec fn pools(self) -> Seq<PoolView> {
        self.pools@.map_values(|p: PoolRec| p@)
    }

    /// The device this context serves.
    pub closed spec fn spec_device(self) -> CudaDevice {
        self.device
    }

    /// How many deallocation calls the driver has performed.
    pub closed spec fn spec_free_count(self) -> u64 {
        self.free_count
    }

    /// How many streams the context has created.
    pub closed spec fn spec_streams(self) -> u64 {
        self.streams
    }

    /// Bytes of live, unpooled device allocations.
    pub closed spec fn spec_mem_used(self) -> u64 {
        self.mem_used
    }

    /// The number of allocations ever served.
    pub open spec fn alloc_count(self) -> int {
        self.allocs().len() as int
    }

    /// Whether `id` names an allocation that is still live.
    pub open spec fn alloc_live(self, id: int) -> bool {
        0 <= id < self.alloc_count() && self.allocs()[id].live
    }

    /// The bytes allocation `id` holds.
    pub open spec fn alloc_bytes(self, id: int) -> Seq<u8> {
        self.allocs()[id].bytes
    }

    /// The size of allocation `id` in bytes.
    pub open spec fn alloc_size(self, id: int) -> int {
        self.allocs()[id].bytes.len() as int
    }

    /// The address space allocation `id` lives in.
    pub open spec fn alloc_space(self, id: int) -> AddressSpace {
        self.allocs()[id].space
    }

    /// The number of pools ever created.
    pub open spec fn pool_count(self) -> int {
        self.pools().len() as int
    }

    /// Whether `p` names a pool that has not been destroyed.
    pub open spec fn pool_live(self, p: int) -> bool {
        0 <= p < self.pool_count() && self.pools()[p].live
    }

    /// The context's well-formedness: the accounting counters agree with the
    /// allocation record, and every recorded size stays inside the model's
    /// address bounds.
    pub closed spec fn wf(self) -> bool {
        &&& self.device.wf()
        &&& self.allocs@.len() <= MAX_ALLOCATIONS
        &&& forall|i: int|
            0 <= i < self.allocs().len() ==> (#[trigger] self.allocs()[i]).bytes.len()
                <= MAX_TOTAL_MEMORY
        &&& forall|i: int|
            0 <= i < self.allocs().len() ==> ((#[trigger] self.allocs()[i]).pool matches Some(p)
                ==> 0 <= p < self.pools().len())
        &&& self.mem_used == sum_allocs(self.allocs(), |a: AllocView| counts_against_device(a))
        &&& self.mem_used <= self.device.spec_total_memory()
        &&& forall|p: int|
            0 <= p < self.pools().len() ==> (#[trigger] self.pools()[p]).used == sum_allocs(
                self.allocs(),
                counts_against_pool(p),
            )
        &&& forall|p: int|
            0 <= p < self.pools().len() ==> {
                let pl = #[trigger] self.pools()[p];
                &&& pl.used <= pl.used_high
                &&& pl.used <= pl.reserved
                &&& pl.reserved <= pl.reserved_high
                &&& pl.used_high <= MAX_ALLOCATIONS * MAX_TOTAL_MEMORY
                &&& pl.reserved_high <= MAX_ALLOCATIONS * MAX_TOTAL_MEMORY
            }
        &&& self.free_count + count_allocs(self.allocs(), |a: AllocView| counts_live(a))
            <= self.allocs@.len()
        &&& self.streams <= MAX_STREAMS
    }

    /// Creates the driver state for one device: no allocations, no pools, no
    /// deallocation calls served yet.
    pub fn new(device: CudaDevice) -> (ctx: Self)
        requires
            device.wf(),
        ensures
            ctx.wf(),
            ctx.spec_device() == device,
            ctx.allocs() =~= Seq::<AllocView>::empty(),
            ctx.pools() =~= Seq::<PoolView>::empty(),
            ctx.spec_free_count() == 0,
            ctx.spec_streams() == 0,
            ctx.spec_mem_used() == 0,
    {
        CudaContext {
            device,
            allocs: Vec::new(),
            pools: Vec::new(),
            mem_used: 0,
            free_count: 0,
            streams: 0,
        }
    }

    /// Returns the device this context serves.
    pub fn device(&self) -> (d: CudaDevice)
        ensures
            d == self.spec_device(),
    {
        self.device
    }

    /// Returns how many deallocation calls the driver has performed; a
    /// harness can hold this against the number of frees it expects.
    pub fn free_calls(&self) -> (n: u64)
        ensures
            n == self.spec_free_count(),
    {
        self.free_count
    }

    /// The context serves a bounded number of allocations.
    pub proof fn lemma_count_cap(self)
        requires
            self.wf(),
        ensures
            self.alloc_count() <= MAX_ALLOCATIONS,
    {
    }

    /// An allocation's byte record fits the machine: it is a vector.
    pub proof fn lemma_alloc_fits(self, id: int)
        requires
            0 <= id < self.alloc_count(),
        ensures
            self.alloc_size(id) <= usize::MAX,
    {
        broadcast use vstd::std_specs::vec::axiom_spec_len;

        assert(self.allocs()[id].bytes == self.allocs@[id].data@);
        assert(vstd::std_specs::vec::spec_vec_len(&self.allocs@[id].data)
            == self.allocs@[id].data@.len());
    }

    /// Resolves a raw pool token to a live pool's identity, if it names
    /// one.
    pub(crate) fn pool_resolve(&self, raw_pid: u64) -> (r: Option<usize>)
        ensures
            r matches Some(p) ==> self.pool_live(p as int) && p == raw_pid,
            r is None ==> !self.pool_live(raw_pid as int),
    {
        if raw_pid >= self.pools.len() as u64 {
            return None;
        }
        let p = raw_pid as usize;
        if self.pools[p].live {
            Some(p)
        } else {
            None
        }
    }

    /// Every pool record index fits the machine: the records sit in a
    /// vector.
    pub proof fn lemma_pool_fits(self)
        ensures
            self.pool_count() <= usize::MAX,
    {
        broadcast use vstd::std_specs::vec::axiom_spec_len;

        assert(vstd::std_specs::vec::spec_vec_len(&self.pools) == self.pools@.len());
    }

    /// Tests whether `id` names a live allocation of pool `pid` holding
    /// exactly `byte_count` bytes.
    pub(crate) fn alloc_probe(&self, id: usize, pid: usize, byte_count: usize) -> (r: bool)
        requires
            self.wf(),
        ensures
            r == (self.alloc_live(id as int) && self.allocs()[id as int].pool == Some(pid as int)
                && self.alloc_size(id as int) == byte_count),
            r ==> byte_count <= MAX_TOTAL_MEMORY,
    {
        if id >= self.allocs.len() {
            return false;
        }
        let a = &self.allocs[id];
        let pool_ok = match a.pool {
            Some(p) => p == pid,
            None => false,
        };
        a.live && pool_ok && a.data.len() == byte_count
    }

    /// Tests whether allocation `id` was drawn from some pool.
    pub(crate) fn alloc_pooled_check(&self, id: usize) -> (r: bool)
        requires
            self.wf(),
            0 <= id < self.alloc_count(),
        ensures
            r == (self.allocs()[id as int].pool is Some),
    {
        let a = &self.allocs[id];
        a.pool.is_some()
    }

    /// Resolves an export descriptor against pool `pid`: the live
    /// allocation it names, with its size, if the descriptor names one.
    pub(crate) fn alloc_resolve_pooled(&self, bytes: &[u8], pid: usize) -> (r: Option<
        (usize, usize),
    >)
        requires
            self.wf(),
            bytes@.len() >= 8,
        ensures
            ({
                let id = crate::memory::pooled::spec_export_data_id(bytes@);
                &&& r matches Some(t) ==> t.0 == id && t.0 < MAX_ALLOCATIONS && self.alloc_live(
                    id,
                ) && self.allocs()[id].pool == Some(pid as int) && t.1 == self.alloc_size(id)
                &&& r is None ==> !(self.alloc_live(id) && self.allocs()[id].pool == Some(
                    pid as int,
                ))
            }),
    {
        let head = vstd::slice::slice_subrange(bytes, 0, 8);
        let id64 = vstd::bytes::u64_from_le_bytes(head);
        if id64 >= MAX_ALLOCATIONS as u64 {
            proof {
                self.lemma_count_cap();
            }
            return None;
        }
        let id = id64 as usize;
        if id >= self.allocs.len() {
            return None;
        }
        let a = &self.allocs[id];
        let pool_ok = match a.pool {
            Some(p) => p == pid,
            None => false,
        };
        if a.live && pool_ok {
            Some((id, a.data.len()))
        } else {
            None
        }
    }

    /// The device a well-formed context serves is itself well-formed.
    pub proof fn lemma_device_wf(self)
        requires
            self.wf(),
        ensures
            self.spec_device().wf(),
    {
    }

    /// Reads the pinned flags recorded for allocation `id`.
    pub(crate) fn alloc_pinned_flags(&self, id: usize) -> (f: u32)
        requires
            0 <= id < self.alloc_count(),
        ensures
            f == self.allocs()[id as int].pinned_flags,
    {
        self.allocs[id].pinned_flags
    }

    /// Returns how much plain device memory is in use, in bytes.
    pub fn mem_used(&self) -> (n: u64)
        ensures
            n == self.spec_mem_used(),
    {
        self.mem_used
    }

    /// Returns the context's identity; the model serves one context.
    pub fn id(&self) -> (r: CudaResult<u64>)
        ensures
            r matches Ok(i) && i == 1,
    {
        Ok(1)
    }

    /// Returns the API version the context was created for.
    pub fn api_version(&self) -> (r: CudaResult<u32>)
        ensures
            r matches Ok(v) && v == 12040,
    {
        Ok(12040)
    }

    /// Blocks until all work in the context has completed; in the drained
    /// model state there is nothing to wait for.
    pub fn synchronize(&self) -> (r: CudaResult<()>)
        ensures
            r is Ok,
    {
        Ok(())
    }
}

/// The counting function for the device's plain memory budget, as one value.
pub open spec fn device_pred() -> spec_fn(AllocView) -> bool {
    |a: AllocView| counts_against_device(a)
}

/// The counting function for liveness, as one value.
pub open spec fn live_pred() -> spec_fn(AllocView) -> bool {
    |a: AllocView| counts_live(a)
}

/// `dst` with the bytes of `src` written at position `at` and everything
/// else kept.
pub open spec fn splice_bytes(dst: Seq<u8>, at: int, src: Seq<u8>) -> Seq<u8> {
    Seq::new(dst.len(), |i: int| if at <= i < at + src.len() {
        src[i - at]
    } else {
        dst[i]
    })
}

/// The pattern `pat` repeated `n` times.
pub open spec fn repeat_bytes(pat: Seq<u8>, n: int) -> Seq<u8> {
    Seq::new((n * pat.len()) as nat, |i: int| pat[i % (pat.len() as int)])
}

/// Each aligned chunk of a repeated pattern is the pattern.
pub proof fn lemma_repeat_chunk(pat: Seq<u8>, n: int, k: int)
    requires
        pat.len() > 0,
        0 <= k < n,
    ensures
        repeat_bytes(pat, n).subrange(k * pat.len(), k * pat.len() + pat.len()) =~= pat,
{
    let w = pat.len() as int;
    assert((k + 1) * w <= n * w) by (nonlinear_arith)
        requires
            0 <= k < n,
            w > 0,
    ;
    assert((k + 1) * w == k * w + w) by (nonlinear_arith);
    assert forall|j: int| 0 <= j < w implies repeat_bytes(pat, n)[k * w + j] == pat[j] by {
        vstd::arithmetic::div_mod::lemma_mod_multiples_vanish(k, j, w);
        vstd::arithmetic::div_mod::lemma_small_mod(j as nat, w as nat);
        assert(k * w + j == w * k + j) by (nonlinear_arith);
    }
}

/// What allocating `size` bytes does to a pool's accounting: the bytes are
/// used, the watermarks rise as needed, and the reservation grows to cover
/// the use.
pub open spec fn pool_after_alloc(pl: PoolView, size: int) -> PoolView {
    let used2 = pl.used + size;
    let reserved2 = vstd::math::max(pl.reserved, used2);
    PoolView {
        used: used2,
        used_high: vstd::math::max(pl.used_high, used2),
        reserved: reserved2,
        reserved_high: vstd::math::max(pl.reserved_high, reserved2),
        ..pl
    }
}

/// What freeing `size` bytes does to a pool's accounting: the bytes return
/// to the pool but stay reserved until the pool is trimmed.
pub open spec fn pool_after_free(pl: PoolView, size: int) -> PoolView {
    PoolView { used: pl.used - size, ..pl }
}

/// Whether an allocation request can be satisfied: the context has room for
/// another allocation record, the size respects the model's address bounds,
/// and the memory budget it draws from (the device's plain memory, or its
/// pool's maximum size) is not exhausted.
pub open spec fn can_alloc(
    ctx: CudaContext,
    bytesize: int,
    space: AddressSpace,
    pool: Option<int>,
) -> bool {
    &&& ctx.alloc_count() < MAX_ALLOCATIONS
    &&& bytesize <= MAX_TOTAL_MEMORY
    &&& match pool {
        Some(p) => ctx.pools()[p].max_size == 0 || ctx.pools()[p].used + bytesize
            <= ctx.pools()[p].max_size,
        None => space is Device ==> ctx.spec_mem_used() + bytesize
            <= ctx.spec_device().spec_total_memory(),
    }
}

/// The record of a fresh allocation.
pub open spec fn fresh_alloc(
    bytesize: int,
    space: AddressSpace,
    pool: Option<int>,
    registered: bool,
    pinned_flags: u32,
) -> AllocView {
    AllocView {
        bytes: Seq::new(bytesize as nat, |i: int| 0u8),
        space,
        live: true,
        pool,
        location: ManagedLocation::OnDevice,
        attached: None,
        registered,
        pinned_flags,
    }
}

/// Whether everything in `post` other than the allocation record, the plain
/// memory counter and the pool records is as it was in `pre`.
pub open spec fn ctx_counters_unchanged(pre: CudaContext, post: CudaContext) -> bool {
    &&& post.spec_device() == pre.spec_device()
    &&& post.spec_free_count() == pre.spec_free_count()
    &&& post.spec_streams() == pre.spec_streams()
}

impl CudaContext {
    /// Serves an allocation: `bytesize` zero-initialized bytes in the given
    /// address space, drawn from the given pool if one is named.  Returns
    /// the identity of the new allocation record, or an out-of-memory error
    /// exactly when [`can_alloc`] does not hold.
    pub(crate) fn alloc_raw(
        &mut self,
        bytesize: usize,
        space: AddressSpace,
        pool: Option<usize>,
        pinned_flags: u32,
    ) -> (r: CudaResult<usize>)
        requires
            old(self).wf(),
            pool matches Some(p) ==> old(self).pool_live(p as int) && space is Device,
        ensures
            final(self).wf(),
            ctx_counters_unchanged(*old(self), *final(self)),
            can_alloc(*old(self), bytesize as int, space, pool_view_of(pool)) ==> (r matches Ok(id)
                && id == old(self).alloc_count()),
            !can_alloc(*old(self), bytesize as int, space, pool_view_of(pool)) ==> (r matches Err(
                e,
            ) && e.spec_code() == CUDA_ERROR_OUT_OF_MEMORY && *final(self) == *old(self)),
            r is Ok ==> {
                &&& final(self).allocs() == old(self).allocs().push(
                    fresh_alloc(bytesize as int, space, pool_view_of(pool), false, pinned_flags),
                )
                &&& match pool_view_of(pool) {
                    Some(p) => final(self).pools() == old(self).pools().update(
                        p,
                        pool_after_alloc(old(self).pools()[p], bytesize as int),
                    ),
                    None => final(self).pools() == old(self).pools(),
                }
                &&& final(self).spec_mem_used() == old(self).spec_mem_used() + (
                if space is Device && pool is None {
                    bytesize as int
                } else {
                    0int
                })
            },
    {
        let ghost pre = *self;
        if self.allocs.len() >= MAX_ALLOCATIONS {
            return Err(CudaError::new(CUDA_ERROR_OUT_OF_MEMORY));
        }
        if bytesize as u64 > MAX_TOTAL_MEMORY {
            return Err(CudaError::new(CUDA_ERROR_OUT_OF_MEMORY));
        }
        match pool {
            Some(p) => {
                let max_size = self.pools[p].max_size;
                let used = self.pools[p].used;
                proof {
                    lemma_sum_cap(
                        pre.allocs(),
                        counts_against_pool(p as int),
                        MAX_TOTAL_MEMORY as int,
                    );
                }
                if max_size != 0 && used + bytesize as u64 > max_size {
                    return Err(CudaError::new(CUDA_ERROR_OUT_OF_MEMORY));
                }
                let used2 = used + bytesize as u64;
                let pl = vec_index_mut(&mut self.pools, p);
                pl.used = used2;
                if used2 > pl.used_high {
                    pl.used_high = used2;
                }
                if used2 > pl.reserved {
                    pl.reserved = used2;
                }
                if pl.reserved > pl.reserved_high {
                    pl.reserved_high = pl.reserved;
                }
            },
            None => {
                if matches!(space, AddressSpace::Device) {
                    proof {
                        self.device.lemma_wf_bounds();
                    }
                    if self.mem_used + bytesize as u64 > self.device.total_memory_raw() {
                        return Err(CudaError::new(CUDA_ERROR_OUT_OF_MEMORY));
                    }
                    self.mem_used = self.mem_used + bytesize as u64;
                }
            },
        }
        let id = self.allocs.len();
        let data: Vec<u8> = zero_vec(bytesize);
        let alloc = Allocation {
            data,
            space,
            live: true,
            pool,
            location: ManagedLocation::OnDevice,
            attached: None,
            registered: false,
            pinned_flags,
        };
        self.allocs.push(alloc);
        proof {
            let newv = fresh_alloc(
                bytesize as int,
                space,
                pool_view_of(pool),
                false,
                pinned_flags,
            );
            assert(self.allocs() =~~= pre.allocs().push(newv));
            lemma_sum_push(pre.allocs(), device_pred(), newv);
            lemma_sum_push(pre.allocs(), live_pred(), newv);
            assert forall|p0: int| 0 <= p0 < self.pools().len() implies (
            #[trigger] self.pools()[p0]).used == sum_allocs(
                self.allocs(),
                counts_against_pool(p0),
            ) by {
                lemma_sum_push(pre.allocs(), counts_against_pool(p0), newv);
            }
            match pool {
                Some(p) => {
                    assert(self.pools() =~= pre.pools().update(
                        p as int,
                        pool_after_alloc(pre.pools()[p as int], bytesize as int),
                    ));
                },
                None => {
                    assert(self.pools() =~= pre.pools());
                },
            }
        }
        Ok(id)
    }

    /// Takes custody of caller-supplied bytes as a registered pinned host
    /// allocation; the registration is undone with
    /// [`CudaContext::kill_raw`], which hands no bytes back to the driver.
    pub(crate) fn register_raw(&mut self, data: Vec<u8>, pinned_flags: u32) -> (r: CudaResult<
        usize,
    >)
        requires
            old(self).wf(),
        ensures
            final(self).wf(),
            ctx_counters_unchanged(*old(self), *final(self)),
            final(self).pools() == old(self).pools(),
            final(self).spec_mem_used() == old(self).spec_mem_used(),
            can_register(*old(self), data@.len() as int) ==> (r matches Ok(id) && id == old(
                self,
            ).alloc_count() && final(self).allocs() == old(self).allocs().push(
                registered_alloc(data@, pinned_flags),
            )),
            !can_register(*old(self), data@.len() as int) ==> (r matches Err(e) && e.spec_code()
                == CUDA_ERROR_OUT_OF_MEMORY && *final(self) == *old(self)),
    {
        let ghost pre = *self;
        if self.allocs.len() >= MAX_ALLOCATIONS {
            return Err(CudaError::new(CUDA_ERROR_OUT_OF_MEMORY));
        }
        if data.len() as u64 > MAX_TOTAL_MEMORY {
            return Err(CudaError::new(CUDA_ERROR_OUT_OF_MEMORY));
        }
        let id = self.allocs.len();
        let ghost bytes = data@;
        let alloc = Allocation {
            data,
            space: AddressSpace::Pinned,
            live: true,
            pool: None,
            location: ManagedLocation::OnHost,
            attached: None,
            registered: true,
            pinned_flags,
        };
        self.allocs.push(alloc);
        proof {
            let newv = registered_alloc(bytes, pinned_flags);
            assert(self.allocs() =~~= pre.allocs().push(newv));
            lemma_sum_push(pre.allocs(), device_pred(), newv);
            lemma_sum_push(pre.allocs(), live_pred(), newv);
            assert forall|p0: int| 0 <= p0 < self.pools().len() implies (
            #[trigger] self.pools()[p0]).used == sum_allocs(
                self.allocs(),
                counts_against_pool(p0),
            ) by {
                lemma_sum_push(pre.allocs(), counts_against_pool(p0), newv);
            }
        }
        Ok(id)
    }

    /// Retires an allocation: it stops being live, its bytes leave the books
    /// of whatever budget they were drawn from, and, when the retirement is
    /// a deallocation rather than an unregistration, the driver's count of
    /// deallocation calls grows by one.
    pub(crate) fn kill_raw(&mut self, id: usize, deallocate: bool)
        requires
            old(self).wf(),
            old(self).alloc_live(id as int),
        ensures
            final(self).wf(),
            final(self).spec_device() == old(self).spec_device(),
            final(self).spec_streams() == old(self).spec_streams(),
            final(self).spec_free_count() == old(self).spec_free_count() + (if deallocate {
                1int
            } else {
                0int
            }),
            final(self).allocs() == old(self).allocs().update(
                id as int,
                retired_alloc(old(self).allocs()[id as int]),
            ),
            final(self).spec_mem_used() == old(self).spec_mem_used() - alloc_contrib(
                old(self).allocs()[id as int],
                device_pred(),
            ),
            match old(self).allocs()[id as int].pool {
                Some(p) => final(self).pools() == old(self).pools().update(
                    p,
                    pool_after_free(
                        old(self).pools()[p],
                        old(self).allocs()[id as int].bytes.len() as int,
                    ),
                ),
                None => final(self).pools() == old(self).pools(),
            },
    {
        let ghost pre = *self;
        let ghost oldv = pre.allocs()[id as int];
        let ghost newv = retired_alloc(oldv);
        let size: usize = self.allocs[id].data.len();
        let pool = self.allocs[id].pool;
        let counted = matches!(self.allocs[id].space, AddressSpace::Device) && pool.is_none();

        let a = vec_index_mut(&mut self.allocs, id);
        a.live = false;
        proof {
            assert(self.allocs() =~~= pre.allocs().update(id as int, newv));
            lemma_sum_update(pre.allocs(), device_pred(), id as int, newv);
            lemma_sum_update(pre.allocs(), live_pred(), id as int, newv);
            assert forall|p0: int| 0 <= p0 < self.pools().len() implies sum_allocs(
                self.allocs(),
                counts_against_pool(p0),
            ) == sum_allocs(pre.allocs(), counts_against_pool(p0)) - alloc_contrib(
                oldv,
                counts_against_pool(p0),
            ) by {
                lemma_sum_update(pre.allocs(), counts_against_pool(p0), id as int, newv);
            }
            if counted {
                lemma_sum_member(pre.allocs(), device_pred(), id as int);
            }
            lemma_sum_member(pre.allocs(), live_pred(), id as int);
            lemma_sum_nonneg(self.allocs(), device_pred());
            lemma_sum_nonneg(self.allocs(), live_pred());
        }
        if counted {
            self.mem_used = self.mem_used - size as u64;
        }
        let ghost mid = *self;
        match pool {
            Some(p) => {
                proof {
                    lemma_sum_member(pre.allocs(), counts_against_pool(p as int), id as int);
                    lemma_sum_nonneg(self.allocs(), counts_against_pool(p as int));
                }
                let pl = vec_index_mut(&mut self.pools, p);
                pl.used = pl.used - size as u64;
                proof {
                    assert(self.pools() =~= mid.pools().update(
                        p as int,
                        pool_after_free(mid.pools()[p as int], size as int),
                    ));
                }
            },
            None => {},
        }
        if deallocate {
            self.free_count = self.free_count + 1;
        }
    }

    /// Reads `count` bytes of allocation `id` starting at byte `off`.
    pub(crate) fn read_range(&self, id: usize, off: usize, count: usize) -> (r: Vec<u8>)
        requires
            self.wf(),
            self.alloc_live(id as int),
            off + count <= self.alloc_size(id as int),
        ensures
            r@ == self.alloc_bytes(id as int).subrange(off as int, off as int + count as int),
    {
        let a = &self.allocs[id];
        let total = a.data.len();
        let mut out: Vec<u8> = Vec::new();
        let mut i: usize = 0;
        while i < count
            invariant
                i <= count,
                total == a.data@.len(),
                off + count <= total,
                out@.len() == i,
                forall|j: int| 0 <= j < i ==> out@[j] == a.data@[off + j],
            decreases count - i,
        {
            out.push(a.data[off + i]);
            i = i + 1;
        }
        proof {
            assert(out@ =~= self.alloc_bytes(id as int).subrange(
                off as int,
                off as int + count as int,
            ));
        }
        out
    }

    /// Writes the given bytes into allocation `id` at byte `off`, leaving
    /// every other byte and every other allocation as it was.
    pub(crate) fn write_range(&mut self, id: usize, off: usize, src: &Vec<u8>)
        requires
            old(self).wf(),
            old(self).alloc_live(id as int),
            off + src@.len() <= old(self).alloc_size(id as int),
        ensures
            final(self).wf(),
            ctx_counters_unchanged(*old(self), *final(self)),
            final(self).pools() == old(self).pools(),
            final(self).spec_mem_used() == old(self).spec_mem_used(),
            final(self).allocs() == old(self).allocs().update(
                id as int,
                alloc_with_bytes(
                    old(self).allocs()[id as int],
                    splice_bytes(old(self).alloc_bytes(id as int), off as int, src@),
                ),
            ),
    {
        let ghost pre = *self;
        let m = src.len();
        let mut data: Vec<u8> = Vec::new();
        let a = vec_index_mut(&mut self.allocs, id);
        core::mem::swap(&mut data, &mut a.data);
        let ghost orig = pre.alloc_bytes(id as int);

        let dn = data.len();
        let mut i: usize = 0;
        while i < m
            invariant
                i <= m,
                m == src@.len(),
                off + m <= dn,
                dn == orig.len(),
                data@.len() == orig.len(),
                forall|j: int| 0 <= j < i ==> data@[off + j] == src@[j],
                forall|j: int| 0 <= j < orig.len() && !(off <= j < off + i) ==> data@[j] == orig[j],
            decreases m - i,
        {
            let e = vec_index_mut(&mut data, off + i);
            *e = src[i];
            i = i + 1;
        }

        let a = vec_index_mut(&mut self.allocs, id);
        core::mem::swap(&mut a.data, &mut data);
        proof {
            let oldv = pre.allocs()[id as int];
            let newv = alloc_with_bytes(oldv, splice_bytes(orig, off as int, src@));
            assert(self.allocs()[id as int].bytes =~= newv.bytes);
            assert(self.allocs() =~~= pre.allocs().update(id as int, newv));
            lemma_accounting_preserved(pre.allocs(), id as int, newv);
        }
    }

    /// Fills `n` elements of allocation `id`, starting at byte `off`, with
    /// the byte pattern of one element, leaving every other byte and every
    /// other allocation as it was.
    pub(crate) fn fill_range(&mut self, id: usize, off: usize, n: usize, pat: &Vec<u8>)
        requires
            old(self).wf(),
            old(self).alloc_live(id as int),
            pat@.len() >= 1,
            off + n * pat@.len() <= old(self).alloc_size(id as int),
        ensures
            final(self).wf(),
            ctx_counters_unchanged(*old(self), *final(self)),
            final(self).pools() == old(self).pools(),
            final(self).spec_mem_used() == old(self).spec_mem_used(),
            final(self).allocs() == old(self).allocs().update(
                id as int,
                alloc_with_bytes(
                    old(self).allocs()[id as int],
                    splice_bytes(
                        old(self).alloc_bytes(id as int),
                        off as int,
                        repeat_bytes(pat@, n as int),
                    ),
                ),
            ),
    {
        let w = pat.len();
        let cap = self.allocs[id].data.len();
        proof {
            assert(n * w <= cap);
        }
        let total = n * w;
        let mut tmp: Vec<u8> = Vec::new();
        let mut t: usize = 0;
        while t < total
            invariant
                t <= total,
                w == pat@.len(),
                w >= 1,
                tmp@.len() == t,
                forall|i: int| 0 <= i < t ==> tmp@[i] == pat@[i % (w as int)],
            decreases total - t,
        {
            tmp.push(pat[t % w]);
            t = t + 1;
        }
        proof {
            assert(tmp@ =~= repeat_bytes(pat@, n as int));
        }
        self.write_range(id, off, &tmp);
    }

    /// Records a migration of unified allocation `id`: its pages now reside
    /// at `location`, attached to the given stream if migration went through
    /// the attach mechanism.  The bytes are untouched.
    pub(crate) fn set_location_raw(
        &mut self,
        id: usize,
        location: ManagedLocation,
        attached: Option<u64>,
    )
        requires
            old(self).wf(),
            old(self).alloc_live(id as int),
        ensures
            final(self).wf(),
            ctx_counters_unchanged(*old(self), *final(self)),
            final(self).pools() == old(self).pools(),
            final(self).spec_mem_used() == old(self).spec_mem_used(),
            final(self).allocs() == old(self).allocs().update(
                id as int,
                migrated_alloc(old(self).allocs()[id as int], location, attached_view(attached)),
            ),
    {
        let ghost pre = *self;
        let a = vec_index_mut(&mut self.allocs, id);
        a.location = location;
        a.attached = attached;
        proof {
            let newv = migrated_alloc(pre.allocs()[id as int], location, attached_view(attached));
            assert(self.allocs() =~~= pre.allocs().update(id as int, newv));
            lemma_accounting_preserved(pre.allocs(), id as int, newv);
        }
    }

    /// Creates a memory pool with the given maximum size (zero for
    /// unbounded) and exportable handle kind, and returns its identity.
    pub(crate) fn pool_create_raw(
        &mut self,
        max_size: u64,
        handle_type: AllocationHandleType,
    ) -> (pid: usize)
        requires
            old(self).wf(),
        ensures
            final(self).wf(),
            ctx_counters_unchanged(*old(self), *final(self)),
            final(self).allocs() == old(self).allocs(),
            final(self).spec_mem_used() == old(self).spec_mem_used(),
            pid == old(self).pool_count(),
            final(self).pools() == old(self).pools().push(fresh_pool(max_size, handle_type)),
    {
        let ghost pre = *self;
        let pid = self.pools.len();
        self.pools.push(
            PoolRec {
                live: true,
                max_size,
                release_threshold: 0,
                used: 0,
                used_high: 0,
                reserved: 0,
                reserved_high: 0,
                reuse_follow_event_dependencies: true,
                reuse_allow_opportunistic: true,
                reuse_allow_internal_dependencies: true,
                handle_type,
            },
        );
        proof {
            assert(self.pools() =~= pre.pools().push(fresh_pool(max_size, handle_type)));
            assert forall|p0: int| 0 <= p0 < self.pools().len() implies (
            #[trigger] self.pools()[p0]).used == sum_allocs(
                self.allocs(),
                counts_against_pool(p0),
            ) by {
                if p0 == pid {
                    lemma_pool_unused(self.allocs(), p0, pre.pools().len() as int);
                }
            }
        }
        pid
    }

    /// Destroys a pool.  The caller must have freed every allocation drawn
    /// from it first.
    pub(crate) fn pool_destroy_raw(&mut self, pid: usize)
        requires
            old(self).wf(),
            old(self).pool_live(pid as int),
            forall|i: int|
                0 <= i < old(self).alloc_count() ==> !((#[trigger] old(self).allocs()[i]).live
                    && old(self).allocs()[i].pool == Some(pid as int)),
        ensures
            final(self).wf(),
            ctx_counters_unchanged(*old(self), *final(self)),
            final(self).allocs() == old(self).allocs(),
            final(self).spec_mem_used() == old(self).spec_mem_used(),
            final(self).pools() == old(self).pools().update(
                pid as int,
                PoolView { live: false, ..old(self).pools()[pid as int] },
            ),
    {
        let ghost pre = *self;
        let pl = vec_index_mut(&mut self.pools, pid);
        pl.live = false;
        proof {
            let npl = PoolView { live: false, ..pre.pools()[pid as int] };
            assert(self.pools() =~= pre.pools().update(pid as int, npl));
            lemma_pools_update_wf(pre, *self, pid as int, npl);
        }
    }

    /// Reads the whole record of pool `pid`.
    pub(crate) fn pool_view_raw(&self, pid: usize) -> (pl: PoolAttrs)
        requires
            self.wf(),
            0 <= pid < self.pool_count(),
        ensures
            pl.matches_view(self.pools()[pid as int]),
    {
        let p = &self.pools[pid];
        PoolAttrs {
            live: p.live,
            max_size: p.max_size,
            release_threshold: p.release_threshold,
            used: p.used,
            used_high: p.used_high,
            reserved: p.reserved,
            reserved_high: p.reserved_high,
            reuse_follow_event_dependencies: p.reuse_follow_event_dependencies,
            reuse_allow_opportunistic: p.reuse_allow_opportunistic,
            reuse_allow_internal_dependencies: p.reuse_allow_internal_dependencies,
            handle_type: p.handle_type,
        }
    }

    /// Sets the release threshold attribute of pool `pid`.
    pub(crate) fn pool_set_release_threshold_raw(&mut self, pid: usize, threshold: u64)
        requires
            old(self).wf(),
            old(self).pool_live(pid as int),
        ensures
            final(self).wf(),
            ctx_counters_unchanged(*old(self), *final(self)),
            final(self).allocs() == old(self).allocs(),
            final(self).spec_mem_used() == old(self).spec_mem_used(),
            final(self).pools() == old(self).pools().update(
                pid as int,
                PoolView { release_threshold: threshold, ..old(self).pools()[pid as int] },
            ),
    {
        let ghost pre = *self;
        let pl = vec_index_mut(&mut self.pools, pid);
        pl.release_threshold = threshold;
        proof {
            let npl = PoolView { release_threshold: threshold, ..pre.pools()[pid as int] };
            assert(self.pools() =~= pre.pools().update(pid as int, npl));
            lemma_pools_update_wf(pre, *self, pid as int, npl);
        }
    }

    /// Sets one of the reuse policy attributes of pool `pid`.
    pub(crate) fn pool_set_reuse_raw(&mut self, pid: usize, attr: PoolReuseAttr, value: bool)
        requires
            old(self).wf(),
            old(self).pool_live(pid as int),
        ensures
            final(self).wf(),
            ctx_counters_unchanged(*old(self), *final(self)),
            final(self).allocs() == old(self).allocs(),
            final(self).spec_mem_used() == old(self).spec_mem_used(),
            final(self).pools() == old(self).pools().update(
                pid as int,
                pool_with_reuse(old(self).pools()[pid as int], attr, value),
            ),
    {
        let ghost pre = *self;
        let pl = vec_index_mut(&mut self.pools, pid);
        match attr {
            PoolReuseAttr::FollowEventDependencies => {
                pl.reuse_follow_event_dependencies = value;
            },
            PoolReuseAttr::AllowOpportunistic => {
                pl.reuse_allow_opportunistic = value;
            },
            PoolReuseAttr::AllowInternalDependencies => {
                pl.reuse_allow_internal_dependencies = value;
            },
        }
        proof {
            let npl = pool_with_reuse(pre.pools()[pid as int], attr, value);
            assert(self.pools() =~= pre.pools().update(pid as int, npl));
            lemma_pools_update_wf(pre, *self, pid as int, npl);
        }
    }

    /// Resets the high watermark of the used counter of pool `pid` to the
    /// current use.
    pub(crate) fn pool_reset_used_high_raw(&mut self, pid: usize)
        requires
            old(self).wf(),
            old(self).pool_live(pid as int),
        ensures
            final(self).wf(),
            ctx_counters_unchanged(*old(self), *final(self)),
            final(self).allocs() == old(self).allocs(),
            final(self).spec_mem_used() == old(self).spec_mem_used(),
            final(self).pools() == old(self).pools().update(
                pid as int,
                PoolView {
                    used_high: old(self).pools()[pid as int].used,
                    ..old(self).pools()[pid as int]
                },
            ),
    {
        let ghost pre = *self;
        let pl = vec_index_mut(&mut self.pools, pid);
        pl.used_high = pl.used;
        proof {
            let npl = PoolView {
                used_high: pre.pools()[pid as int].used,
                ..pre.pools()[pid as int]
            };
            assert(self.pools() =~= pre.pools().update(pid as int, npl));
            lemma_pools_update_wf(pre, *self, pid as int, npl);
        }
    }

    /// Resets the high watermark of the reservation counter of pool `pid` to
    /// the current reservation.
    pub(crate) fn pool_reset_reserved_high_raw(&mut self, pid: usize)
        requires
            old(self).wf(),
            old(self).pool_live(pid as int),
        ensures
            final(self).wf(),
            ctx_counters_unchanged(*old(self), *final(self)),
            final(self).allocs() == old(self).allocs(),
            final(self).spec_mem_used() == old(self).spec_mem_used(),
            final(self).pools() == old(self).pools().update(
                pid as int,
                PoolView {
                    reserved_high: old(self).pools()[pid as int].reserved,
                    ..old(self).pools()[pid as int]
                },
            ),
    {
        let ghost pre = *self;
        let pl = vec_index_mut(&mut self.pools, pid);
        pl.reserved_high = pl.reserved;
        proof {
            let npl = PoolView {
                reserved_high: pre.pools()[pid as int].reserved,
                ..pre.pools()[pid as int]
            };
            assert(self.pools() =~= pre.pools().update(pid as int, npl));
            lemma_pools_update_wf(pre, *self, pid as int, npl);
        }
    }

    /// Releases pool memory back to the device, keeping at most `keep` bytes
    /// reserved beyond what is in use: the reservation becomes the current
    /// use or `keep`, whichever is larger, and never grows.
    pub(crate) fn pool_trim_raw(&mut self, pid: usize, keep: usize)
        requires
            old(self).wf(),
            old(self).pool_live(pid as int),
        ensures
            final(self).wf(),
            ctx_counters_unchanged(*old(self), *final(self)),
            final(self).allocs() == old(self).allocs(),
            final(self).spec_mem_used() == old(self).spec_mem_used(),
            final(self).pools() == old(self).pools().update(
                pid as int,
                pool_after_trim(old(self).pools()[pid as int], keep as int),
            ),
    {
        let ghost pre = *self;
        let pl = vec_index_mut(&mut self.pools, pid);
        let kept = if (keep as u64) < pl.reserved {
            keep as u64
        } else {
            pl.reserved
        };
        pl.reserved = if pl.used > kept {
            pl.used
        } else {
            kept
        };
        proof {
            let npl = pool_after_trim(pre.pools()[pid as int], keep as int);
            assert(self.pools() =~= pre.pools().update(pid as int, npl));
            lemma_pools_update_wf(pre, *self, pid as int, npl);
        }
    }

    /// Creates a stream and returns its identity; streams are ordering
    /// tokens in this model.  Fails only when the context has exhausted its
    /// supply of stream identities.
    pub(crate) fn stream_create_raw(&mut self) -> (r: CudaResult<u64>)
        requires
            old(self).wf(),
        ensures
            final(self).wf(),
            final(self).spec_device() == old(self).spec_device(),
            final(self).spec_free_count() == old(self).spec_free_count(),
            final(self).allocs() == old(self).allocs(),
            final(self).pools() == old(self).pools(),
            final(self).spec_mem_used() == old(self).spec_mem_used(),
            old(self).spec_streams() < MAX_STREAMS ==> (r matches Ok(s) && s == old(
                self,
            ).spec_streams() && final(self).spec_streams() == old(self).spec_streams() + 1),
            old(self).spec_streams() >= MAX_STREAMS ==> (r matches Err(e) && e.spec_code()
                == CUDA_ERROR_OUT_OF_MEMORY && *final(self) == *old(self)),
    {
        if self.streams >= MAX_STREAMS {
            return Err(CudaError::new(CUDA_ERROR_OUT_OF_MEMORY));
        }
        let id = self.streams;
        self.streams = self.streams + 1;
        Ok(id)
    }
}

/// The attributes of one pool, read out in one piece.
pub(crate) struct PoolAttrs {
    pub(crate) live: bool,
    pub(crate) max_size: u64,
    pub(crate) release_threshold: u64,
    pub(crate) used: u64,
    pub(crate) used_high: u64,
    pub(crate) reserved: u64,
    pub(crate) reserved_high: u64,
    pub(crate) reuse_follow_event_dependencies: bool,
    pub(crate) reuse_allow_opportunistic: bool,
    pub(crate) reuse_allow_internal_dependencies: bool,
    pub(crate) handle_type: AllocationHandleType,
}

impl PoolAttrs {
    /// Whether these attributes agree with a pool record.
    pub(crate) open spec fn matches_view(self, pl: PoolView) -> bool {
        &&& self.live == pl.live
        &&& self.max_size == pl.max_size
        &&& self.release_threshold == pl.release_threshold
        &&& self.used == pl.used
        &&& self.used_high == pl.used_high
        &&& self.reserved == pl.reserved
        &&& self.reserved_high == pl.reserved_high
        &&& self.reuse_follow_event_dependencies == pl.reuse_follow_event_dependencies
        &&& self.reuse_allow_opportunistic == pl.reuse_allow_opportunistic
        &&& self.reuse_allow_internal_dependencies == pl.reuse_allow_internal_dependencies
        &&& self.handle_type == pl.handle_type
    }
}

/// The reuse policy attributes a pool carries.
#[derive(Clone, Copy, Debug, PartialEq, Eq, Structural)]
pub enum PoolReuseAttr {
    /// Reuse memory across event dependencies.
    FollowEventDependencies,
    /// Reuse memory opportunistically.
    AllowOpportunistic,
    /// Insert internal dependencies to reuse memory.
    AllowInternalDependencies,
}

/// The record of a fresh pool: empty, unbounded reuse, nothing reserved.
pub open spec fn fresh_pool(max_size: u64, handle_type: AllocationHandleType) -> PoolView {
    PoolView {
        live: true,
        max_size,
        release_threshold: 0,
        used: 0,
        used_high: 0,
        reserved: 0,
        reserved_high: 0,
        reuse_follow_event_dependencies: true,
        reuse_allow_opportunistic: true,
        reuse_allow_internal_dependencies: true,
        handle_type,
    }
}

/// A pool record with one reuse attribute replaced.
pub open spec fn pool_with_reuse(pl: PoolView, attr: PoolReuseAttr, value: bool) -> PoolView {
    match attr {
        PoolReuseAttr::FollowEventDependencies => PoolView {
            reuse_follow_event_dependencies: value,
            ..pl
        },
        PoolReuseAttr::AllowOpportunistic => PoolView { reuse_allow_opportunistic: value, ..pl },
        PoolReuseAttr::AllowInternalDependencies => PoolView {
            reuse_allow_internal_dependencies: value,
            ..pl
        },
    }
}

/// A pool record after trimming: the reservation falls to the current use or
/// to `keep`, whichever is larger, and never grows.
pub open spec fn pool_after_trim(pl: PoolView, keep: int) -> PoolView {
    PoolView { reserved: vstd::math::max(pl.used, vstd::math::min(pl.reserved, keep)), ..pl }
}

/// No allocation draws from a pool that does not exist yet.
proof fn lemma_pool_unused(s: Seq<AllocView>, p: int, bound: int)
    requires
        forall|i: int|
            0 <= i < s.len() ==> ((#[trigger] s[i]).pool matches Some(q) ==> q < bound),
        p >= bound,
    ensures
        sum_allocs(s, counts_against_pool(p)) == 0,
    decreases s.len(),
{
    if s.len() > 0 {
        lemma_pool_unused(s.drop_last(), p, bound);
    }
}

/// Replacing one pool record with one that keeps the same use and respects
/// the watermark order preserves the context's well-formedness.
proof fn lemma_pools_update_wf(pre: CudaContext, post: CudaContext, pid: int, npl: PoolView)
    requires
        pre.wf(),
        0 <= pid < pre.pools().len(),
        post.allocs() == pre.allocs(),
        post.spec_mem_used() == pre.spec_mem_used(),
        post.spec_device() == pre.spec_device(),
        post.spec_free_count() == pre.spec_free_count(),
        post.spec_streams() == pre.spec_streams(),
        post.pools() == pre.pools().update(pid, npl),
        npl.used == pre.pools()[pid].used,
        npl.used <= npl.used_high,
        npl.used <= npl.reserved,
        npl.reserved <= npl.reserved_high,
        npl.used_high <= MAX_ALLOCATIONS * MAX_TOTAL_MEMORY,
        npl.reserved_high <= MAX_ALLOCATIONS * MAX_TOTAL_MEMORY,
    ensures
        post.wf(),
{
}

/// Whether a registration request can be taken: the context has room for
/// another allocation record and the size respects the model's bounds.
pub open spec fn can_register(ctx: CudaContext, bytesize: int) -> bool {
    &&& ctx.alloc_count() < MAX_ALLOCATIONS
    &&& bytesize <= MAX_TOTAL_MEMORY
}

/// The record of a fresh registration of caller-supplied host bytes.
pub open spec fn registered_alloc(bytes: Seq<u8>, pinned_flags: u32) -> AllocView {
    AllocView {
        bytes,
        space: AddressSpace::Pinned,
        live: true,
        pool: None,
        location: ManagedLocation::OnHost,
        attached: None,
        registered: true,
        pinned_flags,
    }
}

/// An allocation record after it has been freed or unregistered.
pub open spec fn retired_alloc(a: AllocView) -> AllocView {
    AllocView { live: false, ..a }
}

/// An allocation record with its bytes replaced and everything else kept.
pub open spec fn alloc_with_bytes(a: AllocView, bytes: Seq<u8>) -> AllocView {
    AllocView { bytes, ..a }
}

/// An allocation record after a migration.
pub open spec fn migrated_alloc(
    a: AllocView,
    location: ManagedLocation,
    attached: Option<int>,
) -> AllocView {
    AllocView { location, attached, ..a }
}

/// A stream attachment as specifications see it.
pub open spec fn attached_view(attached: Option<u64>) -> Option<int> {
    match attached {
        Some(s) => Some(s as int),
        None => None,
    }
}

/// An update that changes neither liveness, nor address space, nor pool,
/// nor size leaves every byte total and every count unchanged.
proof fn lemma_accounting_preserved(s: Seq<AllocView>, j: int, a: AllocView)
    requires
        0 <= j < s.len(),
        a.live == s[j].live,
        a.space == s[j].space,
        a.pool == s[j].pool,
        a.bytes.len() == s[j].bytes.len(),
    ensures
        sum_allocs(s.update(j, a), device_pred()) == sum_allocs(s, device_pred()),
        count_allocs(s.update(j, a), live_pred()) == count_allocs(s, live_pred()),
        forall|p: int| #[trigger]
            sum_allocs(s.update(j, a), counts_against_pool(p)) == sum_allocs(
                s,
                counts_against_pool(p),
            ),
{
    lemma_sum_update(s, device_pred(), j, a);
    lemma_sum_update(s, live_pred(), j, a);
    assert forall|p: int| #[trigger]
        sum_allocs(s.update(j, a), counts_against_pool(p)) == sum_allocs(
            s,
            counts_against_pool(p),
        ) by {
        lemma_sum_update(s, counts_against_pool(p), j, a);
    }
}

fn zero_vec(n: usize) -> (v: Vec<u8>)
    ensures
        v@ == Seq::new(n as nat, |i: int| 0u8),
{
    let mut v: Vec<u8> = Vec::new();
    let mut i: usize = 0;
    while i < n
        invariant
            i <= n,
            v@.len() == i,
            forall|j: int| 0 <= j < i ==> v@[j] == 0u8,
        decreases n - i,
    {
        v.push(0u8);
        i = i + 1;
    }
    proof {
        assert(v@ =~= Seq::new(n as nat, |i: int| 0u8));
    }
    v
}

/// No double free: once a deallocation of `id` has taken effect — the
/// allocation's record is retired, as every free's contract states — `id` is
/// no longer live, and every deallocation path of this crate demands a live
/// allocation.  A second deallocation call for the same allocation can
/// therefore never be issued: the one that succeeded consumed both the
/// owning value and the liveness its contract requires.
pub proof fn lemma_no_double_free(pre: CudaContext, post: CudaContext, id: int)
    requires
        0 <= id < pre.alloc_count(),
        post.allocs() == pre.allocs().update(id, retired_alloc(pre.allocs()[id])),
    ensures
        !post.alloc_live(id),
{
}

/// A pool identity as specifications see it.
pub open spec fn pool_view_of(pool: Option<usize>) -> Option<int> {
    match pool {
        Some(p) => Some(p as int),
        None => None,
    }
}

} // verus!

