//! Streams: ordering tokens for asynchronous work.
//!
//! A [`CudaStream`] orders the operations enqueued on it: two operations on
//! one stream complete in submission order.  The model context executes an
//! enqueued operation at once, which is the one schedule that FIFO order
//! admits, so `synchronize` has nothing left to wait for and every contract
//! describes the drained state of the stream.

use vstd::prelude::*;

use crate::context::CudaContext;
use crate::device::CudaDevice;
use crate::error::CudaResult;

verus! {

/// How a stream synchronizes with the legacy default stream.
#[derive(Clone, Copy, Debug, PartialEq, Eq, Structural)]
pub enum StreamFlags {
    /// The created stream synchronizes with the default stream.
    Default,
    /// The created stream runs independently of the default stream.
    NonBlocking,
}

/// An ordering token for asynchronous allocate, free, copy, fill and
/// prefetch operations.
#[derive(Debug)]
pub struct CudaStream {
    id: u64,
    flags: StreamFlags,
    priority: i32,
}

impl CudaStream {
    /// The stream's identity within its context.
    pub closed spec fn spec_id(&self) -> u64 {
        self.id
    }

    /// The flags the stream was created with.
    pub closed spec fn spec_flags(&self) -> StreamFlags {
        self.flags
    }

    /// The priority the stream was created with.
    pub closed spec fn spec_priority(&self) -> i32 {
        self.priority
    }

    /// Creates a stream with default priority.
    pub fn new(ctx: &mut CudaContext, flags: StreamFlags) -> (r: CudaResult<Self>)
        requires
            old(ctx).wf(),
        ensures
            final(ctx).wf(),
            final(ctx).spec_device() == old(ctx).spec_device(),
            final(ctx).spec_free_count() == old(ctx).spec_free_count(),
            final(ctx).allocs() == old(ctx).allocs(),
            final(ctx).pools() == old(ctx).pools(),
            final(ctx).spec_mem_used() == old(ctx).spec_mem_used(),
            old(ctx).spec_streams() < crate::context::MAX_STREAMS ==> (r matches Ok(s)
                && s.spec_id() == old(ctx).spec_streams() && s.spec_flags() == flags
                && s.spec_priority() == 0 && final(ctx).spec_streams() == old(ctx).spec_streams()
                + 1),
            old(ctx).spec_streams() >= crate::context::MAX_STREAMS ==> (r is Err && *final(ctx)
                == *old(ctx)),
    {
        let id = ctx.stream_create_raw()?;
        Ok(CudaStream { id, flags, priority: 0 })
    }

    /// Creates a stream with the given priority.
    pub fn new_with_priority(ctx: &mut CudaContext, flags: StreamFlags, priority: i32) -> (r:
        CudaResult<Self>)
        requires
            old(ctx).wf(),
        ensures
            final(ctx).wf(),
            final(ctx).spec_device() == old(ctx).spec_device(),
            final(ctx).spec_free_count() == old(ctx).spec_free_count(),
            final(ctx).allocs() == old(ctx).allocs(),
            final(ctx).pools() == old(ctx).pools(),
            final(ctx).spec_mem_used() == old(ctx).spec_mem_used(),
            old(ctx).spec_streams() < crate::context::MAX_STREAMS ==> (r matches Ok(s)
                && s.spec_id() == old(ctx).spec_streams() && s.spec_flags() == flags
                && s.spec_priority() == priority && final(ctx).spec_streams() == old(
                ctx,
            ).spec_streams() + 1),
            old(ctx).spec_streams() >= crate::context::MAX_STREAMS ==> (r is Err && *final(ctx)
                == *old(ctx)),
    {
        let id = ctx.stream_create_raw()?;
        Ok(CudaStream { id, flags, priority })
    }

    /// Returns the stream's identity.
    pub fn id(&self) -> (r: CudaResult<u64>)
        ensures
            r matches Ok(i) && i == self.spec_id(),
    {
        Ok(self.id)
    }

    /// Returns the device the stream's context serves.
    pub fn device(&self, ctx: &CudaContext) -> (r: CudaResult<CudaDevice>)
        ensures
            r matches Ok(d) && d == ctx.spec_device(),
    {
        Ok(ctx.device())
    }

    /// Returns the flags the stream was created with.
    pub fn flags(&self) -> (r: CudaResult<StreamFlags>)
        ensures
            r matches Ok(f) && f == self.spec_flags(),
    {
        Ok(self.flags)
    }

    /// Returns the priority the stream was created with.
    pub fn priority(&self) -> (r: CudaResult<i32>)
        ensures
            r matches Ok(p) && p == self.spec_priority(),
    {
        Ok(self.priority)
    }

    /// Asks whether all work enqueued on the stream has completed; in the
    /// drained model state it always has.
    pub fn query(&self) -> (r: CudaResult<bool>)
        ensures
            r matches Ok(b) && b,
    {
        Ok(true)
    }

    /// Blocks until all work enqueued on the stream has completed; in the
    /// drained model state there is nothing to wait for.
    pub fn synchronize(&self) -> (r: CudaResult<()>)
        ensures
            r is Ok,
    {
        Ok(())
    }
}

} // verus!
