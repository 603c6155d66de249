//! OS-native shareable handles, as the portability layer hands them out.
//!
//! A pool exported for another process travels as an opaque OS handle (a
//! POSIX file descriptor or a platform handle).  The model keeps the handle
//! as a token that names the exported pool; ownership follows the usual
//! owned/borrowed split.

use vstd::prelude::*;

verus! {

/// A handle value that can be passed across a process boundary.
pub trait ShareableOsHandle: Sized {
    /// The raw token the handle carries.
    spec fn spec_raw(&self) -> u64;

    /// Returns the raw token the handle carries, never zero.
    fn as_raw(&self) -> (r: u64)
        ensures
            r == self.spec_raw(),
            r != 0,
    ;
}

/// An owned OS handle, closed by its owner.
#[derive(Debug)]
pub struct OsOwnedHandle {
    raw: u64,
}

/// A borrowed OS handle.
#[derive(Clone, Copy, Debug)]
pub struct OsBorrowedHandle {
    raw: u64,
}

impl OsOwnedHandle {
    #[verifier::type_invariant]
    spec fn type_wf(self) -> bool {
        self.raw != 0
    }

    /// Wraps a raw nonzero token.
    pub(crate) fn new(raw: u64) -> (h: Self)
        requires
            raw != 0,
        ensures
            h.spec_raw() == raw,
    {
        OsOwnedHandle { raw }
    }

    /// Borrows the handle without giving up ownership.
    pub fn as_handle(&self) -> (h: OsBorrowedHandle)
        ensures
            h.spec_raw() == self.spec_raw(),
    {
        proof {
            use_type_invariant(self);
        }
        OsBorrowedHandle { raw: self.raw }
    }
}

impl ShareableOsHandle for OsOwnedHandle {
    closed spec fn spec_raw(&self) -> u64 {
        self.raw
    }

    fn as_raw(&self) -> u64 {
        proof {
            use_type_invariant(self);
        }
        self.raw
    }
}

impl OsBorrowedHandle {
    #[verifier::type_invariant]
    spec fn type_wf(self) -> bool {
        self.raw != 0
    }
}

impl ShareableOsHandle for OsBorrowedHandle {
    closed spec fn spec_raw(&self) -> u64 {
        self.raw
    }

    fn as_raw(&self) -> u64 {
        proof {
            use_type_invariant(self);
        }
        self.raw
    }
}

} // verus!
