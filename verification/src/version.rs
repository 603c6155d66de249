//! The driver's version, split into its major and minor parts.

use vstd::prelude::*;

use crate::context::CudaContext;
use crate::error::CudaResult;

verus! {

/// The composite version number the modelled driver reports: a thousand
/// times the major version plus ten times the minor version.
pub const DRIVER_VERSION: i32 = 12040;

/// A driver version, as the composite number the driver reports it.
#[derive(Clone, Copy, Debug, PartialEq, Eq, Structural)]
pub struct DriverVersion(i32);

impl DriverVersion {
    /// The composite version number.
    pub closed spec fn spec_raw(&self) -> i32 {
        self.0
    }

    /// Queries the driver's version.
    pub fn new(ctx: &CudaContext) -> (r: CudaResult<Self>)
        ensures
            r matches Ok(v) && v.spec_raw() == DRIVER_VERSION,
    {
        let _ = ctx;
        Ok(DriverVersion(DRIVER_VERSION))
    }

    /// Returns the major version of the driver: the composite number
    /// divided by a thousand.
    pub fn major(&self) -> (m: i32)
        requires
            self.spec_raw() >= 0,
        ensures
            m == self.spec_raw() / 1000,
    {
        self.0 / 1000
    }

    /// Returns the minor version of the driver: the tens and hundreds of
    /// the composite number, divided by ten.
    pub fn minor(&self) -> (m: i32)
        requires
            self.spec_raw() >= 0,
        ensures
            m == (self.spec_raw() % 1000) / 10,
    {
        (self.0 % 1000) / 10
    }

}

} // verus!
