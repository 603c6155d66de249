//! Errors reported by the modelled driver.
//!
//! Every fallible call of this layer returns a [`CudaResult`]: either the
//! requested value or a [`CudaError`] carrying the driver's numeric status
//! code.  The code can be rendered as the driver's error name and as a short
//! description.

use vstd::prelude::*;

verus! {

/// The status code of a call that succeeded.
pub const CUDA_SUCCESS: u32 = 0;

/// One of the arguments was outside the accepted range.
pub const CUDA_ERROR_INVALID_VALUE: u32 = 1;

/// The driver could not satisfy an allocation request.
pub const CUDA_ERROR_OUT_OF_MEMORY: u32 = 2;

/// The driver has not been initialized.
pub const CUDA_ERROR_NOT_INITIALIZED: u32 = 3;

/// The device ordinal does not name a device.
pub const CUDA_ERROR_INVALID_DEVICE: u32 = 101;

/// A handle argument does not name a live resource.
pub const CUDA_ERROR_INVALID_HANDLE: u32 = 400;

/// The operation is not supported by the device or by the resource.
pub const CUDA_ERROR_NOT_SUPPORTED: u32 = 801;

/// An error reported by the driver: a numeric status code, never
/// [`CUDA_SUCCESS`].
#[derive(Clone, Copy, Debug, PartialEq, Eq, Structural)]
pub struct CudaError {
    code: u32,
}

impl CudaError {
    /// The status code the error carries.
    pub closed spec fn spec_code(&self) -> u32 {
        self.code
    }

    /// Wraps a raw driver status code.
    pub fn new(code: u32) -> (e: Self)
        ensures
            e.spec_code() == code,
    {
        CudaError { code }
    }

    /// Returns the numeric status code.
    pub fn code(&self) -> (c: u32)
        ensures
            c == self.spec_code(),
    {
        self.code
    }

    /// The driver's name for the code carried by this error.
    pub open spec fn spec_name(&self) -> Seq<char> {
        spec_error_name(self.spec_code())
    }

    /// Returns the driver's name for this error, such as
    /// `CUDA_ERROR_OUT_OF_MEMORY`.
    pub fn name(&self) -> (s: String)
        ensures
            s@ == self.spec_name(),
    {
        error_name(self.code)
    }

    /// Returns a short description of this error.
    pub fn description(&self) -> (s: String)
        ensures
            s@ == spec_error_description(self.spec_code()),
    {
        error_description(self.code)
    }
}

/// The name the driver gives to a status code.
pub open spec fn spec_error_name(code: u32) -> Seq<char> {
    if code == CUDA_SUCCESS {
        "CUDA_SUCCESS"@
    } else if code == CUDA_ERROR_INVALID_VALUE {
        "CUDA_ERROR_INVALID_VALUE"@
    } else if code == CUDA_ERROR_OUT_OF_MEMORY {
        "CUDA_ERROR_OUT_OF_MEMORY"@
    } else if code == CUDA_ERROR_NOT_INITIALIZED {
        "CUDA_ERROR_NOT_INITIALIZED"@
    } else if code == CUDA_ERROR_INVALID_DEVICE {
        "CUDA_ERROR_INVALID_DEVICE"@
    } else if code == CUDA_ERROR_INVALID_HANDLE {
        "CUDA_ERROR_INVALID_HANDLE"@
    } else if code == CUDA_ERROR_NOT_SUPPORTED {
        "CUDA_ERROR_NOT_SUPPORTED"@
    } else {
        "CUDA_ERROR_UNKNOWN"@
    }
}

/// The description the driver gives to a status code.
pub open spec fn spec_error_description(code: u32) -> Seq<char> {
    if code == CUDA_SUCCESS {
        "no error"@
    } else if code == CUDA_ERROR_INVALID_VALUE {
        "invalid argument"@
    } else if code == CUDA_ERROR_OUT_OF_MEMORY {
        "out of memory"@
    } else if code == CUDA_ERROR_NOT_INITIALIZED {
        "initialization error"@
    } else if code == CUDA_ERROR_INVALID_DEVICE {
        "invalid device ordinal"@
    } else if code == CUDA_ERROR_INVALID_HANDLE {
        "invalid resource handle"@
    } else if code == CUDA_ERROR_NOT_SUPPORTED {
        "operation not supported"@
    } else {
        "unknown error"@
    }
}

fn error_name(code: u32) -> (s: String)
    ensures
        s@ == spec_error_name(code),
{
    if code == CUDA_SUCCESS {
        "CUDA_SUCCESS".to_owned()
    } else if code == CUDA_ERROR_INVALID_VALUE {
        "CUDA_ERROR_INVALID_VALUE".to_owned()
    } else if code == CUDA_ERROR_OUT_OF_MEMORY {
        "CUDA_ERROR_OUT_OF_MEMORY".to_owned()
    } else if code == CUDA_ERROR_NOT_INITIALIZED {
        "CUDA_ERROR_NOT_INITIALIZED".to_owned()
    } else if code == CUDA_ERROR_INVALID_DEVICE {
        "CUDA_ERROR_INVALID_DEVICE".to_owned()
    } else if code == CUDA_ERROR_INVALID_HANDLE {
        "CUDA_ERROR_INVALID_HANDLE".to_owned()
    } else if code == CUDA_ERROR_NOT_SUPPORTED {
        "CUDA_ERROR_NOT_SUPPORTED".to_owned()
    } else {
        "CUDA_ERROR_UNKNOWN".to_owned()
    }
}

fn error_description(code: u32) -> (s: String)
    ensures
        s@ == spec_error_description(code),
{
    if code == CUDA_SUCCESS {
        "no error".to_owned()
    } else if code == CUDA_ERROR_INVALID_VALUE {
        "invalid argument".to_owned()
    } else if code == CUDA_ERROR_OUT_OF_MEMORY {
        "out of memory".to_owned()
    } else if code == CUDA_ERROR_NOT_INITIALIZED {
        "initialization error".to_owned()
    } else if code == CUDA_ERROR_INVALID_DEVICE {
        "invalid device ordinal".to_owned()
    } else if code == CUDA_ERROR_INVALID_HANDLE {
        "invalid resource handle".to_owned()
    } else if code == CUDA_ERROR_NOT_SUPPORTED {
        "operation not supported".to_owned()
    } else {
        "unknown error".to_owned()
    }
}

/// The result of a fallible driver-level call.
pub type CudaResult<T> = Result<T, CudaError>;

/// The result of a consuming `free`: on failure the still-owned value is
/// handed back together with the error, so the caller may retry or leak it
/// deliberately.
pub type DropResult<T> = Result<(), (T, CudaError)>;

/// Raw driver status codes convert into results: zero is success, anything
/// else carries the code as an error.
pub trait ToResult: Sized {
    /// The status code this value stands for.
    spec fn spec_status(&self) -> u32;

    /// Converts the status into `Ok(())` exactly when it is
    /// [`CUDA_SUCCESS`].
    fn to_result(self) -> (r: CudaResult<()>)
        ensures
            self.spec_status() == CUDA_SUCCESS ==> r is Ok,
            self.spec_status() != CUDA_SUCCESS ==> (r matches Err(e) && e.spec_code()
                == self.spec_status()),
    ;
}

impl ToResult for u32 {
    open spec fn spec_status(&self) -> u32 {
        *self
    }

    fn to_result(self) -> (r: CudaResult<()>) {
        if self == CUDA_SUCCESS {
            Ok(())
        } else {
            Err(CudaError { code: self })
        }
    }
}

} // verus!
