use cuda::context::CudaContext;
use cuda::device::CudaDevice;
use cuda::error::ToResult;
use cuda::error::{CUDA_ERROR_OUT_OF_MEMORY, CUDA_SUCCESS};
use cuda::stream::{CudaStream, StreamFlags};
use cuda::version::DriverVersion;

fn fresh_context() -> CudaContext {
    let device = CudaDevice::new(0).unwrap();
    CudaContext::new(device)
}

#[test]
fn test_cuda_driver_version() {
    let ctx = fresh_context();
    let version = DriverVersion::new(&ctx).unwrap();
    assert!(
        version.major() > 0,
        "CUDA driver major version should be greater than 0"
    );
    assert!(
        version.minor() >= 0,
        "CUDA driver minor version should be greater than or equal to 0"
    );
}

#[test]
fn version_parts_are_exact() {
    let ctx = fresh_context();
    let version = DriverVersion::new(&ctx).unwrap();
    assert_eq!(version.major(), 12);
    assert_eq!(version.minor(), 4);
}

#[test]
fn test_cuda_driver_stream_create() {
    let mut ctx = fresh_context();
    let stream = CudaStream::new(&mut ctx, StreamFlags::Default);
    assert!(stream.is_ok(), "CUDA stream creation failed: {:?}", stream);
}

#[test]
fn stream_identities_and_attributes() {
    let mut ctx = fresh_context();
    let s0 = CudaStream::new(&mut ctx, StreamFlags::Default).unwrap();
    let s1 = CudaStream::new_with_priority(&mut ctx, StreamFlags::NonBlocking, 5).unwrap();
    assert_eq!(s0.id().unwrap(), 0);
    assert_eq!(s1.id().unwrap(), 1);
    assert_eq!(s0.flags().unwrap(), StreamFlags::Default);
    assert_eq!(s1.flags().unwrap(), StreamFlags::NonBlocking);
    assert_eq!(s0.priority().unwrap(), 0);
    assert_eq!(s1.priority().unwrap(), 5);
    assert!(s0.query().unwrap());
    assert!(s0.synchronize().is_ok());
    assert_eq!(s1.device(&ctx).unwrap().as_raw(), 0);
}

#[test]
fn context_identity_and_synchronize() {
    let ctx = fresh_context();
    assert_eq!(ctx.id().unwrap(), 1);
    assert_eq!(ctx.api_version().unwrap(), 12040);
    assert!(ctx.synchronize().is_ok());
    assert_eq!(ctx.device().as_raw(), 0);
}

#[test]
fn unknown_codes_have_a_name() {
    let err = 4242u32.to_result().unwrap_err();
    assert_eq!(err.name(), "CUDA_ERROR_UNKNOWN");
    assert_eq!(err.description(), "unknown error");
}

#[test]
fn raw_status_codes_convert_to_results() {
    assert!(CUDA_SUCCESS.to_result().is_ok());
    let err = CUDA_ERROR_OUT_OF_MEMORY.to_result().unwrap_err();
    assert_eq!(err.code(), CUDA_ERROR_OUT_OF_MEMORY);
    assert_eq!(err.name(), "CUDA_ERROR_OUT_OF_MEMORY");
    assert_eq!(err.description(), "out of memory");
}
