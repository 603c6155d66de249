use cuda::context::CudaContext;
use cuda::device::CudaDevice;
use cuda::error::CUDA_ERROR_NOT_SUPPORTED;
use cuda::memory::pinned::{
    CudaHostPinnedBuffer, CudaHostRegisteredBuffer, HostRegisterFlags, PinnedBuffer, PinnedFlags,
    PINNED_DEVICEMAP, PINNED_PORTABLE,
};
use cuda::memory::{CudaSliceAccess, CudaSliceWritable, HostAccessible};

fn fresh_context() -> CudaContext {
    let device = CudaDevice::new(0).unwrap();
    CudaContext::new(device)
}

#[test]
fn test_cuda_driver_memory_pinned_alloc_u8() {
    let mut ctx = fresh_context();

    let size = 1024usize;
    let mut host_buffer = CudaHostPinnedBuffer::<u8>::allocate(&mut ctx, size).unwrap();
    assert!(host_buffer.as_slice().as_ptr().as_host_ptr() != 0);

    let mut device_view = host_buffer.as_device_mut(&ctx).unwrap();
    let mut device_slice = device_view.sub_slice_mut(100..500);
    device_slice.set_d8(&mut ctx, 127u8).unwrap();

    let readable = host_buffer.as_slice();
    for idx in 0..size {
        if idx >= 100 && idx < 500 {
            assert_eq!(readable.read(&ctx, idx), 127, "Index: {}", idx);
        } else {
            assert_eq!(readable.read(&ctx, idx), 0, "Index: {}", idx);
        }
    }
}

#[test]
fn test_cuda_driver_memory_pinned_alloc_u16() {
    let mut ctx = fresh_context();

    let size = 1024usize;
    let mut host_buffer = CudaHostPinnedBuffer::<u16>::allocate(&mut ctx, size).unwrap();
    assert!(host_buffer.as_slice().as_ptr().as_host_ptr() != 0);

    let mut device_view = host_buffer.as_device_mut(&ctx).unwrap();
    let mut device_slice = device_view.sub_slice_mut(100..500);
    device_slice.set_d16(&mut ctx, 12345u16).unwrap();

    let readable = host_buffer.as_slice();
    for idx in 0..size {
        if idx >= 100 && idx < 500 {
            assert_eq!(readable.read(&ctx, idx), 12345, "Index: {}", idx);
        } else {
            assert_eq!(readable.read(&ctx, idx), 0, "Index: {}", idx);
        }
    }
}

#[test]
fn test_cuda_driver_memory_pinned_alloc_u32() {
    let mut ctx = fresh_context();

    let size = 1024usize;
    let mut host_buffer = CudaHostPinnedBuffer::<u32>::allocate(&mut ctx, size).unwrap();
    assert!(host_buffer.as_slice().as_ptr().as_host_ptr() != 0);

    let mut device_view = host_buffer.as_device_mut(&ctx).unwrap();
    let mut device_slice = device_view.sub_slice_mut(100..500);
    device_slice.set_d32(&mut ctx, 12345u32).unwrap();

    let readable = host_buffer.as_slice();
    for idx in 0..size {
        if idx >= 100 && idx < 500 {
            assert_eq!(readable.read(&ctx, idx), 12345, "Index: {}", idx);
        } else {
            assert_eq!(readable.read(&ctx, idx), 0, "Index: {}", idx);
        }
    }
}

#[test]
fn test_cuda_driver_memory_pinned_register() {
    let mut ctx = fresh_context();

    let bytesize = 1024usize;
    let mut reg_buffer = CudaHostRegisteredBuffer::lock_vec(
        &mut ctx,
        vec![0u32; bytesize],
        HostRegisterFlags::portable().union(HostRegisterFlags::devicemap()),
    )
    .unwrap();
    assert!(reg_buffer.as_pinned_ptr().as_host_ptr() != 0);

    let mut device_view = reg_buffer.as_device_mut(&ctx).unwrap();
    let mut device_slice = device_view.sub_slice_mut(100..500);
    device_slice.set_d32(&mut ctx, 12345u32).unwrap();

    let vec = reg_buffer.unlock(&mut ctx).unwrap();

    for (idx, i) in vec.iter().enumerate() {
        if idx >= 100 && idx < 500 {
            assert_eq!(*i, 12345, "Index: {}", idx);
        } else {
            assert_eq!(*i, 0, "Index: {}", idx);
        }
    }
}

#[test]
fn unregister_is_the_exact_inverse_of_register() {
    let mut ctx = fresh_context();

    let mut source: Vec<u16> = Vec::new();
    for i in 0..300u16 {
        source.push(i.wrapping_mul(7).wrapping_add(3));
    }
    let expected = source.clone();

    let reg = CudaHostRegisteredBuffer::lock_vec(
        &mut ctx,
        source,
        HostRegisterFlags::portable(),
    )
    .unwrap();
    let back = reg.unlock(&mut ctx).unwrap();
    assert_eq!(back, expected);
    // Unregistration is not a deallocation: the driver served no free call.
    assert_eq!(ctx.free_calls(), 0);
}

#[test]
fn pinned_flags_govern_device_mapping() {
    let mut ctx = fresh_context();

    let unmapped =
        CudaHostPinnedBuffer::<u8>::alloc_with_flags(&mut ctx, 64, PinnedFlags::portable())
            .unwrap();
    let denied = unmapped.as_device(&ctx);
    assert_eq!(denied.unwrap_err().code(), CUDA_ERROR_NOT_SUPPORTED);
    assert_eq!(unmapped.flags(&ctx).unwrap().bits(), PINNED_PORTABLE);

    let mapped = CudaHostPinnedBuffer::<u8>::allocate(&mut ctx, 64).unwrap();
    assert!(mapped.as_device(&ctx).is_ok());
    assert_eq!(
        mapped.flags(&ctx).unwrap().bits(),
        PINNED_PORTABLE | PINNED_DEVICEMAP
    );
}

#[test]
fn pinned_free_counts_as_deallocation() {
    let mut ctx = fresh_context();
    let buffer = CudaHostPinnedBuffer::<u8>::allocate(&mut ctx, 128).unwrap();
    assert_eq!(ctx.free_calls(), 0);
    buffer.free(&mut ctx).unwrap();
    assert_eq!(ctx.free_calls(), 1);
}

#[test]
fn pinned_buffer_reports_its_size() {
    let mut ctx = fresh_context();
    let buffer = CudaHostPinnedBuffer::<u32>::allocate(&mut ctx, 10).unwrap();
    assert_eq!(buffer.size(), 40);
    assert_eq!(buffer.as_slice().len(), 10);
    assert_eq!(buffer.as_slice().byte_size(), 40);
}
