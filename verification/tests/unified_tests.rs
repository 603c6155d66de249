use cuda::context::CudaContext;
use cuda::device::CudaDevice;
use cuda::memory::pinned::CudaHostPinnedBuffer;
use cuda::context::ManagedLocation;
use cuda::memory::unified::{Advice, CudaDeviceUnifiedBuffer, UnifiedSlice, UnifiedSliceMut};
use cuda::memory::{CudaSliceAccess, CudaSliceWritable};
use cuda::stream::{CudaStream, StreamFlags};

#[test]
fn test_cuda_driver_memory_unified_alloc_prefetch() {
    let device = CudaDevice::new(0).unwrap();
    if !device.unified_addressing().unwrap() {
        return;
    }
    let mut ctx = CudaContext::new(device);

    let stream = CudaStream::new(&mut ctx, StreamFlags::NonBlocking).unwrap();

    let mut unified_buffer = CudaDeviceUnifiedBuffer::<u8>::alloc_unified(&mut ctx, 128).unwrap();

    let uslice = unified_buffer.as_mut_slice();
    let mut device_slice = uslice.to_device_mut_async(&mut ctx, &stream).unwrap();
    stream.synchronize().unwrap();
    device_slice.set_d8(&mut ctx, 127).unwrap();
    let host_slice = device_slice.to_host_mut_async(&mut ctx, &stream).unwrap();
    stream.synchronize().unwrap();

    for idx in 0..128 {
        assert_eq!(host_slice.read(&ctx, idx), 127);
    }

    let mut device_slice = host_slice.to_device_mut_async(&mut ctx, &stream).unwrap();
    stream.synchronize().unwrap();

    let mut tail = device_slice.get_mut(100..128).unwrap();
    tail.set_d8(&mut ctx, 0).unwrap();

    let mut pinned_buffer = CudaHostPinnedBuffer::<u8>::allocate(&mut ctx, 128).unwrap();
    let mut pinned_slice = pinned_buffer.as_mut_slice();

    pinned_slice
        .copy_from_device(&mut ctx, &unified_buffer.as_slice())
        .unwrap();

    let readable = pinned_buffer.as_slice();
    for idx in 0..128 {
        if idx >= 100 {
            assert_eq!(readable.read(&ctx, idx), 0, "Index: {}", idx);
        } else {
            assert_eq!(readable.read(&ctx, idx), 127, "Index: {}", idx);
        }
    }
}

#[test]
fn unified_migration_keeps_the_pattern() {
    // Write a pattern from the device side, prefetch toward the host, and
    // every element must still hold the pattern before any host-side write.
    let device = CudaDevice::new(0).unwrap();
    let mut ctx = CudaContext::new(device);
    let stream = CudaStream::new(&mut ctx, StreamFlags::Default).unwrap();

    let mut buffer = CudaDeviceUnifiedBuffer::<u32>::alloc_unified(&mut ctx, 64).unwrap();

    let uslice = buffer.as_mut_slice();
    let mut device_slice = uslice.to_device_mut_async(&mut ctx, &stream).unwrap();
    device_slice.set_d32(&mut ctx, 0xA5A5_5A5Au32).unwrap();

    let host_slice = device_slice.to_host_mut_async(&mut ctx, &stream).unwrap();
    stream.synchronize().unwrap();
    for idx in 0..64 {
        assert_eq!(host_slice.read(&ctx, idx), 0xA5A5_5A5Au32, "Index: {}", idx);
    }
}

#[test]
fn migration_without_concurrent_managed_access_attaches_to_the_stream() {
    // A device that cannot access managed memory concurrently with the CPU
    // must migrate through the attach-to-stream mechanism; the data still
    // arrives unchanged.
    let device = CudaDevice::new(0)
        .unwrap()
        .with_concurrent_managed_access(false);
    let mut ctx = CudaContext::new(device);
    let stream = CudaStream::new(&mut ctx, StreamFlags::Default).unwrap();

    let mut buffer = CudaDeviceUnifiedBuffer::<u8>::alloc_unified(&mut ctx, 16).unwrap();
    let uslice = buffer.as_mut_slice();
    let mut device_slice = uslice.to_device_mut_async(&mut ctx, &stream).unwrap();
    device_slice.set_d8(&mut ctx, 9).unwrap();

    let host_slice = device_slice.to_host_async(&mut ctx, &stream).unwrap();
    stream.synchronize().unwrap();
    for idx in 0..16 {
        assert_eq!(host_slice.read(&ctx, idx), 9);
    }
}

#[test]
fn advice_is_accepted_and_non_binding() {
    let device = CudaDevice::new(0).unwrap();
    let mut ctx = CudaContext::new(device);
    let stream = CudaStream::new(&mut ctx, StreamFlags::Default).unwrap();
    let mut buffer = CudaDeviceUnifiedBuffer::<u8>::alloc_unified(&mut ctx, 8).unwrap();
    {
        let uslice = buffer.as_mut_slice();
        let mut dslice = uslice.to_device_mut_async(&mut ctx, &stream).unwrap();
        dslice.set_d8(&mut ctx, 5).unwrap();
    }
    assert!(buffer
        .advise(&ctx, Advice::SetReadMostly, ManagedLocation::OnHost)
        .is_ok());
    let hslice = buffer.as_slice().to_host_async(&mut ctx, &stream).unwrap();
    for idx in 0..8 {
        assert_eq!(hslice.read(&ctx, idx), 5);
    }
}

#[test]
fn unified_buffers_are_freed_like_device_buffers() {
    let device = CudaDevice::new(0).unwrap();
    let mut ctx = CudaContext::new(device);
    let buffer = CudaDeviceUnifiedBuffer::<u8>::alloc_unified(&mut ctx, 32).unwrap();
    buffer.free(&mut ctx).unwrap();
    assert_eq!(ctx.free_calls(), 1);
}
