use cuda::context::CudaContext;
use cuda::device::CudaDevice;
use cuda::error::{CUDA_ERROR_INVALID_VALUE, CUDA_ERROR_OUT_OF_MEMORY};
use cuda::memory::pinned::CudaHostPinnedBuffer;
use cuda::memory::pinned::PinnedBuffer;
use cuda::memory::{
    CudaDeviceBuffer, CudaSliceAccess, CudaSliceReadable, CudaSliceWritable, DeviceAccessible,
    DevicePtr, PITCH_ALIGN,
};

fn fresh_context() -> CudaContext {
    let device = CudaDevice::new(0).unwrap();
    CudaContext::new(device)
}

#[test]
fn test_cuda_driver_memory_alloc() {
    let mut ctx = fresh_context();

    let mut buffer = CudaDeviceBuffer::<u32, DevicePtr>::allocate(&mut ctx, 1024).unwrap();
    assert!(
        buffer.as_slice().as_ptr().as_device_ptr() != 0,
        "Failed to allocate CUDA device buffer"
    );

    assert!(buffer.as_slice().get(0..1025).is_none());
    assert!(buffer.as_slice().get(0..512).is_some_and(|s| s.len() == 512));
    assert!(buffer.as_slice().get(0..1024).is_some_and(|s| s.len() == 1024));

    let mut mslice = buffer.as_mut_slice();
    let mut slice = mslice.get_mut(0..512).unwrap();
    assert_eq!(slice.byte_offset(), 0);
    assert_eq!(slice.byte_size(), 2048);
    slice.set_d32(&mut ctx, u32::MAX).unwrap();
}

#[test]
fn bounds_checks_hold_for_every_range() {
    let mut ctx = fresh_context();
    let buffer = CudaDeviceBuffer::<u8, DevicePtr>::allocate(&mut ctx, 16).unwrap();
    let slice = buffer.as_slice();

    // The fallible accessor answers exactly by the bounds: `0..len` is the
    // whole slice, one past it is no slice at all.
    assert!(slice.get(0..17).is_none());
    assert!(slice.get(0..16).is_some_and(|s| s.len() == 16));
    assert!(slice.get(0..0).is_some_and(|s| s.len() == 0));
    assert!(slice.get(16..16).is_some_and(|s| s.len() == 0));
    assert!(slice.get(9..8).is_none());

    let empty = CudaDeviceBuffer::<u8, DevicePtr>::allocate(&mut ctx, 0).unwrap();
    let eslice = empty.as_slice();
    assert!(eslice.get(0..1).is_none());
    assert!(eslice.get(0..0).is_some_and(|s| s.len() == 0));
}

#[test]
fn sub_slice_composition_addresses_the_same_range() {
    let mut ctx = fresh_context();
    let buffer = CudaDeviceBuffer::<u32, DevicePtr>::allocate(&mut ctx, 32).unwrap();
    let slice = buffer.as_slice();

    let t = slice.sub_slice(2..9);
    assert_eq!(t.len(), 7);
    let u = t.sub_slice(0..7);
    assert_eq!(u.len(), t.len());
    assert_eq!(u.offset(), t.offset());
    assert_eq!(u.byte_offset(), t.byte_offset());
    assert_eq!(u.byte_size(), t.byte_size());
    assert_eq!(
        u.as_ptr().as_device_ptr(),
        t.as_ptr().as_device_ptr(),
        "the doubled sub-slice must address the identical underlying range"
    );
}

#[test]
fn round_trip_fill_copy_read() {
    let mut ctx = fresh_context();
    let len = 33usize;
    let value = 0xBEEFu16;

    let mut dev = CudaDeviceBuffer::<u16, DevicePtr>::allocate(&mut ctx, len).unwrap();
    let mut dslice = dev.as_mut_slice();
    dslice.set_d16(&mut ctx, value).unwrap();

    let mut host = CudaHostPinnedBuffer::<u16>::allocate(&mut ctx, len).unwrap();
    let mut hslice = host.as_mut_slice();
    hslice.copy_from_device(&mut ctx, &dev.as_slice()).unwrap();

    let readable = host.as_slice();
    for idx in 0..len {
        assert_eq!(readable.read(&ctx, idx), value, "Index: {}", idx);
    }
}

#[test]
fn round_trip_holds_for_each_width() {
    let mut ctx = fresh_context();
    let len = 5usize;

    let mut dev8 = CudaDeviceBuffer::<u8, DevicePtr>::allocate(&mut ctx, len).unwrap();
    dev8.as_mut_slice().set_d8(&mut ctx, 0x7Fu8).unwrap();
    let mut host8 = CudaHostPinnedBuffer::<u8>::allocate(&mut ctx, len).unwrap();
    host8.as_mut_slice().copy_from_device(&mut ctx, &dev8.as_slice()).unwrap();
    for idx in 0..len {
        assert_eq!(host8.as_slice().read(&ctx, idx), 0x7Fu8);
    }

    let mut dev32 = CudaDeviceBuffer::<u32, DevicePtr>::allocate(&mut ctx, len).unwrap();
    dev32.as_mut_slice().set_d32(&mut ctx, 0xDEAD_BEEFu32).unwrap();
    let mut host32 = CudaHostPinnedBuffer::<u32>::allocate(&mut ctx, len).unwrap();
    host32.as_mut_slice().copy_from_device(&mut ctx, &dev32.as_slice()).unwrap();
    for idx in 0..len {
        assert_eq!(host32.as_slice().read(&ctx, idx), 0xDEAD_BEEFu32);
    }
}

#[test]
fn fill_and_partial_overwrite() {
    let mut ctx = fresh_context();

    // 1024 elements, zero-initialized by the allocator; elements [100, 500)
    // set to 127 through a device-mapped sub-slice.
    let mut host_buffer = CudaHostPinnedBuffer::<u8>::allocate(&mut ctx, 1024).unwrap();
    let mut device_view = host_buffer.as_device_mut(&ctx).unwrap();
    let mut window = device_view.sub_slice_mut(100..500);
    window.set_d8(&mut ctx, 127).unwrap();

    let readable = host_buffer.as_slice();
    for idx in 0..1024 {
        if idx >= 100 && idx < 500 {
            assert_eq!(readable.read(&ctx, idx), 127, "Index: {}", idx);
        } else {
            assert_eq!(readable.read(&ctx, idx), 0, "Index: {}", idx);
        }
    }
}

#[test]
fn no_second_deallocation_after_consuming_free() {
    let mut ctx = fresh_context();
    assert_eq!(ctx.free_calls(), 0);

    let buffer = CudaDeviceBuffer::<u8, DevicePtr>::allocate(&mut ctx, 4096).unwrap();
    let freed = buffer.free(&mut ctx);
    assert!(freed.is_ok());
    drop(freed);

    // The consuming free issued exactly one deallocation call, and dropping
    // the returned unit issued none.
    assert_eq!(ctx.free_calls(), 1);
}

#[test]
fn free_returns_memory_to_the_device() {
    let device = CudaDevice::new(0).unwrap().with_total_memory(1024);
    let mut ctx = CudaContext::new(device);

    assert_eq!(ctx.mem_used(), 0);
    let big = CudaDeviceBuffer::<u8, DevicePtr>::allocate(&mut ctx, 1024).unwrap();
    assert_eq!(ctx.mem_used(), 1024);

    let refused = CudaDeviceBuffer::<u8, DevicePtr>::allocate(&mut ctx, 1);
    assert_eq!(refused.unwrap_err().code(), CUDA_ERROR_OUT_OF_MEMORY);

    big.free(&mut ctx).unwrap();
    assert_eq!(ctx.mem_used(), 0);
    let again = CudaDeviceBuffer::<u8, DevicePtr>::allocate(&mut ctx, 512);
    assert!(again.is_ok());
}

#[test]
fn allocation_beyond_total_memory_is_refused() {
    let mut ctx = fresh_context();
    let r = CudaDeviceBuffer::<u8, DevicePtr>::allocate(&mut ctx, 0x1_0000_0001);
    assert_eq!(r.unwrap_err().code(), CUDA_ERROR_OUT_OF_MEMORY);
}

#[test]
fn element_count_overflow_is_refused() {
    let mut ctx = fresh_context();
    let r = CudaDeviceBuffer::<u32, DevicePtr>::allocate(&mut ctx, usize::MAX);
    assert_eq!(r.unwrap_err().code(), CUDA_ERROR_INVALID_VALUE);
}

#[test]
fn pitched_allocation_pads_each_row() {
    let mut ctx = fresh_context();
    let width = 960usize;
    let height = 128usize;

    let (buffer, pitch) =
        CudaDeviceBuffer::<u32, DevicePtr>::alloc_pitch(&mut ctx, width, height).unwrap();
    assert!(pitch >= width * 4);
    assert_eq!(pitch % PITCH_ALIGN, 0);
    assert_eq!(pitch, 3840);
    assert_eq!(buffer.as_slice().byte_size(), pitch * height);
    buffer.free(&mut ctx).unwrap();
}

#[test]
fn device_to_device_copy_moves_the_bytes() {
    let mut ctx = fresh_context();
    let len = 16usize;

    let mut src = CudaDeviceBuffer::<u8, DevicePtr>::allocate(&mut ctx, len).unwrap();
    src.as_mut_slice().set_d8(&mut ctx, 42).unwrap();

    let mut dst = CudaDeviceBuffer::<u8, DevicePtr>::allocate(&mut ctx, len).unwrap();
    dst.as_mut_slice().copy_from_device(&mut ctx, &src.as_slice()).unwrap();

    let mut host = CudaHostPinnedBuffer::<u8>::allocate(&mut ctx, len).unwrap();
    host.as_mut_slice().copy_from_device(&mut ctx, &dst.as_slice()).unwrap();
    for idx in 0..len {
        assert_eq!(host.as_slice().read(&ctx, idx), 42);
    }
}

#[test]
fn stream_ordered_variants_behave_like_their_synchronous_forms() {
    let mut ctx = fresh_context();
    let stream = cuda::stream::CudaStream::new(&mut ctx, cuda::stream::StreamFlags::NonBlocking)
        .unwrap();
    let len = 12usize;

    let mut dev = CudaDeviceBuffer::<u32, DevicePtr>::alloc_async(&mut ctx, len, &stream).unwrap();
    dev.as_mut_slice().set_d32_async(&mut ctx, 77, &stream).unwrap();

    let mut dst = CudaDeviceBuffer::<u32, DevicePtr>::alloc_async(&mut ctx, len, &stream).unwrap();
    dst.as_mut_slice()
        .copy_from_device_async(&mut ctx, &dev.as_slice(), &stream)
        .unwrap();

    let mut host = CudaHostPinnedBuffer::<u32>::allocate(&mut ctx, len).unwrap();
    host.as_mut_slice()
        .copy_from_device_async(&mut ctx, &dst.as_slice(), &stream)
        .unwrap();
    stream.synchronize().unwrap();

    for idx in 0..len {
        assert_eq!(host.as_slice().read(&ctx, idx), 77);
    }

    let before = ctx.free_calls();
    dev.free_async(&mut ctx, &stream).unwrap();
    dst.free_async(&mut ctx, &stream).unwrap();
    assert_eq!(ctx.free_calls(), before + 2);
}

#[test]
fn host_to_device_copy_moves_the_bytes() {
    let mut ctx = fresh_context();
    let len = 8usize;

    let mut host = CudaHostPinnedBuffer::<u16>::allocate(&mut ctx, len).unwrap();
    let mut hs = host.as_mut_slice();
    for idx in 0..len {
        hs.write(&mut ctx, idx, (idx as u16) * 3 + 1);
    }

    let mut dev = CudaDeviceBuffer::<u16, DevicePtr>::allocate(&mut ctx, len).unwrap();
    dev.as_mut_slice().copy_from_host(&mut ctx, &host.as_slice()).unwrap();

    let mut back = CudaHostPinnedBuffer::<u16>::allocate(&mut ctx, len).unwrap();
    back.as_mut_slice().copy_from_device(&mut ctx, &dev.as_slice()).unwrap();
    for idx in 0..len {
        assert_eq!(back.as_slice().read(&ctx, idx), (idx as u16) * 3 + 1);
    }
}
