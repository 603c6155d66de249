use cuda::context::CudaContext;
use cuda::device::CudaDevice;
use cuda::memory::device::CudaDeviceMemory;
use cuda::memory::ordered::CudaOrderedMemory;
use cuda::stream::{CudaStream, StreamFlags};

fn fresh_context() -> CudaContext {
    let device = CudaDevice::new(0).unwrap();
    CudaContext::new(device)
}

#[test]
fn test_cuda_device_memory_alloc() {
    let mut ctx = fresh_context();

    let size = 1024usize;
    let device_memory = CudaDeviceMemory::allocate(&mut ctx, size).unwrap();
    assert_eq!(device_memory.len(), size);
    device_memory.free(&mut ctx).unwrap();
}

#[test]
fn test_cuda_device_memory_alloc_with_pitch() {
    let mut ctx = fresh_context();

    let width = 960usize;
    let height = 1024usize;
    let element_size = 4u32;
    let (device_memory, pitch) =
        CudaDeviceMemory::alloc_with_pitch(&mut ctx, width, height, element_size).unwrap();
    assert!(pitch >= width * element_size as usize);
    assert_eq!(pitch % 256, 0);
    assert_eq!(device_memory.len(), pitch * height);
    device_memory.free(&mut ctx).unwrap();
}

#[test]
fn test_cuda_ordered_memory() {
    let mut ctx = fresh_context();
    let stream = CudaStream::new(&mut ctx, StreamFlags::NonBlocking).unwrap();

    let result = CudaOrderedMemory::allocate(&mut ctx, 1024, &stream);
    assert!(result.is_ok(), "Failed to allocate ordered memory");
    let memory = result.unwrap();
    assert_eq!(memory.len(), 1024, "Allocated memory size mismatch");

    let memory = memory.into_sync();
    assert_eq!(memory.len(), 1024, "Converted memory size mismatch");
    memory.free(&mut ctx).unwrap();
}

#[test]
fn ownership_transfer_issues_no_deallocation() {
    let mut ctx = fresh_context();
    let stream = CudaStream::new(&mut ctx, StreamFlags::Default).unwrap();

    let sync = CudaDeviceMemory::allocate(&mut ctx, 256).unwrap();
    assert_eq!(ctx.free_calls(), 0);

    // Converting between the synchronous and the stream-ordered owner moves
    // the raw pointer; neither conversion frees.
    let ordered = sync.into_async(&stream);
    assert_eq!(ordered.len(), 256);
    assert_eq!(ctx.free_calls(), 0);

    let sync_again = ordered.into_sync();
    assert_eq!(sync_again.len(), 256);
    assert_eq!(ctx.free_calls(), 0);

    // The final owner frees exactly once.
    sync_again.free(&mut ctx).unwrap();
    assert_eq!(ctx.free_calls(), 1);
}

#[test]
fn export_of_unpooled_memory_is_refused() {
    let mut ctx = fresh_context();
    let stream = CudaStream::new(&mut ctx, StreamFlags::Default).unwrap();
    let memory = CudaOrderedMemory::allocate(&mut ctx, 64, &stream).unwrap();
    let denied = memory.export(&ctx);
    assert_eq!(
        denied.unwrap_err().code(),
        cuda::error::CUDA_ERROR_INVALID_VALUE
    );
    memory.free(&mut ctx).unwrap();
}

#[test]
fn ordered_free_is_one_deallocation() {
    let mut ctx = fresh_context();
    let stream = CudaStream::new(&mut ctx, StreamFlags::Default).unwrap();
    let memory = CudaOrderedMemory::allocate(&mut ctx, 128, &stream).unwrap();
    memory.free(&mut ctx).unwrap();
    assert_eq!(ctx.free_calls(), 1);
}
