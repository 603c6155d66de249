use cuda::context::CudaContext;
use cuda::device::CudaDevice;
use cuda::error::{CUDA_ERROR_INVALID_HANDLE, CUDA_ERROR_INVALID_VALUE, CUDA_ERROR_NOT_SUPPORTED,
    CUDA_ERROR_OUT_OF_MEMORY};
use cuda::memory::pinned::CudaHostPinnedBuffer;
use cuda::memory::pooled::{
    AccessFlags, CudaMemoryPool, CudaMemoryPoolView, PooledPtrExportData,
};
use cuda::memory::ordered::CudaOrderedMemory;
use cuda::memory::{CudaSliceAccess, CudaSliceReadable, CudaSliceWritable};
use cuda::platform::ShareableOsHandle;
use cuda::stream::{CudaStream, StreamFlags};

fn fresh_context() -> CudaContext {
    let device = CudaDevice::new(0).unwrap();
    CudaContext::new(device)
}

#[test]
fn pool_test_cuda_driver_pool() {
    let device = CudaDevice::new(0).unwrap();
    let mut ctx = CudaContext::new(device);

    let pool = CudaMemoryPool::new(&mut ctx, 1024 * 1024, &device);
    assert!(pool.is_ok(), "Memory pool creation failed");
}

#[test]
fn test_cuda_driver_memory_pool_new() {
    let device = CudaDevice::new(0).unwrap();
    let mut ctx = CudaContext::new(device);
    let stream = CudaStream::new(&mut ctx, StreamFlags::Default).unwrap();

    let pool = CudaMemoryPool::new(&mut ctx, 1024 * 1024 * 1024, &device).unwrap();

    pool.set_release_threshold(&mut ctx, 1024 * 1024).unwrap();
    assert_eq!(pool.release_threshold(&ctx).unwrap(), 1024 * 1024);

    let fd = pool.to_fd(&ctx).unwrap();
    let imported_pool = CudaMemoryPoolView::from_fd(&ctx, fd.as_handle()).unwrap();

    let export_buf = CudaOrderedMemory::alloc_from_pool(&mut ctx, 1024, &pool, &stream).unwrap();
    let export_data = export_buf.export(&ctx).unwrap();

    let imported_buf =
        CudaOrderedMemory::import(&ctx, &imported_pool, &export_data, &stream).unwrap();
    assert_eq!(imported_buf.len(), 1024);
}

#[test]
fn pooled_test_cuda_driver_pool() {
    let device = CudaDevice::new(0).unwrap();
    let mut ctx = CudaContext::new(device);

    let stream = CudaStream::new(&mut ctx, StreamFlags::NonBlocking).unwrap();

    let pool = CudaMemoryPool::new(&mut ctx, 1024 * 1024, &device).unwrap();

    let flags = pool.accessibility_from_device(&ctx, &device).unwrap();
    assert_eq!(flags, AccessFlags::ReadWrite);

    let fd = pool.to_fd(&ctx).unwrap();
    assert!(fd.as_raw() != 0);

    let pool_view = CudaMemoryPoolView::from_fd(&ctx, fd.as_handle()).unwrap();

    let mut pooled_buffer = pool.alloc_async::<u8>(&mut ctx, 1024, &stream).unwrap();
    assert_eq!(pool.current_memory_used_size(&ctx).unwrap(), 1024);

    let mut mslice = pooled_buffer.as_mut_slice();
    let mut window = mslice.get_mut(300..500).unwrap();
    window.set_d8(&mut ctx, u8::MAX).unwrap();

    let data = pooled_buffer.export(&ctx).unwrap();

    let imported_buffer = pool_view
        .import::<u8>(&ctx, &data, pooled_buffer.as_slice().byte_size())
        .unwrap();
    let imported_slice = imported_buffer.as_slice().get(300..500).unwrap();
    assert_eq!(imported_slice.len(), 200);

    // The imported view observes the bytes the exporter wrote, with no copy
    // between the two views.
    let mut pinned_buffer = CudaHostPinnedBuffer::<u8>::allocate(&mut ctx, 200).unwrap();
    let mut pinned_slice = pinned_buffer.as_mut_slice();
    pinned_slice.copy_from_device(&mut ctx, &imported_slice).unwrap();

    let readable = pinned_buffer.as_slice();
    for idx in 0..200 {
        assert_eq!(readable.read(&ctx, idx), u8::MAX, "Index: {}", idx);
    }
}

#[test]
fn pool_accounting_tracks_use_and_watermarks() {
    let device = CudaDevice::new(0).unwrap();
    let mut ctx = CudaContext::new(device);
    let stream = CudaStream::new(&mut ctx, StreamFlags::Default).unwrap();
    let pool = CudaMemoryPool::new(&mut ctx, 0, &device).unwrap();

    let a = pool.alloc_async::<u8>(&mut ctx, 100, &stream).unwrap();
    let b = pool.alloc_async::<u8>(&mut ctx, 50, &stream).unwrap();
    assert_eq!(pool.current_memory_used_size(&ctx).unwrap(), 150);
    assert_eq!(pool.high_memory_used_size(&ctx).unwrap(), 150);
    assert_eq!(pool.current_memory_reserved_size(&ctx).unwrap(), 150);

    a.free(&mut ctx).unwrap();
    assert_eq!(pool.current_memory_used_size(&ctx).unwrap(), 50);
    assert_eq!(pool.high_memory_used_size(&ctx).unwrap(), 150);
    // Freed pool memory stays reserved until the pool is trimmed.
    assert_eq!(pool.current_memory_reserved_size(&ctx).unwrap(), 150);

    let mut pool = pool;
    pool.trim_to(&mut ctx, 60).unwrap();
    assert_eq!(pool.current_memory_reserved_size(&ctx).unwrap(), 60);
    pool.trim_to(&mut ctx, 0).unwrap();
    assert_eq!(pool.current_memory_reserved_size(&ctx).unwrap(), 50);

    pool.reset_high_memory_used_size(&mut ctx).unwrap();
    assert_eq!(pool.high_memory_used_size(&ctx).unwrap(), 50);
    pool.reset_high_memory_reserved_size(&mut ctx).unwrap();
    assert_eq!(pool.high_memory_reserved_size(&ctx).unwrap(), 50);

    b.free(&mut ctx).unwrap();
    pool.destroy(&mut ctx).unwrap();
}

#[test]
fn pool_budget_is_enforced() {
    let device = CudaDevice::new(0).unwrap();
    let mut ctx = CudaContext::new(device);
    let stream = CudaStream::new(&mut ctx, StreamFlags::Default).unwrap();
    let pool = CudaMemoryPool::new(&mut ctx, 256, &device).unwrap();

    let a = pool.alloc_async::<u8>(&mut ctx, 200, &stream).unwrap();
    let refused = pool.alloc_async::<u8>(&mut ctx, 100, &stream);
    assert_eq!(refused.unwrap_err().code(), CUDA_ERROR_OUT_OF_MEMORY);

    a.free(&mut ctx).unwrap();
    let granted = pool.alloc_async::<u8>(&mut ctx, 100, &stream);
    assert!(granted.is_ok());
}

#[test]
fn pool_reuse_attributes_round_trip() {
    let device = CudaDevice::new(0).unwrap();
    let mut ctx = CudaContext::new(device);
    let pool = CudaMemoryPool::new(&mut ctx, 0, &device).unwrap();

    assert!(pool.reuse_follow_event_dependencies(&ctx).unwrap());
    assert!(pool.reuse_allow_opportunistic(&ctx).unwrap());
    assert!(pool.reuse_allow_internal_dependencies(&ctx).unwrap());

    pool.set_reuse_follow_event_dependencies(&mut ctx, false).unwrap();
    pool.set_reuse_allow_opportunistic(&mut ctx, false).unwrap();
    pool.set_reuse_allow_internal_dependencies(&mut ctx, false).unwrap();

    assert!(!pool.reuse_follow_event_dependencies(&ctx).unwrap());
    assert!(!pool.reuse_allow_opportunistic(&ctx).unwrap());
    assert!(!pool.reuse_allow_internal_dependencies(&ctx).unwrap());
}

#[test]
fn set_accessibility_is_not_supported() {
    let device = CudaDevice::new(0).unwrap();
    let mut ctx = CudaContext::new(device);
    let mut pool = CudaMemoryPool::new(&mut ctx, 0, &device).unwrap();
    let denied = pool.set_accessibility(&mut ctx, &device, AccessFlags::Read);
    assert_eq!(denied.unwrap_err().code(), CUDA_ERROR_NOT_SUPPORTED);
}

#[test]
fn pool_creation_needs_pool_support() {
    let mut ctx = fresh_context();
    let no_pools = CudaDevice::new(0).unwrap();
    let pool = CudaMemoryPool::new(&mut ctx, 0, &no_pools);
    assert!(pool.is_ok());
}

#[test]
fn import_of_a_stale_descriptor_is_refused() {
    let device = CudaDevice::new(0).unwrap();
    let mut ctx = CudaContext::new(device);
    let stream = CudaStream::new(&mut ctx, StreamFlags::Default).unwrap();
    let pool = CudaMemoryPool::new(&mut ctx, 0, &device).unwrap();

    let buffer = pool.alloc_async::<u8>(&mut ctx, 64, &stream).unwrap();
    let data = buffer.export(&ctx).unwrap();
    let byte_count = buffer.as_slice().byte_size();

    let fd = pool.to_fd(&ctx).unwrap();
    let view = CudaMemoryPoolView::from_fd(&ctx, fd.as_handle()).unwrap();

    buffer.free(&mut ctx).unwrap();
    let stale = view.import::<u8>(&ctx, &data, byte_count);
    assert_eq!(stale.unwrap_err().code(), CUDA_ERROR_INVALID_VALUE);
}

#[test]
fn import_from_foreign_handle_is_refused() {
    let device = CudaDevice::new(0).unwrap();
    let mut ctx = CudaContext::new(device);
    let stream = CudaStream::new(&mut ctx, StreamFlags::Default).unwrap();

    let pool_a = CudaMemoryPool::new(&mut ctx, 0, &device).unwrap();
    let pool_b = CudaMemoryPool::new(&mut ctx, 0, &device).unwrap();

    let buffer = pool_a.alloc_async::<u8>(&mut ctx, 64, &stream).unwrap();
    let data = buffer.export(&ctx).unwrap();

    let fd_b = pool_b.to_fd(&ctx).unwrap();
    let view_b = CudaMemoryPoolView::from_fd(&ctx, fd_b.as_handle()).unwrap();

    let wrong_pool = view_b.import::<u8>(&ctx, &data, 64);
    assert_eq!(wrong_pool.unwrap_err().code(), CUDA_ERROR_INVALID_VALUE);
    buffer.free(&mut ctx).unwrap();
}

#[test]
fn destroyed_pool_cannot_be_imported() {
    let device = CudaDevice::new(0).unwrap();
    let mut ctx = CudaContext::new(device);
    let pool = CudaMemoryPool::new(&mut ctx, 0, &device).unwrap();
    let fd = pool.to_fd(&ctx).unwrap();
    pool.destroy(&mut ctx).unwrap();

    let gone = CudaMemoryPoolView::from_fd(&ctx, fd.as_handle());
    assert_eq!(gone.unwrap_err().code(), CUDA_ERROR_INVALID_HANDLE);
}

#[test]
fn export_descriptor_survives_transport_as_bytes() {
    let device = CudaDevice::new(0).unwrap();
    let mut ctx = CudaContext::new(device);
    let stream = CudaStream::new(&mut ctx, StreamFlags::Default).unwrap();
    let pool = CudaMemoryPool::new(&mut ctx, 0, &device).unwrap();
    let buffer = pool.alloc_async::<u8>(&mut ctx, 32, &stream).unwrap();

    let data = buffer.export(&ctx).unwrap();
    let wire: Vec<u8> = data.as_bytes().to_vec();
    assert_eq!(wire.len(), 64);

    let rebuilt = PooledPtrExportData::from_bytes(wire.as_slice());
    assert_eq!(rebuilt.as_bytes(), data.as_bytes());

    let fd = pool.to_fd(&ctx).unwrap();
    let view = CudaMemoryPoolView::from_fd(&ctx, fd.as_handle()).unwrap();
    let imported = view.import::<u8>(&ctx, &rebuilt, 32);
    assert!(imported.is_ok());
}
