use cuda::device::{AllocationHandleType, CudaDevice, DeviceAttribute};
use cuda::error::CUDA_ERROR_INVALID_DEVICE;

#[test]
fn test_cuda_device_new() {
    let result = CudaDevice::new(0);
    assert!(result.is_ok(), "CUDA device creation failed: {:?}", result);

    let device = result.unwrap();
    let total_memory = device.total_memory();
    assert!(
        total_memory.is_ok(),
        "CUDA device total memory retrieval failed: {:?}",
        total_memory
    );
    let attribute = device.attribute(DeviceAttribute::VirtualAddressManagementSupported);
    assert!(
        attribute.is_ok(),
        "CUDA device attribute retrieval failed: {:?}",
        attribute
    );
}

#[test]
fn test_cuda_driver_device_total_memory() {
    let device = CudaDevice::new(0).unwrap();
    let result = device.total_memory();
    assert!(
        result.is_ok(),
        "CUDA device total memory retrieval failed: {:?}",
        result
    );
    assert_eq!(result.unwrap(), 0x1_0000_0000usize);
}

#[test]
fn test_cuda_driver_device_attribute() {
    let device = CudaDevice::new(0).unwrap();
    let result = device.attribute(DeviceAttribute::VirtualAddressManagementSupported);
    assert!(
        result.is_ok(),
        "CUDA device attribute retrieval failed: {:?}",
        result
    );
    assert_eq!(result.unwrap(), 1);
}

#[test]
fn negative_ordinal_is_rejected() {
    let result = CudaDevice::new(-1);
    assert!(result.is_err());
    assert_eq!(result.unwrap_err().code(), CUDA_ERROR_INVALID_DEVICE);
}

#[test]
fn default_capability_profile() {
    let device = CudaDevice::new(3).unwrap();
    assert_eq!(device.as_raw(), 3);
    assert!(device.unified_addressing().unwrap());
    assert!(device.concurrent_managed_access().unwrap());
    assert!(device.pageable_memory_access().unwrap());
    assert!(device.memory_pool_supported().unwrap());
    assert!(device.virtual_memory_management_supported().unwrap());
}

#[test]
fn handle_type_queries() {
    let device = CudaDevice::new(0).unwrap();
    assert!(device.handle_type_supported(AllocationHandleType::NoHandle).unwrap());
    assert!(device.handle_type_supported(AllocationHandleType::PosixFD).unwrap());
    assert!(!device.handle_type_supported(AllocationHandleType::Win32).unwrap());
    assert!(!device.handle_type_supported(AllocationHandleType::Win32Kmt).unwrap());
    assert!(!device.handle_type_supported(AllocationHandleType::Fabric).unwrap());
}

#[test]
fn mempool_supported_handle_types_lists_posix_fd() {
    let device = CudaDevice::new(0).unwrap();
    let types = device.mempool_supported_handle_types().unwrap();
    assert_eq!(types.len(), 1);
    assert!(matches!(types[0], AllocationHandleType::PosixFD));
}

#[test]
fn attribute_values_follow_profile() {
    let device = CudaDevice::new(0)
        .unwrap()
        .with_concurrent_managed_access(false);
    assert_eq!(
        device.attribute(DeviceAttribute::ConcurrentManagedAccess).unwrap(),
        0
    );
    assert_eq!(device.attribute(DeviceAttribute::UnifiedAddressing).unwrap(), 1);
    assert_eq!(
        device.attribute(DeviceAttribute::MempoolSupportedHandleTypes).unwrap(),
        1
    );
    assert_eq!(
        device
            .attribute(DeviceAttribute::HandleTypePosixFileDescriptorSupported)
            .unwrap(),
        1
    );
    assert_eq!(
        device.attribute(DeviceAttribute::HandleTypeWin32HandleSupported).unwrap(),
        0
    );
}
