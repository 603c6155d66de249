//! A memory abstraction layer in the style of the CUDA driver API.
//!
//! The crate gives low-level device programs a single, composable way to
//! allocate, own, slice and transfer memory that may live in different
//! address spaces (plain device memory, page-locked host memory, pool-backed
//! device memory, unified memory) while ruling out address-space confusion
//! and use-after-free by construction:
//!
//! - capability traits classify a pointer by the address spaces from which it
//!   may be dereferenced (see [`memory`]);
//! - owning buffer types tie an allocation's lifetime to an explicit,
//!   consuming `free`, so a deallocation call is issued at most once;
//! - slice views carry an offset and a length and support bounds-checked
//!   sub-slicing;
//! - a copy/fill engine validates lengths and capabilities before touching
//!   memory, for every legal direction (device-to-device, host-to-device,
//!   device-to-host).
//!
//! The driver below this layer is a deterministic state object,
//! [`context::CudaContext`], passed explicitly to every operation that needs
//! it.  Threading the context through the API in place of a hidden global
//! makes the "driver initialized, context current" requirement visible in
//! every signature, and it gives every operation an exact contract: what an
//! allocation holds, which allocations a copy touches, and how many
//! deallocation calls the driver has served.
#![allow(unused_imports)]

pub mod context;
pub mod device;
pub mod error;
pub mod memory;
pub mod platform;
pub mod stream;
pub mod version;
