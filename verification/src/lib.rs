//! Early memory services of a small kernel, verified with Verus.

pub mod align;
pub mod alloc_laws;
pub mod early_alloc;
pub mod errno;
pub mod file_fill;
pub mod mman;
pub mod mmap;
pub mod mmap_laws;
pub mod mmap_protocol;
pub mod page_fault;
pub mod region;
pub mod region_laws;
pub mod syscall;
pub mod words;
