pub mod error;
pub mod extending_mmap;
