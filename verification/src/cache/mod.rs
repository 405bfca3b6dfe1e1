//! Caching for fetched wallpapers and decoded frames.

pub mod disk;
pub mod memory;

pub use disk::DiskCache;
pub use memory::FrameCache;
