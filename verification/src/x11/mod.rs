//! Display-side logic: monitors, compositing and pixel upload planning.

pub mod monitors;

pub use monitors::Monitor;
pub mod compositor;
pub mod upload;

pub use compositor::{Compositor, MonitorWallpaper};
