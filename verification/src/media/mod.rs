//! Media handling: pixel buffers, formats and animation frames.

pub mod pixels;

pub use pixels::{Rgba, RgbaImage};
pub mod loader;

pub use loader::{ImageFormat, ImageLoader};
pub mod gif;
pub mod frames;
pub mod placement;

pub use gif::{AnimatedGif, AnimationFrame, is_animated_gif};
pub mod frame_buffer;
pub mod video;

pub use frame_buffer::{BufferedFrame, FrameBufferStats, LoopingFrameBuffer};
pub use video::is_video_file;
