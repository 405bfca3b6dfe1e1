//! Daemon decisions: what each command, event and timer leads to.

pub mod monitor_map;

pub use monitor_map::{MonitorWallpaper, MonitorWallpapers};
pub mod state;
pub mod pid;
pub mod display_env;

pub use state::DaemonState;
pub mod animation_loop;

pub use animation_loop::{AnimationClock, AnimationConfig, Backoff};
