//! garbg: the verified core of a wallpaper daemon for the gar window manager.

pub mod text;
pub mod time_span;
pub mod config;
pub mod state;
pub mod media;
pub mod x11;
pub mod ipc;
pub mod daemon;
pub mod cache;
pub mod sources;
pub mod commands;
