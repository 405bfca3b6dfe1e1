//! IPC protocol definitions: the commands clients send, the responses and events the
//! daemon sends back.

use vstd::prelude::*;
use crate::config::ScaleMode;

verus! {

/// Commands that can be sent to the daemon
#[derive(Debug, Clone)]
pub enum Command {
    /// Set wallpaper
    SetWallpaper {
        source: String,
        mode: Option<ScaleMode>,
        monitor: Option<String>,
        /// Slideshow interval in seconds (None = no auto-rotation)
        interval_secs: Option<u64>,
        /// Shuffle the playlist
        shuffle: bool,
        /// Try to animate sources that are not animated by default (PNG)
        animate: bool,
        /// Maximum frames per second of an animation (0 = no cap)
        max_fps: u32,
        /// Span one image across all monitors instead of one per monitor
        span: bool,
    },
    /// Set wallpaper for a specific workspace
    SetWorkspace { workspace: usize, source: String, mode: Option<ScaleMode> },
    /// Set wallpaper for one monitor
    SetMonitor { monitor: String, source: String, mode: Option<ScaleMode> },
    /// Next wallpaper in slideshow
    Next { monitor: Option<String> },
    /// Previous wallpaper in slideshow
    Prev { monitor: Option<String> },
    /// Random wallpaper from current source
    Random { monitor: Option<String> },
    /// Reload configuration
    Reload,
    /// Pause animations/slideshow
    Pause,
    /// Resume animations/slideshow
    Resume,
    /// Toggle pause state
    Toggle,
    /// Get current status
    Status,
    /// List wallpapers from a source
    List { source: String },
    /// Clear cache
    ClearCache,
    /// Subscribe to events
    Subscribe { events: Vec<String> },
    /// Unsubscribe from events
    Unsubscribe { events: Vec<String> },
    /// List the connected monitors
    QueryMonitors,
    /// Describe the current wallpaper
    QueryCurrent,
}

/// The playlist part of a status report
#[derive(Debug, Clone)]
pub struct PlaylistInfo {
    pub source: String,
    pub current_index: usize,
    pub total: usize,
    pub current_image: Option<String>,
    pub shuffled: bool,
    pub mode: String,
}

/// A status report
#[derive(Debug, Clone)]
pub struct StatusInfo {
    pub workspace: usize,
    pub paused: bool,
    pub interval_secs: Option<u64>,
    pub playlist: Option<PlaylistInfo>,
}

/// A description of the current wallpaper
#[derive(Debug, Clone)]
pub struct CurrentInfo {
    pub source: Option<String>,
    pub mode: String,
    pub paused: bool,
    pub animation_active: bool,
    pub workspace: usize,
}

/// One monitor in a monitor report
#[derive(Debug, Clone)]
pub struct MonitorInfo {
    pub name: String,
    pub width: u16,
    pub height: u16,
    pub x: i16,
    pub y: i16,
    pub primary: bool,
}

/// Command-specific data carried by a response
#[derive(Debug, Clone)]
pub enum ResponseData {
    /// `{ "paused": .. }`
    Paused(bool),
    /// The status report
    Status(StatusInfo),
    /// A list of image paths or URLs
    Images(Vec<String>),
    /// `{ "monitors": [..] }`
    Monitors(Vec<MonitorInfo>),
    /// The current wallpaper
    Current(CurrentInfo),
}

/// Response to a command
#[derive(Debug, Clone)]
pub struct Response {
    /// Whether the command succeeded
    pub success: bool,
    /// Response data (command-specific)
    pub data: Option<ResponseData>,
    /// Error message if failed
    pub error: Option<String>,
}

impl Response {
    /// A success without data.
    pub fn ok() -> (r: Response)
        ensures
            r.success,
            r.data is None,
            r.error is None,
    {
        Response { success: true, data: None, error: None }
    }

    /// A success carrying `data`.
    pub fn ok_with_data(data: ResponseData) -> (r: Response)
        ensures
            r.success,
            r.data == Some(data),
            r.error is None,
    {
        Response { success: true, data: Some(data), error: None }
    }

    /// A failure with the given message.
    pub fn error(message: String) -> (r: Response)
        ensures
            !r.success,
            r.data is None,
            r.error matches Some(e) && e@ == message@,
    {
        Response { success: false, data: None, error: Some(message) }
    }

    /// The response to an operation that either succeeded or failed with a message.
    pub fn from_outcome(outcome: Result<(), String>) -> (r: Response)
        ensures
            r.data is None,
            r.success == outcome is Ok,
            outcome matches Err(e) ==> (r.error matches Some(m) && m@ == e@),
            outcome is Ok ==> r.error is None,
    {
        match outcome {
            Ok(()) => Response::ok(),
            Err(e) => Response::error(e),
        }
    }
}

/// Events sent to subscribed clients
#[derive(Debug, Clone)]
pub enum Event {
    /// Wallpaper was changed
    WallpaperChanged { monitor: String, source: String, workspace: Option<usize> },
    /// Source was updated (new wallpapers available)
    SourceUpdated { source: String, count: usize },
    /// Animation state changed
    AnimationState { playing: bool },
    /// Slideshow advanced
    SlideshowAdvanced { current: usize, total: usize, source: String },
    /// Error occurred
    Error { message: String, context: Option<String> },
}

} // verus!
