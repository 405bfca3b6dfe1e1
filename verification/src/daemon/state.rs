//! Daemon state and the decisions taken on commands and window manager events.

use vstd::prelude::*;
use crate::config::{Config, ScaleMode, scale_mode_name};
use crate::daemon::monitor_map::{MonitorWallpaper, MonitorWallpapers};
use crate::ipc::gar_client::GarEvent;
use crate::ipc::protocol::{Command, CurrentInfo, PlaylistInfo, Response, ResponseData, StatusInfo};
use crate::state::{PlaylistState, detect_source_type, source_type_of, is_permutation, step_forward, step_back};
use crate::text::{lowercase, is_infix_of, opt_view, str_to_lowercase, str_ends_with, str_contains, str_starts_with, str_to_string, str_concat, str_eq};
use crate::time_span::TimeSpan;
use crate::x11::monitors::Monitor;

verus! {

/// The source names a format that is animated by default (GIF, WebP, APNG or video),
/// judged from its lowercase form.
pub open spec fn auto_animated(l: Seq<char>) -> bool {
    ||| ".gif"@.is_suffix_of(l)
    ||| is_infix_of(".gif?"@, l)
    ||| is_infix_of("/gif/"@, l)
    ||| ".webp"@.is_suffix_of(l)
    ||| is_infix_of(".webp?"@, l)
    ||| is_infix_of("/webp/"@, l)
    ||| ".apng"@.is_suffix_of(l)
    ||| is_infix_of(".apng?"@, l)
    ||| ".mp4"@.is_suffix_of(l)
    ||| ".webm"@.is_suffix_of(l)
    ||| ".mkv"@.is_suffix_of(l)
    ||| ".avi"@.is_suffix_of(l)
    ||| ".mov"@.is_suffix_of(l)
    ||| ".m4v"@.is_suffix_of(l)
}

/// A set-wallpaper request is played as an animation: known animated formats always,
/// PNG files only when animation is asked for.
pub open spec fn wants_animation(source: Seq<char>, animate: bool) -> bool {
    auto_animated(lowercase(source)) || (animate && ".png"@.is_suffix_of(lowercase(source)))
}

/// Animation law: a source whose lowercase form ends in ".gif", ".webp", ".apng" or a video
/// extension (".mp4", ".webm", ".mkv", ".avi", ".mov", ".m4v"), or names ".gif", ".webp" or
/// ".apng" before a query, is played as an animation whatever the animate flag; one ending
/// in ".png" only when animation is asked for; one ending in ".jpg", with no query and not
/// under a "/gif/" or "/webp/" directory, never.
pub proof fn law_animated_sources(source: Seq<char>, animate: bool)
    ensures
        ".gif"@.is_suffix_of(lowercase(source)) ==> wants_animation(source, animate),
        ".webp"@.is_suffix_of(lowercase(source)) ==> wants_animation(source, animate),
        ".apng"@.is_suffix_of(lowercase(source)) ==> wants_animation(source, animate),
        ".mp4"@.is_suffix_of(lowercase(source)) ==> wants_animation(source, animate),
        ".webm"@.is_suffix_of(lowercase(source)) ==> wants_animation(source, animate),
        ".mkv"@.is_suffix_of(lowercase(source)) ==> wants_animation(source, animate),
        ".avi"@.is_suffix_of(lowercase(source)) ==> wants_animation(source, animate),
        ".mov"@.is_suffix_of(lowercase(source)) ==> wants_animation(source, animate),
        ".m4v"@.is_suffix_of(lowercase(source)) ==> wants_animation(source, animate),
        is_infix_of(".gif?"@, lowercase(source)) ==> wants_animation(source, animate),
        is_infix_of(".webp?"@, lowercase(source)) ==> wants_animation(source, animate),
        is_infix_of(".apng?"@, lowercase(source)) ==> wants_animation(source, animate),
        ".png"@.is_suffix_of(lowercase(source)) ==> wants_animation(source, true),
        ".png"@.is_suffix_of(lowercase(source)) && !is_infix_of("/gif/"@, lowercase(source))
            && !is_infix_of("/webp/"@, lowercase(source)) && !is_infix_of("?"@, lowercase(source))
            ==> !wants_animation(source, false),
        ".jpg"@.is_suffix_of(lowercase(source)) && !is_infix_of("/gif/"@, lowercase(source))
            && !is_infix_of("/webp/"@, lowercase(source)) && !is_infix_of("?"@, lowercase(source))
            ==> !wants_animation(source, animate),
{
    let l = lowercase(source);
    reveal_strlit(".gif");
    reveal_strlit(".webp");
    reveal_strlit(".apng");
    reveal_strlit(".mp4");
    reveal_strlit(".webm");
    reveal_strlit(".mkv");
    reveal_strlit(".avi");
    reveal_strlit(".mov");
    reveal_strlit(".m4v");
    reveal_strlit(".png");
    reveal_strlit(".jpg");
    reveal_strlit(".gif?");
    reveal_strlit(".webp?");
    reveal_strlit(".apng?");
    reveal_strlit("?");
    let n = l.len() as int;
    if !is_infix_of("?"@, l) {
        lemma_no_query(l, ".gif?"@);
        lemma_no_query(l, ".webp?"@);
        lemma_no_query(l, ".apng?"@);
    }
    if ".jpg"@.is_suffix_of(l) || ".png"@.is_suffix_of(l) {
        let t = l.subrange(n - 4, n);
        assert(t =~= ".jpg"@ || t =~= ".png"@);
        assert(t[3] == l[n - 1] && t[2] == l[n - 2] && t[0] == l[n - 4]);
        assert(l[n - 1] == 'g');
        assert(l[n - 2] == 'p' || l[n - 2] == 'n');
        assert(l[n - 4] == '.');
        assert(!".gif"@.is_suffix_of(l)) by {
            if ".gif"@.is_suffix_of(l) { assert(l.subrange(n - 4, n)[3] == 'f'); }
        }
        assert(!".webp"@.is_suffix_of(l)) by {
            if ".webp"@.is_suffix_of(l) { assert(l.subrange(n - 5, n)[4] == 'p'); }
        }
        assert(!".mp4"@.is_suffix_of(l)) by {
            if ".mp4"@.is_suffix_of(l) { assert(l.subrange(n - 4, n)[3] == '4'); }
        }
        assert(!".webm"@.is_suffix_of(l)) by {
            if ".webm"@.is_suffix_of(l) { assert(l.subrange(n - 5, n)[4] == 'm'); }
        }
        assert(!".mkv"@.is_suffix_of(l)) by {
            if ".mkv"@.is_suffix_of(l) { assert(l.subrange(n - 4, n)[3] == 'v'); }
        }
        assert(!".avi"@.is_suffix_of(l)) by {
            if ".avi"@.is_suffix_of(l) { assert(l.subrange(n - 4, n)[3] == 'i'); }
        }
        assert(!".mov"@.is_suffix_of(l)) by {
            if ".mov"@.is_suffix_of(l) { assert(l.subrange(n - 4, n)[3] == 'v'); }
        }
        assert(!".m4v"@.is_suffix_of(l)) by {
            if ".m4v"@.is_suffix_of(l) { assert(l.subrange(n - 4, n)[3] == 'v'); }
        }
        assert(!".apng"@.is_suffix_of(l)) by {
            if ".apng"@.is_suffix_of(l) {
                assert(l.subrange(n - 5, n)[1] == 'a');
            }
        }
    }
}

/// Text with no `?` holds no pattern that contains one.
proof fn lemma_no_query(l: Seq<char>, pat: Seq<char>)
    requires
        !is_infix_of("?"@, l),
        pat.len() > 0,
        pat[pat.len() - 1] == '?',
    ensures
        !is_infix_of(pat, l),
{
    reveal_strlit("?");
    if is_infix_of(pat, l) {
        let i = choose|i: int| 0 <= i && i + pat.len() <= l.len() && #[trigger] l.subrange(i, i + pat.len()) =~= pat;
        let k = i + pat.len() - 1;
        assert(l.subrange(i, i + pat.len())[pat.len() - 1] == '?');
        assert(l[k] == '?');
        assert(l.subrange(k, k + "?"@.len()) =~= "?"@);
    }
}

/// Whether a set-wallpaper request is played as an animation.
pub fn animation_requested(source: &str, animate: bool) -> (r: bool)
    ensures
        r == wants_animation(source@, animate),
{
    let l = str_to_lowercase(source);
    let s = l.as_str();
    let auto = str_ends_with(s, ".gif") || str_contains(s, ".gif?") || str_contains(s, "/gif/")
        || str_ends_with(s, ".webp") || str_contains(s, ".webp?") || str_contains(s, "/webp/")
        || str_ends_with(s, ".apng") || str_contains(s, ".apng?") || str_ends_with(s, ".mp4")
        || str_ends_with(s, ".webm") || str_ends_with(s, ".mkv") || str_ends_with(s, ".avi")
        || str_ends_with(s, ".mov") || str_ends_with(s, ".m4v");
    let png = animate && str_ends_with(s, ".png");
    auto || png
}

/// Container format of an animated image
#[derive(Debug, Clone, Copy, PartialEq, Eq, Structural)]
pub enum AnimationFormat {
    /// Animated WebP
    WebP,
    /// Animated PNG; `apng_extension` when the name says `.apng`
    Png { apng_extension: bool },
    /// GIF (the default)
    Gif,
}

/// Where an animation comes from and how it is encoded
#[derive(Debug, Clone, Copy, PartialEq, Eq, Structural)]
pub struct AnimationSource {
    /// Fetched over HTTP(S) rather than read from disk
    pub remote: bool,
    pub format: AnimationFormat,
}

pub open spec fn is_remote_source(s: Seq<char>) -> bool {
    "http://"@.is_prefix_of(s) || "https://"@.is_prefix_of(s)
}

/// The format of an animated source, judged from its lowercase form.
pub open spec fn animation_format_of(l: Seq<char>) -> AnimationFormat {
    let webp = ".webp"@.is_suffix_of(l) || is_infix_of(".webp?"@, l) || is_infix_of("/webp/"@, l);
    let apng = ".apng"@.is_suffix_of(l) || is_infix_of(".apng?"@, l);
    let png = ".png"@.is_suffix_of(l);
    if webp {
        AnimationFormat::WebP
    } else if apng || png {
        AnimationFormat::Png { apng_extension: apng }
    } else {
        AnimationFormat::Gif
    }
}

/// Classifies an animated source by location and format.
pub fn classify_animation_source(source: &str) -> (r: AnimationSource)
    ensures
        r.remote == is_remote_source(source@),
        r.format == animation_format_of(lowercase(source@)),
{
    let remote = str_starts_with(source, "http://") || str_starts_with(source, "https://");
    let l = str_to_lowercase(source);
    let s = l.as_str();
    let webp = str_ends_with(s, ".webp") || str_contains(s, ".webp?") || str_contains(s, "/webp/");
    let apng = str_ends_with(s, ".apng") || str_contains(s, ".apng?");
    let png = str_ends_with(s, ".png");
    let format = if webp {
        AnimationFormat::WebP
    } else if apng || png {
        AnimationFormat::Png { apng_extension: apng }
    } else {
        AnimationFormat::Gif
    };
    AnimationSource { remote, format }
}

/// What decoding an animated image gave.
#[derive(Debug, Clone)]
pub enum DecodeOutcome {
    /// Decoded, with this many frames
    Frames(usize),
    /// The decoder failed with this message
    Failed(String),
}

/// Whether a decoded image may be played as an animation, and the message when not.
pub fn check_animation(format: AnimationFormat, outcome: DecodeOutcome) -> (r: Result<(), String>)
    ensures
        match outcome {
            DecodeOutcome::Frames(n) => if n > 1 {
                r is Ok
            } else {
                r matches Err(m) && m@ == match format {
                    AnimationFormat::WebP => "WebP is not animated (single frame)"@,
                    AnimationFormat::Png { .. } => "PNG is not animated"@,
                    AnimationFormat::Gif => "GIF is not animated (single frame)"@,
                }
            },
            DecodeOutcome::Failed(e) => r matches Err(m) && m@ == match format {
                AnimationFormat::Png { apng_extension: true } => "Failed to load APNG: "@ + e@,
                AnimationFormat::Png { apng_extension: false } => "PNG is not animated (use without --animate)"@,
                _ => e@,
            },
        },
{
    match outcome {
        DecodeOutcome::Frames(n) => {
            if n > 1 {
                Ok(())
            } else {
                match format {
                    AnimationFormat::WebP => Err(str_to_string("WebP is not animated (single frame)")),
                    AnimationFormat::Png { .. } => Err(str_to_string("PNG is not animated")),
                    AnimationFormat::Gif => Err(str_to_string("GIF is not animated (single frame)")),
                }
            }
        },
        DecodeOutcome::Failed(e) => match format {
            AnimationFormat::Png { apng_extension: true } => Err(
                str_concat("Failed to load APNG: ", e.as_str()),
            ),
            AnimationFormat::Png { apng_extension: false } => Err(
                str_to_string("PNG is not animated (use without --animate)"),
            ),
            _ => Err(e),
        },
    }
}

/// What the daemon does for a command, once its state has been updated.
#[derive(Debug)]
pub enum CommandPlan {
    /// The command is answered
    Reply(Response),
    /// Play `source` as an animation; should that fail, set it as a still wallpaper
    /// as `Still` would
    Animate {
        source: String,
        mode: ScaleMode,
        max_fps: u32,
        shuffle: bool,
        interval_secs: Option<u64>,
        span: bool,
    },
    /// Set `source` (file, directory or URL) as a still wallpaper, then record the interval
    Still { source: String, mode: ScaleMode, shuffle: bool, interval_secs: Option<u64>, span: bool },
    /// Set the current workspace's wallpaper from `source`
    WorkspaceSource { source: String, mode: ScaleMode },
    /// Advance the slideshow
    Next,
    /// Step the slideshow back
    Prev,
    /// Jump to a random playlist image
    Random,
    /// Reload the configuration
    Reload,
    /// Clear the disk cache
    ClearCache,
    /// List the images of a source
    List { source: String },
    /// Report the monitors
    QueryMonitors,
    /// Set one monitor's wallpaper
    SetMonitor { monitor: String, source: String, mode: ScaleMode },
}

/// What the daemon does for a window manager event, once its state has been updated.
#[derive(Debug)]
pub enum GarAction {
    /// Set the wallpaper from this source (per monitor, not shuffled)
    SetSource { source: String, mode: ScaleMode },
    /// Re-apply the wallpapers to all monitors
    Refresh,
    /// Nothing to do
    Nothing,
}

/// How to bring the wallpapers back after monitors change.
#[derive(Debug)]
pub enum RefreshPlan {
    /// Composite the per-monitor wallpapers
    Composite,
    /// Set this playlist image on the whole screen
    Playlist { source: String, mode: ScaleMode },
    /// Apply the configured default wallpaper
    Default,
    /// Nothing to re-apply
    Nothing,
}

/// The configured default wallpaper.
#[derive(Debug)]
pub struct DefaultWallpaper {
    pub source: String,
    pub mode: ScaleMode,
    pub shuffle: bool,
}

/// The wallpaper source of one monitor when compositing
#[derive(Debug)]
pub struct MonitorSource {
    /// The monitor's own wallpaper, if it has one
    pub source: Option<String>,
    /// The mode it is scaled with
    pub mode: ScaleMode,
}

/// Where a per-monitor wallpaper goes among the detected monitors.
#[derive(Debug, Clone, Copy, PartialEq, Eq, Structural)]
pub enum MonitorLookup {
    /// No monitor was detected: the wallpaper is set on the whole screen
    NoMonitors,
    /// The monitor at this position
    Found(usize),
    /// No detected monitor has that name
    NotFound,
}

/// One step of the slideshow
#[derive(Debug)]
pub struct SlideshowStep {
    /// The image now shown
    pub image: String,
    pub mode: ScaleMode,
    /// Its position in the playlist
    pub current_index: usize,
    /// The playlist length
    pub total: usize,
}

/// The pause state after a command.
pub open spec fn paused_after(cmd: Command, paused: bool) -> bool {
    match cmd {
        Command::Pause => true,
        Command::Resume => false,
        Command::Toggle => !paused,
        _ => paused,
    }
}

/// The message given when no playlist is active.
pub open spec fn no_playlist_message() -> Seq<char> {
    "No active playlist"@
}

/// Main daemon state
#[derive(Debug)]
pub struct DaemonState {
    /// Current wallpaper per monitor
    pub monitors: MonitorWallpapers,
    /// Current workspace
    pub current_workspace: usize,
    /// Whether slideshow/animations are paused
    pub paused: bool,
    /// Configuration
    pub config: Config,
    /// Current playlist state (if any)
    pub playlist: Option<PlaylistState>,
    /// Current slideshow interval (None = no auto-rotation)
    pub slideshow_interval: Option<TimeSpan>,
}

/// The playlist part of a status report describes `p`.
pub open spec fn describes_playlist(i: PlaylistInfo, p: PlaylistState) -> bool {
    &&& i.source@ == p.source@
    &&& i.current_index == p.current_index
    &&& i.total == p.images@.len()
    &&& opt_view(i.current_image) == if p.in_range() {
        Some(p.images@[p.current_index as int]@)
    } else {
        None
    }
    &&& i.shuffled == p.shuffled
    &&& i.mode@ == scale_mode_name(p.mode)
}

/// The current playlist image, if any.
pub open spec fn playlist_current(p: Option<PlaylistState>) -> Option<Seq<char>> {
    match p {
        Some(p) => if p.in_range() {
            Some(p.images@[p.current_index as int]@)
        } else {
            None
        },
        None => None,
    }
}

fn playlist_current_string(p: &Option<PlaylistState>) -> (r: Option<String>)
    ensures
        opt_view(r) == playlist_current(*p),
{
    match p {
        Some(p) => match p.current() {
            Some(s) => Some(str_to_string(s)),
            None => None,
        },
        None => None,
    }
}

/// Draws a number below `n` (`rand::Rng::gen_range(0..n)` on the thread-local generator).
#[verifier::external_body]
fn random_below(n: usize) -> (r: usize)
    requires
        n > 0,
    ensures
        r < n,
{
    rand::Rng::gen_range(&mut rand::thread_rng(), 0..n)
}

impl DaemonState {
    /// The invariant of the state's parts.
    pub open spec fn inv(&self) -> bool {
        &&& self.monitors.inv()
        &&& self.config.wf()
        &&& (self.slideshow_interval matches Some(d) ==> d.wf())
    }

    /// The state of a daemon started with `config` and the playlist found on disk.
    pub fn new(config: Config, playlist: Option<PlaylistState>) -> (s: DaemonState)
        requires
            config.wf(),
        ensures
            s.inv(),
            s.monitors.view().len() == 0,
            s.current_workspace == 1,
            !s.paused,
            s.config == config,
            s.playlist == playlist,
            s.slideshow_interval == config.slideshow_interval_spec(),
    {
        let slideshow_interval = config.slideshow_interval();
        DaemonState {
            monitors: MonitorWallpapers::new(),
            current_workspace: 1,
            paused: false,
            config,
            playlist,
            slideshow_interval,
        }
    }

    /// Decides what a command leads to, updating the state where the command is a
    /// state change alone (pause, resume, toggle).
    pub fn plan_command(&mut self, cmd: Command, animation_active: bool) -> (plan: CommandPlan)
        requires
            old(self).inv(),
        ensures
            final(self).inv(),
            final(self).paused == paused_after(cmd, old(self).paused),
            final(self).monitors == old(self).monitors,
            final(self).current_workspace == old(self).current_workspace,
            final(self).config == old(self).config,
            final(self).playlist == old(self).playlist,
            final(self).slideshow_interval == old(self).slideshow_interval,
            match cmd {
                Command::SetWallpaper { source, mode, interval_secs, shuffle, animate, max_fps, span, .. } => {
                    let m = match mode {
                        Some(m) => m,
                        None => old(self).config.general.mode,
                    };
                    if wants_animation(source@, animate) {
                        plan matches CommandPlan::Animate { source: s, mode: pm, max_fps: f, shuffle: sh, interval_secs: i, span: sp }
                            && s@ == source@ && pm == m && f == max_fps && sh == shuffle && i == interval_secs && sp == span
                    } else {
                        plan matches CommandPlan::Still { source: s, mode: pm, shuffle: sh, interval_secs: i, span: sp }
                            && s@ == source@ && pm == m && sh == shuffle && i == interval_secs && sp == span
                    }
                },
                Command::SetWorkspace { workspace, source, mode } => if old(self).current_workspace == workspace {
                    plan matches CommandPlan::WorkspaceSource { source: s, mode: pm } && s@ == source@
                        && pm == match mode {
                        Some(m) => m,
                        None => old(self).config.general.mode,
                    }
                } else {
                    plan matches CommandPlan::Reply(r) && r.success && r.data is None && r.error is None
                },
                Command::SetMonitor { monitor, source, mode } => plan matches CommandPlan::SetMonitor { monitor: pmon, source: s, mode: pm }
                    && pmon@ == monitor@ && s@ == source@ && pm == match mode {
                    Some(m) => m,
                    None => old(self).config.general.mode,
                },
                Command::Next { .. } => plan is Next,
                Command::Prev { .. } => plan is Prev,
                Command::Random { .. } => plan is Random,
                Command::Reload => plan is Reload,
                Command::ClearCache => plan is ClearCache,
                Command::List { source } => plan matches CommandPlan::List { source: s } && s@ == source@,
                Command::QueryMonitors => plan is QueryMonitors,
                Command::Pause | Command::Resume => plan matches CommandPlan::Reply(r) && r.success && r.data is None && r.error is None,
                Command::Toggle => plan matches CommandPlan::Reply(r) && r.success && r.data == Some(ResponseData::Paused(final(self).paused)) && r.error is None,
                Command::Status => plan matches CommandPlan::Reply(r) && r.success && (r.data matches Some(ResponseData::Status(info)) && old(self).describes_status(info)) && r.error is None,
                Command::QueryCurrent => plan matches CommandPlan::Reply(r) && r.success && (r.data matches Some(ResponseData::Current(info)) && old(self).describes_current(info, animation_active)) && r.error is None,
                Command::Subscribe { .. } | Command::Unsubscribe { .. } => plan matches CommandPlan::Reply(r) && !r.success && (r.error matches Some(e) && e@ == "Subscriptions not yet implemented"@),
            },
    {
        match cmd {
            Command::SetWallpaper { source, mode, monitor: _, interval_secs, shuffle, animate, max_fps, span } => {
                let m = match mode {
                    Some(m) => m,
                    None => self.config.general.mode,
                };
                if animation_requested(source.as_str(), animate) {
                    CommandPlan::Animate { source, mode: m, max_fps, shuffle, interval_secs, span }
                } else {
                    CommandPlan::Still { source, mode: m, shuffle, interval_secs, span }
                }
            },
            Command::SetWorkspace { workspace, source, mode } => {
                let m = match mode {
                    Some(m) => m,
                    None => self.config.general.mode,
                };
                if self.current_workspace == workspace {
                    CommandPlan::WorkspaceSource { source, mode: m }
                } else {
                    CommandPlan::Reply(Response::ok())
                }
            },
            Command::SetMonitor { monitor, source, mode } => {
                let m = match mode {
                    Some(m) => m,
                    None => self.config.general.mode,
                };
                CommandPlan::SetMonitor { monitor, source, mode: m }
            },
            Command::Next { .. } => CommandPlan::Next,
            Command::Prev { .. } => CommandPlan::Prev,
            Command::Random { .. } => CommandPlan::Random,
            Command::Reload => CommandPlan::Reload,
            Command::ClearCache => CommandPlan::ClearCache,
            Command::List { source } => CommandPlan::List { source },
            Command::QueryMonitors => CommandPlan::QueryMonitors,
            Command::Status => CommandPlan::Reply(Response::ok_with_data(ResponseData::Status(self.status()))),
            Command::QueryCurrent => CommandPlan::Reply(
                Response::ok_with_data(ResponseData::Current(self.current_wallpaper_info(animation_active))),
            ),
            Command::Pause => {
                self.paused = true;
                CommandPlan::Reply(Response::ok())
            },
            Command::Resume => {
                self.paused = false;
                CommandPlan::Reply(Response::ok())
            },
            Command::Toggle => {
                self.paused = !self.paused;
                CommandPlan::Reply(Response::ok_with_data(ResponseData::Paused(self.paused)))
            },
            Command::Subscribe { .. } | Command::Unsubscribe { .. } => CommandPlan::Reply(
                Response::error(str_to_string("Subscriptions not yet implemented")),
            ),
        }
    }

    /// Records the slideshow interval of a still wallpaper that was set.
    pub fn finish_still(&mut self, interval_secs: Option<u64>)
        requires
            old(self).inv(),
        ensures
            final(self).inv(),
            final(self).slideshow_interval == match interval_secs {
                Some(s) => Some(TimeSpan::from_secs_spec(s)),
                None => None,
            },
            final(self).monitors == old(self).monitors,
            final(self).current_workspace == old(self).current_workspace,
            final(self).paused == old(self).paused,
            final(self).config == old(self).config,
            final(self).playlist == old(self).playlist,
    {
        self.slideshow_interval = match interval_secs {
            Some(s) => Some(TimeSpan::from_secs(s)),
            None => None,
        };
    }

    /// The status report describes this state.
    pub open spec fn describes_status(&self, info: StatusInfo) -> bool {
        &&& info.workspace == self.current_workspace
        &&& info.paused == self.paused
        &&& info.interval_secs == match self.slideshow_interval {
            Some(d) => Some(d.secs),
            None => None,
        }
        &&& match self.playlist {
            Some(p) => info.playlist matches Some(pi) && describes_playlist(pi, p),
            None => info.playlist is None,
        }
    }

    /// The current-wallpaper report describes this state.
    pub open spec fn describes_current(&self, info: CurrentInfo, animation_active: bool) -> bool {
        &&& opt_view(info.source) == playlist_current(self.playlist)
        &&& info.mode@ == scale_mode_name(
            match self.playlist {
                Some(p) => p.mode,
                None => self.config.general.mode,
            },
        )
        &&& info.paused == self.paused
        &&& info.animation_active == animation_active
        &&& info.workspace == self.current_workspace
    }

    /// The status report: workspace, pause state, slideshow interval and playlist.
    pub fn status(&self) -> (info: StatusInfo)
        ensures
            self.describes_status(info),
    {
        let playlist = match &self.playlist {
            Some(p) => {
                let current_image = match p.current() {
                    Some(s) => Some(str_to_string(s)),
                    None => None,
                };
                Some(
                    PlaylistInfo {
                        source: p.source.clone(),
                        current_index: p.current_index,
                        total: p.len(),
                        current_image,
                        shuffled: p.shuffled,
                        mode: str_to_string(p.mode.name()),
                    },
                )
            },
            None => None,
        };
        StatusInfo {
            workspace: self.current_workspace,
            paused: self.paused,
            interval_secs: match self.slideshow_interval {
                Some(d) => Some(d.secs),
                None => None,
            },
            playlist,
        }
    }

    /// The current-wallpaper report.
    pub fn current_wallpaper_info(&self, animation_active: bool) -> (info: CurrentInfo)
        ensures
            self.describes_current(info, animation_active),
    {
        let source = playlist_current_string(&self.playlist);
        let mode = match &self.playlist {
            Some(p) => p.mode,
            None => self.config.general.mode,
        };
        CurrentInfo {
            source,
            mode: str_to_string(mode.name()),
            paused: self.paused,
            animation_active,
            workspace: self.current_workspace,
        }
    }

    /// Takes a reloaded configuration: its slideshow interval becomes current.
    pub fn apply_config(&mut self, config: Config)
        requires
            old(self).inv(),
            config.wf(),
        ensures
            final(self).inv(),
            final(self).config == config,
            final(self).slideshow_interval == config.slideshow_interval_spec(),
            final(self).monitors == old(self).monitors,
            final(self).current_workspace == old(self).current_workspace,
            final(self).paused == old(self).paused,
            final(self).playlist == old(self).playlist,
    {
        self.slideshow_interval = config.slideshow_interval();
        self.config = config;
    }

    /// The configured default wallpaper, when a default source is set.
    pub fn default_wallpaper(&self) -> (r: Option<DefaultWallpaper>)
        ensures
            self.config.default.source@.len() == 0 ==> r is None,
            self.config.default.source@.len() > 0 ==> (r matches Some(d) && d.source@
                == self.config.default.source@ && d.mode == self.config.default.mode && d.shuffle
                == match self.config.default.slideshow {
                Some(s) => s.shuffle,
                None => false,
            }),
    {
        if self.config.default.source.as_str().is_empty() {
            proof {
                assert(self.config.default.source@.len() == 0);
            }
            return None;
        }
        let shuffle = match &self.config.default.slideshow {
            Some(s) => s.shuffle,
            None => false,
        };
        Some(
            DefaultWallpaper {
                source: self.config.default.source.clone(),
                mode: self.config.default.mode,
                shuffle,
            },
        )
    }

    /// What to re-apply after the display connection comes back: the current playlist
    /// image, else the default wallpaper.
    pub fn reapply_plan(&self) -> (r: RefreshPlan)
        ensures
            match playlist_current(self.playlist) {
                Some(c) => r matches RefreshPlan::Playlist { source, mode } && source@ == c && Some(mode)
                    == match self.playlist {
                    Some(p) => Some(p.mode),
                    None => None,
                },
                None => if self.config.default.source@.len() > 0 {
                    r is Default
                } else {
                    r is Nothing
                },
            },
    {
        match &self.playlist {
            Some(p) => match p.current() {
                Some(c) => {
                    return RefreshPlan::Playlist { source: str_to_string(c), mode: p.mode };
                },
                None => {},
            },
            None => {},
        }
        if !self.config.default.source.as_str().is_empty() {
            RefreshPlan::Default
        } else {
            RefreshPlan::Nothing
        }
    }

    /// What to re-apply after monitors are added or changed: composite when several
    /// monitors are present and some have their own wallpaper; else the current playlist
    /// image; else the default wallpaper when there is no playlist.
    pub fn refresh_plan(&self, monitor_count: usize) -> (r: RefreshPlan)
        requires
            self.monitors.inv(),
        ensures
            monitor_count > 1 && self.monitors.view().len() > 0 ==> r is Composite,
            !(monitor_count > 1 && self.monitors.view().len() > 0) ==> match self.playlist {
                Some(p) => match playlist_current(self.playlist) {
                    Some(c) => r matches RefreshPlan::Playlist { source, mode } && source@ == c && mode == p.mode,
                    None => r is Nothing,
                },
                None => if self.config.default.source@.len() > 0 {
                    r is Default
                } else {
                    r is Nothing
                },
            },
    {
        if monitor_count > 1 && !self.monitors.is_empty() {
            RefreshPlan::Composite
        } else {
            match &self.playlist {
                Some(p) => match p.current() {
                    Some(c) => RefreshPlan::Playlist { source: str_to_string(c), mode: p.mode },
                    None => RefreshPlan::Nothing,
                },
                None => if !self.config.default.source.as_str().is_empty() {
                    RefreshPlan::Default
                } else {
                    RefreshPlan::Nothing
                },
            }
        }
    }

    /// Switch to `workspace`; gives the wallpaper configured for it, if any.
    pub fn on_workspace_change(&mut self, workspace: usize) -> (r: Option<(String, ScaleMode)>)
        requires
            old(self).inv(),
        ensures
            final(self).inv(),
            final(self).current_workspace == workspace,
            final(self).monitors == old(self).monitors,
            final(self).paused == old(self).paused,
            final(self).config == old(self).config,
            final(self).playlist == old(self).playlist,
            final(self).slideshow_interval == old(self).slideshow_interval,
            match r {
                Some((source, mode)) => exists|i: int|
                    0 <= i < old(self).config.workspaces@.len()
                        && old(self).config.workspaces@[i].id == workspace
                        && (forall|j: int| 0 <= j < i ==> old(self).config.workspaces@[j].id != workspace)
                        && source@ == old(self).config.workspaces@[i].source@
                        && mode == match old(self).config.workspaces@[i].mode {
                            Some(m) => m,
                            None => old(self).config.general.mode,
                        },
                None => forall|j: int|
                    0 <= j < old(self).config.workspaces@.len() ==> old(self).config.workspaces@[j].id != workspace,
            },
    {
        self.current_workspace = workspace;
        match self.config.workspace(workspace) {
            Some(w) => {
                let mode = match w.mode {
                    Some(m) => m,
                    None => self.config.general.mode,
                };
                Some((w.source.clone(), mode))
            },
            None => None,
        }
    }

    /// Decides what a window manager event leads to: a workspace switch sets that
    /// workspace's wallpaper, an added or changed monitor refreshes, a removed monitor
    /// forgets its wallpaper, other events are ignored.
    pub fn handle_gar_event(&mut self, event: GarEvent) -> (r: GarAction)
        requires
            old(self).inv(),
        ensures
            final(self).inv(),
            final(self).paused == old(self).paused,
            final(self).config == old(self).config,
            final(self).playlist == old(self).playlist,
            final(self).slideshow_interval == old(self).slideshow_interval,
            match event {
                GarEvent::Workspace { current, .. } => final(self).current_workspace == current
                    && final(self).monitors == old(self).monitors
                    && (r is SetSource || r is Nothing)
                    && (r is Nothing <==> forall|j: int| 0 <= j < old(self).config.workspaces@.len()
                        ==> old(self).config.workspaces@[j].id != current),
                GarEvent::Monitor { name, action } => final(self).current_workspace == old(self).current_workspace
                    && if action@ == "added"@ || action@ == "changed"@ {
                        r is Refresh && final(self).monitors == old(self).monitors
                    } else if action@ == "removed"@ {
                        r is Nothing && final(self).monitors.view() == old(self).monitors.view().remove(name@)
                    } else {
                        r is Nothing && final(self).monitors == old(self).monitors
                    },
                _ => r is Nothing && final(self).monitors == old(self).monitors
                    && final(self).current_workspace == old(self).current_workspace,
            },
    {
        match event {
            GarEvent::Workspace { current, previous: _ } => {
                match self.on_workspace_change(current) {
                    Some((source, mode)) => GarAction::SetSource { source, mode },
                    None => GarAction::Nothing,
                }
            },
            GarEvent::Monitor { name, action } => {
                let a = action.as_str();
                if str_eq(a, "added") || str_eq(a, "changed") {
                    GarAction::Refresh
                } else if str_eq(a, "removed") {
                    self.monitors.remove(name.as_str());
                    GarAction::Nothing
                } else {
                    GarAction::Nothing
                }
            },
            GarEvent::Focus { .. } => GarAction::Nothing,
            GarEvent::Unknown => GarAction::Nothing,
        }
    }

    /// The image every monitor without its own wallpaper shows when compositing:
    /// the configured default source, else the current playlist image.
    pub fn default_image_source(&self) -> (r: Option<String>)
        ensures
            self.config.default.source@.len() > 0 ==> opt_view(r) == Some(self.config.default.source@),
            self.config.default.source@.len() == 0 ==> opt_view(r) == playlist_current(self.playlist),
    {
        if !self.config.default.source.as_str().is_empty() {
            Some(self.config.default.source.clone())
        } else {
            playlist_current_string(&self.playlist)
        }
    }

    /// For each monitor, its own wallpaper (if recorded) and the mode to scale with
    /// (its own, else the general mode).
    pub fn monitor_sources(&self, monitors: &[Monitor]) -> (r: Vec<MonitorSource>)
        requires
            self.monitors.inv(),
        ensures
            r@.len() == monitors@.len(),
            forall|i: int| 0 <= i < monitors@.len() ==> {
                let k = #[trigger] monitors@[i].name@;
                if self.monitors.view().contains_key(k) {
                    opt_view(r@[i].source) == Some(self.monitors.view()[k].0) && r@[i].mode
                        == self.monitors.view()[k].1
                } else {
                    r@[i].source is None && r@[i].mode == self.config.general.mode
                }
            },
    {
        let mut r: Vec<MonitorSource> = Vec::new();
        let mut i: usize = 0;
        while i < monitors.len()
            invariant
                self.monitors.inv(),
                i <= monitors@.len(),
                r@.len() == i,
                forall|j: int| 0 <= j < i ==> {
                    let k = #[trigger] monitors@[j].name@;
                    if self.monitors.view().contains_key(k) {
                        opt_view(r@[j].source) == Some(self.monitors.view()[k].0) && r@[j].mode
                            == self.monitors.view()[k].1
                    } else {
                        r@[j].source is None && r@[j].mode == self.config.general.mode
                    }
                },
            decreases monitors.len() - i,
        {
            let entry = match self.monitors.get(monitors[i].name.as_str()) {
                Some(w) => MonitorSource { source: Some(w.source.clone()), mode: w.mode },
                None => MonitorSource { source: None, mode: self.config.general.mode },
            };
            r.push(entry);
            i = i + 1;
        }
        r
    }

    /// Records the wallpaper of one monitor.
    pub fn record_monitor_wallpaper(&mut self, name: String, source: String, mode: ScaleMode)
        requires
            old(self).inv(),
        ensures
            final(self).inv(),
            final(self).monitors.view() == old(self).monitors.view().insert(name@, (source@, mode)),
            final(self).current_workspace == old(self).current_workspace,
            final(self).paused == old(self).paused,
            final(self).config == old(self).config,
            final(self).playlist == old(self).playlist,
            final(self).slideshow_interval == old(self).slideshow_interval,
    {
        self.monitors.insert(MonitorWallpaper { name, source, mode });
    }

    /// Builds a playlist from the images found in a directory source and makes it current;
    /// gives its first image. An empty listing is refused.
    pub fn install_playlist(&mut self, source: &str, images: Vec<String>, shuffle: bool, mode: ScaleMode) -> (r: Result<String, String>)
        requires
            old(self).inv(),
        ensures
            final(self).inv(),
            images@.len() == 0 ==> *final(self) == *old(self) && (r matches Err(e) && e@ == "No images found in directory: "@ + source@),
            images@.len() > 0 ==> {
                &&& final(self).playlist matches Some(p)
                &&& p.source@ == source@
                &&& p.source_type == source_type_of(source@)
                &&& p.current_index == 0
                &&& p.shuffled == shuffle
                &&& p.mode == mode
                &&& if shuffle { is_permutation(images@, p.images@) } else { p.images@ == images@ }
                &&& r matches Ok(first) && first@ == p.images@[0]@ && first@ == images@[0]@
            },
            final(self).monitors == old(self).monitors,
            final(self).current_workspace == old(self).current_workspace,
            final(self).paused == old(self).paused,
            final(self).config == old(self).config,
            final(self).slideshow_interval == old(self).slideshow_interval,
    {
        if images.len() == 0 {
            return Err(str_concat("No images found in directory: ", source));
        }
        let mut playlist = PlaylistState::new(str_to_string(source), detect_source_type(source), images, shuffle, mode);
        if shuffle {
            playlist.reshuffle();
        }
        let first = match playlist.current() {
            Some(s) => str_to_string(s),
            None => String::new(),
        };
        self.playlist = Some(playlist);
        Ok(first)
    }

    /// Steps the playlist forward or back, giving the image now shown.
    pub fn step_playlist(&mut self, forward: bool) -> (r: Result<SlideshowStep, String>)
        requires
            old(self).inv(),
            old(self).playlist matches Some(p) ==> (if forward {
                p.current_index < usize::MAX
            } else {
                p.images@.len() == 0 || p.current_index <= p.images@.len()
            }),
        ensures
            final(self).inv(),
            final(self).monitors == old(self).monitors,
            final(self).current_workspace == old(self).current_workspace,
            final(self).paused == old(self).paused,
            final(self).config == old(self).config,
            final(self).slideshow_interval == old(self).slideshow_interval,
            match old(self).playlist {
                None => final(self).playlist is None && (r matches Err(e) && e@ == no_playlist_message()),
                Some(p) => final(self).playlist matches Some(q) && (r matches Ok(step) && {
                    &&& step.mode == p.mode
                    &&& step.total == p.images@.len()
                    &&& step.current_index == q.current_index
                    &&& q.images@.len() == p.images@.len()
                    &&& q.same_settings(&p)
                    &&& (p.images@.len() == 0 ==> q == p && step.image@ == Seq::<char>::empty())
                    &&& (p.images@.len() > 0 ==> {
                        &&& q.current_index == if forward {
                            step_forward(p.current_index as int, p.images@.len() as int)
                        } else {
                            step_back(p.current_index as int, p.images@.len() as int)
                        }
                        &&& step.image@ == q.images@[q.current_index as int]@
                        &&& (forward && p.shuffled && p.current_index + 1 >= p.images@.len()) ==> is_permutation(p.images@, q.images@)
                        &&& !(forward && p.shuffled && p.current_index + 1 >= p.images@.len()) ==> q.images@ == p.images@
                    })
                }),
            },
    {
        match &mut self.playlist {
            None => Err(str_to_string("No active playlist")),
            Some(p) => {
                let image = if forward {
                    p.next()
                } else {
                    p.prev()
                };
                Ok(SlideshowStep { image, mode: p.mode, current_index: p.current_index, total: p.len() })
            },
        }
    }

    /// Jumps to a random image of the playlist, giving it.
    pub fn pick_random(&mut self) -> (r: Result<(String, ScaleMode), String>)
        requires
            old(self).inv(),
            old(self).playlist matches Some(p) ==> p.images@.len() > 0,
        ensures
            final(self).inv(),
            final(self).monitors == old(self).monitors,
            final(self).current_workspace == old(self).current_workspace,
            final(self).paused == old(self).paused,
            final(self).config == old(self).config,
            final(self).slideshow_interval == old(self).slideshow_interval,
            match old(self).playlist {
                None => final(self).playlist is None && (r matches Err(e) && e@ == no_playlist_message()),
                Some(p) => final(self).playlist matches Some(q) && q.images@ == p.images@ && q.same_settings(&p)
                    && q.in_range() && (r matches Ok((img, m)) && img@ == q.images@[q.current_index as int]@ && m == p.mode),
            },
    {
        match &mut self.playlist {
            None => Err(str_to_string("No active playlist")),
            Some(p) => {
                let idx = random_below(p.images.len());
                p.current_index = idx;
                let img = p.images[idx].clone();
                Ok((img, p.mode))
            },
        }
    }
}

/// Finds where a per-monitor wallpaper goes among the detected monitors.
pub fn find_monitor(monitors: &[Monitor], name: &str) -> (r: MonitorLookup)
    ensures
        monitors@.len() == 0 ==> r == MonitorLookup::NoMonitors,
        monitors@.len() > 0 ==> match r {
            MonitorLookup::Found(i) => i < monitors@.len() && monitors@[i as int].name@ == name@
                && forall|j: int| 0 <= j < i ==> monitors@[j].name@ != name@,
            MonitorLookup::NotFound => forall|j: int| 0 <= j < monitors@.len() ==> monitors@[j].name@ != name@,
            MonitorLookup::NoMonitors => false,
        },
{
    if monitors.len() == 0 {
        return MonitorLookup::NoMonitors;
    }
    let mut i: usize = 0;
    while i < monitors.len()
        invariant
            i <= monitors@.len(),
            forall|j: int| 0 <= j < i ==> monitors@[j].name@ != name@,
        decreases monitors.len() - i,
    {
        if str_eq(monitors[i].name.as_str(), name) {
            return MonitorLookup::Found(i);
        }
        i = i + 1;
    }
    MonitorLookup::NotFound
}

/// Pause law: toggling twice restores the pause state, pausing and resuming set it,
/// and other commands leave it alone.
pub proof fn law_pause_state(paused: bool, cmd: Command)
    ensures
        paused_after(Command::Toggle, paused_after(Command::Toggle, paused)) == paused,
        paused_after(Command::Pause, paused),
        !paused_after(Command::Resume, paused),
        paused_after(Command::Toggle, paused) == !paused,
        !(cmd is Pause || cmd is Resume || cmd is Toggle) ==> paused_after(cmd, paused) == paused,
{
}

/// The image a monitor is drawn with: its own where it loaded, else the default
/// wallpaper's image where there is one; nothing (a black screen) otherwise. A failed load
/// of its own image falls back the same way.
pub fn pick_image<T>(own: Option<Result<T, String>>, default: Option<T>) -> (r: Option<T>)
    ensures
        match own {
            Some(Ok(x)) => r == Some(x),
            _ => r == default,
        },
{
    match own {
        Some(Ok(x)) => Some(x),
        _ => default,
    }
}

} // verus!
