//! Configuration types and their defaults.

use vstd::prelude::*;
use crate::text::{ascii_lower, ascii_upper, is_ascii_text, lowercase, str_to_lowercase, str_eq, str_concat};
use crate::time_span::TimeSpan;

verus! {

/// Image scaling mode
#[derive(Debug, Clone, Copy, PartialEq, Eq, Structural)]
pub enum ScaleMode {
    /// Scale to fill the screen, cropping excess
    Fill,
    /// Scale to fit within the screen, letterboxing if needed
    Fit,
    /// Stretch to exact screen size, ignoring aspect ratio
    Stretch,
    /// Display at original size, centered
    Center,
    /// Tile the image to fill the screen
    Tile,
}

/// The name a mode is written and read as.
pub open spec fn scale_mode_name(m: ScaleMode) -> Seq<char> {
    match m {
        ScaleMode::Fill => "fill"@,
        ScaleMode::Fit => "fit"@,
        ScaleMode::Stretch => "stretch"@,
        ScaleMode::Center => "center"@,
        ScaleMode::Tile => "tile"@,
    }
}

/// The mode whose name is exactly `n`, if any.
pub open spec fn scale_mode_from_name(n: Seq<char>) -> Option<ScaleMode> {
    if n == "fill"@ {
        Some(ScaleMode::Fill)
    } else if n == "fit"@ {
        Some(ScaleMode::Fit)
    } else if n == "stretch"@ {
        Some(ScaleMode::Stretch)
    } else if n == "center"@ {
        Some(ScaleMode::Center)
    } else if n == "tile"@ {
        Some(ScaleMode::Tile)
    } else {
        None
    }
}

/// The message given for a mode name that is not known.
pub open spec fn unknown_mode_message(s: Seq<char>) -> Seq<char> {
    "Unknown scale mode: "@ + s + ". Valid modes: fill, fit, stretch, center, tile"@
}

impl ScaleMode {
    /// The lowercase name of the mode, as it is displayed.
    pub fn name(&self) -> (r: &'static str)
        ensures
            r@ == scale_mode_name(*self),
    {
        match self {
            ScaleMode::Fill => "fill",
            ScaleMode::Fit => "fit",
            ScaleMode::Stretch => "stretch",
            ScaleMode::Center => "center",
            ScaleMode::Tile => "tile",
        }
    }

    /// Reads a mode from its name, ignoring case.
    pub fn parse(s: &str) -> (r: Result<ScaleMode, String>)
        ensures
            is_ascii_text(s@) ==> lowercase(s@) == ascii_lower(s@),
            match r {
                Ok(m) => scale_mode_from_name(lowercase(s@)) == Some(m),
                Err(e) => scale_mode_from_name(lowercase(s@)) is None && e@
                    == unknown_mode_message(s@),
            },
    {
        let l = str_to_lowercase(s);
        let ls = l.as_str();
        if str_eq(ls, "fill") {
            Ok(ScaleMode::Fill)
        } else if str_eq(ls, "fit") {
            Ok(ScaleMode::Fit)
        } else if str_eq(ls, "stretch") {
            Ok(ScaleMode::Stretch)
        } else if str_eq(ls, "center") {
            Ok(ScaleMode::Center)
        } else if str_eq(ls, "tile") {
            Ok(ScaleMode::Tile)
        } else {
            let a = str_concat("Unknown scale mode: ", s);
            let e = str_concat(a.as_str(), ". Valid modes: fill, fit, stretch, center, tile");
            Err(e)
        }
    }
}

/// Lowercase ASCII letters are ASCII text that lowercasing keeps and that uppercasing then
/// lowercasing gives back.
proof fn lemma_lower_letters(s: Seq<char>)
    requires
        forall|i: int| 0 <= i < s.len() ==> 'a' <= #[trigger] s[i] && s[i] <= 'z',
    ensures
        is_ascii_text(s),
        ascii_lower(s) == s,
        is_ascii_text(ascii_upper(s)),
        ascii_lower(ascii_upper(s)) == s,
{
    assert forall|i: int| 0 <= i < s.len() implies (#[trigger] s[i] as u32) < 128 by {}
    assert(ascii_lower(s) =~= s);
    let u = ascii_upper(s);
    assert forall|i: int| 0 <= i < u.len() implies 'A' <= #[trigger] u[i] && u[i] <= 'Z' && (u[i] as u32) + 32 == s[i] as u32 by {
        assert('a' <= s[i] && s[i] <= 'z');
    }
    assert forall|i: int| 0 <= i < u.len() implies (#[trigger] u[i] as u32) < 128 by {
        assert('A' <= u[i] && u[i] <= 'Z');
    }
    assert forall|i: int| 0 <= i < s.len() implies #[trigger] ascii_lower(u)[i] == s[i] by {
        assert('A' <= u[i] && u[i] <= 'Z' && (u[i] as u32) + 32 == s[i] as u32);
    }
    assert(ascii_lower(u) =~= s);
}

/// Name round trip: every mode's name, and that name in capitals, reads back as the mode
/// (each is ASCII text, whose lowercase `parse` states).
pub proof fn law_scale_mode_name_round_trip(m: ScaleMode)
    ensures
        is_ascii_text(scale_mode_name(m)),
        scale_mode_from_name(ascii_lower(scale_mode_name(m))) == Some(m),
        is_ascii_text(ascii_upper(scale_mode_name(m))),
        scale_mode_from_name(ascii_lower(ascii_upper(scale_mode_name(m)))) == Some(m),
{
    reveal_strlit("fill");
    reveal_strlit("fit");
    reveal_strlit("stretch");
    reveal_strlit("center");
    reveal_strlit("tile");
    let n = scale_mode_name(m);
    assert forall|i: int| 0 <= i < n.len() implies 'a' <= #[trigger] n[i] && n[i] <= 'z' by {
        match m {
            ScaleMode::Fill => {},
            ScaleMode::Fit => {},
            ScaleMode::Stretch => {},
            ScaleMode::Center => {},
            ScaleMode::Tile => {},
        }
    }
    lemma_lower_letters(n);
    assert("fit"@.len() != "fill"@.len());
    assert("stretch"@.len() != "fill"@.len() && "stretch"@.len() != "fit"@.len());
    assert("center"@.len() != "fill"@.len() && "center"@.len() != "fit"@.len() && "center"@.len() != "stretch"@.len());
    assert("tile"@[0] != "fill"@[0]);
    assert("tile"@.len() != "fit"@.len() && "tile"@.len() != "stretch"@.len() && "tile"@.len() != "center"@.len());
}

impl Default for ScaleMode {
    fn default() -> (r: ScaleMode)
        ensures
            r == ScaleMode::Fill,
    {
        ScaleMode::Fill
    }
}

impl std::str::FromStr for ScaleMode {
    type Err = String;

    fn from_str(s: &str) -> (r: Result<ScaleMode, String>)
        ensures
            is_ascii_text(s@) ==> lowercase(s@) == ascii_lower(s@),
            match r {
                Ok(m) => scale_mode_from_name(lowercase(s@)) == Some(m),
                Err(e) => scale_mode_from_name(lowercase(s@)) is None && e@ == unknown_mode_message(s@),
            },
    {
        ScaleMode::parse(s)
    }
}

/// General configuration options
#[derive(Debug, Clone)]
pub struct GeneralConfig {
    /// Default scaling mode
    pub mode: ScaleMode,
}

impl Default for GeneralConfig {
    fn default() -> (r: GeneralConfig)
        ensures
            r.mode == ScaleMode::Fill,
    {
        GeneralConfig { mode: ScaleMode::Fill }
    }
}

/// Animation configuration
#[derive(Debug, Clone)]
pub struct AnimationConfig {
    /// Whether animations are enabled
    pub enabled: bool,
    /// Maximum FPS for animations
    pub max_fps: u32,
    /// Pause animations when idle/locked
    pub pause_on_idle: bool,
    /// Maximum memory budget for pre-scaled animation frames (in MB).
    pub memory_budget_mb: u64,
}

impl Default for AnimationConfig {
    fn default() -> (r: AnimationConfig)
        ensures
            r.enabled,
            r.max_fps == 60,
            r.pause_on_idle,
            r.memory_budget_mb == 256,
    {
        AnimationConfig { enabled: true, max_fps: 60, pause_on_idle: true, memory_budget_mb: 256 }
    }
}

/// Cache configuration
#[derive(Debug, Clone)]
pub struct CacheConfig {
    /// Cache directory (default: ~/.cache/garbg)
    pub directory: Option<String>,
    /// Maximum cache size in MB
    pub max_size_mb: u64,
    /// Maximum age of cached items in days
    pub max_age_days: u32,
}

impl Default for CacheConfig {
    fn default() -> (r: CacheConfig)
        ensures
            r.directory is None,
            r.max_size_mb == 1024,
            r.max_age_days == 30,
    {
        CacheConfig { directory: None, max_size_mb: 1024, max_age_days: 30 }
    }
}

/// Slideshow configuration
#[derive(Debug, Clone, Copy)]
pub struct SlideshowConfig {
    /// Whether slideshow is enabled
    pub enabled: bool,
    /// Interval between slides
    pub interval: TimeSpan,
    /// Shuffle order
    pub shuffle: bool,
}

impl SlideshowConfig {
    pub open spec fn wf(self) -> bool {
        self.interval.wf()
    }
}

impl Default for SlideshowConfig {
    fn default() -> (r: SlideshowConfig)
        ensures
            !r.enabled,
            r.interval == TimeSpan::from_secs_spec(300),
            r.shuffle,
    {
        SlideshowConfig { enabled: false, interval: TimeSpan::from_secs(300), shuffle: true }
    }
}

/// Default wallpaper configuration
#[derive(Debug, Clone)]
pub struct DefaultConfig {
    /// Source path or URI
    pub source: String,
    /// Scaling mode
    pub mode: ScaleMode,
    /// Slideshow configuration
    pub slideshow: Option<SlideshowConfig>,
}

impl Default for DefaultConfig {
    fn default() -> (r: DefaultConfig)
        ensures
            r.source@ == Seq::<char>::empty(),
            r.mode == ScaleMode::Fill,
            r.slideshow is None,
    {
        DefaultConfig { source: String::new(), mode: ScaleMode::Fill, slideshow: None }
    }
}

/// Per-workspace wallpaper configuration
#[derive(Debug, Clone)]
pub struct WorkspaceConfig {
    /// Workspace ID (1-indexed)
    pub id: usize,
    /// Source path or URI
    pub source: String,
    /// Scaling mode (uses the general mode if not specified)
    pub mode: Option<ScaleMode>,
}

/// Per-monitor wallpaper configuration
#[derive(Debug, Clone)]
pub struct MonitorConfig {
    /// Monitor name (RandR output name, e.g., "DP-1")
    pub name: String,
    /// Source path or URI
    pub source: String,
    /// Scaling mode (uses the general mode if not specified)
    pub mode: Option<ScaleMode>,
    /// Slideshow configuration
    pub slideshow: Option<SlideshowConfig>,
}

/// Main configuration structure
#[derive(Debug, Clone)]
pub struct Config {
    /// General settings
    pub general: GeneralConfig,
    /// Animation settings
    pub animation: AnimationConfig,
    /// Cache settings
    pub cache: CacheConfig,
    /// Default wallpaper source
    pub default: DefaultConfig,
    /// Per-workspace wallpaper configurations
    pub workspaces: Vec<WorkspaceConfig>,
    /// Per-monitor wallpaper configurations
    pub monitors: Vec<MonitorConfig>,
}

impl Config {
    /// Every time span in the configuration is in normal form.
    pub open spec fn wf(&self) -> bool {
        self.default.slideshow matches Some(s) ==> s.wf()
    }

    /// The slideshow interval the configuration asks for: that of the default
    /// slideshow, when it is enabled.
    pub open spec fn slideshow_interval_spec(&self) -> Option<TimeSpan> {
        match self.default.slideshow {
            Some(s) => if s.enabled {
                Some(s.interval)
            } else {
                None
            },
            None => None,
        }
    }

    /// The slideshow interval the configuration asks for.
    pub fn slideshow_interval(&self) -> (r: Option<TimeSpan>)
        ensures
            r == self.slideshow_interval_spec(),
    {
        match &self.default.slideshow {
            Some(s) => if s.enabled {
                Some(s.interval)
            } else {
                None
            },
            None => None,
        }
    }

    /// The configuration of workspace `id`: the first entry with that id.
    pub fn workspace(&self, id: usize) -> (r: Option<&WorkspaceConfig>)
        ensures
            match r {
                Some(w) => exists|i: int|
                    0 <= i < self.workspaces@.len() && self.workspaces@[i] == *w && w.id == id
                        && forall|j: int| 0 <= j < i ==> self.workspaces@[j].id != id,
                None => forall|j: int| 0 <= j < self.workspaces@.len() ==> self.workspaces@[j].id != id,
            },
    {
        let mut i: usize = 0;
        while i < self.workspaces.len()
            invariant
                i <= self.workspaces@.len(),
                forall|j: int| 0 <= j < i ==> self.workspaces@[j].id != id,
            decreases self.workspaces.len() - i,
        {
            if self.workspaces[i].id == id {
                return Some(&self.workspaces[i]);
            }
            i = i + 1;
        }
        None
    }
}

impl Default for Config {
    fn default() -> (r: Config)
        ensures
            r.general.mode == ScaleMode::Fill,
            r.animation.enabled && r.animation.max_fps == 60 && r.animation.pause_on_idle
                && r.animation.memory_budget_mb == 256,
            r.cache.directory is None && r.cache.max_size_mb == 1024 && r.cache.max_age_days == 30,
            r.default.source@ == Seq::<char>::empty() && r.default.mode == ScaleMode::Fill
                && r.default.slideshow is None,
            r.workspaces@.len() == 0,
            r.monitors@.len() == 0,
            r.wf(),
    {
        Config {
            general: GeneralConfig::default(),
            animation: AnimationConfig::default(),
            cache: CacheConfig::default(),
            default: DefaultConfig::default(),
            workspaces: Vec::new(),
            monitors: Vec::new(),
        }
    }
}

} // verus!
