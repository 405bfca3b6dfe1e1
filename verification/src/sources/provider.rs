//! What a wallpaper source lists and gives back, and the registry that picks the provider
//! for a URI.

use vstd::prelude::*;
use std::collections::HashMap;
use crate::media::pixels::RgbaImage;
use crate::text::{lowercase, path_extension, path_extension_of, str_eq, str_to_lowercase, str_starts_with};
use crate::sources::directory::directory_handles;
use crate::sources::http::http_handles;

verus! {

/// Type of media content
#[derive(Debug, Clone, Copy, PartialEq, Eq, Structural)]
pub enum MediaType {
    /// Static image (PNG, JPEG, WebP, etc.)
    StaticImage,
    /// Animated image (GIF, APNG, animated WebP)
    AnimatedImage,
    /// Video file (MP4, WebM)
    Video,
}

/// Entry representing a wallpaper from a source
#[derive(Debug, Clone)]
pub struct WallpaperEntry {
    /// Full URI to the wallpaper
    pub uri: String,
    /// Display name
    pub name: String,
    /// Type of media
    pub media_type: MediaType,
    /// File size in bytes (if known)
    pub size: Option<u64>,
    /// Additional metadata
    pub metadata: HashMap<String, String>,
}

/// An entry as plain values: URI, name, media type, size.
pub type EntryView = (Seq<char>, Seq<char>, MediaType, Option<u64>);

impl WallpaperEntry {
    /// The entry as plain values.
    pub open spec fn view_of(&self) -> EntryView {
        (self.uri@, self.name@, self.media_type, self.size)
    }

    /// An entry with no metadata.
    pub fn new(uri: String, name: String, media_type: MediaType, size: Option<u64>) -> (e: WallpaperEntry)
        ensures
            e.view_of() == (uri@, name@, media_type, size),
            e.metadata@.len() == 0,
    {
        WallpaperEntry { uri, name, media_type, size, metadata: HashMap::new() }
    }
}

/// No entry of the list carries metadata.
pub open spec fn no_metadata(es: Seq<WallpaperEntry>) -> bool {
    forall|i: int| 0 <= i < es.len() ==> (#[trigger] es[i]).metadata@.len() == 0
}

/// The plain values of a list of entries.
pub open spec fn entry_views(es: Seq<WallpaperEntry>) -> Seq<EntryView> {
    es.map_values(|e: WallpaperEntry| e.view_of())
}

/// Result of fetching a wallpaper
#[derive(Debug)]
pub struct FetchedImage {
    /// The decoded image data
    pub image: RgbaImage,
    /// Original URI
    pub uri: String,
    /// Media type
    pub media_type: MediaType,
}

/// The lowercase extension of a path, if it has one.
pub open spec fn lower_ext(path: Seq<char>) -> Option<Seq<char>> {
    match path_extension_of(path) {
        Some(e) => Some(lowercase(e)),
        None => None,
    }
}

/// The media type a lowercase extension gives, where `videos` lists the video extensions:
/// GIF and APNG are animated, the listed ones are video, everything else is a still image.
pub open spec fn media_type_among(ext: Option<Seq<char>>, videos: Seq<Seq<char>>) -> MediaType {
    match ext {
        Some(e) => if e == "gif"@ || e == "apng"@ {
            MediaType::AnimatedImage
        } else if videos.contains(e) {
            MediaType::Video
        } else {
            MediaType::StaticImage
        },
        None => MediaType::StaticImage,
    }
}

/// The characters of each string slice.
pub open spec fn str_views(v: Seq<&str>) -> Seq<Seq<char>> {
    v.map_values(|s: &str| s@)
}

/// The media type of a path by its extension, with `videos` as the video extensions.
pub fn media_type_by_extension(path: &str, videos: &[&str]) -> (r: MediaType)
    ensures
        r == media_type_among(lower_ext(path@), str_views(videos@)),
{
    match path_extension(path) {
        Some(ext) => {
            let l = str_to_lowercase(ext.as_str());
            let e = l.as_str();
            if str_eq(e, "gif") || str_eq(e, "apng") {
                return MediaType::AnimatedImage;
            }
            let mut i: usize = 0;
            while i < videos.len()
                invariant
                    i <= videos@.len(),
                    e@ == lowercase(ext@),
                    e@ != "gif"@,
                    e@ != "apng"@,
                    path_extension_of(path@) == Some(ext@),
                    forall|j: int| 0 <= j < i ==> videos@[j]@ != e@,
                decreases videos.len() - i,
            {
                if str_eq(videos[i], e) {
                    proof {
                        assert(str_views(videos@)[i as int] == e@);
                        assert(str_views(videos@).contains(e@));
                    }
                    return MediaType::Video;
                }
                i = i + 1;
            }
            proof {
                assert forall|j: int| 0 <= j < str_views(videos@).len() implies str_views(videos@)[j] != e@ by {
                    assert(str_views(videos@)[j] == videos@[j]@);
                }
            }
            MediaType::StaticImage
        },
        None => MediaType::StaticImage,
    }
}

/// The kinds of source provider
#[derive(Debug, Clone, Copy, PartialEq, Eq, Structural)]
pub enum ProviderKind {
    /// Local files and directories
    File,
    /// Single images over HTTP(S)
    Http,
    /// GitHub repositories
    GitHub,
    /// HTTP directory indexes
    Directory,
    /// S3 buckets
    S3,
}

/// Whether a provider of this kind can handle the URI.
pub open spec fn handles(kind: ProviderKind, uri: Seq<char>) -> bool {
    match kind {
        ProviderKind::File => "file://"@.is_prefix_of(uri) || "/"@.is_prefix_of(uri) || "~"@.is_prefix_of(uri),
        ProviderKind::Http => http_handles(uri),
        ProviderKind::GitHub => "github://"@.is_prefix_of(uri),
        ProviderKind::Directory => directory_handles(uri),
        ProviderKind::S3 => "s3://"@.is_prefix_of(uri),
    }
}

impl ProviderKind {
    /// Provider identifier (e.g., "file", "http", "github")
    pub fn id(&self) -> (r: &'static str)
        ensures
            r@ == match *self {
                ProviderKind::File => "file"@,
                ProviderKind::Http => "http"@,
                ProviderKind::GitHub => "github"@,
                ProviderKind::Directory => "directory"@,
                ProviderKind::S3 => "s3"@,
            },
    {
        match self {
            ProviderKind::File => "file",
            ProviderKind::Http => "http",
            ProviderKind::GitHub => "github",
            ProviderKind::Directory => "directory",
            ProviderKind::S3 => "s3",
        }
    }

    /// Check if this provider can handle a given URI
    pub fn can_handle(&self, uri: &str) -> (r: bool)
        ensures
            r == handles(*self, uri@),
    {
        match self {
            ProviderKind::File => crate::sources::file::FileProvider::new().can_handle(uri),
            ProviderKind::Http => crate::sources::http::HttpProvider::new().can_handle(uri),
            ProviderKind::GitHub => str_starts_with(uri, "github://"),
            ProviderKind::Directory => crate::sources::directory::DirectoryIndexProvider::new().can_handle(uri),
            ProviderKind::S3 => str_starts_with(uri, "s3://"),
        }
    }

    /// Whether this source supports streaming (for video)
    pub fn supports_streaming(&self) -> (r: bool)
        ensures
            !r,
    {
        false
    }
}

/// The position of the first kind in `ps` that handles the URI, if any.
pub open spec fn first_handler(ps: Seq<ProviderKind>, uri: Seq<char>) -> Option<int> {
    if exists|i: int| 0 <= i < ps.len() && #[trigger] handles(ps[i], uri) {
        Some(choose|i: int| 0 <= i < ps.len() && #[trigger] handles(ps[i], uri) && forall|j: int| 0 <= j < i ==> !handles(ps[j], uri))
    } else {
        None
    }
}

/// Registry of all available providers
#[derive(Debug)]
pub struct ProviderRegistry {
    providers: Vec<ProviderKind>,
}

impl ProviderRegistry {
    /// The registered providers, in registration order.
    pub closed spec fn kinds(&self) -> Seq<ProviderKind> {
        self.providers@
    }

    /// Create a new registry with default providers: the local-file provider.
    pub fn new() -> (r: ProviderRegistry)
        ensures
            r.kinds() == seq![ProviderKind::File],
    {
        let mut providers: Vec<ProviderKind> = Vec::new();
        providers.push(ProviderKind::File);
        proof {
            assert(providers@ =~= seq![ProviderKind::File]);
        }
        ProviderRegistry { providers }
    }

    /// Register a provider
    pub fn register(&mut self, provider: ProviderKind)
        ensures
            final(self).kinds() == old(self).kinds().push(provider),
    {
        self.providers.push(provider);
    }

    /// Find the first registered provider that can handle a URI
    pub fn find_provider(&self, uri: &str) -> (r: Option<ProviderKind>)
        ensures
            match first_handler(self.kinds(), uri@) {
                Some(i) => r == Some(self.kinds()[i]),
                None => r is None,
            },
    {
        let mut i: usize = 0;
        while i < self.providers.len()
            invariant
                i <= self.providers@.len(),
                forall|j: int| 0 <= j < i ==> !handles(self.providers@[j], uri@),
            decreases self.providers.len() - i,
        {
            if self.providers[i].can_handle(uri) {
                proof {
                    let ps = self.providers@;
                    assert(handles(ps[i as int], uri@));
                    let c = choose|k: int| 0 <= k < ps.len() && #[trigger] handles(ps[k], uri@) && forall|j: int| 0 <= j < k ==> !handles(ps[j], uri@);
                    assert(0 <= c < ps.len() && handles(ps[c], uri@) && forall|j: int| 0 <= j < c ==> !handles(ps[j], uri@));
                    if c < i {
                    } else if c > i {
                        assert(!handles(ps[i as int], uri@));
                    }
                }
                return Some(self.providers[i]);
            }
            i = i + 1;
        }
        None
    }

    /// Get all registered providers
    pub fn providers(&self) -> (r: &[ProviderKind])
        ensures
            r@ == self.kinds(),
    {
        self.providers.as_slice()
    }
}

impl Default for ProviderRegistry {
    /// A registry with the default providers: local files only.
    fn default() -> (r: ProviderRegistry)
        ensures
            r.kinds() == seq![ProviderKind::File],
    {
        ProviderRegistry::new()
    }
}

} // verus!
