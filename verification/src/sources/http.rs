//! Single images over HTTP(S): what a URL names and what its listing holds.

use vstd::prelude::*;
use crate::sources::provider::{MediaType, WallpaperEntry, EntryView, lower_ext, media_type_among, media_type_by_extension, str_views};
use crate::text::{after_last, before_first, piece_after_last, piece_before, str_starts_with, str_to_string};

verus! {

/// The URI is an `http://` or `https://` URL.
pub open spec fn http_handles(uri: Seq<char>) -> bool {
    "http://"@.is_prefix_of(uri) || "https://"@.is_prefix_of(uri)
}

/// The video extensions recognised in URLs.
pub open spec fn url_video_exts() -> Seq<Seq<char>> {
    seq!["mp4"@, "webm"@, "mkv"@]
}

/// The media type of a URL: by the extension of its part before any query.
pub open spec fn url_media_type(url: Seq<char>) -> MediaType {
    media_type_among(lower_ext(before_first(url, '?')), url_video_exts())
}

/// The display name of a URL: its last path segment, without any query.
pub open spec fn url_entry_name(url: Seq<char>) -> Seq<char> {
    before_first(after_last(url, '/'), '?')
}

/// Provider for HTTP/HTTPS URLs
#[derive(Debug, Clone, Copy)]
pub struct HttpProvider;

impl HttpProvider {
    pub fn new() -> (r: HttpProvider) {
        HttpProvider
    }

    /// Provider identifier
    pub fn id(&self) -> (r: &'static str)
        ensures
            r@ == "http"@,
    {
        "http"
    }

    /// Check if this provider can handle a given URI
    pub fn can_handle(&self, uri: &str) -> (r: bool)
        ensures
            r == http_handles(uri@),
    {
        str_starts_with(uri, "http://") || str_starts_with(uri, "https://")
    }

    /// Determine media type from URL
    pub fn media_type_from_url(url: &str) -> (r: MediaType)
        ensures
            r == url_media_type(url@),
    {
        let path = piece_before(url, '?');
        let videos = ["mp4", "webm", "mkv"];
        proof {
            reveal_strlit("mp4");
            reveal_strlit("webm");
            reveal_strlit("mkv");
            assert(str_views(videos@) =~= url_video_exts());
        }
        media_type_by_extension(path.as_str(), &videos)
    }

    /// The display name of a URL
    pub fn entry_name(uri: &str) -> (r: String)
        ensures
            r@ == url_entry_name(uri@),
    {
        let last = piece_after_last(uri, '/');
        piece_before(last.as_str(), '?')
    }

    /// List the wallpapers at a URL: the URL itself, as a single entry. (Directory
    /// listings are the directory index provider's.)
    pub fn list(&self, uri: &str) -> (r: Vec<WallpaperEntry>)
        ensures
            r@.len() == 1,
            r@[0].view_of() == (uri@, url_entry_name(uri@), url_media_type(uri@), None::<u64>),
            r@[0].metadata@.len() == 0,
    {
        let name = HttpProvider::entry_name(uri);
        let e = WallpaperEntry::new(str_to_string(uri), name, HttpProvider::media_type_from_url(uri), None);
        vec![e]
    }
}

} // verus!
