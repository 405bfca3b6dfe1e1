//! HTTP directory indexes (Apache/nginx autoindex): which links of a listing page are
//! wallpapers, and the full URL of each.

use vstd::prelude::*;
use crate::media::loader::{format_of_path, ImageLoader};
use crate::sources::http::http_handles;
use crate::sources::provider::{MediaType, WallpaperEntry, no_metadata, EntryView, entry_views, lower_ext, media_type_among, media_type_by_extension, str_views};
use crate::text::{is_infix_of, opt_view, str_concat, str_contains, str_ends_with, str_eq, str_starts_with, str_to_string, str_trim, trimmed};
use scraper::{Html, Selector};

verus! {

/// The URI is an HTTP(S) URL that looks like a directory listing.
pub open spec fn directory_handles(uri: Seq<char>) -> bool {
    http_handles(uri) && ("/"@.is_suffix_of(uri) || is_infix_of("?C="@, uri) || is_infix_of("autoindex"@, uri))
}

/// The links of an HTML document: for each `a` element with an `href`, in document order,
/// the `href` and the element's text.
pub uninterp spec fn html_anchor_links(html: Seq<char>) -> Seq<(Seq<char>, Seq<char>)>;

/// The scheme and host of a URL, if it parses as an absolute URL.
pub uninterp spec fn url_scheme_host(url: Seq<char>) -> Option<(Seq<char>, Option<Seq<char>>)>;

/// The characters of each pair of strings.
pub open spec fn pair_views(v: Seq<(String, String)>) -> Seq<(Seq<char>, Seq<char>)> {
    v.map_values(|p: (String, String)| (p.0@, p.1@))
}

/// Parses an HTML document (`scraper::Html::parse_document`) and selects `a[href]`; gives
/// each element's `href` and text, named `html_anchor_links`.
#[verifier::external_body]
fn anchor_links(html: &str) -> (r: Vec<(String, String)>)
    ensures
        pair_views(r@) == html_anchor_links(html@),
{
    let document = Html::parse_document(html);
    let selector = Selector::parse("a[href]").unwrap();
    document
        .select(&selector)
        .filter_map(|e| e.value().attr("href").map(|h| (h.to_string(), e.text().collect::<String>())))
        .collect()
}

/// Parses a URL (`url::Url::parse`); gives its scheme and host, named `url_scheme_host`.
#[verifier::external_body]
fn scheme_and_host(url: &str) -> (r: Option<(String, Option<String>)>)
    ensures
        match r {
            Some((s, h)) => url_scheme_host(url@) == Some((s@, opt_view(h))),
            None => url_scheme_host(url@) is None,
        },
{
    url::Url::parse(url).ok().map(|u| (u.scheme().to_string(), u.host_str().map(|h| h.to_string())))
}

/// A link to the parent directory or to a re-sorted listing.
pub open spec fn is_skipped_href(href: Seq<char>) -> bool {
    href == "../"@ || href == ".."@ || "?"@.is_prefix_of(href)
}

/// The full URL of a link on the listing at `base`.
pub open spec fn full_link_url(href: Seq<char>, base: Seq<char>) -> Seq<char> {
    if "http://"@.is_prefix_of(href) || "https://"@.is_prefix_of(href) {
        href
    } else if "/"@.is_prefix_of(href) {
        match url_scheme_host(base) {
            Some((scheme, host)) => scheme + "://"@ + match host { Some(h) => h, None => Seq::empty() } + href,
            None => href,
        }
    } else if "/"@.is_suffix_of(base) {
        base + href
    } else {
        base + "/"@ + href
    }
}

/// The display name of a link: its trimmed text, or its `href` where that is empty.
pub open spec fn link_name(href: Seq<char>, text: Seq<char>) -> Seq<char> {
    if trimmed(text).len() == 0 { href } else { trimmed(text) }
}

/// The (name, full URL) pairs of the links of a listing, parents and re-sorts left out.
pub open spec fn listing_links(links: Seq<(Seq<char>, Seq<char>)>, base: Seq<char>) -> Seq<(Seq<char>, Seq<char>)>
    decreases links.len(),
{
    if links.len() == 0 {
        Seq::empty()
    } else {
        let rest = listing_links(links.drop_last(), base);
        let (href, text) = links.last();
        if is_skipped_href(href) {
            rest
        } else {
            rest.push((link_name(href, text), full_link_url(href, base)))
        }
    }
}

/// The video extensions recognised in listings.
pub open spec fn listing_video_exts() -> Seq<Seq<char>> {
    seq!["mp4"@, "webm"@]
}

/// The entries of a listing's links: those whose name is a supported image.
pub open spec fn listing_entries(links: Seq<(Seq<char>, Seq<char>)>) -> Seq<EntryView>
    decreases links.len(),
{
    if links.len() == 0 {
        Seq::empty()
    } else {
        let rest = listing_entries(links.drop_last());
        let (name, url) = links.last();
        if format_of_path(name) is Some {
            rest.push((url, name, media_type_among(lower_ext(name), listing_video_exts()), None))
        } else {
            rest
        }
    }
}

/// Provider for HTTP directory indexes (Apache/nginx autoindex)
#[derive(Debug, Clone, Copy)]
pub struct DirectoryIndexProvider;

impl DirectoryIndexProvider {
    pub fn new() -> (r: DirectoryIndexProvider) {
        DirectoryIndexProvider
    }

    /// Provider identifier
    pub fn id(&self) -> (r: &'static str)
        ensures
            r@ == "directory"@,
    {
        "directory"
    }

    /// This provider handles HTTP URLs that end with / (directory listings), or are
    /// explicitly marked as directory indexes
    pub fn can_handle(&self, uri: &str) -> (r: bool)
        ensures
            r == directory_handles(uri@),
    {
        (str_starts_with(uri, "http://") || str_starts_with(uri, "https://"))
            && (str_ends_with(uri, "/") || str_contains(uri, "?C=") || str_contains(uri, "autoindex"))
    }

    /// Determine media type from filename
    pub fn media_type_from_filename(name: &str) -> (r: MediaType)
        ensures
            r == media_type_among(lower_ext(name@), listing_video_exts()),
    {
        let videos = ["mp4", "webm"];
        proof {
            reveal_strlit("mp4");
            reveal_strlit("webm");
            assert(str_views(videos@) =~= listing_video_exts());
        }
        media_type_by_extension(name, &videos)
    }

    /// Check if a filename is a supported image format
    pub fn is_image_file(name: &str) -> (r: bool)
        ensures
            r == format_of_path(name@) is Some,
    {
        ImageLoader::is_supported_format(name)
    }

    /// The full URL of a link on the listing at `base_url`.
    pub fn full_url(href: &str, base_url: &str) -> (r: String)
        ensures
            r@ == full_link_url(href@, base_url@),
    {
        if str_starts_with(href, "http://") || str_starts_with(href, "https://") {
            str_to_string(href)
        } else if str_starts_with(href, "/") {
            match scheme_and_host(base_url) {
                Some((scheme, host)) => {
                    let a = str_concat(scheme.as_str(), "://");
                    let b = match &host {
                        Some(h) => str_concat(a.as_str(), h.as_str()),
                        None => str_concat(a.as_str(), ""),
                    };
                    proof {
                        reveal_strlit("");
                    }
                    str_concat(b.as_str(), href)
                },
                None => str_to_string(href),
            }
        } else if str_ends_with(base_url, "/") {
            str_concat(base_url, href)
        } else {
            let b = str_concat(base_url, "/");
            str_concat(b.as_str(), href)
        }
    }

    /// Parse links from HTML directory listing: (name, full URL) of each link, parent
    /// directory and re-sort links left out
    pub fn parse_directory_html(html: &str, base_url: &str) -> (r: Vec<(String, String)>)
        ensures
            pair_views(r@) == listing_links(html_anchor_links(html@), base_url@),
    {
        let links = anchor_links(html);
        let mut out: Vec<(String, String)> = Vec::new();
        let mut i: usize = 0;
        while i < links.len()
            invariant
                i <= links@.len(),
                pair_views(links@) == html_anchor_links(html@),
                pair_views(out@) == listing_links(pair_views(links@).take(i as int), base_url@),
            decreases links.len() - i,
        {
            let ghost before = out@;
            let href = links[i].0.as_str();
            let text = links[i].1.as_str();
            proof {
                let t = pair_views(links@).take(i + 1);
                assert(t.drop_last() =~= pair_views(links@).take(i as int));
                assert(t.last() == (href@, text@));
            }
            if !(str_eq(href, "../") || str_eq(href, "..") || str_starts_with(href, "?")) {
                let trimmed_text = str_trim(text);
                let name = if trimmed_text.is_empty() {
                    str_to_string(href)
                } else {
                    str_to_string(trimmed_text)
                };
                let url = DirectoryIndexProvider::full_url(href, base_url);
                out.push((name, url));
                proof {
                    assert(pair_views(out@) =~= pair_views(before).push((link_name(href@, text@), full_link_url(href@, base_url@))));
                }
            }
            i = i + 1;
        }
        proof {
            assert(pair_views(links@).take(links@.len() as int) =~= pair_views(links@));
        }
        out
    }

    /// The entries of a listing's (name, URL) links: those named like a supported image.
    pub fn entries_from_links(links: Vec<(String, String)>) -> (r: Vec<WallpaperEntry>)
        ensures
            entry_views(r@) == listing_entries(pair_views(links@)),
            no_metadata(r@),
    {
        let mut out: Vec<WallpaperEntry> = Vec::new();
        let mut i: usize = 0;
        while i < links.len()
            invariant
                i <= links@.len(),
                entry_views(out@) == listing_entries(pair_views(links@).take(i as int)),
                no_metadata(out@),
            decreases links.len() - i,
        {
            let ghost before = out@;
            let name = links[i].0.as_str();
            let url = links[i].1.as_str();
            proof {
                let t = pair_views(links@).take(i + 1);
                assert(t.drop_last() =~= pair_views(links@).take(i as int));
                assert(t.last() == (name@, url@));
            }
            if DirectoryIndexProvider::is_image_file(name) {
                let e = WallpaperEntry::new(str_to_string(url), str_to_string(name), DirectoryIndexProvider::media_type_from_filename(name), None);
                out.push(e);
                proof {
                    assert(entry_views(out@) =~= entry_views(before).push(e.view_of()));
                    assert forall|k: int| 0 <= k < out@.len() implies (#[trigger] out@[k]).metadata@.len() == 0 by {
                        if k < before.len() {
                            assert(out@[k] == before[k]);
                        }
                    }
                }
            }
            i = i + 1;
        }
        proof {
            assert(pair_views(links@).take(links@.len() as int) =~= pair_views(links@));
        }
        out
    }
}

} // verus!
