//! What the command line does with a source: GitHub web URLs turned into `github://`
//! URIs, the images of a listing picked out, and the plan for setting a wallpaper.

use vstd::prelude::*;
use crate::config::ScaleMode;
use crate::media::loader::{format_of_path, ImageLoader};
use crate::sources::file::FoundFile;
use crate::sources::github::{github_parse, GitHubProvider};
use crate::state::{detect_source_type, is_permutation, shuffle_strings, source_type_of, PlaylistState, SourceType};
use crate::text::{
    after_last, chars_lt, first_index_of, join_from, join_with, lemma_lt_from_asym, lemma_lt_from_trans,
    lowercase, piece_after_last, split_by, split_by_str, split_on, split_str, splitn_on, splitn_str,
    str_chars, str_concat, str_contains, str_ends_with, str_eq, str_less, str_starts_with, str_to_lowercase,
    str_to_string, strip_all, substring, trim_start_matches, views_of, find_char, is_infix_of,
};

verus! {

broadcast use vstd::seq_lib::group_seq_properties;

/// `github://user/repo`, with `/path` after it where the path is not empty.
pub open spec fn github_uri(user: Seq<char>, repo: Seq<char>, path: Seq<char>) -> Seq<char> {
    if path.len() == 0 {
        "github://"@ + user + "/"@ + repo
    } else {
        "github://"@ + user + "/"@ + repo + "/"@ + path
    }
}

/// The `github://` form of a GitHub web URL; any other source as it is.
///   `https://github.com/user/repo/tree/branch/path` gives `github://user/repo/path`,
///   `https://github.com/user/repo/blob/branch/path` gives `github://user/repo/path`,
///   `https://github.com/user/repo` gives `github://user/repo`.
pub open spec fn normalized_github(source: Seq<char>) -> Seq<char> {
    if "https://github.com/"@.is_prefix_of(source) || "http://github.com/"@.is_prefix_of(source) {
        let path = strip_all(strip_all(source, "https://github.com/"@), "http://github.com/"@);
        let parts = split_on(path, '/');
        if parts.len() >= 2 {
            if parts.len() >= 4 && (parts[2] == "tree"@ || parts[2] == "blob"@) {
                github_uri(parts[0], parts[1], join_with(parts.skip(4), "/"@))
            } else {
                github_uri(parts[0], parts[1], Seq::empty())
            }
        } else {
            source
        }
    } else {
        source
    }
}

/// Convert GitHub web URLs to github:// format; anything else is returned as it is
pub fn normalize_github_url(source: &str) -> (r: String)
    ensures
        r@ == normalized_github(source@),
{
    if !(str_starts_with(source, "https://github.com/") || str_starts_with(source, "http://github.com/")) {
        return str_to_string(source);
    }
    let a = trim_start_matches(source, "https://github.com/");
    let path = trim_start_matches(a.as_str(), "http://github.com/");
    let parts = split_str(path.as_str(), '/');
    if parts.len() < 2 {
        return str_to_string(source);
    }
    let user = parts[0].as_str();
    let repo = parts[1].as_str();
    let file_path = if parts.len() >= 4 && (str_eq(parts[2].as_str(), "tree") || str_eq(parts[2].as_str(), "blob")) {
        join_from(&parts, 4, "/")
    } else {
        proof {
            reveal_strlit("");
        }
        str_to_string("")
    };
    proof {
        assert(views_of(parts@)[0] == parts@[0]@);
        assert(views_of(parts@)[1] == parts@[1]@);
        if parts@.len() >= 4 {
            assert(views_of(parts@)[2] == parts@[2]@);
        }
    }
    let head = str_concat("github://", user);
    let head = str_concat(head.as_str(), "/");
    let head = str_concat(head.as_str(), repo);
    if file_path.as_str().is_empty() {
        head
    } else {
        let h = str_concat(head.as_str(), "/");
        str_concat(h.as_str(), file_path.as_str())
    }
}

/// Normalizing law: a normalized source normalizes to itself, so normalizing twice (as
/// setting a wallpaper and then listing its source do) is the same as once.
pub proof fn law_normalize_idempotent(source: Seq<char>)
    ensures
        normalized_github(normalized_github(source)) == normalized_github(source),
{
    let n = normalized_github(source);
    if n != source {
        reveal_strlit("github://");
        reveal_strlit("https://github.com/");
        reveal_strlit("http://github.com/");
        assert("github://"@.is_prefix_of(n));
        assert(n[0] == 'g');
        if "https://github.com/"@.is_prefix_of(n) {
            assert(n[0] == "https://github.com/"@[0]);
        }
        if "http://github.com/"@.is_prefix_of(n) {
            assert(n[0] == "http://github.com/"@[0]);
        }
    }
}

/// The raw.githubusercontent.com URL of a file in a repository.
pub open spec fn raw_github_url(user: Seq<char>, repo: Seq<char>, path: Seq<char>) -> Seq<char> {
    "https://raw.githubusercontent.com/"@ + user + "/"@ + repo + "/HEAD/"@ + path
}

/// The raw URL a `github://user/repo/path` URI names, or the error message.
pub open spec fn github_raw_of(uri: Seq<char>) -> Result<Seq<char>, Seq<char>> {
    if !"github://"@.is_prefix_of(uri) {
        Err("Invalid GitHub URI"@)
    } else {
        let parts = splitn_on(uri.skip(9), '/', 3);
        if parts.len() < 3 {
            Err("GitHub URI must include a file path: github://user/repo/path/to/file"@)
        } else {
            Ok(raw_github_url(parts[0], parts[1], parts[2]))
        }
    }
}

/// The view of a result holding a string.
pub open spec fn string_result_view(r: Result<String, String>) -> Result<Seq<char>, Seq<char>> {
    match r {
        Ok(s) => Ok(s@),
        Err(e) => Err(e@),
    }
}

/// The raw URL of a file in a repository.
pub fn raw_url(user: &str, repo: &str, path: &str) -> (r: String)
    ensures
        r@ == raw_github_url(user@, repo@, path@),
{
    let a = str_concat("https://raw.githubusercontent.com/", user);
    let b = str_concat(a.as_str(), "/");
    let c = str_concat(b.as_str(), repo);
    let d = str_concat(c.as_str(), "/HEAD/");
    str_concat(d.as_str(), path)
}

/// Convert github:// URI to raw.githubusercontent.com URL
pub fn github_to_raw_url(uri: &str) -> (r: Result<String, String>)
    ensures
        string_result_view(r) == github_raw_of(uri@),
{
    if !str_starts_with(uri, "github://") {
        return Err(str_to_string("Invalid GitHub URI"));
    }
    let v = str_chars(uri);
    proof {
        reveal_strlit("github://");
        assert("github://"@.len() == 9);
    }
    let rest = substring(v.as_slice(), 9, v.len());
    proof {
        assert(rest@ =~= uri@.skip(9));
    }
    let parts = splitn_str(rest.as_str(), '/', 3);
    if parts.len() < 3 {
        return Err(str_to_string("GitHub URI must include a file path: github://user/repo/path/to/file"));
    }
    proof {
        assert(views_of(parts@)[0] == parts@[0]@);
        assert(views_of(parts@)[1] == parts@[1]@);
        assert(views_of(parts@)[2] == parts@[2]@);
    }
    Ok(raw_url(parts[0].as_str(), parts[1].as_str(), parts[2].as_str()))
}

/// Where the images of a source are listed from
#[derive(Debug, Clone, Copy, PartialEq, Eq, Structural)]
pub enum ListingKind {
    /// A GitHub repository (`github://`)
    GitHub,
    /// An HTTP(S) URL: a directory index or a single image
    Http,
    /// A local file or directory
    Local,
}

/// Where the images of an already normalized source are listed from.
pub open spec fn listing_kind_of(normalized: Seq<char>) -> ListingKind {
    if "github://"@.is_prefix_of(normalized) {
        ListingKind::GitHub
    } else if "http://"@.is_prefix_of(normalized) || "https://"@.is_prefix_of(normalized) {
        ListingKind::Http
    } else {
        ListingKind::Local
    }
}

/// Normalizes a source and says where its images are listed from
pub fn listing_kind(source: &str) -> (r: (ListingKind, String))
    ensures
        r.1@ == normalized_github(source@),
        r.0 == listing_kind_of(r.1@),
{
    let n = normalize_github_url(source);
    let k = if str_starts_with(n.as_str(), "github://") {
        ListingKind::GitHub
    } else if str_starts_with(n.as_str(), "http://") || str_starts_with(n.as_str(), "https://") {
        ListingKind::Http
    } else {
        ListingKind::Local
    };
    (k, n)
}

/// The image extensions recognised in listings fetched by the command line.
pub open spec fn listing_image_exts() -> Seq<Seq<char>> {
    seq!["png"@, "jpg"@, "jpeg"@, "gif"@, "webp"@, "bmp"@]
}

/// Whether a lowercase extension is one of the listed image extensions.
fn is_listing_image_ext(e: &str) -> (r: bool)
    ensures
        r == listing_image_exts().contains(e@),
{
    proof {
        reveal_strlit("png");
        reveal_strlit("jpg");
        reveal_strlit("jpeg");
        reveal_strlit("gif");
        reveal_strlit("webp");
        reveal_strlit("bmp");
        let x = listing_image_exts();
        assert(x[0] == "png"@ && x[1] == "jpg"@ && x[2] == "jpeg"@ && x[3] == "gif"@ && x[4] == "webp"@ && x[5] == "bmp"@);
        assert(x.len() == 6);
    }
    let r = str_eq(e, "png") || str_eq(e, "jpg") || str_eq(e, "jpeg") || str_eq(e, "gif") || str_eq(e, "webp") || str_eq(e, "bmp");
    proof {
        let x = listing_image_exts();
        if r {
            if e@ == "png"@ { assert(x[0] == e@); }
            if e@ == "jpg"@ { assert(x[1] == e@); }
            if e@ == "jpeg"@ { assert(x[2] == e@); }
            if e@ == "gif"@ { assert(x[3] == e@); }
            if e@ == "webp"@ { assert(x[4] == e@); }
            if e@ == "bmp"@ { assert(x[5] == e@); }
        } else {
            assert forall|i: int| 0 <= i < x.len() implies x[i] != e@ by {}
        }
    }
    r
}

/// The image links of an HTML index page at `url`, from the pieces of the page between
/// `href="` markers: each piece's text up to its closing quote, parent links, queries and
/// absolute paths left out, kept where the extension after its last dot is an image's.
pub open spec fn index_images(url: Seq<char>, parts: Seq<Seq<char>>) -> Seq<Seq<char>>
    decreases parts.len(),
{
    if parts.len() == 0 {
        Seq::empty()
    } else {
        let rest = index_images(url, parts.drop_last());
        let part = parts.last();
        match first_index_of(part, '"') {
            None => rest,
            Some(end) => {
                let href = part.take(end);
                if href == "../"@ || "?"@.is_prefix_of(href) || "/"@.is_prefix_of(href) {
                    rest
                } else if listing_image_exts().contains(lowercase(after_last(href, '.'))) {
                    rest.push(url + href)
                } else {
                    rest
                }
            },
        }
    }
}

/// The images listed at an HTTP URL without fetching it: the URL itself where it does not
/// end with `/`; nothing where it names a directory index to fetch.
pub fn http_direct_listing(url: &str) -> (r: Option<Vec<String>>)
    ensures
        match r {
            Some(v) => !"/"@.is_suffix_of(url@) && views_of(v@) == seq![url@],
            None => "/"@.is_suffix_of(url@),
        },
{
    if !str_ends_with(url, "/") {
        let v = vec![str_to_string(url)];
        proof {
            assert(views_of(v@) =~= seq![url@]);
        }
        Some(v)
    } else {
        None
    }
}

/// The image URLs of the directory index page `html` fetched from `url`
pub fn http_index_images(url: &str, html: &str) -> (r: Vec<String>)
    ensures
        views_of(r@) == index_images(url@, split_by(html@, "href=\""@)),
{
    proof {
        reveal_strlit("href=\"");
        assert("href=\""@.len() == 6);
    }
    let parts = split_by_str(html, "href=\"");
    let mut out: Vec<String> = Vec::new();
    let mut i: usize = 0;
    while i < parts.len()
        invariant
            i <= parts@.len(),
            views_of(parts@) == split_by(html@, "href=\""@),
            views_of(out@) == index_images(url@, views_of(parts@).take(i as int)),
        decreases parts.len() - i,
    {
        let ghost before = out@;
        let part = parts[i].as_str();
        proof {
            let t = views_of(parts@).take(i + 1);
            assert(t.drop_last() =~= views_of(parts@).take(i as int));
            assert(t.last() == part@);
        }
        let pv = str_chars(part);
        match find_char(pv.as_slice(), '"') {
            None => {},
            Some(end) => {
                let href = substring(pv.as_slice(), 0, end);
                proof {
                    assert(href@ =~= part@.take(end as int));
                }
                let h = href.as_str();
                if !(str_eq(h, "../") || str_starts_with(h, "?") || str_starts_with(h, "/")) {
                    let ext = piece_after_last(h, '.');
                    let lower = str_to_lowercase(ext.as_str());
                    if is_listing_image_ext(lower.as_str()) {
                        let full = str_concat(url, h);
                        out.push(full);
                        proof {
                            assert(views_of(out@) =~= views_of(before).push(url@ + href@));
                        }
                    }
                }
            },
        }
        i = i + 1;
    }
    proof {
        assert(views_of(parts@).take(parts@.len() as int) =~= views_of(parts@));
    }
    out
}

/// A GitHub directory to list through the contents API
#[derive(Debug, Clone)]
pub struct GitHubListing {
    pub user: String,
    pub repo: String,
    pub dir_path: String,
    /// The contents API URL to ask
    pub api_url: String,
}

/// What listing a `github://` URI asks for: its user, repo and path and the contents API
/// URL, or the error message.
pub fn github_listing(uri: &str) -> (r: Result<GitHubListing, String>)
    ensures
        match r {
            Ok(l) => github_parse(uri@) == Ok::<(Seq<char>, Seq<char>, Seq<char>), Seq<char>>((l.user@, l.repo@, l.dir_path@))
                && l.api_url@ == crate::sources::github::github_api_url(l.user@, l.repo@, l.dir_path@),
            Err(e) => github_parse(uri@) == Err::<(Seq<char>, Seq<char>, Seq<char>), Seq<char>>(e@),
        },
{
    match GitHubProvider::parse_uri(uri) {
        Ok((user, repo, dir_path)) => {
            let api_url = GitHubProvider::api_url(user.as_str(), repo.as_str(), dir_path.as_str());
            Ok(GitHubListing { user, repo, dir_path, api_url })
        },
        Err(e) => Err(e),
    }
}

/// What a failed contents API request leads to: where the answer is "not found" or the
/// path looks like a file (it holds a dot), the raw URL of that file as the only image;
/// otherwise the error message, with the status as `status_text` shows it.
pub fn github_listing_on_error(listing: &GitHubListing, status: u16, status_text: &str) -> (r: Result<Vec<String>, String>)
    ensures
        (status == 404 || is_infix_of("."@, listing.dir_path@)) ==> (r matches Ok(v)
            && views_of(v@) == seq![raw_github_url(listing.user@, listing.repo@, listing.dir_path@)]),
        !(status == 404 || is_infix_of("."@, listing.dir_path@)) ==> (r matches Err(e)
            && e@ == "GitHub API error "@ + status_text@ + ": "@ + listing.api_url@),
{
    if status == 404 || str_contains(listing.dir_path.as_str(), ".") {
        let v = vec![raw_url(listing.user.as_str(), listing.repo.as_str(), listing.dir_path.as_str())];
        proof {
            assert(views_of(v@) =~= seq![raw_github_url(listing.user@, listing.repo@, listing.dir_path@)]);
        }
        Ok(v)
    } else {
        let a = str_concat("GitHub API error ", status_text);
        let b = str_concat(a.as_str(), ": ");
        Err(str_concat(b.as_str(), listing.api_url.as_str()))
    }
}

/// One item of a contents API answer, as its JSON fields give it
#[derive(Debug, Clone)]
pub struct GitHubItem {
    /// The "type" field, where it is a string
    pub item_type: Option<String>,
    /// The "name" field, where it is a string
    pub name: Option<String>,
    /// The "download_url" field, where it is a string
    pub download_url: Option<String>,
}

/// The download URLs of the listed files whose extension (after the last dot, any case)
/// is an image's.
pub open spec fn github_item_images(items: Seq<GitHubItem>) -> Seq<Seq<char>>
    decreases items.len(),
{
    if items.len() == 0 {
        Seq::empty()
    } else {
        let rest = github_item_images(items.drop_last());
        let it = items.last();
        match (it.item_type, it.name, it.download_url) {
            (Some(t), Some(n), Some(u)) => if t@ == "file"@ && listing_image_exts().contains(lowercase(after_last(n@, '.'))) {
                rest.push(u@)
            } else {
                rest
            },
            _ => rest,
        }
    }
}

/// The images of a contents API listing
pub fn github_listing_images(items: Vec<GitHubItem>) -> (r: Vec<String>)
    ensures
        views_of(r@) == github_item_images(items@),
{
    let mut out: Vec<String> = Vec::new();
    let mut i: usize = 0;
    while i < items.len()
        invariant
            i <= items@.len(),
            views_of(out@) == github_item_images(items@.take(i as int)),
        decreases items.len() - i,
    {
        let ghost before = out@;
        let it = &items[i];
        proof {
            let t = items@.take(i + 1);
            assert(t.drop_last() =~= items@.take(i as int));
            assert(t.last() == items@[i as int]);
        }
        match (&it.item_type, &it.name, &it.download_url) {
            (Some(t), Some(n), Some(u)) => {
                if str_eq(t.as_str(), "file") {
                    let ext = piece_after_last(n.as_str(), '.');
                    let lower = str_to_lowercase(ext.as_str());
                    if is_listing_image_ext(lower.as_str()) {
                        out.push(str_to_string(u.as_str()));
                        proof {
                            assert(views_of(out@) =~= views_of(before).push(u@));
                        }
                    }
                }
            },
            _ => {},
        }
        i = i + 1;
    }
    proof {
        assert(items@.take(items@.len() as int) =~= items@);
    }
    out
}

/// The paths of the regular files in a supported image format, in the order found.
pub open spec fn found_images(found: Seq<FoundFile>) -> Seq<Seq<char>>
    decreases found.len(),
{
    if found.len() == 0 {
        Seq::empty()
    } else {
        let rest = found_images(found.drop_last());
        let f = found.last();
        if f.is_file && format_of_path(f.path@) is Some {
            rest.push(f.path@)
        } else {
            rest
        }
    }
}

/// Strings in sorted order.
pub open spec fn strings_sorted(v: Seq<Seq<char>>) -> bool {
    forall|i: int, j: int| 0 <= i < j < v.len() ==> !chars_lt(#[trigger] v[j], #[trigger] v[i])
}

/// The images of a local directory: its regular files in a supported format, sorted
pub fn local_images(found: Vec<FoundFile>) -> (r: Vec<String>)
    ensures
        strings_sorted(views_of(r@)),
        views_of(r@).to_multiset() == found_images(found@).to_multiset(),
{
    let mut rest: Vec<String> = Vec::new();
    let mut i: usize = 0;
    while i < found.len()
        invariant
            i <= found@.len(),
            views_of(rest@) == found_images(found@.take(i as int)),
        decreases found.len() - i,
    {
        let ghost before = rest@;
        let f = &found[i];
        proof {
            let t = found@.take(i + 1);
            assert(t.drop_last() =~= found@.take(i as int));
            assert(t.last() == found@[i as int]);
        }
        if f.is_file && ImageLoader::is_supported_format(f.path.as_str()) {
            rest.push(str_to_string(f.path.as_str()));
            proof {
                assert(views_of(rest@) =~= views_of(before).push(f.path@));
            }
        }
        i = i + 1;
    }
    proof {
        assert(found@.take(found@.len() as int) =~= found@);
    }
    let ghost all = views_of(rest@);
    let mut out: Vec<String> = Vec::new();
    while rest.len() > 0
        invariant
            strings_sorted(views_of(out@)),
            views_of(out@).to_multiset().add(views_of(rest@).to_multiset()) == all.to_multiset(),
        decreases rest.len(),
    {
        let ghost r0 = rest@;
        let ghost o0 = out@;
        let x = rest.pop().unwrap();
        proof {
            assert(r0 == rest@.push(x));
            assert(views_of(r0) =~= views_of(rest@).push(x@));
        }
        insert_sorted_string(&mut out, x);
        proof {
            let a = views_of(o0).to_multiset();
            let b = views_of(rest@).to_multiset();
            assert(views_of(r0).to_multiset() =~= b.insert(x@));
            assert(a.add(b.insert(x@)) =~= a.insert(x@).add(b));
        }
    }
    proof {
        assert(views_of(rest@).to_multiset() =~= vstd::multiset::Multiset::empty());
        assert(views_of(out@).to_multiset().add(vstd::multiset::Multiset::empty()) =~= views_of(out@).to_multiset());
    }
    out
}

/// Inserts `x` into sorted strings, after those that do not sort after it.
fn insert_sorted_string(out: &mut Vec<String>, x: String)
    requires
        strings_sorted(views_of(old(out)@)),
    ensures
        strings_sorted(views_of(final(out)@)),
        views_of(final(out)@).to_multiset() == views_of(old(out)@).to_multiset().insert(x@),
{
    let mut p: usize = 0;
    loop
        invariant
            p <= out@.len(),
            out@ == old(out)@,
            forall|k: int| 0 <= k < p ==> !chars_lt(x@, #[trigger] out@[k]@),
        ensures
            p <= out@.len(),
            out@ == old(out)@,
            forall|k: int| 0 <= k < p ==> !chars_lt(x@, #[trigger] out@[k]@),
            p < out@.len() ==> chars_lt(x@, out@[p as int]@),
        decreases out@.len() - p,
    {
        if p >= out.len() {
            break;
        }
        if str_less(x.as_str(), out[p].as_str()) {
            break;
        }
        p = p + 1;
    }
    let ghost s = views_of(out@);
    let ghost xv = x@;
    out.insert(p, x);
    proof {
        let t = views_of(out@);
        assert(t =~= s.insert(p as int, xv));
        assert forall|a: int| 0 <= a < s.len() implies #[trigger] s[a] == old(out)@[a]@ by {}
        assert forall|i: int, j: int| 0 <= i < j < t.len() implies !chars_lt(#[trigger] t[j], #[trigger] t[i]) by {
            if j < p {
                assert(t[i] == s[i] && t[j] == s[j]);
            } else if j == p {
                assert(t[i] == s[i]);
                assert(t[j] == xv);
            } else if i > p {
                assert(t[i] == s[i - 1] && t[j] == s[j - 1]);
            } else if i == p {
                assert(t[i] == xv);
                assert(t[j] == s[j - 1]);
                let pn = s[p as int];
                assert(chars_lt(xv, pn));
                if j - 1 == p {
                    lemma_lt_from_asym(xv, pn, 0);
                } else {
                    assert(!chars_lt(s[j - 1], s[p as int]));
                    if chars_lt(s[j - 1], xv) {
                        lemma_lt_from_trans(s[j - 1], xv, pn, 0);
                    }
                }
            } else {
                assert(t[i] == s[i] && t[j] == s[j - 1]);
            }
        }
        vstd::seq_lib::to_multiset_insert(s, p as int, xv);
    }
}

/// What setting a wallpaper without the daemon does
#[derive(Debug)]
pub enum SetPlan {
    /// Several images: a playlist, shown from its first image
    Playlist(PlaylistState),
    /// One image, shown as it is
    Single(String),
}

/// The plan for setting a wallpaper from `source` (normalized to `normalized`) when its
/// listing gave `images`: an error where there are none; a playlist where there are
/// several, shuffled when `random` asks for it; the one image otherwise (for a
/// `github://` source, its raw URL).
pub fn plan_local_set(source: &str, normalized: &str, images: Vec<String>, random: bool, mode: ScaleMode) -> (r: Result<SetPlan, String>)
    ensures
        images@.len() == 0 ==> (r matches Err(e) && e@ == "No images found in source: "@ + source@),
        images@.len() > 1 ==> (r matches Ok(SetPlan::Playlist(p)) && p.source@ == normalized@
            && p.source_type == source_type_of(normalized@)
            && (if random { is_permutation(images@, p.images@) } else { p.images@ == images@ })
            && p.current_index == 0 && p.shuffled == random && p.mode == mode),
        images@.len() == 1 && !"github://"@.is_prefix_of(normalized@) ==> (r matches Ok(SetPlan::Single(s)) && s@ == images@[0]@),
        images@.len() == 1 && "github://"@.is_prefix_of(normalized@) ==> match github_raw_of(normalized@) {
            Ok(u) => r matches Ok(SetPlan::Single(s)) && s@ == u,
            Err(m) => r matches Err(e) && e@ == m,
        },
{
    if images.len() == 0 {
        return Err(str_concat("No images found in source: ", source));
    }
    if images.len() > 1 {
        let mut imgs = images;
        if random {
            shuffle_strings(&mut imgs);
        }
        let state = PlaylistState::new(str_to_string(normalized), detect_source_type(normalized), imgs, random, mode);
        return Ok(SetPlan::Playlist(state));
    }
    if str_starts_with(normalized, "github://") {
        match github_to_raw_url(normalized) {
            Ok(u) => Ok(SetPlan::Single(u)),
            Err(e) => Err(e),
        }
    } else {
        Ok(SetPlan::Single(str_to_string(images[0].as_str())))
    }
}

} // verus!
