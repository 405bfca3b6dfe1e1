//! GitHub repositories: `github://user/repo/path` URIs, the contents API, and which
//! items of a listing are wallpapers.

use vstd::prelude::*;
use crate::media::loader::{format_of_path, ImageLoader};
use crate::sources::provider::{MediaType, WallpaperEntry, no_metadata, EntryView, entry_views, lower_ext, media_type_among, media_type_by_extension, str_views};
use crate::text::{first_index_of, find_char, lemma_first_index_of, opt_view, str_chars, str_concat, str_eq, str_starts_with, str_to_string, substring};

verus! {

/// `splitn(3, '/')` of the part after `github://`: user, repo and the rest of the path,
/// or nothing where there is no `/` after the user.
pub open spec fn github_parts(rest: Seq<char>) -> Option<(Seq<char>, Seq<char>, Seq<char>)> {
    match first_index_of(rest, '/') {
        None => None,
        Some(i) => {
            let after = rest.skip(i + 1);
            match first_index_of(after, '/') {
                None => Some((rest.take(i), after, Seq::empty())),
                Some(j) => Some((rest.take(i), after.take(j), after.skip(j + 1))),
            }
        },
    }
}

/// What parsing a `github://` URI gives: (user, repo, path), or the error message.
pub open spec fn github_parse(uri: Seq<char>) -> Result<(Seq<char>, Seq<char>, Seq<char>), Seq<char>> {
    if !"github://"@.is_prefix_of(uri) {
        Err("Invalid GitHub URI"@)
    } else {
        match github_parts(uri.skip(9)) {
            None => Err("GitHub URI must be github://user/repo[/path]"@),
            Some(p) => Ok(p),
        }
    }
}

/// The view of a parse result.
pub open spec fn parse3_view(r: Result<(String, String, String), String>) -> Result<(Seq<char>, Seq<char>, Seq<char>), Seq<char>> {
    match r {
        Ok((a, b, c)) => Ok((a@, b@, c@)),
        Err(e) => Err(e@),
    }
}

/// The contents API URL for a path of a repository.
pub open spec fn github_api_url(user: Seq<char>, repo: Seq<char>, path: Seq<char>) -> Seq<char> {
    "https://api.github.com/repos/"@ + user + "/"@ + repo + "/contents/"@ + path
}

/// The video extensions recognised in repositories.
pub open spec fn github_video_exts() -> Seq<Seq<char>> {
    seq!["mp4"@, "webm"@]
}

/// One item of a contents API listing
#[derive(Debug, Clone)]
pub struct GitHubContent {
    pub name: String,
    pub path: String,
    /// "file", "dir", ...
    pub content_type: String,
    pub size: Option<u64>,
    pub download_url: Option<String>,
}

/// The entries of a listing: files with a download URL, named like a supported image.
pub open spec fn github_entries(cs: Seq<GitHubContent>) -> Seq<EntryView>
    decreases cs.len(),
{
    if cs.len() == 0 {
        Seq::empty()
    } else {
        let rest = github_entries(cs.drop_last());
        let c = cs.last();
        if c.content_type@ == "file"@ && c.download_url is Some && format_of_path(c.name@) is Some {
            rest.push((c.download_url->0@, c.name@, media_type_among(lower_ext(c.path@), github_video_exts()), c.size))
        } else {
            rest
        }
    }
}

/// Provider for GitHub repositories
///
/// Supports URIs like:
/// - `github://user/repo/path/to/file.png`
/// - `github://user/repo/path/to/directory`
#[derive(Debug, Clone)]
pub struct GitHubProvider {
    /// Optional personal access token for higher rate limits
    pub token: Option<String>,
}

impl GitHubProvider {
    pub fn new() -> (r: GitHubProvider)
        ensures
            r.token is None,
    {
        GitHubProvider::with_token(None)
    }

    pub fn with_token(token: Option<String>) -> (r: GitHubProvider)
        ensures
            r.token == token,
    {
        GitHubProvider { token }
    }

    /// Provider identifier
    pub fn id(&self) -> (r: &'static str)
        ensures
            r@ == "github"@,
    {
        "github"
    }

    /// Check if this provider can handle a given URI
    pub fn can_handle(&self, uri: &str) -> (r: bool)
        ensures
            r == "github://"@.is_prefix_of(uri@),
    {
        str_starts_with(uri, "github://")
    }

    /// Parse a github:// URI into (user, repo, path)
    pub fn parse_uri(uri: &str) -> (r: Result<(String, String, String), String>)
        ensures
            parse3_view(r) == github_parse(uri@),
    {
        if !str_starts_with(uri, "github://") {
            return Err(str_to_string("Invalid GitHub URI"));
        }
        let v = str_chars(uri);
        proof {
            reveal_strlit("github://");
            assert("github://"@.len() == 9);
        }
        let rest = crate::text::slice_chars(v.as_slice(), 9, v.len());
        proof {
            assert(rest@ =~= uri@.skip(9));
        }
        match find_char(rest.as_slice(), '/') {
            None => Err(str_to_string("GitHub URI must be github://user/repo[/path]")),
            Some(i) => {
                let user = substring(rest.as_slice(), 0, i);
                let after = crate::text::slice_chars(rest.as_slice(), i + 1, rest.len());
                proof {
                    assert(after@ =~= rest@.skip(i + 1));
                    assert(user@ =~= rest@.take(i as int));
                }
                match find_char(after.as_slice(), '/') {
                    None => {
                        let repo = string_of(&after);
                        proof {
                            reveal_strlit("");
                            assert(""@ =~= Seq::<char>::empty());
                        }
                        Ok((user, repo, str_to_string("")))
                    },
                    Some(j) => {
                        let repo = substring(after.as_slice(), 0, j);
                        let path = substring(after.as_slice(), j + 1, after.len());
                        proof {
                            assert(repo@ =~= after@.take(j as int));
                            assert(path@ =~= after@.skip(j + 1));
                        }
                        Ok((user, repo, path))
                    },
                }
            },
        }
    }

    /// The contents API URL for a path of a repository
    pub fn api_url(user: &str, repo: &str, path: &str) -> (r: String)
        ensures
            r@ == github_api_url(user@, repo@, path@),
    {
        let a = str_concat("https://api.github.com/repos/", user);
        let b = str_concat(a.as_str(), "/");
        let c = str_concat(b.as_str(), repo);
        let d = str_concat(c.as_str(), "/contents/");
        str_concat(d.as_str(), path)
    }

    /// The `Authorization` header value for the token, if there is one
    pub fn auth_header(&self) -> (r: Option<String>)
        ensures
            opt_view(r) == match self.token {
                Some(t) => Some("token "@ + t@),
                None => None,
            },
    {
        match &self.token {
            Some(t) => Some(str_concat("token ", t.as_str())),
            None => None,
        }
    }

    /// Determine media type from path
    pub fn media_type_from_path(path: &str) -> (r: MediaType)
        ensures
            r == media_type_among(lower_ext(path@), github_video_exts()),
    {
        let videos = ["mp4", "webm"];
        proof {
            reveal_strlit("mp4");
            reveal_strlit("webm");
            assert(str_views(videos@) =~= github_video_exts());
        }
        media_type_by_extension(path, &videos)
    }

    /// The entries of a contents listing: files with a download URL, named like a
    /// supported image, in listing order
    pub fn entries_from_contents(contents: Vec<GitHubContent>) -> (r: Vec<WallpaperEntry>)
        ensures
            entry_views(r@) == github_entries(contents@),
            no_metadata(r@),
    {
        let mut out: Vec<WallpaperEntry> = Vec::new();
        let mut i: usize = 0;
        while i < contents.len()
            invariant
                i <= contents@.len(),
                entry_views(out@) == github_entries(contents@.take(i as int)),
                no_metadata(out@),
            decreases contents.len() - i,
        {
            let ghost before = out@;
            let c = &contents[i];
            proof {
                let t = contents@.take(i + 1);
                assert(t.drop_last() =~= contents@.take(i as int));
                assert(t.last() == contents@[i as int]);
            }
            if str_eq(c.content_type.as_str(), "file") && ImageLoader::is_supported_format(c.name.as_str()) {
                match &c.download_url {
                    Some(url) => {
                        let e = WallpaperEntry::new(str_to_string(url.as_str()), str_to_string(c.name.as_str()), GitHubProvider::media_type_from_path(c.path.as_str()), c.size);
                        out.push(e);
                        proof {
                            assert(entry_views(out@) =~= entry_views(before).push(e.view_of()));
                            assert forall|k: int| 0 <= k < out@.len() implies (#[trigger] out@[k]).metadata@.len() == 0 by {
                                if k < before.len() {
                                    assert(out@[k] == before[k]);
                                }
                            }
                        }
                    },
                    None => {},
                }
            }
            i = i + 1;
        }
        proof {
            assert(contents@.take(contents@.len() as int) =~= contents@);
        }
        out
    }
}

/// The characters as a `String`.
fn string_of(v: &Vec<char>) -> (r: String)
    ensures
        r@ == v@,
{
    crate::text::string_from_chars(v.as_slice())
}

} // verus!
