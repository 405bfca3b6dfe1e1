//! Local files and directories: which files of a directory are wallpapers, named and
//! ordered by name.

use vstd::prelude::*;
use crate::media::loader::{format_of_path, ImageLoader};
use crate::sources::provider::{MediaType, WallpaperEntry, no_metadata, EntryView, entry_views, lower_ext, media_type_among, media_type_by_extension, str_views};
use crate::text::{chars_lt, lemma_lt_from_asym, lemma_lt_from_trans, path_file_name, path_file_name_of, str_less, str_starts_with, str_to_string};

verus! {

broadcast use vstd::seq_lib::group_seq_properties;

/// The video extensions recognised for local files.
pub open spec fn file_video_exts() -> Seq<Seq<char>> {
    seq!["mp4"@, "webm"@, "mkv"@, "avi"@]
}

/// The media type of a local file by its extension.
pub open spec fn file_media_type(path: Seq<char>) -> MediaType {
    media_type_among(lower_ext(path), file_video_exts())
}

/// The display name of a local file: its file name, or "unknown".
pub open spec fn file_display_name(path: Seq<char>) -> Seq<char> {
    match path_file_name_of(path) {
        Some(n) => n,
        None => "unknown"@,
    }
}

/// The path a `file://` URI (or a bare path) names, before `~` is expanded.
pub open spec fn local_path_of(uri: Seq<char>) -> Seq<char> {
    if "file://"@.is_prefix_of(uri) { uri.skip(7) } else { uri }
}

/// A file found in a directory, as the directory walk reports it
#[derive(Debug, Clone)]
pub struct FoundFile {
    /// The file's path
    pub path: String,
    /// It is a regular file
    pub is_file: bool,
    /// Its size in bytes, where known
    pub size: Option<u64>,
}

/// The entries for the files found in a directory, in the order found: the regular files
/// in a supported image format.
pub open spec fn found_entries(found: Seq<FoundFile>) -> Seq<EntryView>
    decreases found.len(),
{
    if found.len() == 0 {
        Seq::empty()
    } else {
        let rest = found_entries(found.drop_last());
        let f = found.last();
        if f.is_file && format_of_path(f.path@) is Some {
            rest.push((f.path@, file_display_name(f.path@), file_media_type(f.path@), f.size))
        } else {
            rest
        }
    }
}

/// Entries in order of name.
pub open spec fn names_sorted(v: Seq<EntryView>) -> bool {
    forall|i: int, j: int| 0 <= i < j < v.len() ==> !chars_lt(#[trigger] v[j].1, #[trigger] v[i].1)
}

/// Provider for local files
#[derive(Debug, Clone, Copy)]
pub struct FileProvider;

impl FileProvider {
    pub fn new() -> (r: FileProvider) {
        FileProvider
    }

    /// Provider identifier
    pub fn id(&self) -> (r: &'static str)
        ensures
            r@ == "file"@,
    {
        "file"
    }

    /// Handle file:// URIs and bare paths
    pub fn can_handle(&self, uri: &str) -> (r: bool)
        ensures
            r == ("file://"@.is_prefix_of(uri@) || "/"@.is_prefix_of(uri@) || "~"@.is_prefix_of(uri@)),
    {
        str_starts_with(uri, "file://") || str_starts_with(uri, "/") || str_starts_with(uri, "~")
    }

    /// Determine media type from file extension
    pub fn media_type_from_path(path: &str) -> (r: MediaType)
        ensures
            r == file_media_type(path@),
    {
        let videos = ["mp4", "webm", "mkv", "avi"];
        proof {
            reveal_strlit("mp4");
            reveal_strlit("webm");
            reveal_strlit("mkv");
            reveal_strlit("avi");
            assert(str_views(videos@) =~= file_video_exts());
        }
        media_type_by_extension(path, &videos)
    }

    /// The path a URI names: without a `file://` prefix.
    pub fn path_of(uri: &str) -> (r: String)
        ensures
            r@ == local_path_of(uri@),
    {
        if str_starts_with(uri, "file://") {
            let v = crate::text::str_chars(uri);
            proof {
                reveal_strlit("file://");
                assert("file://"@.len() == 7);
            }
            crate::text::substring(v.as_slice(), 7, v.len())
        } else {
            str_to_string(uri)
        }
    }

    /// The display name of a file
    pub fn display_name(path: &str) -> (r: String)
        ensures
            r@ == file_display_name(path@),
    {
        match path_file_name(path) {
            Some(n) => n,
            None => str_to_string("unknown"),
        }
    }

    /// The entry for a single file at `path`, listed under `uri`.
    pub fn single_entry(uri: &str, path: &str, size: Option<u64>) -> (r: WallpaperEntry)
        ensures
            r.view_of() == (uri@, file_display_name(path@), file_media_type(path@), size),
            r.metadata@.len() == 0,
    {
        WallpaperEntry::new(str_to_string(uri), FileProvider::display_name(path), FileProvider::media_type_from_path(path), size)
    }

    /// The entries of a directory: its regular files in a supported format, sorted by name.
    pub fn directory_entries(found: Vec<FoundFile>) -> (r: Vec<WallpaperEntry>)
        ensures
            names_sorted(entry_views(r@)),
            entry_views(r@).to_multiset() == found_entries(found@).to_multiset(),
            no_metadata(r@),
    {
        let mut rest: Vec<WallpaperEntry> = Vec::new();
        let mut i: usize = 0;
        while i < found.len()
            invariant
                i <= found@.len(),
                entry_views(rest@) == found_entries(found@.take(i as int)),
                no_metadata(rest@),
            decreases found.len() - i,
        {
            let ghost before = rest@;
            let f = &found[i];
            proof {
                let t = found@.take(i + 1);
                assert(t.drop_last() =~= found@.take(i as int));
                assert(t.last() == found@[i as int]);
            }
            if f.is_file && ImageLoader::is_supported_format(f.path.as_str()) {
                let e = FileProvider::single_entry(f.path.as_str(), f.path.as_str(), f.size);
                rest.push(e);
                proof {
                    assert(entry_views(rest@) =~= entry_views(before).push(e.view_of()));
                    assert forall|k: int| 0 <= k < rest@.len() implies (#[trigger] rest@[k]).metadata@.len() == 0 by {
                        if k < before.len() {
                            assert(rest@[k] == before[k]);
                        }
                    }
                }
            }
            i = i + 1;
        }
        proof {
            assert(found@.take(found@.len() as int) =~= found@);
        }
        let ghost all = entry_views(rest@);
        let mut out: Vec<WallpaperEntry> = Vec::new();
        while rest.len() > 0
            invariant
                names_sorted(entry_views(out@)),
                entry_views(out@).to_multiset().add(entry_views(rest@).to_multiset()) == all.to_multiset(),
                no_metadata(out@),
                no_metadata(rest@),
            decreases rest.len(),
        {
            let ghost r0 = rest@;
            let ghost o0 = out@;
            let x = rest.pop().unwrap();
            proof {
                assert(r0 == rest@.push(x));
                assert(entry_views(r0) =~= entry_views(rest@).push(x.view_of()));
                assert(x == r0[r0.len() - 1]);
                assert forall|k: int| 0 <= k < rest@.len() implies (#[trigger] rest@[k]).metadata@.len() == 0 by {
                    assert(rest@[k] == r0[k]);
                }
            }
            insert_sorted(&mut out, x);
            proof {
                let a = entry_views(o0).to_multiset();
                let b = entry_views(rest@).to_multiset();
                assert(entry_views(r0).to_multiset() =~= b.insert(x.view_of()));
                assert(a.add(b.insert(x.view_of())) =~= a.insert(x.view_of()).add(b));
            }
        }
        proof {
            assert(entry_views(rest@).to_multiset() =~= vstd::multiset::Multiset::empty());
            assert(entry_views(out@).to_multiset().add(vstd::multiset::Multiset::empty()) =~= entry_views(out@).to_multiset());
        }
        out
    }
}

/// Inserts `x` into entries sorted by name, after those that do not sort after it.
fn insert_sorted(out: &mut Vec<WallpaperEntry>, x: WallpaperEntry)
    requires
        names_sorted(entry_views(old(out)@)),
        no_metadata(old(out)@),
        x.metadata@.len() == 0,
    ensures
        names_sorted(entry_views(final(out)@)),
        no_metadata(final(out)@),
        entry_views(final(out)@).to_multiset() == entry_views(old(out)@).to_multiset().insert(x.view_of()),
{
    let mut p: usize = 0;
    loop
        invariant
            p <= out@.len(),
            out@ == old(out)@,
            forall|k: int| 0 <= k < p ==> !chars_lt(x.name@, #[trigger] out@[k].name@),
        ensures
            p <= out@.len(),
            out@ == old(out)@,
            forall|k: int| 0 <= k < p ==> !chars_lt(x.name@, #[trigger] out@[k].name@),
            p < out@.len() ==> chars_lt(x.name@, out@[p as int].name@),
        decreases out@.len() - p,
    {
        if p >= out.len() {
            break;
        }
        if str_less(x.name.as_str(), out[p].name.as_str()) {
            break;
        }
        p = p + 1;
    }
    let ghost s = entry_views(out@);
    let ghost xv = x.view_of();
    out.insert(p, x);
    proof {
        let t = entry_views(out@);
        assert(t =~= s.insert(p as int, xv));
        assert forall|k: int| 0 <= k < out@.len() implies (#[trigger] out@[k]).metadata@.len() == 0 by {
            if k < p {
                assert(out@[k] == old(out)@[k]);
            } else if k > p {
                assert(out@[k] == old(out)@[k - 1]);
            }
        }
        assert forall|a: int| 0 <= a < s.len() implies #[trigger] s[a].1 == old(out)@[a].name@ by {}
        assert forall|i: int, j: int| 0 <= i < j < t.len() implies !chars_lt(#[trigger] t[j].1, #[trigger] t[i].1) by {
            if j < p {
                assert(t[i] == s[i] && t[j] == s[j]);
            } else if j == p {
                assert(t[i] == s[i]);
                assert(t[j] == xv);
            } else if i > p {
                assert(t[i] == s[i - 1] && t[j] == s[j - 1]);
            } else if i == p {
                assert(t[i] == xv);
                assert(t[j] == s[j - 1]);
                let pn = s[p as int].1;
                assert(chars_lt(xv.1, pn));
                if j - 1 == p {
                    lemma_lt_from_asym(xv.1, pn, 0);
                } else {
                    assert(!chars_lt(s[j - 1].1, s[p as int].1));
                    if chars_lt(s[j - 1].1, xv.1) {
                        lemma_lt_from_trans(s[j - 1].1, xv.1, pn, 0);
                    }
                }
            } else {
                assert(t[i] == s[i] && t[j] == s[j - 1]);
            }
        }
        vstd::seq_lib::to_multiset_insert(s, p as int, xv);
    }
}

} // verus!
