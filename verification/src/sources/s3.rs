//! S3 buckets: `s3://bucket/prefix` URIs and which objects of a listing are wallpapers.

use vstd::prelude::*;
use crate::media::loader::{format_of_path, ImageLoader};
use crate::sources::provider::{MediaType, WallpaperEntry, no_metadata, EntryView, entry_views, lower_ext, media_type_among, media_type_by_extension, str_views};
use crate::text::{first_index_of, find_char, lemma_first_index_of, path_file_name, path_file_name_of, str_chars, str_concat, str_ends_with, str_starts_with, str_to_string, substring};

verus! {

/// What parsing an `s3://` URI gives: (bucket, prefix), or the error message.
pub open spec fn s3_parse(uri: Seq<char>) -> Result<(Seq<char>, Seq<char>), Seq<char>> {
    if !"s3://"@.is_prefix_of(uri) {
        Err("Invalid S3 URI"@)
    } else {
        let rest = uri.skip(5);
        let (bucket, prefix) = match first_index_of(rest, '/') {
            None => (rest, Seq::<char>::empty()),
            Some(i) => (rest.take(i), rest.skip(i + 1)),
        };
        if bucket.len() == 0 {
            Err("S3 URI must include a bucket: s3://bucket/prefix"@)
        } else {
            Ok((bucket, prefix))
        }
    }
}

/// The view of a parse result.
pub open spec fn parse2_view(r: Result<(String, String), String>) -> Result<(Seq<char>, Seq<char>), Seq<char>> {
    match r {
        Ok((a, b)) => Ok((a@, b@)),
        Err(e) => Err(e@),
    }
}

/// The video extensions recognised in buckets.
pub open spec fn s3_video_exts() -> Seq<Seq<char>> {
    seq!["mp4"@, "webm"@]
}

/// An object of a bucket listing: its key and size, where given
#[derive(Debug, Clone)]
pub struct S3Object {
    pub key: Option<String>,
    pub size: Option<i64>,
}

/// The entries of a bucket listing: objects with a key that is no directory marker and
/// is named like a supported image.
pub open spec fn s3_entries(bucket: Seq<char>, objects: Seq<S3Object>) -> Seq<EntryView>
    decreases objects.len(),
{
    if objects.len() == 0 {
        Seq::empty()
    } else {
        let rest = s3_entries(bucket, objects.drop_last());
        let o = objects.last();
        match o.key {
            Some(k) => if !"/"@.is_suffix_of(k@) && format_of_path(k@) is Some {
                rest.push((
                    "s3://"@ + bucket + "/"@ + k@,
                    match path_file_name_of(k@) { Some(n) => n, None => k@ },
                    media_type_among(lower_ext(k@), s3_video_exts()),
                    match o.size { Some(s) => Some(s as u64), None => None },
                ))
            } else {
                rest
            },
            None => rest,
        }
    }
}

/// Provider for S3 and S3-compatible object storage
#[derive(Debug, Clone, Copy)]
pub struct S3Provider;

impl S3Provider {
    /// Provider identifier
    pub fn id(&self) -> (r: &'static str)
        ensures
            r@ == "s3"@,
    {
        "s3"
    }

    /// Check if this provider can handle a given URI
    pub fn can_handle(&self, uri: &str) -> (r: bool)
        ensures
            r == "s3://"@.is_prefix_of(uri@),
    {
        str_starts_with(uri, "s3://")
    }

    /// Parse an s3:// URI into (bucket, prefix)
    pub fn parse_uri(uri: &str) -> (r: Result<(String, String), String>)
        ensures
            parse2_view(r) == s3_parse(uri@),
    {
        if !str_starts_with(uri, "s3://") {
            return Err(str_to_string("Invalid S3 URI"));
        }
        let v = str_chars(uri);
        proof {
            reveal_strlit("s3://");
            assert("s3://"@.len() == 5);
        }
        let rest = crate::text::slice_chars(v.as_slice(), 5, v.len());
        proof {
            assert(rest@ =~= uri@.skip(5));
        }
        let (bucket, prefix) = match find_char(rest.as_slice(), '/') {
            None => {
                proof {
                    reveal_strlit("");
                    assert(""@ =~= Seq::<char>::empty());
                }
                (crate::text::string_from_chars(rest.as_slice()), str_to_string(""))
            },
            Some(i) => {
                let b = substring(rest.as_slice(), 0, i);
                let p = substring(rest.as_slice(), i + 1, rest.len());
                proof {
                    assert(b@ =~= rest@.take(i as int));
                    assert(p@ =~= rest@.skip(i + 1));
                }
                (b, p)
            },
        };
        if bucket.as_str().is_empty() {
            return Err(str_to_string("S3 URI must include a bucket: s3://bucket/prefix"));
        }
        Ok((bucket, prefix))
    }

    /// Determine media type from key (path)
    pub fn media_type_from_key(key: &str) -> (r: MediaType)
        ensures
            r == media_type_among(lower_ext(key@), s3_video_exts()),
    {
        let videos = ["mp4", "webm"];
        proof {
            reveal_strlit("mp4");
            reveal_strlit("webm");
            assert(str_views(videos@) =~= s3_video_exts());
        }
        media_type_by_extension(key, &videos)
    }

    /// Check if a key is a supported image format
    pub fn is_image_key(key: &str) -> (r: bool)
        ensures
            r == format_of_path(key@) is Some,
    {
        ImageLoader::is_supported_format(key)
    }

    /// Whether a listing page says more pages follow
    pub fn has_more(is_truncated: Option<bool>) -> (r: bool)
        ensures
            r == (is_truncated == Some(true)),
    {
        match is_truncated {
            Some(t) => t,
            None => false,
        }
    }

    /// The entries of one page of a bucket listing, in listing order
    pub fn entries_from_objects(bucket: &str, objects: Vec<S3Object>) -> (r: Vec<WallpaperEntry>)
        ensures
            entry_views(r@) == s3_entries(bucket@, objects@),
            no_metadata(r@),
    {
        let mut out: Vec<WallpaperEntry> = Vec::new();
        let mut i: usize = 0;
        while i < objects.len()
            invariant
                i <= objects@.len(),
                entry_views(out@) == s3_entries(bucket@, objects@.take(i as int)),
                no_metadata(out@),
            decreases objects.len() - i,
        {
            let ghost before = out@;
            let o = &objects[i];
            proof {
                let t = objects@.take(i + 1);
                assert(t.drop_last() =~= objects@.take(i as int));
                assert(t.last() == objects@[i as int]);
            }
            match &o.key {
                Some(key) => {
                    let k = key.as_str();
                    if !str_ends_with(k, "/") && S3Provider::is_image_key(k) {
                        let name = match path_file_name(k) {
                            Some(n) => n,
                            None => str_to_string(k),
                        };
                        let a = str_concat("s3://", bucket);
                        let b = str_concat(a.as_str(), "/");
                        let uri = str_concat(b.as_str(), k);
                        let size = match o.size {
                            Some(s) => Some(s as u64),
                            None => None,
                        };
                        let e = WallpaperEntry::new(uri, name, S3Provider::media_type_from_key(k), size);
                        out.push(e);
                        proof {
                            assert(entry_views(out@) =~= entry_views(before).push(e.view_of()));
                            assert forall|k: int| 0 <= k < out@.len() implies (#[trigger] out@[k]).metadata@.len() == 0 by {
                                if k < before.len() {
                                    assert(out@[k] == before[k]);
                                }
                            }
                        }
                    }
                },
                None => {},
            }
            i = i + 1;
        }
        proof {
            assert(objects@.take(objects@.len() as int) =~= objects@);
        }
        out
    }
}

} // verus!
