//! Recognising video files by name.

use vstd::prelude::*;
use crate::text::{lowercase, path_extension, path_extension_of, str_eq, str_to_lowercase};

verus! {

/// A lowercase extension names a video container.
pub open spec fn is_video_extension(e: Seq<char>) -> bool {
    e == "mp4"@ || e == "webm"@ || e == "mkv"@ || e == "avi"@ || e == "mov"@ || e == "m4v"@
}

/// Check if a file is a video (by extension, ignoring case)
pub fn is_video_file(path: &str) -> (r: bool)
    ensures
        r == match path_extension_of(path@) {
            Some(e) => is_video_extension(lowercase(e)),
            None => false,
        },
{
    match path_extension(path) {
        Some(ext) => {
            let l = str_to_lowercase(ext.as_str());
            let e = l.as_str();
            str_eq(e, "mp4") || str_eq(e, "webm") || str_eq(e, "mkv") || str_eq(e, "avi")
                || str_eq(e, "mov") || str_eq(e, "m4v")
        },
        None => false,
    }
}

} // verus!
