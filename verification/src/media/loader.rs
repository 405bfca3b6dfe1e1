//! Image format detection and decoding.

use vstd::prelude::*;
use crate::media::pixels::{Rgba, RgbaImage};
use crate::text::{lowercase, path_extension, path_extension_of, str_eq, str_to_lowercase, str_to_string};

verus! {

/// Image container formats the loader recognises by extension
#[derive(Debug, Clone, Copy, PartialEq, Eq, Structural)]
pub enum ImageFormat {
    Png,
    Jpeg,
    Gif,
    WebP,
    Bmp,
    Tiff,
    Avif,
}

/// The format a lowercase extension names.
pub open spec fn format_for_extension(e: Seq<char>) -> Option<ImageFormat> {
    if e == "png"@ {
        Some(ImageFormat::Png)
    } else if e == "jpg"@ || e == "jpeg"@ {
        Some(ImageFormat::Jpeg)
    } else if e == "gif"@ {
        Some(ImageFormat::Gif)
    } else if e == "webp"@ {
        Some(ImageFormat::WebP)
    } else if e == "bmp"@ {
        Some(ImageFormat::Bmp)
    } else if e == "tiff"@ || e == "tif"@ {
        Some(ImageFormat::Tiff)
    } else if e == "avif"@ {
        Some(ImageFormat::Avif)
    } else {
        None
    }
}

/// The format a path's extension names, ignoring case.
pub open spec fn format_of_path(path: Seq<char>) -> Option<ImageFormat> {
    match path_extension_of(path) {
        Some(e) => format_for_extension(lowercase(e)),
        None => None,
    }
}

/// Extension law: a path's extension, in any case, picks its own format: "png" PNG,
/// "jpg" and "jpeg" JPEG, "gif" GIF, "webp" WebP, "bmp" BMP, "tif" and "tiff" TIFF,
/// "avif" AVIF; any other extension, or none, picks no format.
pub proof fn law_extension_formats(path: Seq<char>, e: Seq<char>)
    ensures
        path_extension_of(path) is None ==> format_of_path(path) is None,
        path_extension_of(path) == Some(e) && (lowercase(e) == "png"@) ==> format_of_path(path) == Some(ImageFormat::Png),
        path_extension_of(path) == Some(e) && (lowercase(e) == "jpg"@) ==> format_of_path(path) == Some(ImageFormat::Jpeg),
        path_extension_of(path) == Some(e) && (lowercase(e) == "jpeg"@) ==> format_of_path(path) == Some(ImageFormat::Jpeg),
        path_extension_of(path) == Some(e) && (lowercase(e) == "gif"@) ==> format_of_path(path) == Some(ImageFormat::Gif),
        path_extension_of(path) == Some(e) && (lowercase(e) == "webp"@) ==> format_of_path(path) == Some(ImageFormat::WebP),
        path_extension_of(path) == Some(e) && (lowercase(e) == "bmp"@) ==> format_of_path(path) == Some(ImageFormat::Bmp),
        path_extension_of(path) == Some(e) && (lowercase(e) == "tif"@) ==> format_of_path(path) == Some(ImageFormat::Tiff),
        path_extension_of(path) == Some(e) && (lowercase(e) == "tiff"@) ==> format_of_path(path) == Some(ImageFormat::Tiff),
        path_extension_of(path) == Some(e) && (lowercase(e) == "avif"@) ==> format_of_path(path) == Some(ImageFormat::Avif),
        path_extension_of(path) == Some(e) && (lowercase(e).len() != 3 && lowercase(e).len() != 4) ==> format_of_path(path) is None,
        path_extension_of(path) == Some(e) && (lowercase(e) == "svg"@ || lowercase(e) == "txt"@ || lowercase(e) == "mp4"@) ==> format_of_path(path) is None,
{
    reveal_strlit("png");
    reveal_strlit("jpg");
    reveal_strlit("jpeg");
    reveal_strlit("gif");
    reveal_strlit("webp");
    reveal_strlit("bmp");
    reveal_strlit("tif");
    reveal_strlit("tiff");
    reveal_strlit("avif");
    reveal_strlit("svg");
    reveal_strlit("txt");
    reveal_strlit("mp4");
    let l = lowercase(e);
    if l == "jpeg"@ {
        assert(l.len() != "png"@.len());
        assert(format_for_extension(l) == Some(ImageFormat::Jpeg));
    }
    if l == "jpg"@ {
        assert(l[0] != "png"@[0]);
    }
    if l == "gif"@ {
        assert(l[0] != "png"@[0] && l[0] != "jpg"@[0]);
    }
    if l == "bmp"@ {
        assert(l[0] != "png"@[0] && l[0] != "jpg"@[0] && l[0] != "gif"@[0]);
    }
    if l == "tif"@ {
        assert(l[0] != "png"@[0] && l[0] != "jpg"@[0] && l[0] != "gif"@[0] && l[0] != "bmp"@[0]);
    }
    if l == "webp"@ {
        assert(l[0] != "jpeg"@[0]);
    }
    if l == "tiff"@ {
        assert(l[0] != "jpeg"@[0] && l[0] != "webp"@[0]);
    }
    if l == "avif"@ {
        assert(l[0] != "jpeg"@[0] && l[0] != "webp"@[0] && l[0] != "tiff"@[0]);
    }
    if l == "svg"@ || l == "mp4"@ {
        assert(l[0] != "png"@[0] && l[0] != "jpg"@[0] && l[0] != "gif"@[0] && l[0] != "bmp"@[0] && l[0] != "tif"@[0]);
    }
    if l == "txt"@ {
        assert(l[0] != "png"@[0] && l[0] != "jpg"@[0] && l[0] != "gif"@[0] && l[0] != "bmp"@[0] && l[1] != "tif"@[1]);
    }
}

/// What decoding with format detection gives: (width, height, RGBA bytes), or nothing
/// when the data is not an image.
pub uninterp spec fn decoded_any(data: Seq<u8>) -> Option<(u32, u32, Seq<u8>)>;

/// What decoding as the given format gives: (width, height, RGBA bytes), or nothing when the
/// data is not an image of that format.
pub uninterp spec fn decoded_as(data: Seq<u8>, format: ImageFormat) -> Option<(u32, u32, Seq<u8>)>;

/// What decoding gives, with the format given or else detected.
pub open spec fn decoded_rgba8(data: Seq<u8>, format: Option<ImageFormat>) -> Option<(u32, u32, Seq<u8>)> {
    match format {
        Some(f) => decoded_as(data, f),
        None => decoded_any(data),
    }
}

/// Decodes image data with format detection (`image::load_from_memory`, then `into_rgba8`);
/// the result is named `decoded_any`.
#[verifier::external_body]
fn decode_any(data: &[u8]) -> (r: Option<(u32, u32, Vec<u8>)>)
    ensures
        match r {
            Some((w, h, raw)) => decoded_any(data@) == Some((w, h, raw@)),
            None => decoded_any(data@) is None,
        },
{
    let b = image::load_from_memory(data).ok()?.into_rgba8();
    Some((b.width(), b.height(), b.into_raw()))
}

/// Decodes image data as the given format (`image::load_from_memory_with_format`, then
/// `into_rgba8`); the result is named `decoded_as`.
#[verifier::external_body]
fn decode_as(data: &[u8], format: ImageFormat) -> (r: Option<(u32, u32, Vec<u8>)>)
    ensures
        match r {
            Some((w, h, raw)) => decoded_as(data@, format) == Some((w, h, raw@)),
            None => decoded_as(data@, format) is None,
        },
{
    let f = match format {
        ImageFormat::Png => image::ImageFormat::Png,
        ImageFormat::Jpeg => image::ImageFormat::Jpeg,
        ImageFormat::Gif => image::ImageFormat::Gif,
        ImageFormat::WebP => image::ImageFormat::WebP,
        ImageFormat::Bmp => image::ImageFormat::Bmp,
        ImageFormat::Tiff => image::ImageFormat::Tiff,
        ImageFormat::Avif => image::ImageFormat::Avif,
    };
    let b = image::load_from_memory_with_format(data, f).ok()?.into_rgba8();
    Some((b.width(), b.height(), b.into_raw()))
}

/// The pixels of RGBA bytes, four bytes each (trailing bytes short of a pixel are dropped).
pub open spec fn pixels_of_bytes(raw: Seq<u8>) -> Seq<Rgba> {
    Seq::new(raw.len() / 4, |i: int| Rgba { r: raw[4 * i], g: raw[4 * i + 1], b: raw[4 * i + 2], a: raw[4 * i + 3] })
}

/// Groups RGBA bytes into pixels.
pub fn pixels_from_raw(raw: &Vec<u8>) -> (r: Vec<Rgba>)
    ensures
        r@ == pixels_of_bytes(raw@),
{
    let len = raw.len();
    let n = len / 4;
    let mut r: Vec<Rgba> = Vec::with_capacity(n);
    let mut i: usize = 0;
    while i < n
        invariant
            n == raw@.len() / 4,
            len == raw@.len(),
            i <= n,
            r@.len() == i,
            forall|j: int| 0 <= j < i ==> r@[j] == pixels_of_bytes(raw@)[j],
        decreases n - i,
    {
        let k = 4 * i;
        r.push(Rgba { r: raw[k], g: raw[k + 1], b: raw[k + 2], a: raw[k + 3] });
        i = i + 1;
    }
    proof {
        assert(r@ =~= pixels_of_bytes(raw@));
    }
    r
}

/// An image over decoded bytes, when they hold exactly one pixel per position.
pub open spec fn image_of(d: (u32, u32, Seq<u8>)) -> Option<(u32, u32, Seq<Rgba>)> {
    if d.2.len() == d.0 * d.1 * 4 {
        Some((d.0, d.1, pixels_of_bytes(d.2)))
    } else {
        None
    }
}

/// Image loader supporting multiple formats
pub struct ImageLoader;

impl ImageLoader {
    /// Decode image data, with the format given or else detected from the data.
    pub fn load_bytes(data: &[u8], format: Option<ImageFormat>) -> (r: Result<RgbaImage, String>)
        ensures
            match r {
                Ok(img) => img.wf() && match decoded_rgba8(data@, format) {
                    Some(d) => image_of(d) == Some((img.width, img.height, img.pixels@)),
                    None => false,
                },
                Err(e) => (match decoded_rgba8(data@, format) {
                    Some(d) => image_of(d) is None,
                    None => true,
                }) && e@ == if format is Some {
                    "Failed to decode image with specified format"@
                } else {
                    "Failed to decode image"@
                },
            },
    {
        let fail = if format.is_some() {
            str_to_string("Failed to decode image with specified format")
        } else {
            str_to_string("Failed to decode image")
        };
        let decoded = match format {
            Some(f) => decode_as(data, f),
            None => decode_any(data),
        };
        match decoded {
            Some((w, h, raw)) => {
                let n = raw.len() as u128;
                assert((w as u128) * (h as u128) * 4 <= 0xffff_ffff * 0xffff_ffffu128 * 4) by (nonlinear_arith)
                    requires w <= 0xffff_ffff, h <= 0xffff_ffff;
                if n != (w as u128) * (h as u128) * 4 {
                    return Err(fail);
                }
                let pixels = pixels_from_raw(&raw);
                proof {
                    assert(pixels@.len() == raw@.len() / 4);
                    assert(raw@.len() / 4 == w * h) by (nonlinear_arith)
                        requires raw@.len() == w * h * 4;
                }
                match RgbaImage::from_pixels(w, h, pixels) {
                    Some(img) => Ok(img),
                    None => Err(fail),
                }
            },
            None => Err(fail),
        }
    }

    /// Guess image format from file extension
    pub fn guess_format(path: &str) -> (r: Option<ImageFormat>)
        ensures
            r == format_of_path(path@),
    {
        match path_extension(path) {
            Some(ext) => {
                let l = str_to_lowercase(ext.as_str());
                let e = l.as_str();
                if str_eq(e, "png") {
                    Some(ImageFormat::Png)
                } else if str_eq(e, "jpg") || str_eq(e, "jpeg") {
                    Some(ImageFormat::Jpeg)
                } else if str_eq(e, "gif") {
                    Some(ImageFormat::Gif)
                } else if str_eq(e, "webp") {
                    Some(ImageFormat::WebP)
                } else if str_eq(e, "bmp") {
                    Some(ImageFormat::Bmp)
                } else if str_eq(e, "tiff") || str_eq(e, "tif") {
                    Some(ImageFormat::Tiff)
                } else if str_eq(e, "avif") {
                    Some(ImageFormat::Avif)
                } else {
                    None
                }
            },
            None => None,
        }
    }

    /// Check if a path points to a supported image format
    pub fn is_supported_format(path: &str) -> (r: bool)
        ensures
            r == format_of_path(path@) is Some,
    {
        ImageLoader::guess_format(path).is_some()
    }

    /// Get list of supported extensions
    pub fn supported_extensions() -> (r: Vec<&'static str>)
        ensures
            r@.len() == 9,
            r@[0]@ == "png"@,
            r@[1]@ == "jpg"@,
            r@[2]@ == "jpeg"@,
            r@[3]@ == "gif"@,
            r@[4]@ == "webp"@,
            r@[5]@ == "bmp"@,
            r@[6]@ == "tiff"@,
            r@[7]@ == "tif"@,
            r@[8]@ == "avif"@,
            forall|i: int| 0 <= i < 9 ==> format_for_extension(r@[i]@) is Some,
    {
        let r = vec!["png", "jpg", "jpeg", "gif", "webp", "bmp", "tiff", "tif", "avif"];
        proof {
            reveal_strlit("png");
            reveal_strlit("jpg");
            reveal_strlit("jpeg");
            reveal_strlit("gif");
            reveal_strlit("webp");
            reveal_strlit("bmp");
            reveal_strlit("tiff");
            reveal_strlit("tif");
            reveal_strlit("avif");
        }
        r
    }
}

} // verus!
