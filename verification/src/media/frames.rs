//! Frames of animated PNG and WebP images.

use vstd::prelude::*;
use crate::media::gif::{delay_micros, frame_delay_to_duration, frames_sized, frames_well_sized, raw_frame_view, AnimationFrame, RawGifFrame};
use crate::media::loader::{pixels_from_raw, pixels_of_bytes};
use crate::media::pixels::RgbaImage;
use crate::text::str_to_string;

verus! {

/// What the WebP decoder gives for the data: its frames (size, RGBA bytes, delay as the
/// millisecond ratio `numer / denom`), or the error message.
pub uninterp spec fn decoded_webp(data: Seq<u8>) -> Result<Seq<(u32, u32, Seq<u8>, u32, u32)>, Seq<char>>;

/// What the PNG decoder says of the data: whether it is an animated PNG, or the error
/// message.
pub uninterp spec fn decoded_png_is_apng(data: Seq<u8>) -> Result<bool, Seq<char>>;

/// What the animated-PNG decoder gives for the data: its frames, or the error message.
pub uninterp spec fn decoded_apng(data: Seq<u8>) -> Result<Seq<(u32, u32, Seq<u8>, u32, u32)>, Seq<char>>;

/// Decodes all frames of a WebP image with the `image` crate (`WebPDecoder::new`,
/// `into_frames`, `Frame::delay().numer_denom_ms()`, `into_buffer`); the result is named
/// `decoded_webp`.
#[verifier::external_body]
fn decode_webp_frames(data: &[u8]) -> (r: Result<Vec<RawGifFrame>, String>)
    ensures
        match r {
            Ok(v) => decoded_webp(data@) == Ok::<_, Seq<char>>(v@.map_values(|f: RawGifFrame| raw_frame_view(f))),
            Err(e) => decoded_webp(data@) == Err::<Seq<(u32, u32, Seq<u8>, u32, u32)>, _>(e@),
        },
{
    let dec = image::codecs::webp::WebPDecoder::new(std::io::Cursor::new(data)).map_err(|e| e.to_string())?;
    image::AnimationDecoder::into_frames(dec).map(|f| {
        let f = f.map_err(|e| e.to_string())?;
        let (n, d) = f.delay().numer_denom_ms();
        let b = f.into_buffer();
        Ok(RawGifFrame { width: b.width(), height: b.height(), rgba: b.into_raw(), delay_numer: n, delay_denom: d })
    }).collect()
}

/// Asks the `image` crate's PNG decoder whether the data is an animated PNG
/// (`PngDecoder::new`, `is_apng`); the result is named `decoded_png_is_apng`.
#[verifier::external_body]
fn png_is_apng(data: &[u8]) -> (r: Result<bool, String>)
    ensures
        match r {
            Ok(b) => decoded_png_is_apng(data@) == Ok::<bool, Seq<char>>(b),
            Err(e) => decoded_png_is_apng(data@) == Err::<bool, Seq<char>>(e@),
        },
{
    let dec = image::codecs::png::PngDecoder::new(std::io::Cursor::new(data)).map_err(|e| e.to_string())?;
    dec.is_apng().map_err(|e| e.to_string())
}

/// Decodes all frames of an animated PNG with the `image` crate (`PngDecoder::new`, `apng`,
/// `into_frames`, `Frame::delay().numer_denom_ms()`, `into_buffer`); the result is named
/// `decoded_apng`.
#[verifier::external_body]
fn decode_apng_frames(data: &[u8]) -> (r: Result<Vec<RawGifFrame>, String>)
    ensures
        match r {
            Ok(v) => decoded_apng(data@) == Ok::<_, Seq<char>>(v@.map_values(|f: RawGifFrame| raw_frame_view(f))),
            Err(e) => decoded_apng(data@) == Err::<Seq<(u32, u32, Seq<u8>, u32, u32)>, _>(e@),
        },
{
    let dec = image::codecs::png::PngDecoder::new(std::io::Cursor::new(data)).map_err(|e| e.to_string())?;
    let apng = dec.apng().map_err(|e| e.to_string())?;
    image::AnimationDecoder::into_frames(apng).map(|f| {
        let f = f.map_err(|e| e.to_string())?;
        let (n, d) = f.delay().numer_denom_ms();
        let b = f.into_buffer();
        Ok(RawGifFrame { width: b.width(), height: b.height(), rgba: b.into_raw(), delay_numer: n, delay_denom: d })
    }).collect()
}

/// The frame `f` holds the decoded frame `d`: its size, its pixels, and its own delay.
pub open spec fn holds_frame(f: AnimationFrame, d: (u32, u32, Seq<u8>, u32, u32)) -> bool {
    &&& f.image.wf()
    &&& f.image.width == d.0
    &&& f.image.height == d.1
    &&& f.image.pixels@ == pixels_of_bytes(d.2)
    &&& f.delay.wf()
    &&& f.delay.total() == delay_micros(d.3, d.4) * 1000
}

/// The frames hold the decoded frames, one each, in order.
pub open spec fn holds_frames(v: Seq<AnimationFrame>, fs: Seq<(u32, u32, Seq<u8>, u32, u32)>) -> bool {
    v.len() == fs.len() && forall|k: int| 0 <= k < fs.len() ==> holds_frame(#[trigger] v[k], fs[k])
}

/// The message for decoded frames whose bytes do not fit their size.
pub open spec fn bad_frame_message() -> Seq<char> {
    "Failed to decode animation frame"@
}

/// Turns decoded frames into animation frames, each with its own delay; frames whose bytes
/// do not hold one pixel per position are an error.
pub fn frames_from_raw(raw: Vec<RawGifFrame>) -> (r: Result<Vec<AnimationFrame>, String>)
    ensures
        ({
            let fs = raw@.map_values(|f: RawGifFrame| raw_frame_view(f));
            if frames_well_sized(fs) {
                r matches Ok(v) && holds_frames(v@, fs)
            } else {
                r matches Err(e) && e@ == bad_frame_message()
            }
        }),
{
    let ghost fs = raw@.map_values(|f: RawGifFrame| raw_frame_view(f));
    if !frames_sized(&raw) {
        return Err(str_to_string("Failed to decode animation frame"));
    }
    let n = raw.len();
    let mut frames: Vec<AnimationFrame> = Vec::new();
    let mut i: usize = 0;
    while i < n
        invariant
            n == raw@.len(),
            fs == raw@.map_values(|f: RawGifFrame| raw_frame_view(f)),
            frames_well_sized(fs),
            i <= n,
            frames@.len() == i,
            forall|k: int| 0 <= k < i ==> holds_frame(#[trigger] frames@[k], fs[k]),
        decreases n - i,
    {
        let rf = &raw[i];
        assert(fs[i as int] == raw_frame_view(raw@[i as int]));
        let delay = frame_delay_to_duration(rf.delay_numer, rf.delay_denom);
        let pixels = pixels_from_raw(&rf.rgba);
        proof {
            assert(fs[i as int].2.len() == fs[i as int].0 * fs[i as int].1 * 4);
            assert(rf.rgba@.len() / 4 == rf.width * rf.height) by (nonlinear_arith)
                requires rf.rgba@.len() == rf.width * rf.height * 4;
        }
        let image = RgbaImage { width: rf.width, height: rf.height, pixels };
        frames.push(AnimationFrame { image, delay });
        i = i + 1;
    }
    Ok(frames)
}

/// The frames of an animated WebP, each with its own delay; the decoder's message where it
/// fails.
pub fn load_webp_frames(data: &[u8]) -> (r: Result<Vec<AnimationFrame>, String>)
    ensures
        match decoded_webp(data@) {
            Err(e) => r matches Err(m) && m@ == e,
            Ok(fs) => if frames_well_sized(fs) {
                r matches Ok(v) && holds_frames(v@, fs)
            } else {
                r matches Err(m) && m@ == bad_frame_message()
            },
        },
{
    match decode_webp_frames(data) {
        Ok(raw) => frames_from_raw(raw),
        Err(e) => Err(e),
    }
}

/// The frames of an animated PNG, each with its own delay; none for a PNG that is not
/// animated; the decoder's message where it fails.
pub fn load_apng_frames(data: &[u8]) -> (r: Result<Vec<AnimationFrame>, String>)
    ensures
        match decoded_png_is_apng(data@) {
            Err(e) => r matches Err(m) && m@ == e,
            Ok(false) => r matches Ok(v) && v@.len() == 0,
            Ok(true) => match decoded_apng(data@) {
                Err(e) => r matches Err(m) && m@ == e,
                Ok(fs) => if frames_well_sized(fs) {
                    r matches Ok(v) && holds_frames(v@, fs)
                } else {
                    r matches Err(m) && m@ == bad_frame_message()
                },
            },
        },
{
    match png_is_apng(data) {
        Ok(true) => match decode_apng_frames(data) {
            Ok(raw) => frames_from_raw(raw),
            Err(e) => Err(e),
        },
        Ok(false) => Ok(Vec::new()),
        Err(e) => Err(e),
    }
}

} // verus!
