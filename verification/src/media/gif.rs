//! Animated GIF decoding with frame-by-frame access and timing.

use vstd::prelude::*;
use crate::media::loader::{pixels_from_raw, pixels_of_bytes};
use crate::media::pixels::{Rgba, RgbaImage};
use crate::state::step_forward;
use crate::state::step_back;
use crate::text::str_to_string;
use crate::time_span::TimeSpan;

verus! {

/// A single animation frame with timing information
#[derive(Debug, Clone)]
pub struct AnimationFrame {
    /// The frame image data
    pub image: RgbaImage,
    /// Delay before showing the next frame
    pub delay: TimeSpan,
}

/// A frame as the GIF decoder gives it: size, RGBA bytes, and the delay as the
/// millisecond ratio `numer / denom`.
#[derive(Debug, Clone)]
pub struct RawGifFrame {
    pub width: u32,
    pub height: u32,
    pub rgba: Vec<u8>,
    pub delay_numer: u32,
    pub delay_denom: u32,
}

/// The plain values of a raw frame.
pub open spec fn raw_frame_view(f: RawGifFrame) -> (u32, u32, Seq<u8>, u32, u32) {
    (f.width, f.height, f.rgba@, f.delay_numer, f.delay_denom)
}

/// What the GIF decoder gives for the data: its frames, or the error message
/// ("Failed to create GIF decoder" / "Failed to decode GIF frame").
pub uninterp spec fn decoded_gif(data: Seq<u8>) -> Result<Seq<(u32, u32, Seq<u8>, u32, u32)>, Seq<char>>;

/// Decodes all GIF frames with the `image` crate (`GifDecoder::new`, `into_frames`,
/// `Frame::delay().numer_denom_ms()`, `into_buffer`); the result is named `decoded_gif`.
#[verifier::external_body]
fn decode_gif_frames(data: &[u8]) -> (r: Result<Vec<RawGifFrame>, String>)
    ensures
        match r {
            Ok(v) => decoded_gif(data@) == Ok::<_, Seq<char>>(v@.map_values(|f: RawGifFrame| raw_frame_view(f))),
            Err(e) => decoded_gif(data@) == Err::<Seq<(u32, u32, Seq<u8>, u32, u32)>, _>(e@),
        },
{
    let dec = image::codecs::gif::GifDecoder::new(std::io::Cursor::new(data.to_vec()))
        .map_err(|_| "Failed to create GIF decoder".to_string())?;
    image::AnimationDecoder::into_frames(dec).map(|f| {
        let f = f.map_err(|_| "Failed to decode GIF frame".to_string())?;
        let (n, d) = f.delay().numer_denom_ms();
        let b = f.into_buffer();
        Ok(RawGifFrame { width: b.width(), height: b.height(), rgba: b.into_raw(), delay_numer: n, delay_denom: d })
    }).collect()
}

/// The delay of a frame: `numer / denom` milliseconds in whole microseconds, zero when
/// the denominator is zero.
pub open spec fn delay_micros(numer: u32, denom: u32) -> int {
    if denom == 0 {
        0
    } else {
        (numer * 1000) / (denom as int)
    }
}

/// The delay of a frame in microseconds.
pub fn frame_delay_to_duration(numer: u32, denom: u32) -> (r: TimeSpan)
    ensures
        r.wf(),
        r.total() == delay_micros(numer, denom) * 1000,
{
    if denom == 0 {
        TimeSpan::zero()
    } else {
        TimeSpan::from_micros((numer as u64 * 1000) / denom as u64)
    }
}

/// The delay a frame is played with: its own, or 100 ms when that is zero
/// (GIFs with zero delay mean "as fast as possible").
pub open spec fn played_delay_nanos(numer: u32, denom: u32) -> int {
    if delay_micros(numer, denom) == 0 {
        100_000_000
    } else {
        delay_micros(numer, denom) * 1000
    }
}

/// Sum of the played delays of the first `k` frames.
pub open spec fn total_played(fs: Seq<(u32, u32, Seq<u8>, u32, u32)>, k: int) -> int
    decreases k,
{
    if k <= 0 {
        0
    } else {
        total_played(fs, k - 1) + played_delay_nanos(fs[k - 1].3, fs[k - 1].4)
    }
}

/// Every frame's bytes hold exactly one pixel per position.
pub open spec fn frames_well_sized(fs: Seq<(u32, u32, Seq<u8>, u32, u32)>) -> bool {
    forall|k: int| 0 <= k < fs.len() ==> #[trigger] fs[k].2.len() == fs[k].0 * fs[k].1 * 4
}

/// Decoded animated GIF with all frames
#[derive(Debug)]
pub struct AnimatedGif {
    /// All frames in order
    frames: Vec<AnimationFrame>,
    /// Current frame index
    current_index: usize,
    /// Whether to loop forever
    pub loops: bool,
    /// Total duration of one loop
    pub total_duration: TimeSpan,
}

impl AnimatedGif {
    #[verifier::type_invariant]
    spec fn frames_present(&self) -> bool {
        &&& self.frames@.len() > 0
        &&& self.current_index < self.frames@.len()
    }

    /// The frames in order.
    pub closed spec fn frames_view(&self) -> Seq<AnimationFrame> {
        self.frames@
    }

    /// The position of the current frame.
    pub closed spec fn index_view(&self) -> int {
        self.current_index as int
    }

    /// Whether the animation loops.
    pub closed spec fn loops_view(&self) -> bool {
        self.loops
    }

    /// The duration of one loop.
    pub closed spec fn duration_view(&self) -> TimeSpan {
        self.total_duration
    }

    /// Builds the animation from decoded frames: each image kept, each delay converted
    /// (zero becomes 100 ms), the loop duration summed. No frames is an error.
    pub fn from_raw_frames(raw: Vec<RawGifFrame>) -> (r: Result<AnimatedGif, String>)
        requires
            total_played(raw@.map_values(|f: RawGifFrame| raw_frame_view(f)), raw@.len() as int)
                <= TimeSpan::max_total(),
            frames_well_sized(raw@.map_values(|f: RawGifFrame| raw_frame_view(f))),
        ensures
            match r {
                Ok(g) => {
                    let fs = raw@.map_values(|f: RawGifFrame| raw_frame_view(f));
                    &&& g.frames_view().len() == fs.len() > 0
                    &&& g.index_view() == 0
                    &&& g.loops_view()
                    &&& g.duration_view().wf()
                    &&& g.duration_view().total() == total_played(fs, fs.len() as int)
                    &&& forall|k: int| 0 <= k < fs.len() ==> {
                        let f = #[trigger] g.frames_view()[k];
                        &&& f.image.wf()
                        &&& f.image.width == fs[k].0
                        &&& f.image.height == fs[k].1
                        &&& f.image.pixels@ == pixels_of_bytes(fs[k].2)
                        &&& f.delay.wf()
                        &&& f.delay.total() == played_delay_nanos(fs[k].3, fs[k].4)
                    }
                },
                Err(e) => raw@.len() == 0 && e@ == "GIF contains no frames"@,
            },
    {
        let ghost fs = raw@.map_values(|f: RawGifFrame| raw_frame_view(f));
        let n = raw.len();
        let mut frames: Vec<AnimationFrame> = Vec::new();
        let mut total = TimeSpan::zero();
        let mut i: usize = 0;
        while i < n
            invariant
                n == raw@.len(),
                fs == raw@.map_values(|f: RawGifFrame| raw_frame_view(f)),
                total_played(fs, n as int) <= TimeSpan::max_total(),
                frames_well_sized(fs),
                i <= n,
                frames@.len() == i,
                total.wf(),
                total.total() == total_played(fs, i as int),
                forall|k: int| 0 <= k < i ==> {
                    let f = #[trigger] frames@[k];
                    &&& f.image.wf()
                    &&& f.image.width == fs[k].0
                    &&& f.image.height == fs[k].1
                    &&& f.image.pixels@ == pixels_of_bytes(fs[k].2)
                    &&& f.delay.wf()
                    &&& f.delay.total() == played_delay_nanos(fs[k].3, fs[k].4)
                },
            decreases n - i,
        {
            let rf = &raw[i];
            assert(fs[i as int] == raw_frame_view(raw@[i as int]));
            let d = frame_delay_to_duration(rf.delay_numer, rf.delay_denom);
            let delay = if d.is_zero() {
                TimeSpan::from_millis(100)
            } else {
                d
            };
            proof {
                lemma_total_played_monotone(fs, i + 1, n as int);
            }
            total = total.add(delay);
            let pixels = pixels_from_raw(&rf.rgba);
            proof {
                assert(fs[i as int].2.len() == fs[i as int].0 * fs[i as int].1 * 4);
                assert(pixels@.len() == rf.rgba@.len() / 4);
                assert(rf.rgba@.len() / 4 == rf.width * rf.height) by (nonlinear_arith)
                    requires rf.rgba@.len() == rf.width * rf.height * 4;
            }
            let image = RgbaImage { width: rf.width, height: rf.height, pixels };
            frames.push(AnimationFrame { image, delay });
            i = i + 1;
        }
        if frames.len() == 0 {
            return Err(str_to_string("GIF contains no frames"));
        }
        Ok(AnimatedGif { frames, current_index: 0, loops: true, total_duration: total })
    }

    /// Load an animated GIF from bytes.
    pub fn load_from_bytes(data: &[u8]) -> (r: Result<AnimatedGif, String>)
        ensures
            match decoded_gif(data@) {
                Err(e) => r matches Err(m) && m@ == e,
                Ok(fs) => if !frames_well_sized(fs) {
                    r matches Err(m) && m@ == "Failed to decode GIF frame"@
                } else if total_played(fs, fs.len() as int) > TimeSpan::max_total() {
                    r matches Err(m) && m@ == "GIF duration overflows"@
                } else if fs.len() == 0 {
                    r matches Err(m) && m@ == "GIF contains no frames"@
                } else {
                    r matches Ok(g) && g.frames_view().len() == fs.len() && g.index_view() == 0 && g.loops_view()
                        && g.duration_view().total() == total_played(fs, fs.len() as int)
                        && forall|k: int| 0 <= k < fs.len() ==> {
                            let f = #[trigger] g.frames_view()[k];
                            &&& f.image.width == fs[k].0
                            &&& f.image.height == fs[k].1
                            &&& f.image.pixels@ == pixels_of_bytes(fs[k].2)
                            &&& f.delay.total() == played_delay_nanos(fs[k].3, fs[k].4)
                        }
                },
            },
    {
        let raw = match decode_gif_frames(data) {
            Ok(v) => v,
            Err(e) => return Err(e),
        };
        let ghost fs = raw@.map_values(|f: RawGifFrame| raw_frame_view(f));
        if !frames_sized(&raw) {
            return Err(str_to_string("Failed to decode GIF frame"));
        }
        if !duration_fits(&raw) {
            return Err(str_to_string("GIF duration overflows"));
        }
        AnimatedGif::from_raw_frames(raw)
    }

    /// Get the number of frames
    pub fn frame_count(&self) -> (r: usize)
        ensures
            r == self.frames_view().len(),
    {
        self.frames.len()
    }

    /// Check if this is actually animated (more than one frame)
    pub fn is_animated(&self) -> (r: bool)
        ensures
            r == (self.frames_view().len() > 1),
    {
        self.frames.len() > 1
    }

    /// Get the current frame
    pub fn current_frame(&self) -> (r: &AnimationFrame)
        ensures
            0 <= self.index_view() < self.frames_view().len(),
            *r == self.frames_view()[self.index_view()],
    {
        proof {
            use_type_invariant(self);
        }
        &self.frames[self.current_index]
    }

    /// Get a specific frame by index
    pub fn frame(&self, index: usize) -> (r: Option<&AnimationFrame>)
        ensures
            match r {
                Some(f) => index < self.frames_view().len() && *f == self.frames_view()[index as int],
                None => index >= self.frames_view().len(),
            },
    {
        if index < self.frames.len() {
            Some(&self.frames[index])
        } else {
            None
        }
    }

    /// Get the current frame index
    pub fn current_index(&self) -> (r: usize)
        ensures
            r == self.index_view(),
            r < self.frames_view().len(),
    {
        proof {
            use_type_invariant(self);
        }
        self.current_index
    }

    /// Advance to the next frame, returning true if we looped
    pub fn advance(&mut self) -> (looped: bool)
        ensures
            final(self).frames_view() == old(self).frames_view(),
            final(self).index_view() == step_forward(old(self).index_view(), old(self).frames_view().len() as int),
            looped == (final(self).index_view() == 0),
            final(self).loops_view() == old(self).loops_view(),
            final(self).duration_view() == old(self).duration_view(),
    {
        proof {
            use_type_invariant(&*self);
        }
        let n = self.frames.len();
        if self.current_index + 1 >= n {
            self.current_index = 0;
            true
        } else {
            self.current_index = self.current_index + 1;
            false
        }
    }

    /// Go back to the previous frame, returning true if we looped
    pub fn rewind(&mut self) -> (looped: bool)
        ensures
            final(self).frames_view() == old(self).frames_view(),
            final(self).index_view() == step_back(old(self).index_view(), old(self).frames_view().len() as int),
            looped == (old(self).index_view() == 0),
            final(self).loops_view() == old(self).loops_view(),
            final(self).duration_view() == old(self).duration_view(),
    {
        proof {
            use_type_invariant(&*self);
        }
        if self.current_index == 0 {
            self.current_index = self.frames.len() - 1;
            true
        } else {
            self.current_index = self.current_index - 1;
            false
        }
    }

    /// Reset to the first frame
    pub fn reset(&mut self)
        ensures
            final(self).frames_view() == old(self).frames_view(),
            final(self).index_view() == 0,
            final(self).loops_view() == old(self).loops_view(),
            final(self).duration_view() == old(self).duration_view(),
    {
        proof {
            use_type_invariant(&*self);
        }
        self.current_index = 0;
    }

    /// Get all frames as a slice
    pub fn frames(&self) -> (r: &[AnimationFrame])
        ensures
            r@ == self.frames_view(),
    {
        self.frames.as_slice()
    }

    /// Get dimensions (width, height) from first frame
    pub fn dimensions(&self) -> (r: (u32, u32))
        ensures
            self.frames_view().len() > 0,
            r == (self.frames_view()[0].image.width, self.frames_view()[0].image.height),
    {
        proof {
            use_type_invariant(self);
        }
        (self.frames[0].image.width, self.frames[0].image.height)
    }
}

proof fn lemma_total_played_monotone(fs: Seq<(u32, u32, Seq<u8>, u32, u32)>, a: int, b: int)
    requires
        0 <= a <= b,
    ensures
        total_played(fs, a) <= total_played(fs, b),
    decreases b - a,
{
    if a < b {
        lemma_total_played_monotone(fs, a, b - 1);
    }
}

pub(crate) fn frames_sized(raw: &Vec<RawGifFrame>) -> (r: bool)
    ensures
        r == frames_well_sized(raw@.map_values(|f: RawGifFrame| raw_frame_view(f))),
{
    let ghost fs = raw@.map_values(|f: RawGifFrame| raw_frame_view(f));
    let mut i: usize = 0;
    while i < raw.len()
        invariant
            i <= raw@.len(),
            fs == raw@.map_values(|f: RawGifFrame| raw_frame_view(f)),
            forall|k: int| 0 <= k < i ==> #[trigger] fs[k].2.len() == fs[k].0 * fs[k].1 * 4,
        decreases raw.len() - i,
    {
        let f = &raw[i];
        assert(fs[i as int] == raw_frame_view(raw@[i as int]));
        let n = f.rgba.len() as u128;
        assert((f.width as u128) * (f.height as u128) * 4 <= 0xffff_ffff * 0xffff_ffffu128 * 4) by (nonlinear_arith)
            requires f.width <= 0xffff_ffff, f.height <= 0xffff_ffff;
        if n != (f.width as u128) * (f.height as u128) * 4 {
            proof {
                assert(fs[i as int].2.len() != fs[i as int].0 * fs[i as int].1 * 4);
            }
            return false;
        }
        i = i + 1;
    }
    true
}

/// The delay a frame is played with.
fn played_delay(numer: u32, denom: u32) -> (r: TimeSpan)
    ensures
        r.wf(),
        r.total() == played_delay_nanos(numer, denom),
{
    let d = frame_delay_to_duration(numer, denom);
    if d.is_zero() {
        TimeSpan::from_millis(100)
    } else {
        d
    }
}

fn duration_fits(raw: &Vec<RawGifFrame>) -> (r: bool)
    ensures
        r == (total_played(raw@.map_values(|f: RawGifFrame| raw_frame_view(f)), raw@.len() as int)
            <= TimeSpan::max_total()),
{
    let ghost fs = raw@.map_values(|f: RawGifFrame| raw_frame_view(f));
    let mut total: u128 = 0;
    let mut i: usize = 0;
    while i < raw.len()
        invariant
            i <= raw@.len(),
            fs == raw@.map_values(|f: RawGifFrame| raw_frame_view(f)),
            total == total_played(fs, i as int),
            total <= TimeSpan::max_total(),
        decreases raw.len() - i,
    {
        let f = &raw[i];
        assert(fs[i as int] == raw_frame_view(raw@[i as int]));
        let d = played_delay(f.delay_numer, f.delay_denom);
        let dn = (d.secs as u128) * 1_000_000_000 + d.nanos as u128;
        assert(dn <= 0xffff_ffff_ffff_ffffu128 * 1_000_000_000 + 999_999_999);
        if total + dn > 18_446_744_073_709_551_615_999_999_999u128 {
            proof {
                lemma_total_played_monotone(fs, i + 1, raw@.len() as int);
            }
            return false;
        }
        total = total + dn;
        i = i + 1;
    }
    true
}

/// Whether the data decodes as a GIF with more than one frame.
pub fn is_animated_gif(data: &[u8]) -> (r: bool)
    ensures
        r == match decoded_gif(data@) {
            Ok(fs) => frames_well_sized(fs) && total_played(fs, fs.len() as int) <= TimeSpan::max_total() && fs.len() > 1,
            Err(_) => false,
        },
{
    match AnimatedGif::load_from_bytes(data) {
        Ok(gif) => gif.is_animated(),
        Err(_) => false,
    }
}

} // verus!
