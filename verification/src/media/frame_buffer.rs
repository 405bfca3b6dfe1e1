//! Frames kept for playback: a looping buffer of pre-scaled frames, and the statistics
//! of a streaming buffer.

use vstd::prelude::*;
use crate::media::pixels::RgbaImage;
use crate::state::step_forward;
use crate::time_span::TimeSpan;

verus! {

/// A single frame in the buffer
#[derive(Debug, Clone)]
pub struct BufferedFrame {
    /// The frame image data
    pub image: RgbaImage,
    /// Frame index in the source
    pub index: usize,
    /// Frame delay (time until next frame)
    pub delay: TimeSpan,
}

impl BufferedFrame {
    /// Create a new buffered frame
    pub fn new(image: RgbaImage, index: usize, delay: TimeSpan) -> (f: BufferedFrame)
        ensures
            f.image == image,
            f.index == index,
            f.delay == delay,
    {
        BufferedFrame { image, index, delay }
    }
}

/// Statistics about the frame buffer
#[derive(Debug, Clone, Copy)]
pub struct FrameBufferStats {
    /// Number of frames currently in buffer
    pub buffered: usize,
    /// Total frames produced
    pub produced: usize,
    /// Total frames consumed
    pub consumed: usize,
    /// Number of frames recycled
    pub recycled: usize,
    /// Whether the producer is done
    pub producer_done: bool,
}

impl FrameBufferStats {
    /// The statistics of a buffer holding `buffered` frames after `consumed` were taken:
    /// every frame produced was either taken or is still held.
    pub fn from_counts(buffered: usize, consumed: usize, producer_done: bool) -> (s: FrameBufferStats)
        requires
            buffered + consumed <= usize::MAX,
        ensures
            s.buffered == buffered,
            s.consumed == consumed,
            s.produced == buffered + consumed,
            s.recycled == 0,
            s.producer_done == producer_done,
    {
        FrameBufferStats { buffered, produced: consumed + buffered, consumed, recycled: 0, producer_done }
    }
}

/// Simple looping frame buffer for finite animations (GIF, WebP)
#[derive(Debug)]
pub struct LoopingFrameBuffer {
    /// All frames (pre-scaled)
    frames: Vec<BufferedFrame>,
    /// Current frame index
    current: usize,
}

impl LoopingFrameBuffer {
    /// The frames in order.
    pub closed spec fn frames_view(&self) -> Seq<BufferedFrame> {
        self.frames@
    }

    /// The position of the current frame.
    pub closed spec fn index_view(&self) -> int {
        self.current as int
    }

    /// Create from existing frames, at the first one
    pub fn new(frames: Vec<BufferedFrame>) -> (b: LoopingFrameBuffer)
        ensures
            b.frames_view() == frames@,
            b.index_view() == 0,
    {
        LoopingFrameBuffer { frames, current: 0 }
    }

    /// Get the current frame
    pub fn current(&self) -> (r: Option<&BufferedFrame>)
        ensures
            match r {
                Some(f) => 0 <= self.index_view() < self.frames_view().len() && *f
                    == self.frames_view()[self.index_view()],
                None => self.index_view() >= self.frames_view().len(),
            },
    {
        if self.current < self.frames.len() {
            Some(&self.frames[self.current])
        } else {
            None
        }
    }

    /// Advance to the next frame, looping if necessary; returns true if we looped back
    /// to the start.
    pub fn advance(&mut self) -> (looped: bool)
        requires
            old(self).index_view() < usize::MAX,
        ensures
            final(self).frames_view() == old(self).frames_view(),
            final(self).index_view() == if old(self).index_view() + 1 >= old(self).frames_view().len() {
                0
            } else {
                old(self).index_view() + 1
            },
            looped == (old(self).index_view() + 1 >= old(self).frames_view().len()),
    {
        self.current = self.current + 1;
        if self.current >= self.frames.len() {
            self.current = 0;
            true
        } else {
            false
        }
    }

    /// Go to a specific frame index (taken modulo the number of frames)
    pub fn seek(&mut self, index: usize)
        requires
            old(self).frames_view().len() > 0,
        ensures
            final(self).frames_view() == old(self).frames_view(),
            final(self).index_view() == index as int % old(self).frames_view().len() as int,
    {
        self.current = index % self.frames.len();
    }

    /// Get the number of frames
    pub fn len(&self) -> (r: usize)
        ensures
            r == self.frames_view().len(),
    {
        self.frames.len()
    }

    /// Check if buffer is empty
    pub fn is_empty(&self) -> (r: bool)
        ensures
            r == (self.frames_view().len() == 0),
    {
        self.frames.len() == 0
    }

    /// Get the current frame index
    pub fn current_index(&self) -> (r: usize)
        ensures
            r == self.index_view(),
    {
        self.current
    }
}

} // verus!
