//! Where an unscaled image goes on a target: centred (cropped where it is larger) or
//! repeated as tiles.

use vstd::prelude::*;

verus! {

/// The part of an image drawn on a target, and where: the rectangle of the image at
/// (`src_x`, `src_y`) of size `width` x `height`, drawn with its corner at (`dst_x`, `dst_y`).
#[derive(Debug, Clone, Copy, PartialEq, Eq, Structural)]
pub struct Placement {
    pub src_x: u32,
    pub src_y: u32,
    pub width: u32,
    pub height: u32,
    pub dst_x: u32,
    pub dst_y: u32,
}

/// Centring along one axis, an image of length `s` on a target of length `t`: where the
/// drawn part starts in the image, its length, and where it starts on the target. The
/// image is centred (offset rounded down) where it fits, else its middle is cut out.
pub open spec fn centred_axis(s: int, t: int) -> (int, int, int) {
    if s <= t {
        (0, s, (t - s) / 2)
    } else {
        ((s - t) / 2, t, 0)
    }
}

/// Center: the image at its own size in the middle of the target; where it is larger
/// than the target, its middle part is cut out to fit.
pub fn center_placement(src_width: u32, src_height: u32, target_width: u32, target_height: u32) -> (p: Placement)
    ensures
        (p.src_x as int, p.width as int, p.dst_x as int) == centred_axis(src_width as int, target_width as int),
        (p.src_y as int, p.height as int, p.dst_y as int) == centred_axis(src_height as int, target_height as int),
{
    let (src_x, width, dst_x) = if src_width <= target_width {
        (0, src_width, (target_width - src_width) / 2)
    } else {
        ((src_width - target_width) / 2, target_width, 0)
    };
    let (src_y, height, dst_y) = if src_height <= target_height {
        (0, src_height, (target_height - src_height) / 2)
    } else {
        ((src_height - target_height) / 2, target_height, 0)
    };
    Placement { src_x, src_y, width, height, dst_x, dst_y }
}

/// Tile: where the copies of an image of length `s` start along a target of length `t`:
/// every multiple of `s` below `t`, in order, so that the copies cover the target.
pub fn tile_starts(s: u32, t: u32) -> (r: Vec<u32>)
    requires
        s > 0,
    ensures
        forall|j: int| 0 <= j < r@.len() ==> r@[j] == j * s && #[trigger] r@[j] < t,
        r@.len() * s >= t,
{
    let mut r: Vec<u32> = Vec::new();
    let mut pos: u64 = 0;
    assert(r@.len() * s == 0) by (nonlinear_arith)
        requires r@.len() == 0;
    while pos < t as u64
        invariant
            s > 0,
            pos == r@.len() * s,
            pos < t + s,
            forall|j: int| 0 <= j < r@.len() ==> r@[j] == j * s && #[trigger] r@[j] < t,
        decreases t + s - pos,
    {
        let ghost n = r@.len();
        r.push(pos as u32);
        pos = pos + s as u64;
        proof {
            assert(pos == (n + 1) * s) by (nonlinear_arith)
                requires pos == n * s + s;
        }
    }
    r
}

} // verus!
