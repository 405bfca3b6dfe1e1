//! Multi-monitor wallpaper compositor
//!
//! Composites individual monitor wallpapers onto a single root window image.

use vstd::prelude::*;
use crate::media::pixels::{Rgba, RgbaImage, grid_index, lemma_grid_index};
use crate::x11::monitors::Monitor;

verus! {

/// Represents a wallpaper for a specific monitor region
#[derive(Debug, Clone)]
pub struct MonitorWallpaper {
    /// Monitor this wallpaper is for
    pub monitor: Monitor,
    /// Scaled wallpaper image (sized to monitor dimensions)
    pub image: RgbaImage,
}

/// Compositor for combining multiple monitor wallpapers
#[derive(Debug, Clone, Copy)]
pub struct Compositor {
    /// Total width of the root window
    pub total_width: u32,
    /// Total height of the root window
    pub total_height: u32,
}

/// The right edge of a monitor.
pub open spec fn right_edge(m: Monitor) -> int {
    m.x + m.width
}

/// The bottom edge of a monitor.
pub open spec fn bottom_edge(m: Monitor) -> int {
    m.y + m.height
}

/// The rightmost edge of the monitors, or 0 when there are none or all lie left of 0.
pub open spec fn max_right(ms: Seq<Monitor>) -> int
    decreases ms.len(),
{
    if ms.len() == 0 {
        0
    } else {
        let r = max_right(ms.drop_last());
        if right_edge(ms.last()) > r {
            right_edge(ms.last())
        } else {
            r
        }
    }
}

/// The lowest bottom edge of the monitors, or 0 when there are none or all lie above 0.
pub open spec fn max_bottom(ms: Seq<Monitor>) -> int
    decreases ms.len(),
{
    if ms.len() == 0 {
        0
    } else {
        let r = max_bottom(ms.drop_last());
        if bottom_edge(ms.last()) > r {
            bottom_edge(ms.last())
        } else {
            r
        }
    }
}

proof fn lemma_max_edges(ms: Seq<Monitor>)
    ensures
        0 <= max_right(ms) <= 0x7fff + 0xffff,
        0 <= max_bottom(ms) <= 0x7fff + 0xffff,
        forall|i: int| 0 <= i < ms.len() ==> right_edge(ms[i]) <= max_right(ms),
        forall|i: int| 0 <= i < ms.len() ==> bottom_edge(ms[i]) <= max_bottom(ms),
        max_right(ms) == 0 || exists|i: int| 0 <= i < ms.len() && right_edge(ms[i]) == max_right(ms),
        max_bottom(ms) == 0 || exists|i: int|
            0 <= i < ms.len() && bottom_edge(ms[i]) == max_bottom(ms),
    decreases ms.len(),
{
    if ms.len() > 0 {
        let d = ms.drop_last();
        lemma_max_edges(d);
        assert forall|i: int| 0 <= i < d.len() implies ms[i] == d[i] by {}
        if max_right(ms) != 0 && max_right(ms) != right_edge(ms.last()) {
            let k = choose|k: int| 0 <= k < d.len() && right_edge(d[k]) == max_right(d);
            assert(ms[k] == d[k]);
        }
        if max_bottom(ms) != 0 && max_bottom(ms) != bottom_edge(ms.last()) {
            let k = choose|k: int| 0 <= k < d.len() && bottom_edge(d[k]) == max_bottom(d);
            assert(ms[k] == d[k]);
        }
    }
}

/// Where a signed monitor coordinate lands on the unsigned canvas axis:
/// itself when non-negative, wrapped past 2^32 when negative.
pub open spec fn origin(v: i16) -> int {
    if v >= 0 {
        v as int
    } else {
        v + 0x1_0000_0000
    }
}

/// The wallpaper's image covers canvas position (`px`, `py`).
pub open spec fn covers(wp: MonitorWallpaper, px: int, py: int) -> bool {
    let ox = origin(wp.monitor.x);
    let oy = origin(wp.monitor.y);
    ox <= px < ox + wp.image.width && oy <= py < oy + wp.image.height
}

/// The colour of canvas position (`px`, `py`) once all wallpapers are placed in order:
/// that of the last wallpaper covering it, else opaque black.
pub open spec fn composite_pixel(ws: Seq<MonitorWallpaper>, px: int, py: int) -> Rgba
    decreases ws.len(),
{
    if ws.len() == 0 {
        Rgba { r: 0, g: 0, b: 0, a: 255 }
    } else if covers(ws.last(), px, py) {
        ws.last().image.pixel(px - origin(ws.last().monitor.x), py - origin(ws.last().monitor.y))
    } else {
        composite_pixel(ws.drop_last(), px, py)
    }
}

/// Compositing law: a canvas position no wallpaper covers is opaque black; one that some
/// wallpaper covers shows the pixel of the last wallpaper covering it, taken at the
/// position's offset from that wallpaper's monitor origin.
pub proof fn law_composite_pixel(ws: Seq<MonitorWallpaper>, px: int, py: int)
    ensures
        (forall|i: int| 0 <= i < ws.len() ==> !covers(#[trigger] ws[i], px, py))
            ==> composite_pixel(ws, px, py) == (Rgba { r: 0, g: 0, b: 0, a: 255 }),
        forall|i: int|
            0 <= i < ws.len() && covers(#[trigger] ws[i], px, py)
                && (forall|j: int| i < j < ws.len() ==> !covers(#[trigger] ws[j], px, py))
                ==> composite_pixel(ws, px, py) == ws[i].image.pixel(px - origin(ws[i].monitor.x), py - origin(ws[i].monitor.y)),
    decreases ws.len(),
{
    if ws.len() > 0 {
        let d = ws.drop_last();
        law_composite_pixel(d, px, py);
        assert forall|i: int| 0 <= i < d.len() implies #[trigger] d[i] == ws[i] by {}
        if forall|i: int| 0 <= i < ws.len() ==> !covers(#[trigger] ws[i], px, py) {
            assert(!covers(ws[ws.len() - 1], px, py));
            assert forall|i: int| 0 <= i < d.len() implies !covers(#[trigger] d[i], px, py) by {
                assert(d[i] == ws[i]);
            }
        }
        assert forall|i: int|
            0 <= i < ws.len() && covers(#[trigger] ws[i], px, py)
                && (forall|j: int| i < j < ws.len() ==> !covers(#[trigger] ws[j], px, py))
            implies composite_pixel(ws, px, py) == ws[i].image.pixel(px - origin(ws[i].monitor.x), py - origin(ws[i].monitor.y)) by {
            if i < ws.len() - 1 {
                assert(!covers(ws[ws.len() - 1], px, py));
                assert(d[i] == ws[i]);
                assert forall|j: int| i < j < d.len() implies !covers(#[trigger] d[j], px, py) by {
                    assert(d[j] == ws[j]);
                }
            }
        }
    }
}

/// The wallpaper's image is well formed and its pixel positions fit the u32 canvas axis.
pub open spec fn placeable(wp: MonitorWallpaper) -> bool {
    &&& wp.image.wf()
    &&& (wp.image.width == 0 || wp.image.height == 0 || (origin(wp.monitor.x) + wp.image.width
        <= 0x1_0000_0000 && origin(wp.monitor.y) + wp.image.height <= 0x1_0000_0000))
}

/// The part of the wallpaper placed after `rows` full rows and `cols` more pixels of the next row.
pub open spec fn painted(wp: MonitorWallpaper, px: int, py: int, rows: int, cols: int) -> bool {
    let ox = origin(wp.monitor.x);
    let oy = origin(wp.monitor.y);
    &&& ox <= px < ox + wp.image.width
    &&& ((oy <= py < oy + rows) || (py == oy + rows && px < ox + cols))
}

/// The canvas coordinate of a signed monitor coordinate.
fn origin_exec(v: i16) -> (r: u32)
    ensures
        r as int == origin(v),
{
    if v >= 0 {
        v as u32
    } else {
        (0x1_0000_0000i64 + v as i64) as u32
    }
}

/// Places one wallpaper's pixels onto the canvas where they fall inside it.
fn paint(canvas: &mut RgbaImage, wp: &MonitorWallpaper)
    requires
        old(canvas).wf(),
        old(canvas).width * old(canvas).height <= usize::MAX,
        placeable(*wp),
    ensures
        final(canvas).wf(),
        final(canvas).width == old(canvas).width,
        final(canvas).height == old(canvas).height,
        forall|px: int, py: int|
            0 <= px < old(canvas).width && 0 <= py < old(canvas).height ==> #[trigger] final(canvas).pixel(px, py) == if covers(*wp, px, py) {
                wp.image.pixel(px - origin(wp.monitor.x), py - origin(wp.monitor.y))
            } else {
                old(canvas).pixel(px, py)
            },
{
    let w = wp.image.width;
    let h = wp.image.height;
    if w == 0 || h == 0 {
        return;
    }
    let ox = origin_exec(wp.monitor.x);
    let oy = origin_exec(wp.monitor.y);
    let tw = canvas.width;
    let th = canvas.height;
    let ghost before = *canvas;
    let n_src = wp.image.pixels.len();
    assert(w * h == n_src);
    let mut y: u32 = 0;
    while y < h
        invariant
            canvas.wf(),
            canvas.width == tw,
            canvas.height == th,
            before.width == tw,
            before.height == th,
            tw * th <= usize::MAX,
            w * h <= usize::MAX,
            placeable(*wp),
            w == wp.image.width,
            h == wp.image.height,
            w > 0,
            h > 0,
            ox == origin(wp.monitor.x),
            oy == origin(wp.monitor.y),
            y <= h,
            forall|px: int, py: int|
                0 <= px < tw && 0 <= py < th ==> #[trigger] canvas.pixel(px, py) == if painted(
                    *wp,
                    px,
                    py,
                    y as int,
                    0,
                ) {
                    wp.image.pixel(px - ox, py - oy)
                } else {
                    before.pixel(px, py)
                },
        decreases h - y,
    {
        let cy = oy + y;
        if cy < th {
            let mut x: u32 = 0;
            while x < w
                invariant
                    canvas.wf(),
                    canvas.width == tw,
                    canvas.height == th,
                    before.width == tw,
                    before.height == th,
                    tw * th <= usize::MAX,
                    w * h <= usize::MAX,
                    placeable(*wp),
                    w == wp.image.width,
                    h == wp.image.height,
                    ox == origin(wp.monitor.x),
                    oy == origin(wp.monitor.y),
                    y < h,
                    cy == oy + y,
                    cy < th,
                    x <= w,
                    forall|px: int, py: int|
                        0 <= px < tw && 0 <= py < th ==> #[trigger] canvas.pixel(px, py) == if painted(
                            *wp,
                            px,
                            py,
                            y as int,
                            x as int,
                        ) {
                            wp.image.pixel(px - ox, py - oy)
                        } else {
                            before.pixel(px, py)
                        },
                decreases w - x,
            {
                let cx = ox + x;
                if cx < tw {
                    proof {
                        lemma_grid_index(w as int, h as int, x as int, y as int, x as int, y as int);
                        assert(y * w <= y * w + x) by (nonlinear_arith)
                            requires y >= 0, w >= 0, x >= 0;
                        assert(cy * tw <= cy * tw + cx) by (nonlinear_arith)
                            requires cy >= 0, tw >= 0, cx >= 0;
                        lemma_grid_index(
                            tw as int,
                            th as int,
                            cx as int,
                            cy as int,
                            cx as int,
                            cy as int,
                        );
                    }
                    let src = (y as usize) * (w as usize) + (x as usize);
                    let dst = (cy as usize) * (tw as usize) + (cx as usize);
                    let p = wp.image.pixels[src];
                    let ghost mid = *canvas;
                    canvas.pixels.set(dst, p);
                    proof {
                        assert forall|px: int, py: int|
                            0 <= px < tw && 0 <= py < th implies #[trigger] canvas.pixel(px, py)
                            == if painted(*wp, px, py, y as int, x + 1) {
                            wp.image.pixel(px - ox, py - oy)
                        } else {
                            before.pixel(px, py)
                        } by {
                            lemma_grid_index(
                                tw as int,
                                th as int,
                                px,
                                py,
                                cx as int,
                                cy as int,
                            );
                            if px == cx && py == cy {
                            } else {
                                assert(canvas.pixel(px, py) == mid.pixel(px, py));
                            }
                        }
                    }
                }
                x = x + 1;
            }
            proof {
                assert forall|px: int, py: int|
                    0 <= px < tw && 0 <= py < th implies #[trigger] canvas.pixel(px, py) == if painted(
                        *wp,
                        px,
                        py,
                        y + 1,
                        0,
                    ) {
                        wp.image.pixel(px - ox, py - oy)
                    } else {
                        before.pixel(px, py)
                    } by {
                    assert(painted(*wp, px, py, y + 1, 0) == painted(
                        *wp,
                        px,
                        py,
                        y as int,
                        w as int,
                    ));
                }
            }
        } else {
            proof {
                assert forall|px: int, py: int|
                    0 <= px < tw && 0 <= py < th implies #[trigger] canvas.pixel(px, py) == if painted(
                        *wp,
                        px,
                        py,
                        y + 1,
                        0,
                    ) {
                        wp.image.pixel(px - ox, py - oy)
                    } else {
                        before.pixel(px, py)
                    } by {
                    assert(painted(*wp, px, py, y + 1, 0) == painted(
                        *wp,
                        px,
                        py,
                        y as int,
                        0,
                    ));
                }
            }
        }
        y = y + 1;
    }
    proof {
        assert forall|px: int, py: int|
            0 <= px < tw && 0 <= py < th implies painted(*wp, px, py, h as int, 0) == covers(
            *wp,
            px,
            py,
        ) by {}
    }
}

impl Compositor {
    /// Create a new compositor whose canvas bounds all the given monitors.
    pub fn new(monitors: &[Monitor]) -> (c: Compositor)
        ensures
            c.total_width == max_right(monitors@),
            c.total_height == max_bottom(monitors@),
    {
        let (total_width, total_height) = Compositor::calculate_bounds(monitors);
        Compositor { total_width, total_height }
    }

    /// Calculate the bounding box, from the origin, that contains all monitors.
    pub fn calculate_bounds(monitors: &[Monitor]) -> (r: (u32, u32))
        ensures
            r.0 == max_right(monitors@),
            r.1 == max_bottom(monitors@),
            forall|i: int| 0 <= i < monitors@.len() ==> right_edge(monitors@[i]) <= r.0,
            forall|i: int| 0 <= i < monitors@.len() ==> bottom_edge(monitors@[i]) <= r.1,
            r.0 == 0 || exists|i: int| 0 <= i < monitors@.len() && right_edge(monitors@[i]) == r.0,
            r.1 == 0 || exists|i: int|
                0 <= i < monitors@.len() && bottom_edge(monitors@[i]) == r.1,
    {
        proof {
            lemma_max_edges(monitors@);
        }
        if monitors.len() == 0 {
            return (0, 0);
        }
        let mut max_x: i32 = 0;
        let mut max_y: i32 = 0;
        let mut i: usize = 0;
        while i < monitors.len()
            invariant
                i <= monitors@.len(),
                max_x == max_right(monitors@.take(i as int)),
                max_y == max_bottom(monitors@.take(i as int)),
            decreases monitors.len() - i,
        {
            proof {
                lemma_max_edges(monitors@.take(i as int));
                let t = monitors@.take(i + 1);
                assert(t.drop_last() == monitors@.take(i as int));
                assert(t.last() == monitors@[i as int]);
            }
            let m = &monitors[i];
            let right = m.x as i32 + m.width as i32;
            let bottom = m.y as i32 + m.height as i32;
            if right > max_x {
                max_x = right;
            }
            if bottom > max_y {
                max_y = bottom;
            }
            i = i + 1;
        }
        proof {
            assert(monitors@.take(i as int) == monitors@);
        }
        (max_x as u32, max_y as u32)
    }

    /// Composite multiple monitor wallpapers into a single image covering the whole canvas:
    /// each wallpaper placed at its monitor position, later ones over earlier ones,
    /// black where none lands.
    pub fn composite(&self, wallpapers: &[MonitorWallpaper]) -> (canvas: RgbaImage)
        requires
            self.total_width * self.total_height * 4 <= usize::MAX,
            forall|i: int| 0 <= i < wallpapers@.len() ==> placeable(#[trigger] wallpapers@[i]),
        ensures
            canvas.wf(),
            canvas.width == self.total_width,
            canvas.height == self.total_height,
            forall|px: int, py: int|
                0 <= px < self.total_width && 0 <= py < self.total_height ==> #[trigger] canvas.pixel(
                    px,
                    py,
                ) == composite_pixel(wallpapers@, px, py),
            forall|px: int, py: int|
                0 <= px < self.total_width && 0 <= py < self.total_height
                    && (forall|i: int| 0 <= i < wallpapers@.len() ==> !covers(#[trigger] wallpapers@[i], px, py))
                    ==> #[trigger] canvas.pixel(px, py) == (Rgba { r: 0, g: 0, b: 0, a: 255 }),
    {
        let tw = self.total_width;
        let th = self.total_height;
        let mut canvas = RgbaImage::from_pixel(tw, th, Rgba::opaque_black());
        proof {
            assert forall|px: int, py: int|
                0 <= px < tw && 0 <= py < th implies #[trigger] canvas.pixel(px, py)
                == composite_pixel(wallpapers@.take(0), px, py) by {
                lemma_grid_index(tw as int, th as int, px, py, px, py);
            }
        }
        let mut i: usize = 0;
        while i < wallpapers.len()
            invariant
                canvas.wf(),
                canvas.width == tw,
                canvas.height == th,
                tw * th <= usize::MAX,
                i <= wallpapers@.len(),
                forall|k: int| 0 <= k < wallpapers@.len() ==> placeable(#[trigger] wallpapers@[k]),
                forall|px: int, py: int|
                    0 <= px < tw && 0 <= py < th ==> #[trigger] canvas.pixel(px, py)
                        == composite_pixel(wallpapers@.take(i as int), px, py),
            decreases wallpapers.len() - i,
        {
            paint(&mut canvas, &wallpapers[i]);
            proof {
                let t = wallpapers@.take(i + 1);
                assert(t.drop_last() == wallpapers@.take(i as int));
                assert(t.last() == wallpapers@[i as int]);
            }
            i = i + 1;
        }
        proof {
            assert(wallpapers@.take(i as int) == wallpapers@);
            assert forall|px: int, py: int|
                0 <= px < tw && 0 <= py < th
                    && (forall|k: int| 0 <= k < wallpapers@.len() ==> !covers(#[trigger] wallpapers@[k], px, py))
                    implies #[trigger] canvas.pixel(px, py) == (Rgba { r: 0, g: 0, b: 0, a: 255 }) by {
                law_composite_pixel(wallpapers@, px, py);
            }
        }
        canvas
    }
}

} // verus!
