//! RGBA pixel buffers, the plain-value form of decoded images.

use vstd::prelude::*;

verus! {

/// One pixel: red, green, blue and alpha channels.
#[derive(Debug, Clone, Copy, PartialEq, Eq, Structural)]
pub struct Rgba {
    pub r: u8,
    pub g: u8,
    pub b: u8,
    pub a: u8,
}

impl Rgba {
    /// Opaque black, the background of every canvas.
    pub fn opaque_black() -> (p: Rgba)
        ensures
            p == (Rgba { r: 0, g: 0, b: 0, a: 255 }),
    {
        Rgba { r: 0, g: 0, b: 0, a: 255 }
    }
}

/// A decoded image: `width` x `height` pixels stored row by row.
#[derive(Debug, Clone)]
pub struct RgbaImage {
    pub width: u32,
    pub height: u32,
    pub pixels: Vec<Rgba>,
}

impl RgbaImage {
    /// The pixel store holds exactly one pixel per position.
    pub open spec fn wf(&self) -> bool {
        self.pixels@.len() == self.width * self.height
    }

    /// The pixel at column `x`, row `y`.
    pub open spec fn pixel(&self, x: int, y: int) -> Rgba {
        self.pixels@[y * self.width + x]
    }

    /// An image of the given size with every pixel set to `p`.
    pub fn from_pixel(width: u32, height: u32, p: Rgba) -> (img: RgbaImage)
        requires
            width * height <= usize::MAX,
        ensures
            img.wf(),
            img.width == width,
            img.height == height,
            forall|i: int| 0 <= i < img.pixels@.len() ==> img.pixels@[i] == p,
    {
        let n = (width as usize) * (height as usize);
        let mut pixels: Vec<Rgba> = Vec::with_capacity(n);
        let mut i: usize = 0;
        while i < n
            invariant
                i <= n,
                pixels@.len() == i,
                forall|j: int| 0 <= j < i ==> pixels@[j] == p,
            decreases n - i,
        {
            pixels.push(p);
            i = i + 1;
        }
        RgbaImage { width, height, pixels }
    }

    /// An image of the given size with every pixel transparent black.
    pub fn new(width: u32, height: u32) -> (img: RgbaImage)
        requires
            width * height <= usize::MAX,
        ensures
            img.wf(),
            img.width == width,
            img.height == height,
            forall|i: int|
                0 <= i < img.pixels@.len() ==> img.pixels@[i] == (Rgba { r: 0, g: 0, b: 0, a: 0 }),
    {
        RgbaImage::from_pixel(width, height, Rgba { r: 0, g: 0, b: 0, a: 0 })
    }

    /// An image over the given pixels, when their number matches the size.
    pub fn from_pixels(width: u32, height: u32, pixels: Vec<Rgba>) -> (r: Option<RgbaImage>)
        ensures
            match r {
                Some(img) => img.wf() && img.width == width && img.height == height
                    && img.pixels@ == pixels@,
                None => pixels@.len() != width * height,
            },
    {
        let n = pixels.len() as u128;
        assert((width as u128) * (height as u128) <= 0xffff_ffff * 0xffff_ffffu128) by (nonlinear_arith)
            requires width <= 0xffff_ffff, height <= 0xffff_ffff;
        if n == (width as u128) * (height as u128) {
            Some(RgbaImage { width, height, pixels })
        } else {
            None
        }
    }

    /// (width, height)
    pub fn dimensions(&self) -> (r: (u32, u32))
        ensures
            r == (self.width, self.height),
    {
        (self.width, self.height)
    }
}

/// Index of column `x`, row `y` in a row-major store of rows `w` wide.
pub open spec fn grid_index(w: int, x: int, y: int) -> int {
    y * w + x
}

/// Positions inside a `w` x `h` grid have distinct indices, all below `w * h`.
pub proof fn lemma_grid_index(w: int, h: int, x1: int, y1: int, x2: int, y2: int)
    requires
        0 <= x1 < w,
        0 <= x2 < w,
        0 <= y1 < h,
        0 <= y2 < h,
    ensures
        0 <= grid_index(w, x1, y1) < w * h,
        grid_index(w, x1, y1) == grid_index(w, x2, y2) ==> x1 == x2 && y1 == y2,
{
    assert(0 <= y1 * w + x1 < w * h) by (nonlinear_arith)
        requires 0 <= x1 < w, 0 <= y1 < h;
    if grid_index(w, x1, y1) == grid_index(w, x2, y2) {
        vstd::arithmetic::div_mod::lemma_fundamental_div_mod_converse(y1 * w + x1, w, y1, x1);
        vstd::arithmetic::div_mod::lemma_fundamental_div_mod_converse(y2 * w + x2, w, y2, x2);
        assert(y1 * w == w * y1) by (nonlinear_arith);
        assert(y2 * w == w * y2) by (nonlinear_arith);
    }
}

/// Converts RGBA pixels to the BGRA byte order of 32-bit X11 visuals.
pub fn rgba_to_bgra(image: &RgbaImage) -> (out: Vec<u8>)
    requires
        image.pixels@.len() * 4 <= usize::MAX,
    ensures
        out@.len() == 4 * image.pixels@.len(),
        forall|i: int| 0 <= i < image.pixels@.len() ==> is_bgra_at(out@, i, image.pixels@[i]),
{
    let mut out: Vec<u8> = Vec::with_capacity(image.pixels.len() * 4);
    rgba_to_bgra_into(image, &mut out);
    out
}

/// Byte `4 * i` of `bytes` starts pixel `p` in BGRA order.
pub open spec fn is_bgra_at(bytes: Seq<u8>, i: int, p: Rgba) -> bool {
    &&& bytes[4 * i] == p.b
    &&& bytes[4 * i + 1] == p.g
    &&& bytes[4 * i + 2] == p.r
    &&& bytes[4 * i + 3] == p.a
}

/// Converts RGBA pixels to BGRA bytes into a reusable buffer, replacing its contents.
pub fn rgba_to_bgra_into(image: &RgbaImage, buf: &mut Vec<u8>)
    requires
        image.pixels@.len() * 4 <= usize::MAX,
    ensures
        final(buf)@.len() == 4 * image.pixels@.len(),
        forall|i: int|
            0 <= i < image.pixels@.len() ==> is_bgra_at(final(buf)@, i, image.pixels@[i]),
{
    buf.clear();
    let n = image.pixels.len();
    let mut i: usize = 0;
    while i < n
        invariant
            n == image.pixels@.len(),
            n * 4 <= usize::MAX,
            i <= n,
            buf@.len() == 4 * i,
            forall|j: int| 0 <= j < i ==> is_bgra_at(buf@, j, image.pixels@[j]),
        decreases n - i,
    {
        let p = image.pixels[i];
        buf.push(p.b);
        buf.push(p.g);
        buf.push(p.r);
        buf.push(p.a);
        i = i + 1;
    }
}

} // verus!
