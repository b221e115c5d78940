//! The pixel buffer and the rasterizer.
//!
//! A `PixelBuffer` owns a contiguous byte array holding a `width` by
//! `height` grid of pixels in the layout of its color space. The
//! `Drawable` trait is the rasterization capability: filling and
//! outlining rectangles and filling circles, by writing the three RGB
//! channel bytes of every covered pixel. Writes that would land outside
//! the buffer's dimensions are refused with an error before any byte
//! changes; they are never clamped or wrapped to another row.

use vstd::prelude::*;

use crate::layout::{
    byte_chan, byte_col, byte_index, byte_row, lemma_byte_index_decomposes,
    lemma_byte_index_in_range, lemma_byte_offset_decomposes,
};
use crate::isqrt::rounded_sqrt;
use crate::shapes::{Circle, Rect};

verus! {

/// The channel layout of a pixel: how many bytes encode one pixel.
pub enum ColorSpace {
    RGB,
    CYMK,
    RGBA,
}

/// An 8-bit RGB color. There is no alpha channel: under a four-byte
/// layout the fourth byte of a painted pixel keeps its previous value.
pub struct Color {
    pub r: u8,
    pub g: u8,
    pub b: u8,
}

/// How a shape is rendered: filled, outlined with a border thickness,
/// or both. Rendering with `FillAndOutline` is not implemented and
/// paints nothing, for either shape; circle outlines likewise.
pub enum Style {
    FillOnly(Color),
    OutlineOnly(Color, u32),
    FillAndOutline(Color, Color, u32),
}

/// Failure of a rasterization call.
#[derive(Clone, Copy, PartialEq, Eq, Structural, Debug)]
pub enum DrawError {
    /// A write would land outside the buffer's dimensions, or a border or
    /// scan-row offset would underflow its unsigned coordinate type.
    OutOfBounds,
}

/// The bytes one pixel occupies in each color space.
pub open spec fn spec_bytes_per_pixel(cs: ColorSpace) -> int {
    match cs {
        ColorSpace::RGB => 3,
        ColorSpace::CYMK => 4,
        ColorSpace::RGBA => 4,
    }
}

/// The mathematical content of a pixel buffer: its dimensions, layout
/// and the byte array.
#[verifier::ext_equal]
pub ghost struct PixelBufferView {
    pub width: int,
    pub height: int,
    pub color_space: ColorSpace,
    pub bytes_per_pixel: int,
    pub bytes: Seq<u8>,
}

impl PixelBufferView {
    /// The stored stride matches the color space, and the byte array has
    /// exactly one pixel's bytes for every cell of the grid.
    pub open spec fn wf(self) -> bool {
        &&& self.bytes_per_pixel == spec_bytes_per_pixel(self.color_space)
        &&& 0 <= self.width
        &&& 0 <= self.height
        &&& self.bytes.len() == self.width * self.height * self.bytes_per_pixel
    }
}

/// The first `n` bytes are zero and there are no others.
pub open spec fn zero_filled(bytes: Seq<u8>, n: int) -> bool {
    &&& bytes.len() == n
    &&& forall|i: int| 0 <= i < n ==> bytes[i] == 0
}

/// What a freshly sized buffer looks like: the requested dimensions and
/// layout over an all-zero byte array of exactly the right length.
pub open spec fn fresh_buffer(v: PixelBufferView, w: int, h: int, cs: ColorSpace) -> bool {
    &&& v.width == w
    &&& v.height == h
    &&& v.color_space == cs
    &&& v.bytes_per_pixel == spec_bytes_per_pixel(cs)
    &&& zero_filled(v.bytes, w * h * spec_bytes_per_pixel(cs))
}

/// What resizing leaves behind: the new dimensions, the old color space,
/// and a reallocated all-zero byte array. Old contents are never kept.
pub open spec fn resized(v: PixelBufferView, pre: PixelBufferView, w: int, h: int) -> bool {
    fresh_buffer(v, w, h, pre.color_space)
}

/// Resizing a freshly sized buffer to its own dimensions gives back
/// exactly the freshly sized buffer: same length, still all zero.
pub proof fn lemma_resize_round_trip(
    v1: PixelBufferView,
    v2: PixelBufferView,
    w: int,
    h: int,
    cs: ColorSpace,
)
    requires
        fresh_buffer(v1, w, h, cs),
        resized(v2, v1, w, h),
    ensures
        v2 == v1,
{
    assert(v2.bytes =~= v1.bytes);
    assert(v2 =~= v1);
}

/// The byte a channel of a painted pixel receives: the red, green or
/// blue component for channels 0, 1 and 2.
pub open spec fn channel_value(c: Color, ch: int) -> u8 {
    if ch == 0 {
        c.r
    } else if ch == 1 {
        c.g
    } else {
        c.b
    }
}

/// Byte `i` belongs to one of the first three channels of a pixel inside
/// the given rectangle.
pub open spec fn rect_covers_byte(
    width: int,
    bpp: int,
    rx: int,
    ry: int,
    rw: int,
    rh: int,
    i: int,
) -> bool {
    &&& rx <= byte_col(width, bpp, i) < rx + rw
    &&& ry <= byte_row(width, bpp, i) < ry + rh
    &&& byte_chan(width, bpp, i) < 3
}

/// `post` is `pre` with every pixel of the rectangle painted `c`: the
/// three channel bytes of covered pixels hold the color's components and
/// every other byte is unchanged.
pub open spec fn rect_painted(
    pre: Seq<u8>,
    post: Seq<u8>,
    width: int,
    bpp: int,
    rx: int,
    ry: int,
    rw: int,
    rh: int,
    c: Color,
) -> bool {
    &&& post.len() == pre.len()
    &&& forall|i: int|
        0 <= i < pre.len() ==> #[trigger] post[i] == (if rect_covers_byte(
            width,
            bpp,
            rx,
            ry,
            rw,
            rh,
            i,
        ) {
            channel_value(c, byte_chan(width, bpp, i))
        } else {
            pre[i]
        })
}

/// Every pixel a fill of this rectangle would write lies inside the
/// buffer's dimensions; an empty rectangle writes nothing.
pub open spec fn rect_fill_in_bounds(
    width: int,
    height: int,
    rx: int,
    ry: int,
    rw: int,
    rh: int,
) -> bool {
    ||| rw == 0
    ||| rh == 0
    ||| (rx + rw <= width && ry + rh <= height)
}

/// Byte `i` lies in one of the four border strips of the outline
/// decomposition: the top strip spans the full width including both
/// corners; the right, bottom and left strips are inset by the thickness
/// so the top corners are not repainted.
pub open spec fn outline_covers_byte(
    width: int,
    bpp: int,
    rx: int,
    ry: int,
    rw: int,
    rh: int,
    t: int,
    i: int,
) -> bool {
    ||| rect_covers_byte(width, bpp, rx, ry, rw, t, i)
    ||| rect_covers_byte(width, bpp, rx + rw - t, ry, t, rh - t, i)
    ||| rect_covers_byte(width, bpp, rx + t, ry + rh - t, rw - t, t, i)
    ||| rect_covers_byte(width, bpp, rx, ry + t, t, rh - t, i)
}

/// `post` is `pre` with the four border strips of the rectangle painted
/// `c` and every other byte unchanged.
pub open spec fn outline_painted(
    pre: Seq<u8>,
    post: Seq<u8>,
    width: int,
    bpp: int,
    rx: int,
    ry: int,
    rw: int,
    rh: int,
    t: int,
    c: Color,
) -> bool {
    &&& post.len() == pre.len()
    &&& forall|i: int|
        0 <= i < pre.len() ==> #[trigger] post[i] == (if outline_covers_byte(
            width,
            bpp,
            rx,
            ry,
            rw,
            rh,
            t,
            i,
        ) {
            channel_value(c, byte_chan(width, bpp, i))
        } else {
            pre[i]
        })
}

/// The outline's thickness exceeds neither extent (the strip sizes would
/// underflow their unsigned type) and each strip's fill stays inside the
/// buffer's dimensions.
pub open spec fn outline_in_bounds(
    width: int,
    height: int,
    rx: int,
    ry: int,
    rw: int,
    rh: int,
    t: int,
) -> bool {
    &&& t <= rw
    &&& t <= rh
    &&& rect_fill_in_bounds(width, height, rx, ry, rw, t)
    &&& rect_fill_in_bounds(width, height, rx + rw - t, ry, t, rh - t)
    &&& rect_fill_in_bounds(width, height, rx + t, ry + rh - t, rw - t, t)
    &&& rect_fill_in_bounds(width, height, rx, ry + t, t, rh - t)
}

/// An outline never covers a pixel of the interior left after insetting
/// every border by the thickness.
pub proof fn lemma_outline_excludes_interior(
    width: int,
    bpp: int,
    rx: int,
    ry: int,
    rw: int,
    rh: int,
    t: int,
    i: int,
)
    requires
        rx + t <= byte_col(width, bpp, i) < rx + rw - t,
        ry + t <= byte_row(width, bpp, i) < ry + rh - t,
    ensures
        !outline_covers_byte(width, bpp, rx, ry, rw, rh, t, i),
{
}

/// The half-width of the scan row `ly` rows from the center: the square
/// root of `r*r - ly*ly` rounded to the nearest integer.
pub open spec fn scan_half_width(r: int, ly: int) -> int {
    rounded_sqrt(r * r - ly * ly)
}

/// Scan row `ly` covers pixel `(px, py)`: the pixel lies on the row `ly`
/// below or above the center and within the half-width span, which
/// starts at `cx - half` inclusive and ends at `cx + half` exclusive.
pub open spec fn scan_row_covers(cx: int, cy: int, r: int, ly: int, px: int, py: int) -> bool {
    &&& (py == cy + ly || py == cy - ly)
    &&& cx - scan_half_width(r, ly) <= px < cx + scan_half_width(r, ly)
}

/// Some scan row with offset below `rows` covers the pixel.
pub open spec fn circle_covers_pixel_upto(
    cx: int,
    cy: int,
    r: int,
    rows: int,
    px: int,
    py: int,
) -> bool {
    exists|ly: int| 0 <= ly < rows && #[trigger] scan_row_covers(cx, cy, r, ly, px, py)
}

/// The circle's scan fill covers the pixel: some row offset in `[0, r)`
/// covers it. The offset never reaches `r`, so the single-pixel caps at
/// the poles are never painted.
pub open spec fn circle_covers_pixel(cx: int, cy: int, r: int, px: int, py: int) -> bool {
    circle_covers_pixel_upto(cx, cy, r, r, px, py)
}

/// Extending the scan by one row adds exactly that row's mirrored spans.
pub proof fn lemma_circle_upto_step(cx: int, cy: int, r: int, rows: int, px: int, py: int)
    requires
        0 <= rows,
    ensures
        circle_covers_pixel_upto(cx, cy, r, rows + 1, px, py) <==> (circle_covers_pixel_upto(
            cx,
            cy,
            r,
            rows,
            px,
            py,
        ) || scan_row_covers(cx, cy, r, rows, px, py)),
{
    if circle_covers_pixel_upto(cx, cy, r, rows + 1, px, py) {
        let l = choose|l: int| 0 <= l < rows + 1 && #[trigger] scan_row_covers(cx, cy, r, l, px, py);
        if l < rows {
            assert(circle_covers_pixel_upto(cx, cy, r, rows, px, py));
        }
    }
    if circle_covers_pixel_upto(cx, cy, r, rows, px, py) {
        let l = choose|l: int| 0 <= l < rows && #[trigger] scan_row_covers(cx, cy, r, l, px, py);
        assert(0 <= l < rows + 1 && scan_row_covers(cx, cy, r, l, px, py));
    }
    if scan_row_covers(cx, cy, r, rows, px, py) {
        assert(0 <= rows < rows + 1 && scan_row_covers(cx, cy, r, rows, px, py));
    }
}

/// The scan fill is vertically symmetric: the rows `d` below and `d`
/// above the center cover the same columns.
pub proof fn lemma_circle_vertical_symmetry(cx: int, cy: int, r: int, px: int, d: int)
    ensures
        circle_covers_pixel(cx, cy, r, px, cy + d) <==> circle_covers_pixel(
            cx,
            cy,
            r,
            px,
            cy - d,
        ),
{
    if circle_covers_pixel(cx, cy, r, px, cy + d) {
        let l = choose|l: int| 0 <= l < r && #[trigger] scan_row_covers(cx, cy, r, l, px, cy + d);
        assert(scan_row_covers(cx, cy, r, l, px, cy - d));
    }
    if circle_covers_pixel(cx, cy, r, px, cy - d) {
        let l = choose|l: int| 0 <= l < r && #[trigger] scan_row_covers(cx, cy, r, l, px, cy - d);
        assert(scan_row_covers(cx, cy, r, l, px, cy + d));
    }
}

/// The scan fill is horizontally symmetric about the middle of its
/// half-open spans: `px` and its mirror `2*cx - 1 - px` are covered
/// alike on every row.
pub proof fn lemma_circle_horizontal_symmetry(cx: int, cy: int, r: int, px: int, py: int)
    ensures
        circle_covers_pixel(cx, cy, r, px, py) <==> circle_covers_pixel(
            cx,
            cy,
            r,
            2 * cx - 1 - px,
            py,
        ),
{
    if circle_covers_pixel(cx, cy, r, px, py) {
        let l = choose|l: int| 0 <= l < r && #[trigger] scan_row_covers(cx, cy, r, l, px, py);
        assert(scan_row_covers(cx, cy, r, l, 2 * cx - 1 - px, py));
    }
    if circle_covers_pixel(cx, cy, r, 2 * cx - 1 - px, py) {
        let l = choose|l: int|
            0 <= l < r && #[trigger] scan_row_covers(cx, cy, r, l, 2 * cx - 1 - px, py);
        assert(scan_row_covers(cx, cy, r, l, px, py));
    }
}

/// The single-pixel caps at the poles, exactly `radius` rows from the
/// center, are never painted: the scan stops one row short of them.
pub proof fn lemma_circle_poles_unpainted(cx: int, cy: int, r: int, px: int)
    requires
        1 <= r,
    ensures
        !circle_covers_pixel(cx, cy, r, px, cy + r),
        !circle_covers_pixel(cx, cy, r, px, cy - r),
{
    if circle_covers_pixel(cx, cy, r, px, cy + r) {
        let l = choose|l: int| 0 <= l < r && #[trigger] scan_row_covers(cx, cy, r, l, px, cy + r);
        assert(false);
    }
    if circle_covers_pixel(cx, cy, r, px, cy - r) {
        let l = choose|l: int| 0 <= l < r && #[trigger] scan_row_covers(cx, cy, r, l, px, cy - r);
        assert(false);
    }
}

/// `post` is `pre` with every pixel the circle's scan fill covers painted
/// `c` and every other byte unchanged.
pub open spec fn circle_painted(
    pre: Seq<u8>,
    post: Seq<u8>,
    width: int,
    bpp: int,
    cx: int,
    cy: int,
    r: int,
    c: Color,
) -> bool {
    &&& post.len() == pre.len()
    &&& forall|i: int|
        0 <= i < pre.len() ==> #[trigger] post[i] == (if circle_covers_pixel(
            cx,
            cy,
            r,
            byte_col(width, bpp, i),
            byte_row(width, bpp, i),
        ) && byte_chan(width, bpp, i) < 3 {
            channel_value(c, byte_chan(width, bpp, i))
        } else {
            pre[i]
        })
}

/// Rasterizing scan row `ly` stays inside the buffer: the mirrored row
/// offset and the span's left end do not underflow their unsigned types,
/// and where the span is nonempty it lies within the dimensions on both
/// mirrored rows.
pub open spec fn scan_row_in_bounds(
    width: int,
    height: int,
    cx: int,
    cy: int,
    r: int,
    ly: int,
) -> bool {
    &&& ly <= cy
    &&& scan_half_width(r, ly) <= cx
    &&& (scan_half_width(r, ly) == 0 || (cx + scan_half_width(r, ly) <= width && cy + ly
        < height && cy - ly < height))
}

/// Every scan row of the circle's fill stays inside the buffer.
pub open spec fn circle_fill_in_bounds(width: int, height: int, cx: int, cy: int, r: int) -> bool {
    forall|ly: int| 0 <= ly < r ==> #[trigger] scan_row_in_bounds(width, height, cx, cy, r, ly)
}

/// The buffer's dimensions and layout are the same on both sides.
pub open spec fn dims_unchanged(pre: PixelBufferView, post: PixelBufferView) -> bool {
    &&& post.width == pre.width
    &&& post.height == pre.height
    &&& post.color_space == pre.color_space
    &&& post.bytes_per_pixel == pre.bytes_per_pixel
}

/// An in-memory image: a byte array in the layout of the chosen color
/// space, with one `bytes_per_pixel`-byte cell per pixel, row-major.
pub struct PixelBuffer {
    width: usize,
    height: usize,
    color_space: ColorSpace,
    bytes_per_pixel: usize,
    buffer: Vec<u8>,
}

impl View for PixelBuffer {
    type V = PixelBufferView;

    closed spec fn view(&self) -> PixelBufferView {
        PixelBufferView {
            width: self.width as int,
            height: self.height as int,
            color_space: self.color_space,
            bytes_per_pixel: self.bytes_per_pixel as int,
            bytes: self.buffer@,
        }
    }
}

/// A vector of `n` zero bytes.
fn zero_vec(n: usize) -> (v: Vec<u8>)
    ensures
        zero_filled(v@, n as int),
{
    let mut v: Vec<u8> = Vec::new();
    while v.len() < n
        invariant
            v@.len() <= n,
            forall|i: int| 0 <= i < v@.len() ==> v@[i] == 0,
        decreases n - v@.len(),
    {
        v.push(0);
    }
    v
}

impl PixelBuffer {
    /// A zero-sized buffer in the given color space.
    pub fn new(color_space: ColorSpace) -> (pb: PixelBuffer)
        ensures
            fresh_buffer(pb@, 0, 0, color_space),
            pb@.wf(),
    {
        let bytes_per_pixel: usize = match color_space {
            ColorSpace::RGB => 3,
            _ => 4,
        };
        PixelBuffer { width: 0, height: 0, bytes_per_pixel, color_space, buffer: Vec::new() }
    }

    /// A buffer pre-sized to `width * height` pixels, all bytes zero.
    pub fn with_size(width: usize, height: usize, color_space: ColorSpace) -> (pb: PixelBuffer)
        requires
            width * height * spec_bytes_per_pixel(color_space) <= usize::MAX,
        ensures
            fresh_buffer(pb@, width as int, height as int, color_space),
            pb@.wf(),
    {
        let pixel_size: usize = match color_space {
            ColorSpace::RGB => 3,
            ColorSpace::RGBA => 4,
            ColorSpace::CYMK => 4,
        };
        proof {
            assert(width * height <= width * height * pixel_size) by (nonlinear_arith)
                requires
                    3 <= pixel_size,
                    0 <= width,
                    0 <= height,
            ;
        }
        let n = (width * height) * pixel_size;
        let buffer = zero_vec(n);
        PixelBuffer { width, height, bytes_per_pixel: pixel_size, color_space, buffer }
    }

    /// Reallocates the backing array for the new dimensions and zero-fills
    /// it. Old contents are not carried over to matching coordinates.
    pub fn resize(&mut self, width: usize, height: usize)
        requires
            width * height * spec_bytes_per_pixel(old(self)@.color_space) <= usize::MAX,
        ensures
            resized(final(self)@, old(self)@, width as int, height as int),
            final(self)@.wf(),
    {
        let pixel_size: usize = match self.color_space {
            ColorSpace::RGB => 3,
            ColorSpace::RGBA => 4,
            ColorSpace::CYMK => 4,
        };
        proof {
            assert(width * height <= width * height * pixel_size) by (nonlinear_arith)
                requires
                    3 <= pixel_size,
                    0 <= width,
                    0 <= height,
            ;
        }
        let n = (width * height) * pixel_size;
        self.width = width;
        self.height = height;
        self.bytes_per_pixel = pixel_size;
        self.buffer = zero_vec(n);
    }

    /// The buffer's dimensions in pixels, width first.
    pub fn get_size(&self) -> (size: (usize, usize))
        ensures
            size.0 as int == self@.width,
            size.1 as int == self@.height,
    {
        (self.width, self.height)
    }

    /// The byte offset of pixel `(x, y)`: the single address translator
    /// all rasterization goes through. There is no bounds check against
    /// the dimensions; the rasterizer checks before it writes.
    pub fn index_at_point(&self, x: u32, y: u32) -> (i: usize)
        requires
            self@.wf(),
            byte_index(self@.width, self@.bytes_per_pixel, x as int, y as int)
                <= usize::MAX,
        ensures
            i as int == byte_index(self@.width, self@.bytes_per_pixel, x as int, y as int),
    {
        self.byte_offset(x as usize, y as usize)
    }

    /// The row-major byte offset `(width * y + x) * bytes_per_pixel`.
    fn byte_offset(&self, x: usize, y: usize) -> (i: usize)
        requires
            self@.wf(),
            byte_index(self@.width, self@.bytes_per_pixel, x as int, y as int)
                <= usize::MAX,
        ensures
            i as int == byte_index(self@.width, self@.bytes_per_pixel, x as int, y as int),
    {
        proof {
            assert(self@.width * y + x <= (self@.width * y + x) * self@.bytes_per_pixel)
                by (nonlinear_arith)
                requires
                    3 <= self@.bytes_per_pixel,
                    0 <= self@.width,
                    0 <= x,
                    0 <= y,
            ;
        }
        (self.width * y + x) * self.bytes_per_pixel
    }

    /// Hands the raw bytes to the given function for the duration of the
    /// call only; the callee gets read access and nothing to keep.
    pub fn access<F: FnOnce(&[u8])>(&self, func: F)
        requires
            forall|s: &[u8]| s@ == self@.bytes ==> #[trigger] func.requires((s,)),
        ensures
            exists|s: &[u8]| s@ == self@.bytes && #[trigger] func.ensures((s,), ()),
    {
        let s = self.buffer.as_slice();
        func(s);
    }

    /// Paints the three RGB channel bytes of every pixel of the given
    /// rectangle; the fill primitive both fill and outline paths use.
    fn fill_rect_bytes(&mut self, rx: u64, ry: u64, rw: u64, rh: u64, color: &Color)
        requires
            old(self)@.wf(),
            rect_fill_in_bounds(
                old(self)@.width,
                old(self)@.height,
                rx as int,
                ry as int,
                rw as int,
                rh as int,
            ),
        ensures
            final(self)@.wf(),
            dims_unchanged(old(self)@, final(self)@),
            rect_painted(
                old(self)@.bytes,
                final(self)@.bytes,
                old(self)@.width,
                old(self)@.bytes_per_pixel,
                rx as int,
                ry as int,
                rw as int,
                rh as int,
                *color,
            ),
    {
        let ghost pre = self@.bytes;
        let ghost w = self@.width;
        let ghost h = self@.height;
        let ghost b = self@.bytes_per_pixel;
        let ghost cs = self@.color_space;
        if rw == 0 || rh == 0 {
            return ;
        }
        let _buf_len = self.buffer.len();
        proof {
            assert(pre.len() <= usize::MAX);
        }
        let rxu = rx as usize;
        let ryu = ry as usize;
        let rwu = rw as usize;
        let rhu = rh as usize;
        let ghost rxi = rx as int;
        let ghost ryi = ry as int;
        let ghost rwi = rw as int;
        let ghost rhi = rh as int;
        let mut ly: usize = 0;
        while ly < rhu
            invariant
                self@.wf(),
                self@.width == w,
                self@.height == h,
                self@.bytes_per_pixel == b,
                self@.color_space == cs,
                self@.bytes.len() == pre.len(),
                pre.len() <= usize::MAX,
                rxu as int == rxi && ryu as int == ryi && rwu as int == rwi && rhu as int
                    == rhi,
                1 <= rwi,
                1 <= rhi,
                rxi + rwi <= w,
                ryi + rhi <= h,
                0 <= ly <= rhi,
                forall|j: int|
                    0 <= j < pre.len() ==> #[trigger] self@.bytes[j] == (if rect_covers_byte(
                        w,
                        b,
                        rxi,
                        ryi,
                        rwi,
                        ly as int,
                        j,
                    ) {
                        channel_value(*color, byte_chan(w, b, j))
                    } else {
                        pre[j]
                    }),
            decreases rhi - ly,
        {
            let y = ryu + ly;
            let ghost row_done = self@.bytes;
            let mut lx: usize = 0;
            while lx < rwu
                invariant
                    self@.wf(),
                    self@.width == w,
                    self@.height == h,
                    self@.bytes_per_pixel == b,
                    self@.color_space == cs,
                    self@.bytes.len() == pre.len(),
                    pre.len() <= usize::MAX,
                    rxu as int == rxi && ryu as int == ryi && rwu as int == rwi && rhu as int
                        == rhi,
                    1 <= rwi,
                    1 <= rhi,
                    rxi + rwi <= w,
                    ryi + rhi <= h,
                    0 <= ly < rhi,
                    y == ryu + ly,
                    0 <= lx <= rwi,
                    forall|j: int|
                        0 <= j < pre.len() ==> #[trigger] self@.bytes[j] == (if rect_covers_byte(
                            w,
                            b,
                            rxi,
                            ryi,
                            rwi,
                            ly as int,
                            j,
                        ) || rect_covers_byte(w, b, rxi, ryi + ly, lx as int, 1, j) {
                            channel_value(*color, byte_chan(w, b, j))
                        } else {
                            pre[j]
                        }),
                decreases rwi - lx,
            {
                let x = rxu + lx;
                let ghost xi = x as int;
                let ghost yi = y as int;
                proof {
                    lemma_byte_index_in_range(w, h, b, xi, yi, 0);
                    lemma_byte_index_in_range(w, h, b, xi, yi, 2);
                    assert(self@.bytes.len() == w * h * b);
                    assert(byte_index(w, b, xi, yi) + 2 < pre.len());
                }
                let i = self.byte_offset(x, y);
                let ghost ii = i as int;
                let ghost s0 = self@.bytes;
                self.buffer[i] = color.r;
                self.buffer[i + 1] = color.g;
                self.buffer[i + 2] = color.b;
                proof {
                    lemma_byte_index_decomposes(w, b, xi, yi, 0);
                    lemma_byte_index_decomposes(w, b, xi, yi, 1);
                    lemma_byte_index_decomposes(w, b, xi, yi, 2);
                    assert forall|j: int| 0 <= j < pre.len() implies #[trigger] self@.bytes[j]
                        == (if rect_covers_byte(w, b, rxi, ryi, rwi, ly as int, j)
                            || rect_covers_byte(w, b, rxi, ryi + ly, lx as int + 1, 1, j) {
                            channel_value(*color, byte_chan(w, b, j))
                        } else {
                            pre[j]
                        }) by {
                        lemma_byte_offset_decomposes(w, b, j);
                    }
                }
                lx = lx + 1;
            }
            ly = ly + 1;
        }
    }
}

/// What a `draw_rect` call does. A fill whose pixels all lie inside the
/// dimensions succeeds and paints exactly its coverage; one that would
/// leave them fails with `OutOfBounds` and changes nothing. An outline
/// additionally fails when its thickness exceeds either extent. The
/// unimplemented combined style paints nothing and succeeds.
pub open spec fn draw_rect_applied(
    pre: PixelBufferView,
    post: PixelBufferView,
    rect: Rect,
    style: Style,
    res: Result<(), DrawError>,
) -> bool {
    &&& dims_unchanged(pre, post)
    &&& match style {
        Style::FillOnly(c) => {
            if rect_fill_in_bounds(
                pre.width,
                pre.height,
                rect.x as int,
                rect.y as int,
                rect.width as int,
                rect.height as int,
            ) {
                &&& res == Ok::<(), DrawError>(())
                &&& rect_painted(
                    pre.bytes,
                    post.bytes,
                    pre.width,
                    pre.bytes_per_pixel,
                    rect.x as int,
                    rect.y as int,
                    rect.width as int,
                    rect.height as int,
                    c,
                )
            } else {
                &&& res == Err::<(), DrawError>(DrawError::OutOfBounds)
                &&& post.bytes == pre.bytes
            }
        },
        Style::OutlineOnly(c, t) => {
            if outline_in_bounds(
                pre.width,
                pre.height,
                rect.x as int,
                rect.y as int,
                rect.width as int,
                rect.height as int,
                t as int,
            ) {
                &&& res == Ok::<(), DrawError>(())
                &&& outline_painted(
                    pre.bytes,
                    post.bytes,
                    pre.width,
                    pre.bytes_per_pixel,
                    rect.x as int,
                    rect.y as int,
                    rect.width as int,
                    rect.height as int,
                    t as int,
                    c,
                )
            } else {
                &&& res == Err::<(), DrawError>(DrawError::OutOfBounds)
                &&& post.bytes == pre.bytes
            }
        },
        Style::FillAndOutline(_fill, _stroke, _t) => {
            &&& res == Ok::<(), DrawError>(())
            &&& post.bytes == pre.bytes
        },
    }
}

/// What a `draw_circle` call does. A fill whose scan rows all stay inside
/// the dimensions succeeds and paints exactly the scan coverage; one that
/// would leave them, or whose row or span offsets would underflow, fails
/// with `OutOfBounds` and changes nothing. The outline and combined
/// styles are unimplemented: they paint nothing and succeed.
pub open spec fn draw_circle_applied(
    pre: PixelBufferView,
    post: PixelBufferView,
    circle: Circle,
    style: Style,
    res: Result<(), DrawError>,
) -> bool {
    &&& dims_unchanged(pre, post)
    &&& match style {
        Style::FillOnly(c) => {
            if circle_fill_in_bounds(
                pre.width,
                pre.height,
                circle.x as int,
                circle.y as int,
                circle.radius as int,
            ) {
                &&& res == Ok::<(), DrawError>(())
                &&& circle_painted(
                    pre.bytes,
                    post.bytes,
                    pre.width,
                    pre.bytes_per_pixel,
                    circle.x as int,
                    circle.y as int,
                    circle.radius as int,
                    c,
                )
            } else {
                &&& res == Err::<(), DrawError>(DrawError::OutOfBounds)
                &&& post.bytes == pre.bytes
            }
        },
        Style::OutlineOnly(_c, _t) => {
            &&& res == Ok::<(), DrawError>(())
            &&& post.bytes == pre.bytes
        },
        Style::FillAndOutline(_fill, _stroke, _t) => {
            &&& res == Ok::<(), DrawError>(())
            &&& post.bytes == pre.bytes
        },
    }
}

/// Whether a fill of the given rectangle stays inside the dimensions.
fn fill_fits(w: u64, h: u64, rx: u64, ry: u64, rw: u64, rh: u64) -> (b: bool)
    requires
        rx + rw <= u64::MAX,
        ry + rh <= u64::MAX,
    ensures
        b == rect_fill_in_bounds(
            w as int,
            h as int,
            rx as int,
            ry as int,
            rw as int,
            rh as int,
        ),
{
    rw == 0 || rh == 0 || (rx + rw <= w && ry + rh <= h)
}

/// The rasterization capability: a render target with a byte-grid model
/// that rectangles and circles can be drawn into.
pub trait Drawable {
    /// The byte-grid model of the render target.
    spec fn target(&self) -> PixelBufferView;

    /// Renders a rectangle in the given style.
    fn draw_rect(&mut self, rect: &Rect, style: &Style) -> (res: Result<(), DrawError>)
        requires
            old(self).target().wf(),
        ensures
            final(self).target().wf(),
            draw_rect_applied(old(self).target(), final(self).target(), *rect, *style, res),
    ;

    /// Renders a circle in the given style. Only the filled style paints.
    fn draw_circle(&mut self, circle: &Circle, style: &Style) -> (res: Result<(), DrawError>)
        requires
            old(self).target().wf(),
        ensures
            final(self).target().wf(),
            draw_circle_applied(old(self).target(), final(self).target(), *circle, *style, res),
    ;
}

impl Drawable for PixelBuffer {
    open spec fn target(&self) -> PixelBufferView {
        self@
    }

    fn draw_rect(&mut self, rect: &Rect, style: &Style) -> (res: Result<(), DrawError>) {
        let w = self.width as u64;
        let h = self.height as u64;
        match style {
            Style::FillOnly(c) => {
                if fill_fits(
                    w,
                    h,
                    rect.x as u64,
                    rect.y as u64,
                    rect.width as u64,
                    rect.height as u64,
                ) {
                    self.fill_rect_bytes(
                        rect.x as u64,
                        rect.y as u64,
                        rect.width as u64,
                        rect.height as u64,
                        c,
                    );
                    Ok(())
                } else {
                    Err(DrawError::OutOfBounds)
                }
            },
            Style::OutlineOnly(c, t) => {
                if *t > rect.width || *t > rect.height {
                    return Err(DrawError::OutOfBounds);
                }
                let rx = rect.x as u64;
                let ry = rect.y as u64;
                let rw = rect.width as u64;
                let rh = rect.height as u64;
                let t64 = *t as u64;
                if fill_fits(w, h, rx, ry, rw, t64) && fill_fits(
                    w,
                    h,
                    rx + rw - t64,
                    ry,
                    t64,
                    rh - t64,
                ) && fill_fits(w, h, rx + t64, ry + rh - t64, rw - t64, t64) && fill_fits(
                    w,
                    h,
                    rx,
                    ry + t64,
                    t64,
                    rh - t64,
                ) {
                    let ghost pre = self@;
                    self.fill_rect_bytes(rx, ry, rw, t64, c);
                    self.fill_rect_bytes(rx + rw - t64, ry, t64, rh - t64, c);
                    self.fill_rect_bytes(rx, ry + t64, t64, rh - t64, c);
                    self.fill_rect_bytes(rx + t64, ry + rh - t64, rw - t64, t64, c);
                    proof {
                        assert forall|j: int| 0 <= j < pre.bytes.len() implies #[trigger] self@
                            .bytes[j] == (if outline_covers_byte(
                            pre.width,
                            pre.bytes_per_pixel,
                            rect.x as int,
                            rect.y as int,
                            rect.width as int,
                            rect.height as int,
                            *t as int,
                            j,
                        ) {
                            channel_value(*c, byte_chan(pre.width, pre.bytes_per_pixel, j))
                        } else {
                            pre.bytes[j]
                        }) by {}
                    }
                    Ok(())
                } else {
                    Err(DrawError::OutOfBounds)
                }
            },
            Style::FillAndOutline(_fill, _stroke, _t) => Ok(()),
        }
    }

    #[verifier::loop_isolation(false)]
    fn draw_circle(&mut self, circle: &Circle, style: &Style) -> (res: Result<(), DrawError>) {
        match style {
            Style::FillOnly(c) => {
                let r = circle.radius;
                let cx = circle.x;
                let cy = circle.y;
                let w = self.width as u64;
                let h = self.height as u64;
                let ghost wi = self@.width;
                let ghost hi = self@.height;
                let ghost bi = self@.bytes_per_pixel;
                let ghost cxi = cx as int;
                let ghost cyi = cy as int;
                let ghost ri = r as int;
                let mut ly: u32 = 0;
                while ly < r
                    invariant
                        0 <= ly <= r,
                        w as int == wi,
                        h as int == hi,
                        cxi == cx as int,
                        cyi == cy as int,
                        ri == r as int,
                        forall|l: int|
                            0 <= l < ly ==> #[trigger] scan_row_in_bounds(wi, hi, cxi, cyi, ri, l),
                    decreases r - ly,
                {
                    proof {
                        assert((ly as int) * (ly as int) < (r as int) * (r as int))
                            by (nonlinear_arith)
                            requires
                                0 <= (ly as int) < (r as int),
                        ;
                        assert((r as int) * (r as int) <= u64::MAX) by (nonlinear_arith)
                            requires
                                0 <= (r as int) <= (0xffff_ffff_u32 as int),
                        ;
                    }
                    let n = (r as u64) * (r as u64) - (ly as u64) * (ly as u64);
                    let lx = crate::isqrt::rounded_sqrt_u64(n);
                    proof {
                        assert(lx as int == scan_half_width(ri, ly as int));
                    }
                    if ly > cy || lx > cx as u64 || (lx >= 1 && ((cx as u64) + lx > w || (
                    cy as u64) + (ly as u64) >= h || (cy as u64) - (ly as u64) >= h)) {
                        proof {
                            assert(!scan_row_in_bounds(wi, hi, cxi, cyi, ri, ly as int));
                        }
                        return Err(DrawError::OutOfBounds);
                    }
                    ly = ly + 1;
                }
                let ghost pre = self@.bytes;
                let mut sy: u32 = 0;
                while sy < r
                    invariant
                        0 <= sy <= r,
                        w as int == wi,
                        h as int == hi,
                        cxi == cx as int,
                        cyi == cy as int,
                        ri == r as int,
                        self@.wf(),
                        self@.width == wi,
                        self@.height == hi,
                        self@.bytes_per_pixel == bi,
                        self@.color_space == old(self)@.color_space,
                        self@.bytes.len() == pre.len(),
                        circle_fill_in_bounds(wi, hi, cxi, cyi, ri),
                        forall|j: int|
                            0 <= j < pre.len() ==> #[trigger] self@.bytes[j] == (if
                            circle_covers_pixel_upto(
                                cxi,
                                cyi,
                                ri,
                                sy as int,
                                byte_col(wi, bi, j),
                                byte_row(wi, bi, j),
                            ) && byte_chan(wi, bi, j) < 3 {
                                channel_value(*c, byte_chan(wi, bi, j))
                            } else {
                                pre[j]
                            }),
                    decreases r - sy,
                {
                    proof {
                        assert((sy as int) * (sy as int) < (r as int) * (r as int))
                            by (nonlinear_arith)
                            requires
                                0 <= (sy as int) < (r as int),
                        ;
                        assert((r as int) * (r as int) <= u64::MAX) by (nonlinear_arith)
                            requires
                                0 <= (r as int) <= (0xffff_ffff_u32 as int),
                        ;
                        assert(scan_row_in_bounds(wi, hi, cxi, cyi, ri, sy as int));
                    }
                    let n = (r as u64) * (r as u64) - (sy as u64) * (sy as u64);
                    let lx = crate::isqrt::rounded_sqrt_u64(n);
                    proof {
                        assert(lx as int == scan_half_width(ri, sy as int));
                    }
                    let ghost s0 = self@.bytes;
                    if lx >= 1 {
                        let y1 = (cy as u64) + (sy as u64);
                        let y2 = (cy as u64) - (sy as u64);
                        let sx = (cx as u64) - lx;
                        let sw = 2 * lx;
                        self.fill_rect_bytes(sx, y1, sw, 1, c);
                        self.fill_rect_bytes(sx, y2, sw, 1, c);
                    }
                    proof {
                        assert forall|j: int| 0 <= j < pre.len() implies #[trigger] self@.bytes[j]
                            == (if circle_covers_pixel_upto(
                            cxi,
                            cyi,
                            ri,
                            sy as int + 1,
                            byte_col(wi, bi, j),
                            byte_row(wi, bi, j),
                        ) && byte_chan(wi, bi, j) < 3 {
                            channel_value(*c, byte_chan(wi, bi, j))
                        } else {
                            pre[j]
                        }) by {
                            lemma_circle_upto_step(
                                cxi,
                                cyi,
                                ri,
                                sy as int,
                                byte_col(wi, bi, j),
                                byte_row(wi, bi, j),
                            );
                        }
                    }
                    sy = sy + 1;
                }
                Ok(())
            },
            Style::OutlineOnly(_c, _t) => Ok(()),
            Style::FillAndOutline(_fill, _stroke, _t) => Ok(()),
        }
    }
}

} // verus!

