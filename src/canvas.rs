//! A fixed-size RGB raster, held in `image`'s buffer and drawn on with
//! `imageproc`.
use vstd::prelude::*;
use crate::geom::{GisPoint, ring_edges, COORD_LIMIT, lemma_product_bound};
use image::{Rgb, RgbImage, ImageOutputFormat};
use std::io::Cursor;

verus! {

/// `image`'s RGB buffer. Verus cannot take the buffer's type in a signature:
/// its pixel type is bounded by a trait that `image` keeps private.
#[verifier::external_body]
pub struct Raster {
    img: RgbImage,
}

/// The subpixels that a raster holds, row by row, three per pixel.
pub uninterp spec fn raster_pixels(img: Raster) -> Seq<u8>;

/// The width and height that a raster was made with.
pub uninterp spec fn raster_size(img: Raster) -> (u32, u32);

/// The subpixels after `draw_line_segment_mut` has drawn the segment from
/// `(x1, y1)` to `(x2, y2)` in colour `(r, g, b)` on a `width` by `height`
/// raster holding `px`.
pub uninterp spec fn segment_drawn(
    px: Seq<u8>,
    width: u32,
    height: u32,
    x1: i64,
    y1: i64,
    x2: i64,
    y2: i64,
    r: u8,
    g: u8,
    b: u8,
) -> Seq<u8>;

/// The PNG file that `write_to` produces for a `width` by `height` RGB raster
/// holding `px`.
pub uninterp spec fn png_encoding(px: Seq<u8>, width: u32, height: u32) -> Seq<u8>;

/// Largest magnitude of a pixel coordinate that a segment may have, so that the
/// line walk stays inside 32-bit integers.
pub const DRAW_LIMIT: i64 = 0x4000_0000;

#[derive(Clone, Copy, Debug, PartialEq, Eq, Structural)]
pub struct GisColor {
    pub r: u8,
    pub g: u8,
    pub b: u8,
}

/// A raster of `width * height` pixels, every subpixel zero.
pub open spec fn blank_pixels(width: u32, height: u32) -> Seq<u8> {
    Seq::new((width * height * 3) as nat, |i: int| 0u8)
}

/// Index of the first subpixel of pixel `(x, y)`.
pub open spec fn pixel_index(width: u32, x: u32, y: u32) -> int {
    (y * width + x) * 3
}

pub open spec fn with_pixel(px: Seq<u8>, width: u32, x: u32, y: u32, c: GisColor) -> Seq<u8> {
    px.update(pixel_index(width, x, y), c.r).update(pixel_index(width, x, y) + 1, c.g).update(
        pixel_index(width, x, y) + 2,
        c.b,
    )
}

pub open spec fn segment_in_reach(x1: i64, y1: i64, x2: i64, y2: i64) -> bool {
    -DRAW_LIMIT <= x1 <= DRAW_LIMIT && -DRAW_LIMIT <= y1 <= DRAW_LIMIT && -DRAW_LIMIT <= x2
        <= DRAW_LIMIT && -DRAW_LIMIT <= y2 <= DRAW_LIMIT
}

/// Relies on `ImageBuffer::new`: a `width` by `height` buffer whose subpixels
/// are all zero; it panics when the length overflows `usize`.
#[verifier::external_body]
fn blank_raster(width: u32, height: u32) -> (r: Raster)
    requires
        width * height * 3 <= usize::MAX,
    ensures
        raster_size(r) == (width, height),
        raster_pixels(r) == blank_pixels(width, height),
{
    Raster { img: RgbImage::new(width, height) }
}

/// Relies on `ImageBuffer::put_pixel`: it overwrites the three subpixels of
/// pixel `(x, y)` and panics outside the raster.
#[verifier::external_body]
fn put_raster_pixel(img: &mut Raster, x: u32, y: u32, c: GisColor)
    requires
        x < raster_size(*old(img)).0,
        y < raster_size(*old(img)).1,
    ensures
        raster_size(*final(img)) == raster_size(*old(img)),
        raster_pixels(*final(img)) == with_pixel(
            raster_pixels(*old(img)),
            raster_size(*old(img)).0,
            x,
            y,
            c,
        ),
{
    img.img.put_pixel(x, y, Rgb([c.r, c.g, c.b]));
}

/// Relies on imageproc's `draw_line_segment_mut`: a Bresenham walk from one end
/// to the other that colours the pixels inside the raster and skips the rest.
/// Its counters are 32-bit, hence the bound on the ends.
#[verifier::external_body]
fn draw_raster_segment(img: &mut Raster, x1: i64, y1: i64, x2: i64, y2: i64, c: GisColor)
    requires
        segment_in_reach(x1, y1, x2, y2),
    ensures
        raster_size(*final(img)) == raster_size(*old(img)),
        raster_pixels(*final(img)).len() == raster_pixels(*old(img)).len(),
        raster_pixels(*final(img)) == segment_drawn(
            raster_pixels(*old(img)),
            raster_size(*old(img)).0,
            raster_size(*old(img)).1,
            x1,
            y1,
            x2,
            y2,
            c.r,
            c.g,
            c.b,
        ),
{
    imageproc::drawing::draw_line_segment_mut(
        &mut img.img,
        (x1 as _, y1 as _),
        (x2 as _, y2 as _),
        Rgb([c.r, c.g, c.b]),
    );
}

/// Relies on `ImageBuffer::write_to` with the PNG format: on success the bytes
/// written are the PNG file of the raster. The encoder asserts that the buffer
/// holds three subpixels per pixel, and fails only on a zero width or height;
/// writing to memory cannot fail.
#[verifier::external_body]
fn encode_raster_png(img: &Raster) -> (r: Option<Vec<u8>>)
    requires
        raster_pixels(*img).len() == raster_size(*img).0 * raster_size(*img).1 * 3,
    ensures
        raster_size(*img).0 > 0 && raster_size(*img).1 > 0 ==> r is Some,
        r matches Some(bytes) ==> bytes@ == png_encoding(
            raster_pixels(*img),
            raster_size(*img).0,
            raster_size(*img).1,
        ),
{
    let mut bytes: Vec<u8> = Vec::new();
    match img.img.write_to(&mut Cursor::new(&mut bytes), ImageOutputFormat::Png) {
        Ok(()) => Some(bytes),
        Err(_) => None,
    }
}

fn entry_fraction_of(pv: i64, qv: i64) -> (r: (i128, i128))
    requires
        -COORD_LIMIT <= pv <= COORD_LIMIT,
        -COORD_LIMIT <= qv <= COORD_LIMIT,
        !(pv > DRAW_LIMIT && qv > DRAW_LIMIT),
        !(pv < -DRAW_LIMIT && qv < -DRAW_LIMIT),
    ensures
        r.0 == entry_fraction(pv as int, qv as int).0,
        r.1 == entry_fraction(pv as int, qv as int).1,
        0 <= r.0 <= r.1,
        0 < r.1 <= 0x8000_0000_0000_0000,
{
    if pv > DRAW_LIMIT {
        (pv as i128 - DRAW_LIMIT as i128, pv as i128 - qv as i128)
    } else if pv < -DRAW_LIMIT {
        (-(DRAW_LIMIT as i128) - pv as i128, qv as i128 - pv as i128)
    } else {
        (0, 1)
    }
}

fn move_toward_by(pv: i64, qv: i64, num: i128, den: i128) -> (r: i64)
    requires
        -COORD_LIMIT <= pv <= COORD_LIMIT,
        -COORD_LIMIT <= qv <= COORD_LIMIT,
        0 <= num <= 0x8000_0000_0000_0000,
        0 < den,
    ensures
        r == move_toward(pv as int, qv as int, (num as int, den as int)),
        -COORD_LIMIT <= r <= COORD_LIMIT,
{
    let d: i128 = qv as i128 - pv as i128;
    let a: i128 = if d >= 0 {
        d
    } else {
        -d
    };
    proof {
        lemma_product_bound(a as int, num as int);
    }
    let m0: i128 = a * num / den;
    let m: i128 = if m0 > a {
        a
    } else {
        m0
    };
    if qv >= pv {
        (pv as i128 + m) as i64
    } else {
        (pv as i128 - m) as i64
    }
}

fn clamp_to_reach(v: i64) -> (r: i64)
    ensures
        r == clamp_reach(v as int),
        -DRAW_LIMIT <= r <= DRAW_LIMIT,
{
    if v > DRAW_LIMIT {
        DRAW_LIMIT
    } else if v < -DRAW_LIMIT {
        -DRAW_LIMIT
    } else {
        v
    }
}

fn pull_end_of(p: GisPoint, q: GisPoint) -> (r: GisPoint)
    requires
        p.in_range(),
        q.in_range(),
        !beyond_reach_together(p, q),
    ensures
        r == pull_end(p, q),
        -DRAW_LIMIT <= r.x <= DRAW_LIMIT,
        -DRAW_LIMIT <= r.y <= DRAW_LIMIT,
{
    let fx = entry_fraction_of(p.x, q.x);
    let fy = entry_fraction_of(p.y, q.y);
    proof {
        lemma_product_bound(fx.0 as int, fy.1 as int);
        lemma_product_bound(fy.0 as int, fx.1 as int);
    }
    let f = if fx.0 * fy.1 >= fy.0 * fx.1 {
        fx
    } else {
        fy
    };
    let x = move_toward_by(p.x, q.x, f.0, f.1);
    let y = move_toward_by(p.y, q.y, f.0, f.1);
    GisPoint { x: clamp_to_reach(x), y: clamp_to_reach(y) }
}

/// A raster surface with pixel and line primitives.
pub struct GisImage {
    img: Raster,
    width: u32,
    height: u32,
}

impl GisImage {
    pub closed spec fn wf(&self) -> bool {
        raster_size(self.img) == (self.width, self.height)
            && raster_pixels(self.img).len() == self.width * self.height * 3
    }

    pub closed spec fn pixels(&self) -> Seq<u8> {
        raster_pixels(self.img)
    }

    pub closed spec fn width_spec(&self) -> u32 {
        self.width
    }

    pub closed spec fn height_spec(&self) -> u32 {
        self.height
    }

    /// A black raster of `width` by `height` pixels.
    pub fn new(width: u32, height: u32) -> (r: GisImage)
        requires
            width * height * 3 <= usize::MAX,
        ensures
            r.wf(),
            r.width_spec() == width,
            r.height_spec() == height,
            r.pixels() == blank_pixels(width, height),
    {
        GisImage { img: blank_raster(width, height), width, height }
    }

    pub fn width(&self) -> (r: u32)
        ensures
            r == self.width_spec(),
    {
        self.width
    }

    pub fn height(&self) -> (r: u32)
        ensures
            r == self.height_spec(),
    {
        self.height
    }

    /// The raster as a PNG file; `None` only for a raster without pixels.
    pub fn dump(&self) -> (r: Option<Vec<u8>>)
        requires
            self.wf(),
        ensures
            self.width_spec() > 0 && self.height_spec() > 0 ==> r is Some,
            r matches Some(bytes) ==> bytes@ == png_encoding(
                self.pixels(),
                self.width_spec(),
                self.height_spec(),
            ),
    {
        encode_raster_png(&self.img)
    }

    /// Colours pixel `(x, y)`.
    pub fn draw_pixel(&mut self, x: u32, y: u32, color: GisColor)
        requires
            old(self).wf(),
            x < old(self).width_spec(),
            y < old(self).height_spec(),
        ensures
            final(self).wf(),
            final(self).width_spec() == old(self).width_spec(),
            final(self).height_spec() == old(self).height_spec(),
            final(self).pixels() == with_pixel(old(self).pixels(), old(self).width_spec(), x, y, color),
    {
        proof {
            let (w, h) = (self.width as int, self.height as int);
            assert((y * w + x) * 3 + 3 <= w * h * 3) by (nonlinear_arith)
                requires
                    0 <= y < h,
                    0 <= x < w,
            ;
        }
        put_raster_pixel(&mut self.img, x, y, color);
    }

    /// Paints every pixel in colour `color`.
    pub fn fill(&mut self, color: GisColor)
        requires
            old(self).wf(),
        ensures
            final(self).wf(),
            final(self).width_spec() == old(self).width_spec(),
            final(self).height_spec() == old(self).height_spec(),
            final(self).pixels() == filled_pixels(old(self).width_spec(), old(self).height_spec(), color),
    {
        let ghost px0 = self.pixels();
        let ghost w = self.width as int;
        let ghost h = self.height as int;
        let mut y: u32 = 0;
        while y < self.height
            invariant
                self.wf(),
                self.width == w,
                self.height == h,
                self.pixels().len() == px0.len(),
                px0.len() == w * h * 3,
                0 <= y <= h,
                forall|i: int|
                    0 <= i < px0.len() ==> #[trigger] self.pixels()[i] == if i < y * w * 3 {
                        component(color, i % 3)
                    } else {
                        px0[i]
                    },
            decreases h - y,
        {
            let mut x: u32 = 0;
            while x < self.width
                invariant
                    self.wf(),
                    self.width == w,
                    self.height == h,
                    self.pixels().len() == px0.len(),
                    px0.len() == w * h * 3,
                    0 <= y < h,
                    0 <= x <= w,
                    forall|i: int|
                        0 <= i < px0.len() ==> #[trigger] self.pixels()[i] == if i < (y * w + x) * 3 {
                            component(color, i % 3)
                        } else {
                            px0[i]
                        },
                decreases w - x,
            {
                proof {
                    assert((y * w + x) * 3 + 3 <= w * h * 3) by (nonlinear_arith)
                        requires
                            0 <= y < h,
                            0 <= x < w,
                    ;
                    let k = (y * w + x) * 3;
                    assert(k % 3 == 0 && (k + 1) % 3 == 1 && (k + 2) % 3 == 2) by (nonlinear_arith)
                        requires
                            k == (y * w + x) * 3,
                            y * w + x >= 0,
                    ;
                }
                self.draw_pixel(x, y, color);
                x = x + 1;
            }
            proof {
                assert((y * w + w) * 3 == (y + 1) * w * 3) by (nonlinear_arith);
            }
            y = y + 1;
        }
        assert(y * w * 3 == w * h * 3) by (nonlinear_arith)
            requires
                y == h,
        ;
        assert(self.pixels() =~= filled_pixels(self.width, self.height, color));
    }

    /// Draws a closed ring of pixel coordinates: the closing edge from the
    /// last point to the first, then each edge between consecutive points.
    pub fn draw_polygon(&mut self, polygon: &[GisPoint], color: GisColor)
        requires
            old(self).wf(),
            forall|j: int| 0 <= j < polygon@.len() ==> (#[trigger] polygon@[j]).in_range(),
        ensures
            final(self).wf(),
            final(self).width_spec() == old(self).width_spec(),
            final(self).height_spec() == old(self).height_spec(),
            final(self).pixels() == edges_pixels(
                old(self).pixels(),
                old(self).width_spec(),
                old(self).height_spec(),
                ring_edges(polygon@),
                color,
            ),
    {
        if polygon.len() < 2 {
            return;
        }
        let ghost px0 = self.pixels();
        let ghost edges = ring_edges(polygon@);
        let n = polygon.len();
        self.draw_line(polygon[n - 1].x, polygon[n - 1].y, polygon[0].x, polygon[0].y, color);
        assert(edges.take(1).drop_last() =~= edges.take(0));
        assert(edges.take(1).last() == edges[0]);
        assert(edges[0] == (polygon@[n - 1], polygon@[0]));
        assert(edges_pixels(px0, self.width_spec(), self.height_spec(), edges.take(0), color) == px0);
        let mut i: usize = 1;
        while i < n
            invariant
                1 <= i <= n,
                n == polygon@.len(),
                edges == ring_edges(polygon@),
                forall|j: int| 0 <= j < polygon@.len() ==> (#[trigger] polygon@[j]).in_range(),
                self.wf(),
                self.width_spec() == old(self).width_spec(),
                self.height_spec() == old(self).height_spec(),
                px0 == old(self).pixels(),
                self.pixels() == edges_pixels(px0, self.width_spec(), self.height_spec(), edges.take(i as int), color),
            decreases n - i,
        {
            self.draw_line(polygon[i - 1].x, polygon[i - 1].y, polygon[i].x, polygon[i].y, color);
            assert(edges.take(i as int + 1).drop_last() =~= edges.take(i as int));
            i = i + 1;
        }
        assert(edges.take(n as int) =~= edges);
    }

    /// Draws the segment from `(x1, y1)` to `(x2, y2)`, pixel coordinates that
    /// may lie off the raster. The segment is drawn whole; an end beyond
    /// `DRAW_LIMIT`, far off any raster, is first moved back along the segment
    /// to within that limit.
    pub fn draw_line(&mut self, x1: i64, y1: i64, x2: i64, y2: i64, color: GisColor)
        requires
            old(self).wf(),
            (GisPoint { x: x1, y: y1 }).in_range(),
            (GisPoint { x: x2, y: y2 }).in_range(),
        ensures
            final(self).wf(),
            final(self).width_spec() == old(self).width_spec(),
            final(self).height_spec() == old(self).height_spec(),
            final(self).pixels() == line_pixels(
                old(self).pixels(),
                old(self).width_spec(),
                old(self).height_spec(),
                x1,
                y1,
                x2,
                y2,
                color,
            ),
    {
        let a = GisPoint { x: x1, y: y1 };
        let b = GisPoint { x: x2, y: y2 };
        if -DRAW_LIMIT <= x1 && x1 <= DRAW_LIMIT && -DRAW_LIMIT <= y1 && y1 <= DRAW_LIMIT && -DRAW_LIMIT
            <= x2 && x2 <= DRAW_LIMIT && -DRAW_LIMIT <= y2 && y2 <= DRAW_LIMIT {
            draw_raster_segment(&mut self.img, x1, y1, x2, y2, color);
        } else if !((x1 > DRAW_LIMIT && x2 > DRAW_LIMIT) || (x1 < -DRAW_LIMIT && x2 < -DRAW_LIMIT) || (y1
            > DRAW_LIMIT && y2 > DRAW_LIMIT) || (y1 < -DRAW_LIMIT && y2 < -DRAW_LIMIT)) {
            let a2 = pull_end_of(a, b);
            let b2 = pull_end_of(b, a);
            draw_raster_segment(&mut self.img, a2.x, a2.y, b2.x, b2.y, color);
        }
    }
}

/// The subpixels after the segments `edges`, in pixel coordinates, are drawn
/// in order.
pub open spec fn edges_pixels(
    px: Seq<u8>,
    width: u32,
    height: u32,
    edges: Seq<(GisPoint, GisPoint)>,
    c: GisColor,
) -> Seq<u8>
    decreases edges.len(),
{
    if edges.len() == 0 {
        px
    } else {
        let e = edges.last();
        line_pixels(edges_pixels(px, width, height, edges.drop_last(), c), width, height, e.0.x, e.0.y, e.1.x, e.1.y, c)
    }
}

pub open spec fn component(c: GisColor, k: int) -> u8 {
    if k == 0 {
        c.r
    } else if k == 1 {
        c.g
    } else {
        c.b
    }
}

/// A `width` by `height` raster with every pixel in colour `c`.
pub open spec fn filled_pixels(width: u32, height: u32, c: GisColor) -> Seq<u8> {
    Seq::new((width * height * 3) as nat, |i: int| component(c, i % 3))
}

/// The subpixels after `GisImage::draw_line`.
/// Both ends lie beyond `DRAW_LIMIT` on the same side of one axis: the
/// segment never comes within reach.
pub open spec fn beyond_reach_together(p: GisPoint, q: GisPoint) -> bool {
    ||| p.x > DRAW_LIMIT && q.x > DRAW_LIMIT
    ||| p.x < -DRAW_LIMIT && q.x < -DRAW_LIMIT
    ||| p.y > DRAW_LIMIT && q.y > DRAW_LIMIT
    ||| p.y < -DRAW_LIMIT && q.y < -DRAW_LIMIT
}

/// The fraction `num / den` of the way from `pv` to `qv` at which the
/// coordinate comes within `DRAW_LIMIT`; zero when it already is.
pub open spec fn entry_fraction(pv: int, qv: int) -> (int, int) {
    if pv > DRAW_LIMIT {
        (pv - DRAW_LIMIT, pv - qv)
    } else if pv < -DRAW_LIMIT {
        (-DRAW_LIMIT - pv, qv - pv)
    } else {
        (0, 1)
    }
}

pub open spec fn abs_of(v: int) -> int {
    if v >= 0 {
        v
    } else {
        -v
    }
}

/// `pv` moved towards `qv` by the fraction `f` of the distance, rounded towards
/// `pv`.
pub open spec fn move_toward(pv: int, qv: int, f: (int, int)) -> int {
    let a = abs_of(qv - pv);
    let m = if a * f.0 / f.1 > a {
        a
    } else {
        a * f.0 / f.1
    };
    if qv >= pv {
        pv + m
    } else {
        pv - m
    }
}

pub open spec fn clamp_reach(v: int) -> i64 {
    (if v > DRAW_LIMIT {
        DRAW_LIMIT as int
    } else if v < -DRAW_LIMIT {
        -DRAW_LIMIT as int
    } else {
        v
    }) as i64
}

/// The end `p` of the segment `p-q`, moved along the segment to where both
/// its coordinates are within `DRAW_LIMIT`; an end already within reach stays.
pub open spec fn pull_end(p: GisPoint, q: GisPoint) -> GisPoint {
    let fx = entry_fraction(p.x as int, q.x as int);
    let fy = entry_fraction(p.y as int, q.y as int);
    let f = if fx.0 * fy.1 >= fy.0 * fx.1 {
        fx
    } else {
        fy
    };
    GisPoint {
        x: clamp_reach(move_toward(p.x as int, q.x as int, f)),
        y: clamp_reach(move_toward(p.y as int, q.y as int, f)),
    }
}

/// The subpixels after `GisImage::draw_line`: a segment out of reach of the
/// line walk is cut back to its part within `DRAW_LIMIT`, far outside any
/// raster, and one that never comes within reach draws nothing.
pub open spec fn line_pixels(
    px: Seq<u8>,
    width: u32,
    height: u32,
    x1: i64,
    y1: i64,
    x2: i64,
    y2: i64,
    c: GisColor,
) -> Seq<u8> {
    let a = GisPoint { x: x1, y: y1 };
    let b = GisPoint { x: x2, y: y2 };
    if segment_in_reach(x1, y1, x2, y2) {
        segment_drawn(px, width, height, x1, y1, x2, y2, c.r, c.g, c.b)
    } else if beyond_reach_together(a, b) {
        px
    } else {
        let a2 = pull_end(a, b);
        let b2 = pull_end(b, a);
        segment_drawn(px, width, height, a2.x, a2.y, b2.x, b2.y, c.r, c.g, c.b)
    }
}

} // verus!
