//! Scoring of faces: which pixels a face covers, and how well it fits them.

pub mod avg_with_shape_weight;
pub mod percentile_with_size_weight;

use std::cmp::Ordering;
use vstd::prelude::*;
use crate::vec2::I64x2;
use crate::scoring::avg_with_shape_weight::ShapeWeights;
use crate::triangle::Triangle;
use crate::pixels::{Image, Rgb, image_width, image_height, pixel, image_get_pixel};
use crate::color::{ColorChannel, ColorIndex};
use crate::UNIT;

verus! {

/// How two numbers compare.
pub open spec fn order_of(a: int, b: int) -> Ordering {
    if a < b {
        Ordering::Less
    } else if a > b {
        Ordering::Greater
    } else {
        Ordering::Equal
    }
}

/// What a scheme needs to score a face.
#[derive(Debug)]
pub struct ScoreInfo<'a> {
    /// The face.
    pub triangle: Triangle,
    /// The image that the face lies in.
    pub image: &'a Image,
    /// The spacing of the mesh.
    pub tri_size: i64,
    /// The curve of the shape-weighted scheme.
    pub weights: &'a ShapeWeights,
}

/// Twice the signed area of the triangle `p1`, `p2`, `p3`: positive on one side of the
/// line through `p2` and `p3`, negative on the other, zero on it.
pub open spec fn sign(p1: I64x2, p2: I64x2, p3: I64x2) -> int {
    (p1.x - p3.x) * (p2.y - p3.y) - (p2.x - p3.x) * (p1.y - p3.y)
}

/// `pt` lies in the triangle `v1`, `v2`, `v3`, its border included: the signed areas
/// that `pt` spans with the three edges are not of mixed sign.
pub open spec fn inside(pt: I64x2, v1: I64x2, v2: I64x2, v3: I64x2) -> bool {
    let d1 = sign(pt, v1, v2);
    let d2 = sign(pt, v2, v3);
    let d3 = sign(pt, v3, v1);
    let has_neg = d1 < 0 || d2 < 0 || d3 < 0;
    let has_pos = d1 > 0 || d2 > 0 || d3 > 0;
    !(has_neg && has_pos)
}

/// The product of two differences of coordinates, as a sign and a magnitude.
fn signed_product(a: i128, b: i128) -> (r: (i8, u128))
    requires
        -0xffff_ffff_ffff_ffff <= a <= 0xffff_ffff_ffff_ffff,
        -0xffff_ffff_ffff_ffff <= b <= 0xffff_ffff_ffff_ffff,
    ensures
        -1 <= r.0 <= 1,
        r.0 * r.1 == a * b,
        r.0 == 0 <==> r.1 == 0,
{
    let ma: u128 = if a < 0 {
        (-a) as u128
    } else {
        a as u128
    };
    let mb: u128 = if b < 0 {
        (-b) as u128
    } else {
        b as u128
    };
    assert(ma * mb <= 0xffff_ffff_ffff_ffff * 0xffff_ffff_ffff_ffff) by (nonlinear_arith)
        requires
            0 <= ma <= 0xffff_ffff_ffff_ffff,
            0 <= mb <= 0xffff_ffff_ffff_ffff,
    ;
    let m: u128 = ma * mb;
    let s: i8 = if a == 0 || b == 0 {
        0
    } else if (a < 0) == (b < 0) {
        1
    } else {
        -1
    };
    assert(s * m == a * b && (s == 0 <==> m == 0)) by (nonlinear_arith)
        requires
            m == ma * mb,
            ma == (if a < 0 {
                -a
            } else {
                a as int
            }),
            mb == (if b < 0 {
                -b
            } else {
                b as int
            }),
            s == (if a == 0 || b == 0 {
                0int
            } else if (a < 0) == (b < 0) {
                1int
            } else {
                -1int
            }),
    ;
    (s, m)
}

/// The sign of `sign(p1, p2, p3)`: -1, 0 or 1.
fn sign_of(p1: I64x2, p2: I64x2, p3: I64x2) -> (r: i8)
    ensures
        r == (if sign(p1, p2, p3) < 0 {
            -1int
        } else if sign(p1, p2, p3) > 0 {
            1int
        } else {
            0int
        }),
{
    let (s1, m1) = signed_product(p1.x as i128 - p3.x as i128, p2.y as i128 - p3.y as i128);
    let (s2, m2) = signed_product(p2.x as i128 - p3.x as i128, p1.y as i128 - p3.y as i128);
    proof {
        assert(sign(p1, p2, p3) == s1 * m1 - s2 * m2);
        assert(s1 * m1 == (if s1 == 1 {
            m1 as int
        } else if s1 == -1 {
            -(m1 as int)
        } else {
            0
        })) by (nonlinear_arith)
            requires
                -1 <= s1 <= 1,
        ;
        assert(s2 * m2 == (if s2 == 1 {
            m2 as int
        } else if s2 == -1 {
            -(m2 as int)
        } else {
            0
        })) by (nonlinear_arith)
            requires
                -1 <= s2 <= 1,
        ;
    }
    if s1 > s2 {
        1
    } else if s1 < s2 {
        -1
    } else if s1 == 0 {
        0
    } else if m1 == m2 {
        0
    } else if (m1 > m2) == (s1 > 0) {
        1
    } else {
        -1
    }
}

/// Whether `pt` lies in the triangle `v1`, `v2`, `v3`, its border included.
pub fn point_in_triangle(pt: I64x2, v1: I64x2, v2: I64x2, v3: I64x2) -> (r: bool)
    ensures
        r == inside(pt, v1, v2, v3),
{
    let d1 = sign_of(pt, v1, v2);
    let d2 = sign_of(pt, v2, v3);
    let d3 = sign_of(pt, v3, v1);
    let has_neg = d1 < 0 || d2 < 0 || d3 < 0;
    let has_pos = d1 > 0 || d2 > 0 || d3 > 0;
    !(has_neg && has_pos)
}

/// The cell that follows `(cx, cy)` in a row-by-row walk over `w` by `h` cells, if any.
pub open spec fn next_cell(w: u32, h: u32, cx: u32, cy: u32) -> Option<(u32, u32)> {
    if cx + 1 < w {
        Some(((cx + 1) as u32, cy))
    } else if cy + 1 < h {
        Some((0u32, (cy + 1) as u32))
    } else {
        None
    }
}

/// Walks over the pixels of a rectangle of an image, row by row.
pub struct SubImageIterator<'a> {
    image: &'a Image,
    xy: (u32, u32),
    wh: (u32, u32),
    current_xy: (u32, u32),
    done: bool,
}

impl<'a> SubImageIterator<'a> {
    /// The image that is walked over.
    pub closed spec fn image(&self) -> Image {
        *self.image
    }

    /// The left and top edge of the rectangle.
    pub closed spec fn origin(&self) -> (u32, u32) {
        self.xy
    }

    /// The width and height of the rectangle.
    pub closed spec fn extent(&self) -> (u32, u32) {
        self.wh
    }

    /// The cell that `next` hands out next, counted from the rectangle's origin, or
    /// `None` once every cell has been handed out.
    pub closed spec fn position(&self) -> Option<(u32, u32)> {
        if self.done {
            None
        } else {
            Some(self.current_xy)
        }
    }

    /// The rectangle lies in the image, and the position in the rectangle.
    pub closed spec fn wf(&self) -> bool {
        &&& self.xy.0 + self.wh.0 <= image_width(*self.image)
        &&& self.xy.1 + self.wh.1 <= image_height(*self.image)
        &&& !self.done ==> self.current_xy.0 < self.wh.0 && self.current_xy.1 < self.wh.1
    }

    /// A walk over the rectangle of `width` by `height` pixels whose top left corner
    /// is `(x, y)`.
    pub fn new(img: &'a Image, x: u32, y: u32, width: u32, height: u32) -> (r: Self)
        requires
            x + width <= image_width(*img),
            y + height <= image_height(*img),
        ensures
            r.wf(),
            r.image() == *img,
            r.origin() == (x, y),
            r.extent() == (width, height),
            r.position() == (if width == 0 || height == 0 {
                None
            } else {
                Some((0u32, 0u32))
            }),
    {
        let done = width == 0 || height == 0;
        SubImageIterator { image: img, xy: (x, y), wh: (width, height), current_xy: (0, 0), done }
    }

    fn get(&self, x: u32, y: u32) -> (c: Rgb)
        requires
            x + self.xy.0 < image_width(*self.image),
            y + self.xy.1 < image_height(*self.image),
        ensures
            c == pixel(*self.image, x + self.xy.0, y + self.xy.1),
    {
        image_get_pixel(self.image, x + self.xy.0, y + self.xy.1)
    }

    /// The next cell, counted from the rectangle's origin, with the colour of its pixel.
    pub fn next(&mut self) -> (r: Option<(u32, u32, Rgb)>)
        requires
            old(self).wf(),
        ensures
            final(self).wf(),
            final(self).image() == old(self).image(),
            final(self).origin() == old(self).origin(),
            final(self).extent() == old(self).extent(),
            old(self).position().is_none() ==> r.is_none() && final(self).position().is_none(),
            old(self).position() matches Some(c) ==> {
                &&& c.0 < old(self).extent().0
                &&& c.1 < old(self).extent().1
                &&& r == Some(
                    (
                        c.0,
                        c.1,
                        pixel(
                            old(self).image(),
                            old(self).origin().0 + c.0,
                            old(self).origin().1 + c.1,
                        ),
                    ),
                )
                &&& final(self).position() == next_cell(
                    old(self).extent().0,
                    old(self).extent().1,
                    c.0,
                    c.1,
                )
            },
    {
        if self.done {
            None
        } else {
            let at = self.current_xy;
            let v = self.get(at.0, at.1);
            self.current_xy.0 += 1;
            if self.current_xy.0 >= self.wh.0 {
                self.current_xy.0 = 0;
                self.current_xy.1 += 1;
                if self.current_xy.1 >= self.wh.1 {
                    self.done = true;
                }
            }
            Some((at.0, at.1, v))
        }
    }

    /// The number of cells of the rectangle, as a lower and an upper bound, or no bound
    /// where the number does not fit.
    pub fn size_hint(&self) -> (r: (usize, Option<usize>))
        ensures
            self.extent().0 * self.extent().1 <= usize::MAX ==> r == (
                (self.extent().0 * self.extent().1) as usize,
                Some((self.extent().0 * self.extent().1) as usize),
            ),
            self.extent().0 * self.extent().1 > usize::MAX ==> r == (0usize, None::<usize>),
    {
        assert(self.wh.0 * self.wh.1 <= 0xffff_ffff * 0xffff_ffff) by (nonlinear_arith)
            requires
                0 <= self.wh.0 <= 0xffff_ffff,
                0 <= self.wh.1 <= 0xffff_ffff,
        ;
        let n: u64 = (self.wh.0 as u64) * (self.wh.1 as u64);
        if n <= usize::MAX as u64 {
            (n as usize, Some(n as usize))
        } else {
            (0, None)
        }
    }
}

/// The smallest of three coordinates.
pub open spec fn min3(a: i64, b: i64, c: i64) -> i64 {
    if a <= b && a <= c {
        a
    } else if b <= c {
        b
    } else {
        c
    }
}

/// The largest of three coordinates.
pub open spec fn max3(a: i64, b: i64, c: i64) -> i64 {
    if a >= b && a >= c {
        a
    } else if b >= c {
        b
    } else {
        c
    }
}

/// The pixel column or row at or before the coordinate `v`, kept within `0..=limit`.
pub open spec fn floor_pixel(v: i64, limit: u32) -> int {
    let p = v as int / UNIT as int;
    if p < 0 {
        0
    } else if p > limit {
        limit as int
    } else {
        p
    }
}

/// The pixel column or row at or after the coordinate `v`, kept within `0..=limit`.
pub open spec fn ceil_pixel(v: i64, limit: u32) -> int {
    let p = (v + UNIT - 1) / UNIT as int;
    if p < 0 {
        0
    } else if p > limit {
        limit as int
    } else {
        p
    }
}

/// The rectangle of pixels that is searched for a triangle: from the pixel at or
/// before its least coordinate up to, and without, the pixel at or after its greatest,
/// cut to the image. Given as left, top, right, bottom.
pub open spec fn bounds(img: Image, t: Triangle) -> (int, int, int, int) {
    (
        floor_pixel(min3(t.0.x, t.1.x, t.2.x), image_width(img)),
        floor_pixel(min3(t.0.y, t.1.y, t.2.y), image_height(img)),
        ceil_pixel(max3(t.0.x, t.1.x, t.2.x), image_width(img)),
        ceil_pixel(max3(t.0.y, t.1.y, t.2.y), image_height(img)),
    )
}

/// The triangle covers the pixel at column `x` of row `y`: the pixel's own
/// coordinate lies in the triangle.
pub open spec fn covers(t: Triangle, x: int, y: int) -> bool {
    inside(I64x2 { x: (x * UNIT) as i64, y: (y * UNIT) as i64 }, t.0, t.1, t.2)
}

/// The colours of the pixels of row `y` from column `x0` up to, and without, `x1`
/// that the triangle covers, from left to right.
pub open spec fn row_samples(img: Image, t: Triangle, y: int, x0: int, x1: int) -> Seq<Rgb>
    decreases x1 - x0,
{
    if x1 <= x0 {
        Seq::empty()
    } else {
        let before = row_samples(img, t, y, x0, x1 - 1);
        if covers(t, x1 - 1, y) {
            before.push(pixel(img, x1 - 1, y))
        } else {
            before
        }
    }
}

/// The colours of the pixels of rows `y0` up to, and without, `y1` that the triangle
/// covers, row by row.
pub open spec fn rect_samples(img: Image, t: Triangle, x0: int, x1: int, y0: int, y1: int) -> Seq<
    Rgb,
>
    decreases y1 - y0,
{
    if y1 <= y0 {
        Seq::empty()
    } else {
        rect_samples(img, t, x0, x1, y0, y1 - 1) + row_samples(img, t, y1 - 1, x0, x1)
    }
}

/// The colours of the pixels that a triangle covers, row by row.
pub open spec fn colors_in_triangle(img: Image, t: Triangle) -> Seq<Rgb> {
    let b = bounds(img, t);
    rect_samples(img, t, b.0, b.2, b.1, b.3)
}

pub(crate) fn min_of(a: i64, b: i64, c: i64) -> (r: i64)
    ensures
        r == min3(a, b, c),
{
    if a <= b && a <= c {
        a
    } else if b <= c {
        b
    } else {
        c
    }
}

pub(crate) fn max_of(a: i64, b: i64, c: i64) -> (r: i64)
    ensures
        r == max3(a, b, c),
{
    if a >= b && a >= c {
        a
    } else if b >= c {
        b
    } else {
        c
    }
}

fn floor_to_pixel(v: i64, limit: u32) -> (r: u32)
    ensures
        r == floor_pixel(v, limit),
{
    if v < 0 {
        0
    } else {
        let p: i64 = v / UNIT;
        if p > limit as i64 {
            limit
        } else {
            p as u32
        }
    }
}

fn ceil_to_pixel(v: i64, limit: u32) -> (r: u32)
    ensures
        r == ceil_pixel(v, limit),
{
    if v <= 0 {
        0
    } else {
        let p: i64 = (v - 1) / UNIT + 1;
        assert(p == (v + UNIT - 1) / UNIT as int);
        if p > limit as i64 {
            limit
        } else {
            p as u32
        }
    }
}

/// What a row-by-row walk over the rectangle has sampled when it stands at `position`.
pub open spec fn samples_before(
    img: Image,
    t: Triangle,
    x0: int,
    x1: int,
    y0: int,
    y1: int,
    position: Option<(u32, u32)>,
) -> Seq<Rgb> {
    match position {
        Some(c) => rect_samples(img, t, x0, x1, y0, y0 + c.1) + row_samples(
            img,
            t,
            y0 + c.1,
            x0,
            x0 + c.0,
        ),
        None => rect_samples(img, t, x0, x1, y0, y1),
    }
}

proof fn lemma_empty_columns(img: Image, t: Triangle, x0: int, y0: int, y1: int)
    ensures
        rect_samples(img, t, x0, x0, y0, y1) == Seq::<Rgb>::empty(),
    decreases y1 - y0,
{
    if y1 > y0 {
        lemma_empty_columns(img, t, x0, y0, y1 - 1);
        assert(rect_samples(img, t, x0, x0, y0, y1) =~= Seq::<Rgb>::empty());
    }
}

/// The colours of the pixels that the triangle covers, row by row from the top, each
/// row from the left.
pub fn get_color_in_triangle(image: &Image, triangle: Triangle) -> (r: Vec<Rgb>)
    ensures
        r@ == colors_in_triangle(*image, triangle),
{
    let iw = image.width();
    let ih = image.height();
    let minx = floor_to_pixel(min_of(triangle.0.x, triangle.1.x, triangle.2.x), iw);
    let maxx = ceil_to_pixel(max_of(triangle.0.x, triangle.1.x, triangle.2.x), iw);
    let miny = floor_to_pixel(min_of(triangle.0.y, triangle.1.y, triangle.2.y), ih);
    let maxy = ceil_to_pixel(max_of(triangle.0.y, triangle.1.y, triangle.2.y), ih);
    let width = maxx - minx;
    let height = maxy - miny;
    let mut it = SubImageIterator::new(image, minx, miny, width, height);
    let mut out: Vec<Rgb> = Vec::new();
    proof {
        if width == 0 {
            lemma_empty_columns(*image, triangle, minx as int, miny as int, maxy as int);
        }
        assert(out@ =~= samples_before(
            *image,
            triangle,
            minx as int,
            maxx as int,
            miny as int,
            maxy as int,
            it.position(),
        ));
    }
    loop
        invariant
            it.wf(),
            it.image() == *image,
            it.origin() == (minx, miny),
            it.extent() == (width, height),
            width == maxx - minx,
            height == maxy - miny,
            out@ == samples_before(
                *image,
                triangle,
                minx as int,
                maxx as int,
                miny as int,
                maxy as int,
                it.position(),
            ),
        ensures
            out@ == rect_samples(
                *image,
                triangle,
                minx as int,
                maxx as int,
                miny as int,
                maxy as int,
            ),
        decreases
            match it.position() {
                Some(c) => (height - c.1) * (width + 1) - c.0,
                None => 0,
            },
    {
        let ghost before = it.position();
        let ghost sampled = out@;
        match it.next() {
            None => {
                break ;
            },
            Some((x, y, pxl)) => {
                let pt = I64x2::new((x + minx) as i64 * UNIT, (y + miny) as i64 * UNIT);
                let hit = point_in_triangle(pt, triangle.0, triangle.1, triangle.2);
                if hit {
                    out.push(pxl);
                }
                proof {
                    let x0 = minx as int;
                    let x1 = maxx as int;
                    let y0 = miny as int;
                    let y1 = maxy as int;
                    assert(hit == covers(triangle, x0 + x, y0 + y));
                    let row = row_samples(*image, triangle, y0 + y, x0, x0 + x + 1);
                    assert(out@ =~= rect_samples(*image, triangle, x0, x1, y0, y0 + y) + row);
                    if x + 1 < width {
                    } else {
                        assert(rect_samples(*image, triangle, x0, x1, y0, y0 + y + 1)
                            == rect_samples(*image, triangle, x0, x1, y0, y0 + y) + row);
                        if y + 1 < height {
                            assert(row_samples(*image, triangle, y0 + y + 1, x0, x0)
                                =~= Seq::<Rgb>::empty());
                            assert(out@ =~= rect_samples(*image, triangle, x0, x1, y0, y0 + y + 1)
                                + row_samples(*image, triangle, y0 + y + 1, x0, x0));
                        }
                    }
                    assert((height - y) * (width + 1) - x > 0) by (nonlinear_arith)
                        requires
                            0 <= x < width,
                            0 <= y < height,
                    ;
                    if x + 1 >= width && y + 1 < height {
                        assert((height - (y + 1)) * (width + 1) < (height - y) * (width + 1) - x)
                            by (nonlinear_arith)
                            requires
                                0 <= x < width,
                                0 <= y < height,
                        ;
                    }
                }
            },
        }
    }
    out
}

/// The sum of one channel over a sequence of colours.
pub open spec fn channel_sum(colors: Seq<Rgb>, channel: ColorChannel) -> int
    decreases colors.len(),
{
    if colors.len() == 0 {
        0
    } else {
        channel_sum(colors.drop_last(), channel) + colors.last().channel_value(channel)
    }
}

/// The mean of one channel over a sequence of colours, rounded down; 0 for none.
pub open spec fn channel_mean(colors: Seq<Rgb>, channel: ColorChannel) -> int {
    if colors.len() == 0 {
        0
    } else {
        channel_sum(colors, channel) / (colors.len() as int)
    }
}

/// The mean colour of a sequence of colours, channel by channel; black for none.
pub open spec fn mean_color(colors: Seq<Rgb>) -> Rgb {
    Rgb {
        r: channel_mean(colors, ColorChannel::R) as u8,
        g: channel_mean(colors, ColorChannel::G) as u8,
        b: channel_mean(colors, ColorChannel::B) as u8,
    }
}

/// The sum of a channel is at most 255 for each colour, so its mean is a channel value.
pub proof fn lemma_channel_sum_bound(colors: Seq<Rgb>, channel: ColorChannel)
    ensures
        0 <= channel_sum(colors, channel) <= 255 * colors.len(),
        0 <= channel_mean(colors, channel) <= 255,
    decreases colors.len(),
{
    if colors.len() > 0 {
        lemma_channel_sum_bound(colors.drop_last(), channel);
        let s = channel_sum(colors, channel);
        let n = colors.len() as int;
        assert(0 <= s / n <= 255) by (nonlinear_arith)
            requires
                0 <= s <= 255 * n,
                n > 0,
        ;
    }
}

fn sum_channel(colors: &Vec<Rgb>, channel: ColorChannel) -> (r: u128)
    ensures
        r == channel_sum(colors@, channel),
{
    let mut sum: u128 = 0;
    let mut i: usize = 0;
    while i < colors.len()
        invariant
            i <= colors@.len(),
            sum == channel_sum(colors@.take(i as int), channel),
            sum <= 255 * i,
        decreases colors@.len() - i,
    {
        assert(colors@.take(i + 1).drop_last() =~= colors@.take(i as int));
        sum = sum + colors[i].channel(channel) as u128;
        i += 1;
    }
    assert(colors@.take(i as int) =~= colors@);
    sum
}

/// The mean colour of `colors`, channel by channel, rounded down; black for none.
pub fn average(colors: &Vec<Rgb>) -> (r: Rgb)
    ensures
        r == mean_color(colors@),
{
    let n = colors.len();
    if n == 0 {
        return Rgb { r: 0, g: 0, b: 0 };
    }
    proof {
        lemma_channel_sum_bound(colors@, ColorChannel::R);
        lemma_channel_sum_bound(colors@, ColorChannel::G);
        lemma_channel_sum_bound(colors@, ColorChannel::B);
    }
    let r = sum_channel(colors, ColorChannel::R) / (n as u128);
    let g = sum_channel(colors, ColorChannel::G) / (n as u128);
    let b = sum_channel(colors, ColorChannel::B) / (n as u128);
    Rgb { r: r as u8, g: g as u8, b: b as u8 }
}

/// The schemes by which a face can be scored.
#[derive(Debug, Clone, Copy, PartialEq, Eq, Structural)]
pub enum ScoringScheme {
    /// Based on a percentile of the deviations, weighted against small faces.
    PercentileWithSizeWeight,
    /// Based on the average distance, weighted against very thin faces.
    AvgWithShapeWeight,
}

impl Default for ScoringScheme {
    fn default() -> (r: Self)
        ensures
            r == ScoringScheme::PercentileWithSizeWeight,
    {
        ScoringScheme::PercentileWithSizeWeight
    }
}

/// A score of either scheme.
#[derive(Debug, Clone, Copy, PartialEq, Eq, Structural)]
pub enum ScoreWrapper {
    PercentileWithSizeWeight(percentile_with_size_weight::Score),
    AvgWithShapeWeight(avg_with_shape_weight::Score),
}

/// The scheme that a score belongs to.
pub open spec fn scheme_of(s: ScoreWrapper) -> ScoringScheme {
    match s {
        ScoreWrapper::PercentileWithSizeWeight(_) => ScoringScheme::PercentileWithSizeWeight,
        ScoreWrapper::AvgWithShapeWeight(_) => ScoringScheme::AvgWithShapeWeight,
    }
}

/// The values of a score lie on their scales.
pub open spec fn score_wf(s: ScoreWrapper) -> bool {
    match s {
        ScoreWrapper::PercentileWithSizeWeight(a) => a.wf(),
        ScoreWrapper::AvgWithShapeWeight(a) => a.wf(),
    }
}

/// The score of the face `t` over the image `img` under a scheme.
pub open spec fn face_score(
    img: Image,
    t: Triangle,
    tri_size: i64,
    scheme: ScoringScheme,
    table: Seq<i64>,
) -> ScoreWrapper {
    match scheme {
        ScoringScheme::PercentileWithSizeWeight => ScoreWrapper::PercentileWithSizeWeight(
            percentile_with_size_weight::percentile_score(
                colors_in_triangle(img, t),
                image_width(img),
                image_height(img),
                tri_size,
            ),
        ),
        ScoringScheme::AvgWithShapeWeight => ScoreWrapper::AvgWithShapeWeight(
            avg_with_shape_weight::shape_score(colors_in_triangle(img, t), t, table),
        ),
    }
}

/// The scores of the faces `group`, one by one.
pub open spec fn face_scores(
    img: Image,
    group: Seq<Triangle>,
    tri_size: i64,
    scheme: ScoringScheme,
    table: Seq<i64>,
) -> Seq<ScoreWrapper> {
    Seq::new(group.len(), |i: int| face_score(img, group[i], tri_size, scheme, table))
}

/// The scores of the percentile scheme that the wrappers hold.
pub open spec fn percentile_scores(scores: Seq<ScoreWrapper>) -> Seq<
    percentile_with_size_weight::Score,
> {
    Seq::new(scores.len(), |i: int| scores[i]->PercentileWithSizeWeight_0)
}

/// The scores of the shape-weighted scheme that the wrappers hold.
pub open spec fn shape_scores(scores: Seq<ScoreWrapper>) -> Seq<avg_with_shape_weight::Score> {
    Seq::new(scores.len(), |i: int| scores[i]->AvgWithShapeWeight_0)
}

/// The score of a group of faces whose scores are `scores`, all of the scheme `scheme`.
pub open spec fn aggregate(scores: Seq<ScoreWrapper>, scheme: ScoringScheme, table: Seq<i64>) -> ScoreWrapper {
    match scheme {
        ScoringScheme::PercentileWithSizeWeight => ScoreWrapper::PercentileWithSizeWeight(
            percentile_with_size_weight::average_score(percentile_scores(scores)),
        ),
        ScoringScheme::AvgWithShapeWeight => ScoreWrapper::AvgWithShapeWeight(
            avg_with_shape_weight::average_score(shape_scores(scores), table),
        ),
    }
}

/// The score of the group of faces `group` over the image `img`.
pub open spec fn group_score(
    img: Image,
    group: Seq<Triangle>,
    tri_size: i64,
    scheme: ScoringScheme,
    table: Seq<i64>,
) -> ScoreWrapper {
    aggregate(face_scores(img, group, tri_size, scheme, table), scheme, table)
}

/// How two scores of one scheme compare: the greater is the better. Scores of the
/// percentile scheme go by the score itself, the lower the better, and scores of the
/// shape-weighted scheme by their merit; neither goes by the value for the eye, which
/// is rounded and cut to its scale.
pub open spec fn compare(a: ScoreWrapper, b: ScoreWrapper) -> Ordering {
    match (a, b) {
        (
            ScoreWrapper::PercentileWithSizeWeight(a),
            ScoreWrapper::PercentileWithSizeWeight(b),
        ) => percentile_with_size_weight::better(a, b),
        (ScoreWrapper::AvgWithShapeWeight(a), ScoreWrapper::AvgWithShapeWeight(b)) => order_of(
            avg_with_shape_weight::merit(a),
            avg_with_shape_weight::merit(b),
        ),
        _ => Ordering::Equal,
    }
}

/// The value of a score on the scale from 0, worst, to `FULL`, best.
pub open spec fn display_value(s: ScoreWrapper) -> int {
    match s {
        ScoreWrapper::PercentileWithSizeWeight(a) => percentile_with_size_weight::value_of(a),
        ScoreWrapper::AvgWithShapeWeight(a) => avg_with_shape_weight::value_of(a),
    }
}

impl ScoreWrapper {
    /// The score of a face under a scheme.
    pub fn score_for(info: ScoreInfo, scheme: ScoringScheme) -> (r: Self)
        requires
            info.weights.wf(),
        ensures
            r == face_score(*info.image, info.triangle, info.tri_size, scheme, info.weights@),
            scheme_of(r) == scheme,
            score_wf(r),
    {
        match scheme {
            ScoringScheme::AvgWithShapeWeight => Self::AvgWithShapeWeight(
                avg_with_shape_weight::Score::score_for(info),
            ),
            ScoringScheme::PercentileWithSizeWeight => Self::PercentileWithSizeWeight(
                percentile_with_size_weight::Score::score_for(info),
            ),
        }
    }

    /// Which of two scores of one scheme is better: `Greater` says that `self` is.
    pub fn cmp(&self, other: &Self) -> (r: Ordering)
        requires
            scheme_of(*self) == scheme_of(*other),
        ensures
            r == compare(*self, *other),
    {
        match (self, other) {
            (Self::PercentileWithSizeWeight(a), Self::PercentileWithSizeWeight(b)) => a.cmp(b),
            (Self::AvgWithShapeWeight(a), Self::AvgWithShapeWeight(b)) => a.cmp(b),
            _ => Ordering::Equal,
        }
    }

    /// The value of the score from 0, worst, to `FULL`, best.
    pub fn score_value(&self) -> (r: i64)
        ensures
            r == display_value(*self),
            0 <= r <= avg_with_shape_weight::FULL,
    {
        match self {
            Self::PercentileWithSizeWeight(a) => a.score_value(),
            Self::AvgWithShapeWeight(a) => a.score_value(),
        }
    }

    /// The score of a group of faces from their scores, which are all of the scheme
    /// `scheme`.
    pub fn average(scores: &[ScoreWrapper], scheme: ScoringScheme, weights: &ShapeWeights) -> (r:
        ScoreWrapper)
        requires
            weights.wf(),
            forall|i: int|
                0 <= i < scores@.len() ==> scheme_of(#[trigger] scores@[i]) == scheme && score_wf(
                    scores@[i],
                ),
        ensures
            r == aggregate(scores@, scheme, weights@),
            scheme_of(r) == scheme,
            score_wf(r),
    {
        match scheme {
            ScoringScheme::PercentileWithSizeWeight => {
                let mut inner: Vec<percentile_with_size_weight::Score> = Vec::new();
                let mut i: usize = 0;
                while i < scores.len()
                    invariant
                        i <= scores@.len(),
                        forall|k: int|
                            0 <= k < scores@.len() ==> scheme_of(#[trigger] scores@[k]) == scheme
                                && score_wf(scores@[k]),
                        scheme == ScoringScheme::PercentileWithSizeWeight,
                        inner@ == percentile_scores(scores@).take(i as int),
                        forall|k: int| 0 <= k < inner@.len() ==> (#[trigger] inner@[k]).wf(),
                    decreases scores@.len() - i,
                {
                    assert(scheme_of(scores@[i as int]) == scheme && score_wf(scores@[i as int]));
                    match scores[i] {
                        ScoreWrapper::PercentileWithSizeWeight(a) => {
                            inner.push(a);
                        },
                        _ => {},
                    }
                    assert(inner@ =~= percentile_scores(scores@).take(i + 1));
                    i += 1;
                }
                assert(percentile_scores(scores@).take(i as int) =~= percentile_scores(scores@));
                ScoreWrapper::PercentileWithSizeWeight(
                    percentile_with_size_weight::Score::average(inner.as_slice()),
                )
            },
            ScoringScheme::AvgWithShapeWeight => {
                let mut inner: Vec<avg_with_shape_weight::Score> = Vec::new();
                let mut i: usize = 0;
                while i < scores.len()
                    invariant
                        i <= scores@.len(),
                        forall|k: int|
                            0 <= k < scores@.len() ==> scheme_of(#[trigger] scores@[k]) == scheme
                                && score_wf(scores@[k]),
                        scheme == ScoringScheme::AvgWithShapeWeight,
                        inner@ == shape_scores(scores@).take(i as int),
                        forall|k: int| 0 <= k < inner@.len() ==> (#[trigger] inner@[k]).wf(),
                    decreases scores@.len() - i,
                {
                    assert(scheme_of(scores@[i as int]) == scheme && score_wf(scores@[i as int]));
                    match scores[i] {
                        ScoreWrapper::AvgWithShapeWeight(a) => {
                            inner.push(a);
                        },
                        _ => {},
                    }
                    assert(inner@ =~= shape_scores(scores@).take(i + 1));
                    i += 1;
                }
                assert(shape_scores(scores@).take(i as int) =~= shape_scores(scores@));
                ScoreWrapper::AvgWithShapeWeight(
                    avg_with_shape_weight::Score::average(inner.as_slice(), weights),
                )
            },
        }
    }
}

/// The score of the face `triangle` over `image` under a scheme.
pub fn score(
    triangle: Triangle,
    image: &Image,
    tri_size: i64,
    scheme: ScoringScheme,
    weights: &ShapeWeights,
) -> (r: ScoreWrapper)
    requires
        weights.wf(),
    ensures
        r == face_score(*image, triangle, tri_size, scheme, weights@),
        scheme_of(r) == scheme,
        score_wf(r),
{
    ScoreWrapper::score_for(ScoreInfo { triangle, image, tri_size, weights }, scheme)
}

/// The score of the group of faces `group` over `image` under a scheme.
pub fn score_for_group(
    image: &Image,
    group: &Vec<Triangle>,
    tri_size: i64,
    scheme: ScoringScheme,
    weights: &ShapeWeights,
) -> (r: ScoreWrapper)
    requires
        weights.wf(),
    ensures
        r == group_score(*image, group@, tri_size, scheme, weights@),
        scheme_of(r) == scheme,
        score_wf(r),
{
    let mut scores: Vec<ScoreWrapper> = Vec::new();
    let ghost all = face_scores(*image, group@, tri_size, scheme, weights@);
    let mut i: usize = 0;
    while i < group.len()
        invariant
            i <= group@.len(),
            weights.wf(),
            all == face_scores(*image, group@, tri_size, scheme, weights@),
            scores@ == all.take(i as int),
            forall|k: int|
                0 <= k < scores@.len() ==> scheme_of(#[trigger] scores@[k]) == scheme && score_wf(
                    scores@[k],
                ),
        decreases group@.len() - i,
    {
        let s = score(group[i], image, tri_size, scheme, weights);
        scores.push(s);
        assert(scores@ =~= all.take(i + 1));
        i += 1;
    }
    assert(all.take(i as int) =~= all);
    ScoreWrapper::average(scores.as_slice(), scheme, weights)
}

} // verus!
