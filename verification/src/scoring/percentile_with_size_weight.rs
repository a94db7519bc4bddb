//! The percentile scheme: the deviation from the mean colour that only the worst
//! pixels of a face exceed, plus a penalty for small faces. Lower values are better.

use std::cmp::Ordering;
use lazysort::SortedBy;
use vstd::prelude::*;
use crate::pixels::Rgb;
use crate::scoring::{
    mean_color,
    average,
    colors_in_triangle,
    get_color_in_triangle,
    ScoreInfo,
};
use crate::scoring::avg_with_shape_weight::FULL;
use crate::pixels::{image_width, image_height};
use crate::triangle::{padded, padded_dimension};
use crate::UNIT;

verus! {

/// How many of `s` are greater than `v`.
pub open spec fn count_above(s: Seq<u8>, v: u8) -> int
    decreases s.len(),
{
    if s.len() == 0 {
        0
    } else {
        count_above(s.drop_last(), v) + if s.last() > v {
            1int
        } else {
            0int
        }
    }
}

/// How many of `s` are at least `v`.
pub open spec fn count_at_least(s: Seq<u8>, v: u8) -> int
    decreases s.len(),
{
    if s.len() == 0 {
        0
    } else {
        count_at_least(s.drop_last(), v) + if s.last() >= v {
            1int
        } else {
            0int
        }
    }
}

/// `v` stands at index `k` when `s` is sorted from the greatest down: at most `k` of
/// `s` are greater than `v`, and more than `k` are at least `v`.
pub open spec fn is_nth_largest(s: Seq<u8>, k: int, v: u8) -> bool {
    count_above(s, v) <= k < count_at_least(s, v)
}

/// The value at index `k` when `s` is sorted from the greatest down.
pub open spec fn nth_largest_of(s: Seq<u8>, k: int) -> u8 {
    choose|v: u8| is_nth_largest(s, k, v)
}

proof fn lemma_counts_ordered(s: Seq<u8>, low: u8, high: u8)
    requires
        low < high,
    ensures
        count_at_least(s, high) <= count_above(s, low),
        count_above(s, low) <= count_at_least(s, low) <= s.len(),
    decreases s.len(),
{
    if s.len() > 0 {
        lemma_counts_ordered(s.drop_last(), low, high);
    }
}

/// Only one value stands at a given index of the sorted sequence.
pub proof fn lemma_nth_largest_unique(s: Seq<u8>, k: int, a: u8, b: u8)
    requires
        is_nth_largest(s, k, a),
        is_nth_largest(s, k, b),
    ensures
        a == b,
{
    if a < b {
        lemma_counts_ordered(s, a, b);
    } else if b < a {
        lemma_counts_ordered(s, b, a);
    }
}

/// `v` stands at index `k` when `s` is sorted from the greatest down.
pub open spec fn stands_at(s: Seq<u8>, k: usize, v: u8) -> bool {
    is_nth_largest(s, k as int, v)
}

/// How `a` and `b` compare in the order that sorts from the greatest down.
pub open spec fn descending_order(a: u8, b: u8) -> Ordering {
    if b < a {
        Ordering::Less
    } else if b > a {
        Ordering::Greater
    } else {
        Ordering::Equal
    }
}

/// The order that sorts from the greatest down.
fn descending(a: &u8, b: &u8) -> (r: Ordering)
    ensures
        r == descending_order(*a, *b),
{
    if *b < *a {
        Ordering::Less
    } else if *b > *a {
        Ordering::Greater
    } else {
        Ordering::Equal
    }
}

/// `lazysort::SortedBy::sorted_by` with the order `descending`, and `Iterator::nth` on
/// what it returns: the iterator hands out the values from the greatest down, so the
/// result is the value at index `k` of that order, and there is none from
/// `values.len()` on.
#[verifier::external_body]
fn nth_largest(values: Vec<u8>, k: usize) -> (r: Option<u8>)
    ensures
        r.is_some() <==> k < values@.len(),
        r matches Some(v) ==> stands_at(values@, k, v),
{
    values.into_iter().sorted_by(descending).nth(k)
}

/// The greatest difference between `c` and `mean` in one channel.
pub open spec fn deviation(c: Rgb, mean: Rgb) -> u8 {
    let dr = if c.r >= mean.r {
        c.r - mean.r
    } else {
        mean.r - c.r
    };
    let dg = if c.g >= mean.g {
        c.g - mean.g
    } else {
        mean.g - c.g
    };
    let db = if c.b >= mean.b {
        c.b - mean.b
    } else {
        mean.b - c.b
    };
    if dr >= dg && dr >= db {
        dr as u8
    } else if dg >= db {
        dg as u8
    } else {
        db as u8
    }
}

/// The deviation of each colour from the mean colour of all.
pub open spec fn deviations(colors: Seq<Rgb>) -> Seq<u8> {
    Seq::new(colors.len(), |i: int| deviation(colors[i], mean_color(colors)))
}

/// The number of pixels that a face of the mesh is expected to cover: the pixels of
/// the image by the number of squares of the spacing in the padded image, both
/// divisions rounded down; 0 where there is no such square.
pub open spec fn expected_area(width: u32, height: u32, tri_size: i64) -> int {
    if tri_size <= 0 {
        0
    } else {
        let cells = ((padded(width, tri_size) * UNIT) * (padded(height, tri_size) * UNIT)) / (
        tri_size * tri_size);
        if cells == 0 {
            0
        } else {
            (width * height) / cells
        }
    }
}

/// The score of a face, in units.
#[derive(Debug, Clone, Copy, PartialEq, Eq, Structural)]
pub struct Score(pub i64);

/// The greatest score of a face: 255 for the deviation and 255 for the penalty.
pub const WORST: i64 = 33_423_360;

/// The score of a face that covers the pixels `colors` in an image of the given
/// dimensions: the deviation at the index of a twentieth of the expected area, or the
/// last where there are fewer, of the deviations sorted from the greatest down (0 for
/// a face without pixels), plus 255 by the number of pixels and one, rounded down.
pub open spec fn percentile_score(colors: Seq<Rgb>, width: u32, height: u32, tri_size: i64) -> Score {
    let n = colors.len() as int;
    let at = expected_area(width, height, tri_size) / 20;
    let base: int = if n == 0 {
        0
    } else {
        nth_largest_of(
            deviations(colors),
            if at < n - 1 {
                at
            } else {
                n - 1
            },
        ) as int
    };
    Score((base * UNIT + (255 * UNIT) / (n + 1)) as i64)
}

/// How two scores compare: the greater is the one of lower score.
pub open spec fn better(a: Score, b: Score) -> Ordering {
    if b.0 < a.0 {
        Ordering::Less
    } else if b.0 > a.0 {
        Ordering::Greater
    } else {
        Ordering::Equal
    }
}

/// The sum of the scores.
pub open spec fn score_sum(scores: Seq<Score>) -> int
    decreases scores.len(),
{
    if scores.len() == 0 {
        0
    } else {
        score_sum(scores.drop_last()) + scores.last().0
    }
}

/// The score of a group of faces: the mean of their scores, rounded down; 0 for none.
pub open spec fn average_score(scores: Seq<Score>) -> Score {
    if scores.len() == 0 {
        Score(0)
    } else {
        Score((score_sum(scores) / (scores.len() as int)) as i64)
    }
}

/// The value of a score on the scale from 0, worst, to `FULL`, best: what two fifths
/// of the score, rounded down and kept on the scale, leave of `FULL`.
pub open spec fn value_of(s: Score) -> int {
    let v = (s.0 * 2) / 5;
    if v < 0 {
        FULL as int
    } else if v > FULL {
        0
    } else {
        FULL - v
    }
}

fn deviation_of(c: Rgb, mean: Rgb) -> (r: u8)
    ensures
        r == deviation(c, mean),
{
    let dr: u8 = if c.r >= mean.r {
        c.r - mean.r
    } else {
        mean.r - c.r
    };
    let dg: u8 = if c.g >= mean.g {
        c.g - mean.g
    } else {
        mean.g - c.g
    };
    let db: u8 = if c.b >= mean.b {
        c.b - mean.b
    } else {
        mean.b - c.b
    };
    if dr >= dg && dr >= db {
        dr
    } else if dg >= db {
        dg
    } else {
        db
    }
}

fn deviations_of(colors: &Vec<Rgb>) -> (r: Vec<u8>)
    ensures
        r@ == deviations(colors@),
{
    let mean = average(colors);
    let mut out: Vec<u8> = Vec::new();
    let mut i: usize = 0;
    while i < colors.len()
        invariant
            i <= colors@.len(),
            mean == mean_color(colors@),
            out@ == deviations(colors@).take(i as int),
        decreases colors@.len() - i,
    {
        out.push(deviation_of(colors[i], mean));
        assert(out@ =~= deviations(colors@).take(i + 1));
        i += 1;
    }
    assert(deviations(colors@).take(i as int) =~= deviations(colors@));
    out
}

fn expected_pixels(width: u32, height: u32, tri_size: i64) -> (r: u64)
    ensures
        r == expected_area(width, height, tri_size),
{
    if tri_size <= 0 {
        return 0;
    }
    let w: u128 = padded_dimension(width, tri_size) as u128 * UNIT as u128;
    let h: u128 = padded_dimension(height, tri_size) as u128 * UNIT as u128;
    assert(w * h <= 0xffff_ffff_ffff_ffff * 0xffff_ffff_ffff_ffff) by (nonlinear_arith)
        requires
            0 <= w <= 0xffff_ffff_ffff_ffff,
            0 <= h <= 0xffff_ffff_ffff_ffff,
    ;
    assert(0 < tri_size * tri_size <= 0x7fff_ffff_ffff_ffff * 0x7fff_ffff_ffff_ffff)
        by (nonlinear_arith)
        requires
            0 < tri_size <= 0x7fff_ffff_ffff_ffff,
    ;
    let cells: u128 = (w * h) / (tri_size as u128 * tri_size as u128);
    if cells == 0 {
        return 0;
    }
    assert(width * height <= 0xffff_ffff * 0xffff_ffff) by (nonlinear_arith)
        requires
            0 <= width <= 0xffff_ffff,
            0 <= height <= 0xffff_ffff,
    ;
    let area: u128 = (width as u128 * height as u128) / cells;
    assert(area <= width * height) by (nonlinear_arith)
        requires
            area == (width * height) / (cells as int),
            cells >= 1,
            0 <= width * height,
    ;
    area as u64
}

impl Score {
    /// The score lies between the best and the worst of a face.
    pub open spec fn wf(&self) -> bool {
        0 <= self.0 <= WORST
    }

    /// The score of a face for the pixels that it covers.
    pub fn score_for(info: ScoreInfo) -> (r: Self)
        ensures
            r == percentile_score(
                colors_in_triangle(*info.image, info.triangle),
                image_width(*info.image),
                image_height(*info.image),
                info.tri_size,
            ),
            r.wf(),
    {
        let colors = get_color_in_triangle(info.image, info.triangle);
        let n = colors.len();
        let area = expected_pixels(info.image.width(), info.image.height(), info.tri_size);
        let penalty: i64 = ((255 * UNIT as u128) / (n as u128 + 1)) as i64;
        if n == 0 {
            return Score(penalty);
        }
        let at: usize = if area / 20 < (n - 1) as u64 {
            (area / 20) as usize
        } else {
            n - 1
        };
        let values = deviations_of(&colors);
        let ghost sorted_from = values@;
        let base: u8 = match nth_largest(values, at) {
            Some(v) => v,
            None => 0,
        };
        proof {
            lemma_nth_largest_unique(
                sorted_from,
                at as int,
                base,
                nth_largest_of(sorted_from, at as int),
            );
        }
        Score(base as i64 * UNIT + penalty)
    }

    /// The score of a group of faces.
    pub fn average(scores: &[Self]) -> (r: Self)
        requires
            forall|i: int| 0 <= i < scores@.len() ==> (#[trigger] scores@[i]).wf(),
        ensures
            r == average_score(scores@),
            r.wf(),
    {
        let n = scores.len();
        if n == 0 {
            return Score(0);
        }
        let mut sum: i128 = 0;
        let mut i: usize = 0;
        while i < n
            invariant
                i <= n,
                n == scores@.len(),
                forall|k: int| 0 <= k < scores@.len() ==> (#[trigger] scores@[k]).wf(),
                sum == score_sum(scores@.take(i as int)),
                0 <= sum <= i * WORST,
            decreases n - i,
        {
            assert(scores@.take(i + 1).drop_last() =~= scores@.take(i as int));
            assert((i + 1) * WORST == i * WORST + WORST) by (nonlinear_arith);
            assert(i * WORST <= 0xffff_ffff_ffff_ffff * WORST) by (nonlinear_arith)
                requires
                    i <= 0xffff_ffff_ffff_ffff,
                    WORST == 33_423_360,
            ;
            assert(scores@[i as int].wf());
            sum = sum + scores[i].0 as i128;
            i += 1;
        }
        assert(scores@.take(i as int) =~= scores@);
        assert(0 <= (sum as int) / (n as int) <= WORST) by (nonlinear_arith)
            requires
                0 <= sum <= n * WORST,
                0 < n,
        ;
        Score((sum / n as i128) as i64)
    }

    /// Which of two scores is better: the greater is the one of lower score.
    pub fn cmp(&self, other: &Self) -> (r: Ordering)
        ensures
            r == better(*self, *other),
    {
        if other.0 < self.0 {
            Ordering::Less
        } else if other.0 > self.0 {
            Ordering::Greater
        } else {
            Ordering::Equal
        }
    }

    /// The value of the score from 0, worst, to `FULL`, best.
    pub fn score_value(&self) -> (r: i64)
        ensures
            r == value_of(*self),
            0 <= r <= FULL,
    {
        if self.0 < 0 {
            return FULL;
        }
        let v: i128 = (self.0 as i128 * 2) / 5;
        if v > FULL as i128 {
            0
        } else {
            FULL - v as i64
        }
    }
}

} // verus!
