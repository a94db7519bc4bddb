//! The shape-weighted scheme: how close the covered pixels are to their mean colour,
//! weighted by how far the face is from a sliver. Higher values are better.

use std::cmp::Ordering;
use vstd::prelude::*;
use crate::num::{isqrt, sqrt_floor};
use crate::pixels::Rgb;
use crate::triangle::Triangle;
use crate::scoring::{
    max3,
    min3,
    max_of,
    min_of,
    mean_color,
    average,
    colors_in_triangle,
    get_color_in_triangle,
    order_of,
    ScoreInfo,
};
use crate::UNIT;

verus! {

/// The top of the scale from 0 to 100, in units.
pub const FULL: i64 = 6_553_600;

/// A table is usable as a weighting curve: it has at least two entries, no more than
/// can be counted in `u32`, and each is positive and at most 1, in units. A weight of
/// nothing would make every colour distance count alike.
pub open spec fn valid_table(table: Seq<i64>) -> bool {
    &&& 2 <= table.len() <= 0xffff_ffff
    &&& forall|i: int| 0 <= i < table.len() ==> 1 <= #[trigger] table[i] <= UNIT
}

/// The weight that a table gives to a squareness between 0 and `FULL`: the table's
/// entries stand at equal distances from squareness 0 to squareness `FULL`, and between
/// two entries the weight is interpolated linearly, rounded down.
pub open spec fn weight_at(table: Seq<i64>, squareness: int) -> int {
    let steps = table.len() - 1;
    let pos = squareness * steps;
    let i = pos / (FULL as int);
    let rem = pos % (FULL as int);
    if i >= steps {
        table[steps] as int
    } else {
        (table[i] * (FULL - rem) + table[i + 1] * rem) / (FULL as int)
    }
}

/// The curve by which the squareness of a face weighs on its score.
#[derive(Debug)]
pub struct ShapeWeights {
    table: Vec<i64>,
}

impl View for ShapeWeights {
    type V = Seq<i64>;

    closed spec fn view(&self) -> Seq<i64> {
        self.table@
    }
}

impl ShapeWeights {
    /// The invariant of a curve: its table is usable.
    pub open spec fn wf(&self) -> bool {
        valid_table(self@)
    }

    /// The curve over `table`, or `None` if the table is not usable.
    pub fn new(table: Vec<i64>) -> (r: Option<Self>)
        ensures
            r.is_some() <==> valid_table(table@),
            r matches Some(w) ==> w@ == table@ && w.wf(),
    {
        if table.len() < 2 || table.len() > 0xffff_ffff {
            return None;
        }
        let mut i: usize = 0;
        while i < table.len()
            invariant
                i <= table@.len(),
                forall|k: int| 0 <= k < i ==> 1 <= #[trigger] table@[k] <= UNIT,
            decreases table@.len() - i,
        {
            if table[i] < 1 || table[i] > UNIT {
                return None;
            }
            i += 1;
        }
        Some(ShapeWeights { table })
    }

    /// The weight of a squareness between 0 and `FULL`.
    pub fn weight(&self, squareness: i64) -> (r: i64)
        requires
            self.wf(),
            0 <= squareness <= FULL,
        ensures
            r == weight_at(self@, squareness as int),
            1 <= r <= UNIT,
    {
        let steps: i64 = (self.table.len() - 1) as i64;
        assert(0 <= squareness * steps <= FULL * 0xffff_ffff) by (nonlinear_arith)
            requires
                0 <= squareness <= FULL,
                0 <= steps <= 0xffff_ffff,
        ;
        let pos: i64 = squareness * steps;
        let i: i64 = pos / FULL;
        let rem: i64 = pos % FULL;
        assert(i <= steps) by (nonlinear_arith)
            requires
                pos == squareness * steps,
                0 <= squareness <= FULL,
                0 <= steps,
                i == (pos as int) / 6_553_600,
        ;
        if i >= steps {
            self.table[steps as usize]
        } else {
            let a: i64 = self.table[i as usize];
            let b: i64 = self.table[(i + 1) as usize];
            assert(0 <= a * (FULL - rem) <= UNIT * FULL && 0 <= b * rem <= UNIT * FULL)
                by (nonlinear_arith)
                requires
                    0 <= a <= UNIT,
                    0 <= b <= UNIT,
                    0 <= rem < FULL,
            ;
            assert(FULL <= a * (FULL - rem) + b * rem <= UNIT * FULL) by (nonlinear_arith)
                requires
                    1 <= a <= UNIT,
                    1 <= b <= UNIT,
                    0 <= rem < FULL,
            ;
            (a * (FULL - rem) + b * rem) / FULL
        }
    }
}

/// The squared distance of two colours in RGB space.
pub open spec fn squared_distance(a: Rgb, b: Rgb) -> int {
    (a.r - b.r) * (a.r - b.r) + (a.g - b.g) * (a.g - b.g) + (a.b - b.b) * (a.b - b.b)
}

/// The distance of two colours in RGB space, in units, rounded down.
pub open spec fn color_distance(a: Rgb, b: Rgb) -> int {
    sqrt_floor(squared_distance(a, b) * UNIT * UNIT)
}

/// The sum of the distances of `colors` to the colour `to`.
pub open spec fn distance_sum(colors: Seq<Rgb>, to: Rgb) -> int
    decreases colors.len(),
{
    if colors.len() == 0 {
        0
    } else {
        distance_sum(colors.drop_last(), to) + color_distance(colors.last(), to)
    }
}

/// The mean distance of `colors` to their mean colour, divided by 25.5 and rounded down.
pub open spec fn average_distance(colors: Seq<Rgb>) -> int {
    if colors.len() == 0 {
        0
    } else {
        distance_sum(colors, mean_color(colors)) * 10 / (colors.len() as int * 255)
    }
}

/// How square the bounding box of a triangle is, from 0 for a line to `FULL` for a
/// square: the shorter side of the box as a part of the longer one, rounded down.
/// A box without extent counts as a line.
pub open spec fn squareness_of(t: Triangle) -> int {
    let w = max3(t.0.x, t.1.x, t.2.x) - min3(t.0.x, t.1.x, t.2.x);
    let h = max3(t.0.y, t.1.y, t.2.y) - min3(t.0.y, t.1.y, t.2.y);
    if w >= h {
        if w == 0 {
            0
        } else {
            FULL * h / w
        }
    } else {
        FULL * w / h
    }
}

/// The score of a face for the colours it covers.
#[derive(Debug, Clone, Copy, PartialEq, Eq, Structural)]
pub struct Score {
    /// Nothing is known of the face: it covers no pixel.
    pub is_none: bool,
    /// Distance between the colours, from 0 for a perfect match.
    pub average_color_distance: i64,
    /// From 0 for a line to `FULL` for a square.
    pub squareness: i64,
    /// The weight that the curve gives to the squareness.
    pub weight: i64,
}

/// The score of a face with colour distance `distance` and squareness `squareness`
/// under the curve `table`.
pub open spec fn known_score(distance: int, squareness: int, table: Seq<i64>) -> Score {
    Score {
        is_none: false,
        average_color_distance: distance as i64,
        squareness: squareness as i64,
        weight: weight_at(table, squareness) as i64,
    }
}

/// The score of a face that covers the pixels `colors` and has the corners `t`.
pub open spec fn shape_score(colors: Seq<Rgb>, t: Triangle, table: Seq<i64>) -> Score {
    if colors.len() == 0 {
        Score { is_none: true, average_color_distance: 0, squareness: 0, weight: 0 }
    } else {
        known_score(average_distance(colors), squareness_of(t), table)
    }
}

/// The sum of the colour distances of the scores that are not `is_none`.
pub open spec fn known_distance_sum(scores: Seq<Score>) -> int
    decreases scores.len(),
{
    if scores.len() == 0 {
        0
    } else {
        known_distance_sum(scores.drop_last()) + if scores.last().is_none {
            0
        } else {
            scores.last().average_color_distance as int
        }
    }
}

/// The sum of the squareness of the scores that are not `is_none`.
pub open spec fn known_squareness_sum(scores: Seq<Score>) -> int
    decreases scores.len(),
{
    if scores.len() == 0 {
        0
    } else {
        known_squareness_sum(scores.drop_last()) + if scores.last().is_none {
            0
        } else {
            scores.last().squareness as int
        }
    }
}

/// The number of the scores that are not `is_none`.
pub open spec fn known_count(scores: Seq<Score>) -> int
    decreases scores.len(),
{
    if scores.len() == 0 {
        0
    } else {
        known_count(scores.drop_last()) + if scores.last().is_none {
            0int
        } else {
            1int
        }
    }
}

/// The score of a group of faces: the means of colour distance and squareness over
/// the faces of which something is known, each rounded down. A face of which nothing
/// is known weighs on neither, and where nothing is known of any face, nothing is
/// known of the group.
pub open spec fn average_score(scores: Seq<Score>, table: Seq<i64>) -> Score {
    if known_count(scores) == 0 {
        Score { is_none: true, average_color_distance: 0, squareness: 0, weight: 0 }
    } else {
        known_score(
            known_distance_sum(scores) / known_count(scores),
            known_squareness_sum(scores) / known_count(scores),
            table,
        )
    }
}

/// How good a score is, for comparing: nothing for a face of which nothing is known,
/// else what the colour distance leaves of `FULL`, times the weight, with nothing
/// rounded or cut off.
pub open spec fn merit(s: Score) -> int {
    if s.is_none {
        0
    } else {
        (FULL - s.average_color_distance) * s.weight
    }
}

/// At equal weight the score of less colour distance is the better one.
pub proof fn lemma_less_distance_wins(a: Score, b: Score)
    requires
        !a.is_none,
        !b.is_none,
        a.weight == b.weight,
        a.weight > 0,
        a.average_color_distance < b.average_color_distance,
    ensures
        merit(a) > merit(b),
{
    assert((FULL - a.average_color_distance) * a.weight > (FULL - b.average_color_distance)
        * a.weight) by (nonlinear_arith)
        requires
            a.weight > 0,
            a.average_color_distance < b.average_color_distance,
    ;
}

/// The value of a score on the scale from 0, worst, to `FULL`, best: nothing for a face
/// of which nothing is known, else what the colour distance leaves of `FULL`, times
/// the weight, kept on the scale.
pub open spec fn value_of(s: Score) -> int {
    if s.is_none {
        0
    } else {
        let v = (FULL - s.average_color_distance) * s.weight / (UNIT as int);
        if v < 0 {
            0
        } else if v > FULL {
            FULL as int
        } else {
            v
        }
    }
}

/// The greatest distance of two colours, in whole numbers: the square of 442 exceeds
/// three times the square of 255.
pub const MAX_DISTANCE: u64 = 442;

fn distance(a: Rgb, b: Rgb) -> (r: u64)
    ensures
        r == color_distance(a, b),
        r <= MAX_DISTANCE * UNIT,
{
    let dr: i64 = a.r as i64 - b.r as i64;
    let dg: i64 = a.g as i64 - b.g as i64;
    let db: i64 = a.b as i64 - b.b as i64;
    assert(0 <= dr * dr <= 65025 && 0 <= dg * dg <= 65025 && 0 <= db * db <= 65025)
        by (nonlinear_arith)
        requires
            -255 <= dr <= 255,
            -255 <= dg <= 255,
            -255 <= db <= 255,
    ;
    let q: u64 = (dr * dr + dg * dg + db * db) as u64;
    assert(q * UNIT * UNIT == q * 0x1_0000_0000) by (nonlinear_arith)
        requires
            UNIT == 65536,
    ;
    let r = isqrt(q * 0x1_0000_0000);
    proof {
        assert(r <= 442 * 65536) by (nonlinear_arith)
            requires
                r * r <= q * 0x1_0000_0000,
                q <= 195075,
                0 <= r,
        ;
    }
    r
}

fn sum_distances(colors: &Vec<Rgb>, to: Rgb) -> (r: u128)
    ensures
        r == distance_sum(colors@, to),
        r <= colors@.len() * (MAX_DISTANCE * UNIT),
{
    let mut sum: u128 = 0;
    let mut i: usize = 0;
    while i < colors.len()
        invariant
            i <= colors@.len(),
            sum == distance_sum(colors@.take(i as int), to),
            sum <= i * (MAX_DISTANCE * UNIT),
        decreases colors@.len() - i,
    {
        assert(colors@.take(i + 1).drop_last() =~= colors@.take(i as int));
        let d = distance(colors[i], to);
        assert((i + 1) * (MAX_DISTANCE * UNIT) == i * (MAX_DISTANCE * UNIT) + MAX_DISTANCE * UNIT)
            by (nonlinear_arith);
        sum = sum + d as u128;
        i += 1;
    }
    assert(colors@.take(i as int) =~= colors@);
    sum
}

fn squareness(t: Triangle) -> (r: i64)
    ensures
        r == squareness_of(t),
        0 <= r <= FULL,
{
    let w: i128 = max_of(t.0.x, t.1.x, t.2.x) as i128 - min_of(t.0.x, t.1.x, t.2.x) as i128;
    let h: i128 = max_of(t.0.y, t.1.y, t.2.y) as i128 - min_of(t.0.y, t.1.y, t.2.y) as i128;
    let (short, long) = if w >= h {
        (h, w)
    } else {
        (w, h)
    };
    if long == 0 {
        return 0;
    }
    assert(0 <= FULL * short <= FULL * 0xffff_ffff_ffff_ffff && 0 <= (FULL * short) / (
    long as int) <= FULL) by (nonlinear_arith)
        requires
            0 <= short <= long,
            0 < long <= 0xffff_ffff_ffff_ffff,
            FULL == 6_553_600,
    ;
    ((FULL as i128 * short) / long) as i64
}

impl Score {
    /// The values of the score lie on their scales, and the weight of a face of which
    /// something is known is positive.
    pub open spec fn wf(&self) -> bool {
        &&& 0 <= self.average_color_distance <= FULL
        &&& 0 <= self.squareness <= FULL
        &&& 0 <= self.weight <= UNIT
        &&& !self.is_none ==> self.weight >= 1
    }

    /// The score of a face of which nothing is known.
    pub fn none() -> (r: Self)
        ensures
            r == (Score { is_none: true, average_color_distance: 0, squareness: 0, weight: 0 }),
            r.wf(),
    {
        Self { is_none: true, average_color_distance: 0, squareness: 0, weight: 0 }
    }

    /// The score of a face for the pixels that it covers.
    pub fn score_for(info: ScoreInfo) -> (r: Self)
        requires
            info.weights.wf(),
        ensures
            r == shape_score(
                colors_in_triangle(*info.image, info.triangle),
                info.triangle,
                info.weights@,
            ),
            r.wf(),
    {
        let colors = get_color_in_triangle(info.image, info.triangle);
        if colors.len() == 0 {
            return Score::none();
        }
        let avg = average(&colors);
        let sum = sum_distances(&colors, avg);
        let n = colors.len() as u128;
        assert((sum * 10) / (n * 255) <= 1_135_958) by (nonlinear_arith)
            requires
                sum <= n * (442 * 65536),
                0 < n,
                0 <= sum,
        ;
        assert(n * 255 <= 0xffff_ffff_ffff_ffff * 255) by (nonlinear_arith)
            requires
                n <= 0xffff_ffff_ffff_ffff,
        ;
        assert(sum * 10 <= 0xffff_ffff_ffff_ffff * (442 * 65536) * 10) by (nonlinear_arith)
            requires
                sum <= n * (442 * 65536),
                n <= 0xffff_ffff_ffff_ffff,
        ;
        let average_color_distance = ((sum * 10) / (n * 255)) as i64;
        let squareness = squareness(info.triangle);
        let weight = info.weights.weight(squareness);
        Score { is_none: false, average_color_distance, squareness, weight }
    }

    /// The score of a group of faces.
    pub fn average(scores: &[Self], weights: &ShapeWeights) -> (r: Self)
        requires
            weights.wf(),
            forall|i: int| 0 <= i < scores@.len() ==> (#[trigger] scores@[i]).wf(),
        ensures
            r == average_score(scores@, weights@),
            r.wf(),
    {
        let n = scores.len();
        let mut known: usize = 0;
        let mut distance: i128 = 0;
        let mut square: i128 = 0;
        let mut i: usize = 0;
        while i < n
            invariant
                i <= n,
                n == scores@.len(),
                forall|k: int| 0 <= k < scores@.len() ==> (#[trigger] scores@[k]).wf(),
                known == known_count(scores@.take(i as int)),
                known <= i,
                distance == known_distance_sum(scores@.take(i as int)),
                square == known_squareness_sum(scores@.take(i as int)),
                0 <= distance <= known * FULL,
                0 <= square <= known * FULL,
            decreases n - i,
        {
            assert(scores@.take(i + 1).drop_last() =~= scores@.take(i as int));
            assert((known + 1) * FULL == known * FULL + FULL) by (nonlinear_arith);
            assert(known * FULL <= 0xffff_ffff_ffff_ffff * FULL) by (nonlinear_arith)
                requires
                    known <= 0xffff_ffff_ffff_ffff,
                    FULL == 6_553_600,
            ;
            assert(scores@[i as int].wf());
            if !scores[i].is_none {
                known = known + 1;
                distance = distance + scores[i].average_color_distance as i128;
                square = square + scores[i].squareness as i128;
            }
            i += 1;
        }
        assert(scores@.take(i as int) =~= scores@);
        if known == 0 {
            return Score::none();
        }
        assert(0 <= (distance as int) / (known as int) <= FULL && 0 <= (square as int) / (
        known as int) <= FULL) by (nonlinear_arith)
            requires
                0 <= distance <= known * FULL,
                0 <= square <= known * FULL,
                0 < known,
        ;
        let average_color_distance = (distance / known as i128) as i64;
        let squareness = (square / known as i128) as i64;
        let weight = weights.weight(squareness);
        Score { is_none: false, average_color_distance, squareness, weight }
    }

    /// How good the score is, for comparing.
    pub fn merit(&self) -> (r: i128)
        ensures
            r == merit(*self),
    {
        if self.is_none {
            return 0;
        }
        let left: i128 = FULL as i128 - self.average_color_distance as i128;
        let weight: i128 = self.weight as i128;
        assert(-(0x8000_0000_0080_0000 * 0x8000_0000_0000_0000) <= left * weight
            <= 0x8000_0000_0080_0000 * 0x8000_0000_0000_0000) by (nonlinear_arith)
            requires
                -0x8000_0000_0080_0000 <= left <= 0x8000_0000_0080_0000,
                -0x8000_0000_0000_0000 <= weight <= 0x8000_0000_0000_0000,
        ;
        left * weight
    }

    /// Which of two scores is better: the greater is the one of greater merit. So at
    /// equal squareness less colour distance wins, however small the difference.
    pub fn cmp(&self, rhs: &Score) -> (r: Ordering)
        ensures
            r == order_of(merit(*self), merit(*rhs)),
    {
        let a = self.merit();
        let b = rhs.merit();
        if a < b {
            Ordering::Less
        } else if a > b {
            Ordering::Greater
        } else {
            Ordering::Equal
        }
    }

    /// The value of the score from 0, worst, to `FULL`, best.
    pub fn score_value(&self) -> (r: i64)
        ensures
            r == value_of(*self),
            0 <= r <= FULL,
    {
        if self.is_none {
            return 0;
        }
        let left: i128 = FULL as i128 - self.average_color_distance as i128;
        let weight: i128 = self.weight as i128;
        assert(-(0x8000_0000_0080_0000 * 0x8000_0000_0000_0000) <= left * weight
            <= 0x8000_0000_0080_0000 * 0x8000_0000_0000_0000) by (nonlinear_arith)
            requires
                -0x8000_0000_0080_0000 <= left <= 0x8000_0000_0080_0000,
                -0x8000_0000_0000_0000 <= weight <= 0x8000_0000_0000_0000,
        ;
        let product: i128 = left * weight;
        if product <= 0 {
            assert((product as int) / (UNIT as int) <= 0) by (nonlinear_arith)
                requires
                    product <= 0,
                    UNIT == 65536,
            ;
            return 0;
        }
        let v: i128 = product / UNIT as i128;
        if v > FULL as i128 {
            FULL
        } else {
            v as i64
        }
    }
}

} // verus!
