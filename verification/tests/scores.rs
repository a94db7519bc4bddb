use std::cmp::Ordering;
use trifit::pixels::{Image, Rgb};
use trifit::scoring::avg_with_shape_weight::{self as shape, ShapeWeights, FULL};
use trifit::scoring::percentile_with_size_weight as percentile;
use trifit::scoring::{score, score_for_group, ScoreInfo, ScoreWrapper, ScoringScheme};
use trifit::triangle::Triangle;
use trifit::vec2::I64x2;
use trifit::UNIT;

fn px(x: i64, y: i64) -> I64x2 {
    I64x2::new(x * UNIT, y * UNIT)
}

/// The weight rises in a line from next to nothing for a line to 1 for a square.
fn line() -> ShapeWeights {
    ShapeWeights::new(vec![1, UNIT]).unwrap()
}

/// An image of 100 by 100 pixels, black but for the pixels given.
fn image_with(pixels: &[(u32, u32, Rgb)]) -> Image {
    let mut data = vec![0u8; 100 * 100 * 3];
    for &(x, y, c) in pixels {
        let at = ((y * 100 + x) * 3) as usize;
        data[at] = c.r;
        data[at + 1] = c.g;
        data[at + 2] = c.b;
    }
    Image::from_raw(100, 100, data).unwrap()
}

/// The eight pixels that the triangle `corner()` covers, row by row.
const COVERED: [(u32, u32); 8] = [(0, 0), (1, 0), (2, 0), (0, 1), (1, 1), (2, 1), (0, 2), (1, 2)];

fn corner() -> Triangle {
    Triangle(px(0, 0), px(3, 0), px(0, 3))
}

fn shape_score(distance: i64, squareness: i64, weight: i64) -> shape::Score {
    shape::Score { is_none: false, average_color_distance: distance, squareness, weight }
}

#[test]
fn a_curve_needs_two_weights_between_nothing_and_one() {
    assert!(ShapeWeights::new(vec![]).is_none());
    assert!(ShapeWeights::new(vec![UNIT]).is_none());
    assert!(ShapeWeights::new(vec![0, UNIT + 1]).is_none());
    assert!(ShapeWeights::new(vec![-1, UNIT]).is_none());
    // A weight of nothing would make every colour distance count alike.
    assert!(ShapeWeights::new(vec![0, UNIT]).is_none());
    assert!(ShapeWeights::new(vec![UNIT, 0, UNIT]).is_none());
    assert!(ShapeWeights::new(vec![1, UNIT]).is_some());
    assert!(ShapeWeights::new(vec![UNIT, 1, UNIT]).is_some());
}

#[test]
fn weights_are_interpolated_between_the_entries() {
    let w = ShapeWeights::new(vec![10, 20, 40]).unwrap();
    assert_eq!(w.weight(0), 10);
    assert_eq!(w.weight(FULL / 4), 15);
    assert_eq!(w.weight(FULL / 2), 20);
    assert_eq!(w.weight(3 * FULL / 4), 30);
    assert_eq!(w.weight(FULL), 40);
    assert_eq!(line().weight(FULL / 2), UNIT / 2);
    assert_eq!(line().weight(FULL), UNIT);
    // Rounded down: just short of 2.
    assert_eq!(ShapeWeights::new(vec![1, 2]).unwrap().weight(FULL - 1), 1);
    let falling = ShapeWeights::new(vec![UNIT, 1]).unwrap();
    assert_eq!(falling.weight(FULL / 4), 3 * UNIT / 4);
}

#[test]
fn a_face_of_one_colour_scores_by_its_shape_alone() {
    let img = Image::from_pixel(100, 100, Rgb { r: 12, g: 200, b: 7 }).unwrap();
    let weights = line();
    let square = shape::Score::score_for(ScoreInfo {
        triangle: corner(),
        image: &img,
        tri_size: 10 * UNIT,
        weights: &weights,
    });
    assert_eq!(square, shape_score(0, FULL, UNIT));
    assert_eq!(square.score_value(), FULL);
    let flat = shape::Score::score_for(ScoreInfo {
        triangle: Triangle(px(0, 0), px(4, 0), px(0, 2)),
        image: &img,
        tri_size: 10 * UNIT,
        weights: &weights,
    });
    assert_eq!(flat, shape_score(0, FULL / 2, UNIT / 2));
    assert_eq!(flat.score_value(), FULL / 2);
}

#[test]
fn the_colour_distance_is_the_mean_distance_by_25_5() {
    // Four pixels at (30, 40, 0) and four black ones: each 25 from the mean (15, 20, 0).
    let bright = Rgb { r: 30, g: 40, b: 0 };
    let lit: Vec<(u32, u32, Rgb)> = COVERED[..4].iter().map(|&(x, y)| (x, y, bright)).collect();
    let img = image_with(&lit);
    let weights = line();
    let s = shape::Score::score_for(ScoreInfo {
        triangle: corner(),
        image: &img,
        tri_size: 10 * UNIT,
        weights: &weights,
    });
    // 25 * 65536 * 10 / 255, rounded down.
    assert_eq!(s, shape_score(64250, FULL, UNIT));
    assert_eq!(s.score_value(), FULL - 64250);
}

#[test]
fn a_face_without_pixels_says_nothing() {
    let img = Image::from_pixel(100, 100, Rgb { r: 1, g: 2, b: 3 }).unwrap();
    let weights = line();
    let outside = Triangle(px(100, 0), px(110, 0), px(100, 10));
    let s = shape::Score::score_for(ScoreInfo {
        triangle: outside,
        image: &img,
        tri_size: 10 * UNIT,
        weights: &weights,
    });
    assert_eq!(s, shape::Score::none());
    assert!(s.is_none);
    assert_eq!(s.score_value(), 0);
}

#[test]
fn a_face_without_extent_counts_as_a_line() {
    let img = Image::from_pixel(100, 100, Rgb { r: 1, g: 2, b: 3 }).unwrap();
    let weights = line();
    // Three equal corners between the pixels: the pixel before them counts as covered.
    let at = I64x2::new(11 * UNIT / 2, 11 * UNIT / 2);
    let point = Triangle(at, at, at);
    let s = shape::Score::score_for(ScoreInfo {
        triangle: point,
        image: &img,
        tri_size: 10 * UNIT,
        weights: &weights,
    });
    assert_eq!(s, shape_score(0, 0, 1));
    assert_eq!(s.score_value(), 100);
}

#[test]
fn a_group_is_averaged_over_all_its_faces() {
    let weights = line();
    assert_eq!(shape::Score::average(&[], &weights), shape::Score::none());
    let scores = [shape_score(100, 2 * UNIT, 7), shape::Score::none(), shape_score(50, UNIT, 9)];
    let avg = shape::Score::average(&scores, &weights);
    // The face of which nothing is known weighs on neither mean.
    assert_eq!(avg, shape_score(75, 3 * UNIT / 2, 984));
    let known = [shape_score(20 * UNIT, 50 * UNIT, 1)];
    let with_unknown = [shape_score(20 * UNIT, 50 * UNIT, 1), shape::Score::none()];
    assert_eq!(
        shape::Score::average(&with_unknown, &weights),
        shape::Score::average(&known, &weights)
    );
    assert_eq!(shape::Score::average(&with_unknown, &weights), shape_score(20 * UNIT, 50 * UNIT, UNIT / 2));
    // Where nothing is known of any face, nothing is known of the group.
    let unknown = [shape::Score::none(), shape::Score::none()];
    assert_eq!(shape::Score::average(&unknown, &weights), shape::Score::none());
    let one = shape::Score::average(&[shape_score(3, FULL, 1)], &weights);
    assert_eq!(one, shape_score(3, FULL, UNIT));
}

#[test]
fn the_value_of_a_score_stays_on_the_scale() {
    assert_eq!(shape_score(0, FULL, UNIT).score_value(), FULL);
    assert_eq!(shape_score(FULL, FULL, UNIT).score_value(), 0);
    assert_eq!(shape_score(FULL / 4, 0, UNIT / 2).score_value(), 3 * FULL / 8);
    assert_eq!(shape_score(2 * FULL, FULL, UNIT).score_value(), 0);
    assert_eq!(shape_score(0, FULL, 2 * UNIT).score_value(), FULL);
    assert_eq!(shape_score(i64::MIN, 0, i64::MAX).score_value(), FULL);
    assert_eq!(shape_score(i64::MAX, 0, i64::MAX).score_value(), 0);
    assert_eq!(shape_score(i64::MIN, 0, i64::MIN).score_value(), 0);
}

#[test]
fn the_greater_value_is_the_better_shape_score() {
    let good = shape_score(0, FULL, UNIT);
    let bad = shape_score(FULL / 2, FULL, UNIT);
    assert_eq!(good.cmp(&bad), Ordering::Greater);
    assert_eq!(bad.cmp(&good), Ordering::Less);
    assert_eq!(good.cmp(&good), Ordering::Equal);
    assert_eq!(shape::Score::none().cmp(&shape_score(FULL, 0, 1)), Ordering::Equal);
    assert_eq!(shape::Score::none().cmp(&shape_score(FULL - 1, 0, 1)), Ordering::Less);
}

#[test]
fn less_colour_distance_wins_however_small_the_difference() {
    // Both are worth 3276799 units on the scale for the eye.
    let a = shape_score(1, FULL / 2, UNIT / 2);
    let b = shape_score(2, FULL / 2, UNIT / 2);
    assert_eq!(a.score_value(), b.score_value());
    assert_eq!(a.cmp(&b), Ordering::Greater);
    assert_eq!(b.cmp(&a), Ordering::Less);
    assert_eq!(a.merit() - b.merit(), (UNIT / 2) as i128);
    let wrapped = ScoreWrapper::AvgWithShapeWeight(a).cmp(&ScoreWrapper::AvgWithShapeWeight(b));
    assert_eq!(wrapped, Ordering::Greater);
    // The least weight still tells two distances apart.
    assert_eq!(shape_score(1, 0, 1).cmp(&shape_score(2, 0, 1)), Ordering::Greater);
    assert_eq!(shape_score(i64::MAX, 0, i64::MAX).cmp(&shape_score(i64::MIN, 0, i64::MAX)), Ordering::Less);
}

/// Grey pixels under the triangle `corner()` whose deviations from their mean, 35, are
/// 35, 25, 15, 5, 5, 15, 25, 35 in the order of the pixels.
fn greys() -> Image {
    let lit: Vec<(u32, u32, Rgb)> = COVERED
        .iter()
        .enumerate()
        .map(|(i, &(x, y))| {
            let g = (i * 10) as u8;
            (x, y, Rgb { r: g, g, b: g })
        })
        .collect();
    image_with(&lit)
}

#[test]
fn the_percentile_is_taken_from_the_greatest_down() {
    let img = greys();
    let weights = line();
    // 100 by 100 pixels are padded to 110 by 110, which hold 121 squares of 10 by 10:
    // a face is expected to cover 82 pixels, and the index is 4.
    let s = percentile::Score::score_for(ScoreInfo {
        triangle: corner(),
        image: &img,
        tri_size: 10 * UNIT,
        weights: &weights,
    });
    assert_eq!(s, percentile::Score(15 * UNIT + 255 * UNIT / 9));
    assert_eq!(s.0, 2839893);
    assert_eq!(s.score_value(), 5417643);
}

#[test]
fn a_large_spacing_takes_the_greatest_deviation() {
    let img = greys();
    let weights = line();
    // A spacing of 50 pixels: 150 by 150 padded pixels hold 9 squares, a face is expected
    // to cover 1111 pixels, and the index 55 is cut to the last, 7.
    let s = percentile::Score::score_for(ScoreInfo {
        triangle: corner(),
        image: &img,
        tri_size: 50 * UNIT,
        weights: &weights,
    });
    assert_eq!(s, percentile::Score(5 * UNIT + 255 * UNIT / 9));
    // A spacing of 2 pixels: a face is expected to cover 3 pixels, and the index is 0.
    let s = percentile::Score::score_for(ScoreInfo {
        triangle: corner(),
        image: &img,
        tri_size: 2 * UNIT,
        weights: &weights,
    });
    assert_eq!(s, percentile::Score(35 * UNIT + 255 * UNIT / 9));
}

#[test]
fn a_spacing_that_is_not_positive_expects_no_area() {
    let img = greys();
    let weights = line();
    let s = percentile::Score::score_for(ScoreInfo {
        triangle: corner(),
        image: &img,
        tri_size: 0,
        weights: &weights,
    });
    assert_eq!(s, percentile::Score(35 * UNIT + 255 * UNIT / 9));
}

#[test]
fn a_face_without_pixels_gets_the_whole_penalty() {
    let img = greys();
    let weights = line();
    let s = percentile::Score::score_for(ScoreInfo {
        triangle: Triangle(px(100, 0), px(110, 0), px(100, 10)),
        image: &img,
        tri_size: 10 * UNIT,
        weights: &weights,
    });
    assert_eq!(s, percentile::Score(255 * UNIT));
    assert_eq!(s.score_value(), 0);
}

#[test]
fn percentile_scores_are_averaged_and_lower_is_better() {
    assert_eq!(percentile::Score::average(&[]), percentile::Score(0));
    assert_eq!(
        percentile::Score::average(&[percentile::Score(10), percentile::Score(21)]),
        percentile::Score(15)
    );
    assert_eq!(percentile::Score(10).cmp(&percentile::Score(21)), Ordering::Greater);
    assert_eq!(percentile::Score(21).cmp(&percentile::Score(10)), Ordering::Less);
    assert_eq!(percentile::Score(21).cmp(&percentile::Score(21)), Ordering::Equal);
    assert_eq!(percentile::Score(0).score_value(), FULL);
    assert_eq!(percentile::Score(-7).score_value(), FULL);
    assert_eq!(percentile::Score(5 * UNIT).score_value(), FULL - 2 * UNIT);
    assert_eq!(percentile::Score(250 * UNIT).score_value(), 0);
    assert_eq!(percentile::Score(i64::MAX).score_value(), 0);
}

#[test]
fn the_wrapper_goes_by_the_scheme() {
    let img = greys();
    let weights = line();
    let a = score(corner(), &img, 10 * UNIT, ScoringScheme::PercentileWithSizeWeight, &weights);
    assert_eq!(a, ScoreWrapper::PercentileWithSizeWeight(percentile::Score(2839893)));
    assert_eq!(a.score_value(), 5417643);
    let b = score(corner(), &img, 10 * UNIT, ScoringScheme::AvgWithShapeWeight, &weights);
    match b {
        ScoreWrapper::AvgWithShapeWeight(s) => {
            assert!(!s.is_none);
            assert_eq!(s.squareness, FULL);
        }
        _ => panic!("the scheme was not kept"),
    }
    assert_eq!(ScoringScheme::default(), ScoringScheme::PercentileWithSizeWeight);
}

#[test]
fn wrapped_scores_compare_as_their_schemes_do() {
    let low = ScoreWrapper::PercentileWithSizeWeight(percentile::Score(1));
    let high = ScoreWrapper::PercentileWithSizeWeight(percentile::Score(2));
    assert_eq!(low.cmp(&high), Ordering::Greater);
    assert_eq!(high.cmp(&low), Ordering::Less);
    let good = ScoreWrapper::AvgWithShapeWeight(shape_score(0, FULL, UNIT));
    let bad = ScoreWrapper::AvgWithShapeWeight(shape_score(1000, FULL, UNIT));
    assert_eq!(good.cmp(&bad), Ordering::Greater);
    assert_eq!(bad.cmp(&bad), Ordering::Equal);
}

#[test]
fn a_group_of_faces_is_scored_by_the_mean_of_their_scores() {
    let img = greys();
    let weights = line();
    let group = vec![corner(), Triangle(px(100, 0), px(110, 0), px(100, 10))];
    let s = score_for_group(
        &img,
        &group,
        10 * UNIT,
        ScoringScheme::PercentileWithSizeWeight,
        &weights,
    );
    assert_eq!(
        s,
        ScoreWrapper::PercentileWithSizeWeight(percentile::Score((2839893 + 255 * UNIT) / 2))
    );
    let s = score_for_group(&img, &group, 10 * UNIT, ScoringScheme::AvgWithShapeWeight, &weights);
    let whole = score(corner(), &img, 10 * UNIT, ScoringScheme::AvgWithShapeWeight, &weights);
    match (s, whole) {
        (ScoreWrapper::AvgWithShapeWeight(s), ScoreWrapper::AvgWithShapeWeight(w)) => {
            // The face that covers no pixel weighs on nothing.
            assert!(w.average_color_distance > 0);
            assert_eq!(s, w);
        }
        _ => panic!("the scheme was not kept"),
    }
}

#[test]
fn an_empty_group_says_nothing() {
    let img = greys();
    let weights = line();
    let none = score_for_group(&img, &vec![], 10 * UNIT, ScoringScheme::AvgWithShapeWeight, &weights);
    assert_eq!(none, ScoreWrapper::AvgWithShapeWeight(shape::Score::none()));
    assert_eq!(none.score_value(), 0);
    let none =
        score_for_group(&img, &vec![], 10 * UNIT, ScoringScheme::PercentileWithSizeWeight, &weights);
    assert_eq!(none, ScoreWrapper::PercentileWithSizeWeight(percentile::Score(0)));
    assert_eq!(
        ScoreWrapper::average(&[], ScoringScheme::AvgWithShapeWeight, &weights),
        ScoreWrapper::AvgWithShapeWeight(shape::Score::none())
    );
}
