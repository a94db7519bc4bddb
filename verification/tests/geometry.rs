use trifit::color::{ColorChannel, ColorIndex};
use trifit::num::isqrt;
use trifit::pixels::{Image, Rgb};
use trifit::scoring::{average, get_color_in_triangle, point_in_triangle, SubImageIterator};
use trifit::triangle::Triangle;
use trifit::vec2::I64x2;
use trifit::UNIT;

fn rgb(r: u8, g: u8, b: u8) -> Rgb {
    Rgb { r, g, b }
}

/// An image in which the pixel at `(x, y)` has the colour `(x, y, 7)`.
fn gradient(width: u32, height: u32) -> Image {
    let mut data = Vec::new();
    for y in 0..height {
        for x in 0..width {
            data.push(x as u8);
            data.push(y as u8);
            data.push(7);
        }
    }
    Image::from_raw(width, height, data).unwrap()
}

fn px(x: i64, y: i64) -> I64x2 {
    I64x2::new(x * UNIT, y * UNIT)
}

#[test]
fn an_image_reads_its_buffer_row_by_row() {
    let img = Image::from_raw(2, 2, vec![1, 2, 3, 4, 5, 6, 7, 8, 9, 10, 11, 12]).unwrap();
    assert_eq!((img.width(), img.height()), (2, 2));
    assert_eq!(img.get_pixel(0, 0), Some(rgb(1, 2, 3)));
    assert_eq!(img.get_pixel(1, 0), Some(rgb(4, 5, 6)));
    assert_eq!(img.get_pixel(0, 1), Some(rgb(7, 8, 9)));
    assert_eq!(img.get_pixel(1, 1), Some(rgb(10, 11, 12)));
    assert_eq!(img.get_pixel(2, 0), None);
    assert_eq!(img.get_pixel(0, 2), None);
}

#[test]
fn an_image_needs_three_values_for_each_pixel() {
    assert!(Image::from_raw(2, 2, vec![0; 11]).is_none());
    assert!(Image::from_raw(2, 2, vec![0; 12]).is_some());
    assert!(Image::from_raw(2, 2, vec![0; 13]).is_some());
    assert!(Image::from_raw(0, 5, vec![]).is_some());
    assert!(Image::from_raw(u32::MAX, u32::MAX, vec![0; 16]).is_none());
}

#[test]
fn a_plain_image_has_one_colour() {
    let img = Image::from_pixel(3, 2, rgb(9, 8, 7)).unwrap();
    assert_eq!((img.width(), img.height()), (3, 2));
    for y in 0..2 {
        for x in 0..3 {
            assert_eq!(img.get_pixel(x, y), Some(rgb(9, 8, 7)));
        }
    }
    assert_eq!(img.get_pixel(3, 0), None);
}

#[test]
fn channels_are_read_by_name() {
    let c = rgb(1, 2, 3);
    assert_eq!(c.channel(ColorChannel::R), 1);
    assert_eq!(c.channel(ColorChannel::G), 2);
    assert_eq!(c.channel(ColorChannel::B), 3);
}

#[test]
fn the_inside_and_the_border_belong_to_a_triangle() {
    let (a, b, c) = (px(0, 0), px(10, 0), px(0, 10));
    assert!(point_in_triangle(px(1, 1), a, b, c));
    assert!(point_in_triangle(px(5, 5), a, b, c));
    assert!(point_in_triangle(px(0, 0), a, b, c));
    assert!(point_in_triangle(px(10, 0), a, b, c));
    assert!(point_in_triangle(px(4, 0), a, b, c));
    assert!(!point_in_triangle(px(6, 5), a, b, c));
    assert!(!point_in_triangle(px(-1, 0), a, b, c));
    assert!(!point_in_triangle(px(10, 10), a, b, c));
    // One unit beyond the longest side.
    assert!(!point_in_triangle(I64x2::new(5 * UNIT, 5 * UNIT + 1), a, b, c));
}

#[test]
fn the_order_of_the_corners_does_not_matter() {
    let (a, b, c) = (px(0, 0), px(10, 0), px(0, 10));
    for p in [px(1, 1), px(6, 5), px(5, 5), px(-3, 2)] {
        let r = point_in_triangle(p, a, b, c);
        assert_eq!(point_in_triangle(p, a, c, b), r);
        assert_eq!(point_in_triangle(p, b, a, c), r);
        assert_eq!(point_in_triangle(p, c, b, a), r);
    }
}

#[test]
fn a_triangle_without_area_holds_its_line() {
    let (a, b, c) = (px(0, 0), px(10, 0), px(20, 0));
    assert!(point_in_triangle(px(5, 0), a, b, c));
    assert!(!point_in_triangle(px(5, 5), a, b, c));
    // Three equal corners span no edge at all: no point is on the wrong side of one.
    assert!(point_in_triangle(px(5, 5), a, a, a));
}

#[test]
fn the_test_is_exact_at_the_ends_of_the_range() {
    let a = I64x2::new(i64::MIN, i64::MIN);
    let b = I64x2::new(i64::MAX, i64::MIN);
    let c = I64x2::new(i64::MIN, i64::MAX);
    // The longest side is the line x + y = -1.
    assert!(point_in_triangle(I64x2::new(-1, 0), a, b, c));
    assert!(point_in_triangle(I64x2::new(0, -1), a, b, c));
    assert!(!point_in_triangle(I64x2::new(0, 0), a, b, c));
    assert!(point_in_triangle(I64x2::new(i64::MIN, i64::MIN), a, b, c));
    assert!(!point_in_triangle(I64x2::new(i64::MAX, i64::MAX), a, b, c));
}

#[test]
fn covered_pixels_come_row_by_row() {
    let img = gradient(4, 4);
    let t = Triangle(px(0, 0), px(3, 0), px(0, 3));
    let colors = get_color_in_triangle(&img, t);
    let expected: Vec<Rgb> = [(0, 0), (1, 0), (2, 0), (0, 1), (1, 1), (2, 1), (0, 2), (1, 2)]
        .iter()
        .map(|&(x, y)| rgb(x, y, 7))
        .collect();
    assert_eq!(colors, expected);
}

#[test]
fn a_triangle_is_cut_to_the_image() {
    let img = gradient(4, 4);
    let t = Triangle(px(-10, -10), px(30, -10), px(-10, 30));
    assert_eq!(get_color_in_triangle(&img, t).len(), 16);
    let beside = Triangle(px(4, 0), px(14, 0), px(4, 10));
    assert!(get_color_in_triangle(&img, beside).is_empty());
    let above = Triangle(px(0, -5), px(3, -5), px(0, -1));
    assert!(get_color_in_triangle(&img, above).is_empty());
}

#[test]
fn a_triangle_between_pixels_covers_none() {
    let img = gradient(4, 4);
    let t = Triangle(
        I64x2::new(UNIT + 1, UNIT + 1),
        I64x2::new(2 * UNIT - 1, UNIT + 1),
        I64x2::new(UNIT + 1, 2 * UNIT - 1),
    );
    assert!(get_color_in_triangle(&img, t).is_empty());
}

#[test]
fn a_walk_goes_over_a_rectangle_row_by_row() {
    let img = gradient(4, 4);
    let mut it = SubImageIterator::new(&img, 1, 2, 2, 2);
    assert_eq!(it.size_hint(), (4, Some(4)));
    assert_eq!(it.next(), Some((0, 0, rgb(1, 2, 7))));
    assert_eq!(it.next(), Some((1, 0, rgb(2, 2, 7))));
    assert_eq!(it.next(), Some((0, 1, rgb(1, 3, 7))));
    assert_eq!(it.next(), Some((1, 1, rgb(2, 3, 7))));
    assert_eq!(it.next(), None);
    assert_eq!(it.next(), None);
}

#[test]
fn a_walk_over_nothing_ends_at_once() {
    let img = gradient(4, 4);
    let mut flat = SubImageIterator::new(&img, 1, 1, 3, 0);
    assert_eq!(flat.size_hint(), (0, Some(0)));
    assert_eq!(flat.next(), None);
    let mut thin = SubImageIterator::new(&img, 4, 0, 0, 4);
    assert_eq!(thin.next(), None);
}

#[test]
fn the_mean_colour_is_rounded_down() {
    assert_eq!(average(&vec![]), rgb(0, 0, 0));
    assert_eq!(average(&vec![rgb(1, 2, 3)]), rgb(1, 2, 3));
    assert_eq!(average(&vec![rgb(1, 2, 3), rgb(2, 4, 6)]), rgb(1, 3, 4));
    assert_eq!(average(&vec![rgb(255, 0, 255); 1000]), rgb(255, 0, 255));
    assert_eq!(average(&vec![rgb(0, 0, 0), rgb(0, 0, 0), rgb(255, 2, 1)]), rgb(85, 0, 0));
}

#[test]
fn square_roots_are_rounded_down() {
    assert_eq!(isqrt(0), 0);
    assert_eq!(isqrt(1), 1);
    assert_eq!(isqrt(3), 1);
    assert_eq!(isqrt(4), 2);
    assert_eq!(isqrt(17), 4);
    assert_eq!(isqrt(99), 9);
    assert_eq!(isqrt(100), 10);
    assert_eq!(isqrt(u64::MAX), 0xffff_ffff);
    assert_eq!(isqrt(0xffff_ffff * 0xffff_ffff), 0xffff_ffff);
    assert_eq!(isqrt(0xffff_ffff * 0xffff_ffff - 1), 0xffff_fffe);
}
