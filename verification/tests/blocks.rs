use trifit::blocks::{blocks_of, pixels_of_blocks};
use trifit::pixels::Rgb;

fn grey(v: u8) -> Rgb {
    Rgb { r: v, g: v, b: v }
}

#[test]
fn each_block_gets_the_mean_colour_of_its_pixels() {
    // Four pixels across and two down, in blocks of two by two.
    let pixels: Vec<Rgb> = [0, 10, 100, 101, 20, 30, 102, 104].iter().map(|&v| grey(v)).collect();
    assert_eq!(blocks_of(&pixels, 4, 2, 2), vec![grey(15), grey(101)]);
}

#[test]
fn blocks_come_row_by_row() {
    // Two pixels across and four down, in blocks of one by two would not be square:
    // blocks of one pixel keep the image, blocks of two halve it both ways.
    let pixels: Vec<Rgb> = (0..8).map(|v| grey(v * 10)).collect();
    assert_eq!(blocks_of(&pixels, 2, 4, 1), pixels);
    assert_eq!(blocks_of(&pixels, 2, 4, 2), vec![grey(15), grey(55)]);
    assert_eq!(blocks_of(&pixels, 4, 2, 2), vec![grey(25), grey(45)]);
}

#[test]
fn channels_are_averaged_apart() {
    let pixels = vec![
        Rgb { r: 255, g: 0, b: 1 },
        Rgb { r: 0, g: 0, b: 2 },
        Rgb { r: 0, g: 9, b: 3 },
        Rgb { r: 0, g: 0, b: 5 },
    ];
    assert_eq!(blocks_of(&pixels, 2, 2, 2), vec![Rgb { r: 63, g: 2, b: 2 }]);
}

#[test]
fn an_image_without_pixels_has_no_blocks() {
    assert!(blocks_of(&vec![], 0, 0, 3).is_empty());
    assert!(blocks_of(&vec![], 0, 6, 3).is_empty());
    assert!(blocks_of(&vec![], 6, 0, 3).is_empty());
}

#[test]
fn every_pixel_gets_the_colour_of_its_block() {
    let blocks = vec![grey(1), grey(2), grey(3), grey(4), grey(5), grey(6)];
    // Three blocks across and two down, of two by two pixels each.
    let pixels = pixels_of_blocks(&blocks, 3, 2, 2);
    let expected: Vec<Rgb> = [
        [1, 1, 2, 2, 3, 3],
        [1, 1, 2, 2, 3, 3],
        [4, 4, 5, 5, 6, 6],
        [4, 4, 5, 5, 6, 6],
    ]
    .concat()
    .into_iter()
    .map(grey)
    .collect();
    assert_eq!(pixels, expected);
    assert_eq!(pixels_of_blocks(&blocks, 3, 2, 1), blocks);
    assert!(pixels_of_blocks(&vec![], 0, 4, 2).is_empty());
    // The blocks of the spread image are the blocks.
    assert_eq!(blocks_of(&pixels, 6, 4, 2), blocks);
}
