//! An image in blocks: square groups of pixels, each with the mean colour of its pixels.

use vstd::prelude::*;
use crate::pixels::Rgb;
use crate::scoring::{average, mean_color};

verus! {

/// The pixels of the block in column `bx` and row `by` of blocks, row by row, in an
/// image of `width` pixels across whose pixels are `pixels`, row by row.
pub open spec fn block_pixels(pixels: Seq<Rgb>, width: int, ppb: int, bx: int, by: int) -> Seq<Rgb> {
    Seq::new(
        (ppb * ppb) as nat,
        |k: int| pixels[(by * ppb + k / ppb) * width + bx * ppb + k % ppb],
    )
}

/// The mean colour of each block of `ppb` by `ppb` pixels, row of blocks by row of
/// blocks, each row from the left.
pub open spec fn block_means(pixels: Seq<Rgb>, width: int, height: int, ppb: int) -> Seq<Rgb> {
    Seq::new(
        ((width / ppb) * (height / ppb)) as nat,
        |i: int| mean_color(block_pixels(pixels, width, ppb, i % (width / ppb), i / (width / ppb))),
    )
}

proof fn lemma_whole_blocks(length: u32, ppb: u32)
    requires
        ppb > 0,
        length % ppb == 0,
    ensures
        (length / ppb) * ppb == length,
{
    vstd::arithmetic::div_mod::lemma_fundamental_div_mod(length as int, ppb as int);
    assert(ppb * (length / ppb) == (length / ppb) * ppb) by (nonlinear_arith);
}

fn block_at(pixels: &Vec<Rgb>, width: u32, height: u32, ppb: u32, bx: u32, by: u32) -> (r: Vec<Rgb>)
    requires
        ppb > 0,
        width % ppb == 0,
        height % ppb == 0,
        pixels@.len() == width * height,
        bx < width / ppb,
        by < height / ppb,
    ensures
        r@ == block_pixels(pixels@, width as int, ppb as int, bx as int, by as int),
{
    proof {
        lemma_whole_blocks(width, ppb);
        lemma_whole_blocks(height, ppb);
    }
    assert(ppb * ppb <= 0xffff_ffff * 0xffff_ffff) by (nonlinear_arith)
        requires
            0 < ppb <= 0xffff_ffff,
    ;
    assert(bx * ppb + ppb <= width && by * ppb + ppb <= height) by (nonlinear_arith)
        requires
            0 <= bx < width / ppb,
            0 <= by < height / ppb,
            (width / ppb) * ppb == width,
            (height / ppb) * ppb == height,
            ppb > 0,
    ;
    let total: usize = pixels.len();
    let count: u64 = ppb as u64 * ppb as u64;
    let left: u64 = bx as u64 * ppb as u64;
    let top: u64 = by as u64 * ppb as u64;
    let ghost whole = block_pixels(pixels@, width as int, ppb as int, bx as int, by as int);
    let mut out: Vec<Rgb> = Vec::new();
    let mut k: u64 = 0;
    while k < count
        invariant
            k <= count,
            count == ppb * ppb,
            left == bx * ppb,
            top == by * ppb,
            ppb > 0,
            left + ppb <= width,
            top + ppb <= height,
            pixels@.len() == width * height,
            total == pixels@.len(),
            whole == block_pixels(pixels@, width as int, ppb as int, bx as int, by as int),
            out@ == whole.take(k as int),
        decreases count - k,
    {
        let dy: u64 = k / ppb as u64;
        let dx: u64 = k % ppb as u64;
        assert(dy < ppb) by (nonlinear_arith)
            requires
                dy == k / (ppb as u64),
                k < ppb * ppb,
                ppb > 0,
        ;
        let row: u64 = top + dy;
        let column: u64 = left + dx;
        assert(row * width + column < width * height && row * width <= 0xffff_ffff * 0xffff_ffff)
            by (nonlinear_arith)
            requires
                0 <= row < height,
                0 <= column < width,
                width <= 0xffff_ffff,
                height <= 0xffff_ffff,
        ;
        let at: u64 = row * width as u64 + column;
        assert(dy == (k as int) / (ppb as int) && dx == (k as int) % (ppb as int));
        assert(at == (by * ppb + (k as int) / (ppb as int)) * width + bx * ppb + (k as int) % (
        ppb as int));
        assert(at < total);
        assert(whole[k as int] == pixels@[at as int]);
        let pixel = pixels[at as usize];
        out.push(pixel);
        assert(out@ =~= whole.take(k + 1));
        k += 1;
    }
    assert(whole.take(k as int) =~= whole);
    out
}

/// The mean colour of each block of `pixels_per_block` by `pixels_per_block` pixels of
/// an image of `width` by `height` pixels, whose pixels are `pixels`, row by row: one
/// colour for each block, row of blocks by row of blocks, each row from the left.
pub fn blocks_of(pixels: &Vec<Rgb>, width: u32, height: u32, pixels_per_block: u32) -> (r: Vec<Rgb>)
    requires
        pixels_per_block > 0,
        width % pixels_per_block == 0,
        height % pixels_per_block == 0,
        pixels@.len() == width * height,
    ensures
        r@ == block_means(pixels@, width as int, height as int, pixels_per_block as int),
{
    let across: u32 = width / pixels_per_block;
    let down: u32 = height / pixels_per_block;
    let ghost whole = block_means(pixels@, width as int, height as int, pixels_per_block as int);
    let mut out: Vec<Rgb> = Vec::new();
    if across == 0 {
        assert(whole =~= Seq::<Rgb>::empty()) by {
            assert(across * down == 0) by (nonlinear_arith)
                requires
                    across == 0,
            ;
        }
        return out;
    }
    assert(across * down <= 0xffff_ffff * 0xffff_ffff) by (nonlinear_arith)
        requires
            0 <= across <= 0xffff_ffff,
            0 <= down <= 0xffff_ffff,
    ;
    let count: u64 = across as u64 * down as u64;
    let mut i: u64 = 0;
    while i < count
        invariant
            i <= count,
            count == across * down,
            across == width / pixels_per_block,
            down == height / pixels_per_block,
            across > 0,
            pixels_per_block > 0,
            width % pixels_per_block == 0,
            height % pixels_per_block == 0,
            pixels@.len() == width * height,
            whole == block_means(
                pixels@,
                width as int,
                height as int,
                pixels_per_block as int,
            ),
            out@ == whole.take(i as int),
        decreases count - i,
    {
        let bx: u64 = i % across as u64;
        let by: u64 = i / across as u64;
        assert(by < down) by (nonlinear_arith)
            requires
                by == i / (across as u64),
                i < across * down,
                across > 0,
        ;
        let block = block_at(pixels, width, height, pixels_per_block, bx as u32, by as u32);
        out.push(average(&block));
        assert(out@ =~= whole.take(i + 1));
        i += 1;
    }
    assert(whole.take(i as int) =~= whole);
    out
}

/// The pixels of an image of `across` by `down` blocks of `ppb` by `ppb` pixels in which
/// every pixel has the colour of its block, row by row.
pub open spec fn spread_blocks(blocks: Seq<Rgb>, across: int, down: int, ppb: int) -> Seq<Rgb> {
    Seq::new(
        ((across * ppb) * (down * ppb)) as nat,
        |i: int| blocks[((i / (across * ppb)) / ppb) * across + (i % (across * ppb)) / ppb],
    )
}

/// The pixels of the image that shows each of `across` by `down` blocks as a square of
/// `pixels_per_block` by `pixels_per_block` pixels of its colour, row by row.
pub fn pixels_of_blocks(blocks: &Vec<Rgb>, across: u32, down: u32, pixels_per_block: u32) -> (r:
    Vec<Rgb>)
    requires
        pixels_per_block > 0,
        blocks@.len() == across * down,
        across * pixels_per_block <= u32::MAX,
        down * pixels_per_block <= u32::MAX,
    ensures
        r@ == spread_blocks(blocks@, across as int, down as int, pixels_per_block as int),
{
    let total: usize = blocks.len();
    let width: u64 = across as u64 * pixels_per_block as u64;
    let height: u64 = down as u64 * pixels_per_block as u64;
    let ghost whole = spread_blocks(
        blocks@,
        across as int,
        down as int,
        pixels_per_block as int,
    );
    let mut out: Vec<Rgb> = Vec::new();
    if width == 0 {
        assert(whole =~= Seq::<Rgb>::empty()) by {
            assert(width * height == 0) by (nonlinear_arith)
                requires
                    width == 0,
            ;
        }
        return out;
    }
    assert(width * height <= 0xffff_ffff * 0xffff_ffff) by (nonlinear_arith)
        requires
            0 <= width <= 0xffff_ffff,
            0 <= height <= 0xffff_ffff,
    ;
    let count: u64 = width * height;
    let mut i: u64 = 0;
    while i < count
        invariant
            i <= count,
            count == width * height,
            width == across * pixels_per_block,
            height == down * pixels_per_block,
            width > 0,
            pixels_per_block > 0,
            total == blocks@.len(),
            blocks@.len() == across * down,
            whole == spread_blocks(
                blocks@,
                across as int,
                down as int,
                pixels_per_block as int,
            ),
            out@ == whole.take(i as int),
        decreases count - i,
    {
        let y: u64 = i / width;
        let x: u64 = i % width;
        assert(y < height) by (nonlinear_arith)
            requires
                y == i / width,
                i < width * height,
                width > 0,
        ;
        let by: u64 = y / pixels_per_block as u64;
        let bx: u64 = x / pixels_per_block as u64;
        assert(by < down && bx < across) by (nonlinear_arith)
            requires
                by == y / (pixels_per_block as u64),
                bx == x / (pixels_per_block as u64),
                0 <= y < down * pixels_per_block,
                0 <= x < across * pixels_per_block,
                pixels_per_block > 0,
        ;
        assert(by * across + bx < across * down && by * across <= 0xffff_ffff * 0xffff_ffff)
            by (nonlinear_arith)
            requires
                0 <= by < down,
                0 <= bx < across,
                across <= 0xffff_ffff,
                down <= 0xffff_ffff,
        ;
        let at: u64 = by * across as u64 + bx;
        assert(at < total);
        assert(whole[i as int] == blocks@[at as int]);
        let color = blocks[at as usize];
        out.push(color);
        assert(out@ =~= whole.take(i + 1));
        i += 1;
    }
    assert(whole.take(i as int) =~= whole);
    out
}

} // verus!
