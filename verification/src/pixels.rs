//! Colours, and read access to the pixels of an image.

use vstd::prelude::*;

verus! {

/// An RGB colour with eight bits per channel.
#[derive(Debug, Clone, Copy, PartialEq, Eq, Hash, Structural)]
pub struct Rgb {
    pub r: u8,
    pub g: u8,
    pub b: u8,
}

/// An RGB image with eight bits per channel, held as an `image::RgbImage`.
#[verifier::external_body]
#[derive(Debug)]
pub struct Image {
    inner: image::RgbImage,
}

/// The width of an image in pixels.
pub uninterp spec fn image_width(img: Image) -> u32;

/// The height of an image in pixels.
pub uninterp spec fn image_height(img: Image) -> u32;

/// The pixels of an image, row by row from the top, each row from the left.
pub uninterp spec fn image_pixels(img: Image) -> Seq<Rgb>;

/// The first `n` pixels that a buffer of interleaved channel values holds.
pub open spec fn pixels_of(data: Seq<u8>, n: int) -> Seq<Rgb> {
    Seq::new(
        n as nat,
        |i: int| Rgb { r: data[3 * i], g: data[3 * i + 1], b: data[3 * i + 2] },
    )
}

/// The pixel of `img` at column `x` of row `y`.
pub open spec fn pixel(img: Image, x: int, y: int) -> Rgb {
    image_pixels(img)[y * image_width(img) + x]
}

/// `image::ImageBuffer::from_raw`: the image of the given dimensions over a buffer of
/// interleaved channel values, row by row. There is one exactly when the buffer holds
/// at least three values for each pixel; values beyond those are not part of the image.
#[verifier::external_body]
fn image_from_raw(width: u32, height: u32, data: Vec<u8>) -> (r: Option<Image>)
    ensures
        r.is_some() <==> 3 * width * height <= data@.len(),
        r matches Some(img) ==> image_width(img) == width && image_height(img) == height
            && image_pixels(img) == pixels_of(data@, width * height),
{
    match image::RgbImage::from_raw(width, height, data) {
        Some(inner) => Some(Image { inner }),
        None => None,
    }
}

/// `image::ImageBuffer::width`.
#[verifier::external_body]
fn image_get_width(img: &Image) -> (w: u32)
    ensures
        w == image_width(*img),
{
    img.inner.width()
}

/// `image::ImageBuffer::height`.
#[verifier::external_body]
fn image_get_height(img: &Image) -> (h: u32)
    ensures
        h == image_height(*img),
{
    img.inner.height()
}

/// `image::ImageBuffer::get_pixel`, which panics outside the image: the three channel
/// values of the pixel at column `x` of row `y`.
#[verifier::external_body]
pub(crate) fn image_get_pixel(img: &Image, x: u32, y: u32) -> (c: Rgb)
    requires
        x < image_width(*img),
        y < image_height(*img),
    ensures
        c == pixel(*img, x as int, y as int),
{
    let p = img.inner.get_pixel(x, y);
    Rgb { r: p.0[0], g: p.0[1], b: p.0[2] }
}

impl Image {
    /// The image of the given dimensions over a buffer of interleaved channel values,
    /// or `None` if the buffer holds fewer than three values for each pixel.
    pub fn from_raw(width: u32, height: u32, data: Vec<u8>) -> (r: Option<Image>)
        ensures
            r.is_some() <==> 3 * width * height <= data@.len(),
            r matches Some(img) ==> image_width(img) == width && image_height(img) == height
                && image_pixels(img) == pixels_of(data@, width * height),
    {
        image_from_raw(width, height, data)
    }

    /// An image of the given dimensions in which every pixel has the colour `c`.
    pub fn from_pixel(width: u32, height: u32, c: Rgb) -> (r: Option<Image>)
        ensures
            r.is_some() <==> 3 * width * height <= usize::MAX,
            r matches Some(img) ==> image_width(img) == width && image_height(img) == height
                && forall|x: int, y: int|
                0 <= x < width && 0 <= y < height ==> #[trigger] pixel(img, x, y) == c,
    {
        assert(width * height <= 0xffff_ffff * 0xffff_ffff) by (nonlinear_arith)
            requires
                0 <= width <= 0xffff_ffff,
                0 <= height <= 0xffff_ffff,
        ;
        let area: u128 = (width as u128) * (height as u128);
        let total: u128 = 3 * area;
        assert(3 * width * height == 3 * (width * height)) by (nonlinear_arith);
        if total > usize::MAX as u128 {
            return None;
        }
        let n: usize = total as usize;
        let mut data: Vec<u8> = Vec::new();
        let mut i: usize = 0;
        while i < n
            invariant
                i <= n,
                n % 3 == 0,
                i % 3 == 0,
                data@.len() == i,
                forall|k: int|
                    0 <= k < i ==> #[trigger] data@[k] == (if k % 3 == 0 {
                        c.r
                    } else if k % 3 == 1 {
                        c.g
                    } else {
                        c.b
                    }),
            decreases n - i,
        {
            data.push(c.r);
            data.push(c.g);
            data.push(c.b);
            i += 3;
        }
        let r = image_from_raw(width, height, data);
        proof {
            let img = r.unwrap();
            assert forall|x: int, y: int| 0 <= x < width && 0 <= y < height implies #[trigger] pixel(
                img,
                x,
                y,
            ) == c by {
                let k = y * width + x;
                assert(0 <= k < width * height) by (nonlinear_arith)
                    requires
                        0 <= x < width,
                        0 <= y < height,
                        k == y * width + x,
                ;
                assert(3 * k + 2 < data@.len());
                assert(data@[3 * k] == c.r);
                assert(data@[3 * k + 1] == c.g);
                assert(data@[3 * k + 2] == c.b);
            }
        }
        r
    }

    pub fn width(&self) -> (w: u32)
        ensures
            w == image_width(*self),
    {
        image_get_width(self)
    }

    pub fn height(&self) -> (h: u32)
        ensures
            h == image_height(*self),
    {
        image_get_height(self)
    }

    /// The pixel at column `x` of row `y`, or `None` outside the image.
    pub fn get_pixel(&self, x: u32, y: u32) -> (c: Option<Rgb>)
        ensures
            c == (if x < image_width(*self) && y < image_height(*self) {
                Some(pixel(*self, x as int, y as int))
            } else {
                None
            }),
    {
        if x < image_get_width(self) && y < image_get_height(self) {
            Some(image_get_pixel(self, x, y))
        } else {
            None
        }
    }
}

} // verus!
