//! Raster output through the `image` crate: the pixels, already quantised
//! to eight bits per channel, are laid into an `RgbImage`.
use vstd::prelude::*;

use crate::ppm::ImageUtil;
use crate::raster::MathUtil;

verus! {

/// An RGB raster with eight bits per channel, held in an `image` buffer.
/// The buffer type's pixel parameter is bound by a trait of the `image`
/// crate, which Verus cannot take, so the buffer is kept behind this struct
/// and known to proofs through `rgb_dims` and `rgb_pixels`.
#[verifier::external_body]
pub struct RgbCanvas {
    pub image: image::RgbImage,
}

/// Width and height of an image buffer.
pub uninterp spec fn rgb_dims(img: RgbCanvas) -> (u32, u32);

/// The pixels of an image buffer in row-major order.
pub uninterp spec fn rgb_pixels(img: RgbCanvas) -> Seq<(u8, u8, u8)>;

/// Relies on `ImageBuffer::new`: a `width` x `height` buffer whose samples
/// are all zero; it panics when `3 * width * height` overflows `usize`.
#[verifier::external_body]
fn new_rgb_image(width: u32, height: u32) -> (img: RgbCanvas)
    requires
        3 * width * height <= usize::MAX,
    ensures
        rgb_dims(img) == (width, height),
        rgb_pixels(img) == Seq::new((width * height) as nat, |k: int| (0u8, 0u8, 0u8)),
{
    RgbCanvas { image: image::RgbImage::new(width, height) }
}

/// Relies on `ImageBuffer::put_pixel`: overwrites the pixel at column `x`
/// of row `y`, stored at `y * width + x`; it panics outside the image.
#[verifier::external_body]
fn put_rgb(img: &mut RgbCanvas, x: u32, y: u32, p: (u8, u8, u8))
    requires
        x < rgb_dims(*old(img)).0,
        y < rgb_dims(*old(img)).1,
    ensures
        rgb_dims(*final(img)) == rgb_dims(*old(img)),
        rgb_pixels(*final(img)) == rgb_pixels(*old(img)).update(
            y * rgb_dims(*old(img)).0 + x,
            p,
        ),
{
    img.image.put_pixel(x, y, image::Rgb([p.0, p.1, p.2]));
}

impl ImageUtil {
    /// The raster image of a `width` x `height` image given as its pixels
    /// in row-major order.
    pub fn get_rgb_image(pixels: &Vec<(u8, u8, u8)>, width: u32, height: u32) -> (img: RgbCanvas)
        requires
            pixels@.len() == width * height,
            3 * width * height <= usize::MAX,
        ensures
            rgb_dims(img) == (width, height),
            rgb_pixels(img) == pixels@,
    {
        let n = pixels.len();
        let mut img = new_rgb_image(width, height);
        let mut j: u32 = 0;
        while j < height
            invariant
                j <= height,
                pixels@.len() == width * height,
                n == pixels@.len(),
                rgb_dims(img) == (width, height),
                rgb_pixels(img).len() == width * height,
                forall|k: int|
                    0 <= k < j * width ==> #[trigger] rgb_pixels(img)[k] == pixels@[k],
            decreases height - j,
        {
            let mut i: u32 = 0;
            while i < width
                invariant
                    i <= width,
                    j < height,
                    pixels@.len() == width * height,
                    n == pixels@.len(),
                    rgb_dims(img) == (width, height),
                    rgb_pixels(img).len() == width * height,
                    forall|k: int|
                        0 <= k < j * width + i ==> #[trigger] rgb_pixels(img)[k] == pixels@[k],
                decreases width - i,
            {
                proof {
                    assert(j * width + i < width * height && (j + 1) * width <= width * height)
                        by (nonlinear_arith)
                        requires
                            i < width,
                            j < height,
                    ;
                }
                let k = MathUtil::pixel_index(i, j, width);
                put_rgb(&mut img, i, j, pixels[k]);
                i = i + 1;
            }
            proof {
                assert((j + 1) * width == j * width + width) by (nonlinear_arith);
            }
            j = j + 1;
        }
        proof {
            assert(j * width == width * height) by (nonlinear_arith)
                requires
                    j == height,
            ;
            assert(rgb_pixels(img) =~= pixels@);
        }
        img
    }
}

} // verus!
