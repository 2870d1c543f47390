//! Images as the `image` crate decodes them.
//!
//! A decoded image is a value of `image::DynamicImage`. Nothing here looks
//! inside one: its size and its pixels are known only through the two
//! methods of `image::GenericImageView` below, whose contracts are taken on
//! trust from the `image` crate. [`rasterize`] reads every pixel through
//! them, once, into an [`Image`].

use vstd::prelude::*;
use image::DynamicImage;
use image::GenericImageView;
use crate::raster::{grid_of_rows, lemma_cell_index, Grid, Image, Pixel};

verus! {

// `image::DynamicImage`, taken as it is: nothing of its inside is visible
// here.
#[verifier::external_type_specification]
#[verifier::external_body]
pub struct ExDynamicImage(image::DynamicImage);

/// The size of a decoded image as `(width, height)`: what
/// `GenericImageView::dimensions` reports for it.
pub uninterp spec fn image_extent(image: DynamicImage) -> (u32, u32);

/// The pixels of a decoded image by position `(x, y)`, counted from the top
/// left: what `GenericImageView::get_pixel` reports for each position inside
/// the image, as 8-bit RGBA.
pub uninterp spec fn image_pixels(image: DynamicImage) -> Map<(int, int), Pixel>;

/// What a decoded image holds: its size, and its pixels at the positions
/// inside.
pub open spec fn decoded_grid(image: DynamicImage) -> Grid {
    Grid {
        width: image_extent(image).0 as nat,
        height: image_extent(image).1 as nat,
        pixels: Map::new(
            |at: (int, int)|
                0 <= at.0 < image_extent(image).0 && 0 <= at.1 < image_extent(image).1,
            |at: (int, int)| image_pixels(image)[at],
        ),
    }
}

/// Calls `GenericImageView::dimensions` on a `DynamicImage`.
///
/// Trusted: the call returns the image's width and height, which is what
/// `image_extent` names.
#[verifier::external_body]
fn dimensions(image: &DynamicImage) -> (size: (u32, u32))
    ensures
        size == image_extent(*image),
{
    image.dimensions()
}

/// Calls `GenericImageView::get_pixel` on a `DynamicImage`.
///
/// Trusted: for a position inside the image the call returns that pixel
/// converted to 8-bit RGBA, which is what `image_pixels` names. The call
/// panics outside the image, so the position must lie inside.
#[verifier::external_body]
fn pixel_at(image: &DynamicImage, x: u32, y: u32) -> (pixel: Pixel)
    requires
        x < image_extent(*image).0,
        y < image_extent(*image).1,
    ensures
        pixel == image_pixels(*image)[(x as int, y as int)],
{
    let channels = image.get_pixel(x, y).0;
    Pixel { red: channels[0], green: channels[1], blue: channels[2], alpha: channels[3] }
}

/// Whether the first `rows` rows of `cells`, each `width` long, hold the
/// pixels that `pixels` has at their positions.
spec fn rows_match(cells: Seq<Pixel>, pixels: Map<(int, int), Pixel>, width: int, rows: int) -> bool {
    forall|x: int, y: int|
        0 <= x < width && 0 <= y < rows ==> cells[y * width + x] == #[trigger] pixels[(x, y)]
}

/// Reads a decoded image into memory: the result has the size of `decoded`
/// and, at every position, the pixel that `decoded` reports there.
pub fn rasterize(decoded: &DynamicImage) -> (image: Image)
    ensures
        image@ == decoded_grid(*decoded),
{
    let (width, height) = dimensions(decoded);
    let ghost pixels = image_pixels(*decoded);
    let mut cells: Vec<Pixel> = Vec::new();
    let mut y: u32 = 0;
    while y < height
        invariant
            y <= height,
            (width, height) == image_extent(*decoded),
            pixels == image_pixels(*decoded),
            cells@.len() == y * width,
            rows_match(cells@, pixels, width as int, y as int),
        decreases height - y,
    {
        let mut x: u32 = 0;
        while x < width
            invariant
                x <= width,
                y < height,
                (width, height) == image_extent(*decoded),
                pixels == image_pixels(*decoded),
                cells@.len() == y * width + x,
                rows_match(cells@, pixels, width as int, y as int),
                forall|a: int|
                    0 <= a < x ==> cells@[y * width + a] == #[trigger] pixels[(a, y as int)],
            decreases width - x,
        {
            let ghost before = cells@;
            let pixel = pixel_at(decoded, x, y);
            cells.push(pixel);
            proof {
                assert forall|a: int, b: int| 0 <= a < width && 0 <= b < y implies cells@[b
                    * width + a] == #[trigger] pixels[(a, b)] by {
                    lemma_cell_index(width as int, y as int, a, b);
                    assert(before[b * width + a] == pixels[(a, b)]);
                }
            }
            x = x + 1;
        }
        proof {
            assert((y + 1) * width == y * width + width) by (nonlinear_arith);
        }
        y = y + 1;
    }
    proof {
        let made = grid_of_rows(width as nat, height as nat, cells@);
        assert(height * width == width * height) by (nonlinear_arith);
        assert forall|at: (int, int)|
            0 <= at.0 < width && 0 <= at.1 < height implies made.pixels[at] == pixels[at] by {
            assert(cells@[at.1 * width + at.0] == pixels[(at.0, at.1)]);
        }
        assert(made.pixels =~= decoded_grid(*decoded).pixels);
    }
    Image::new(width, height, cells).unwrap()
}

} // verus!
