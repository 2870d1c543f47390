//! The image: pixels on a grid.

use vstd::prelude::*;

verus! {

/// One pixel: four 8-bit channels.
#[derive(Clone, Copy, Debug, PartialEq, Eq, Structural)]
pub struct Pixel {
    pub red: u8,
    pub green: u8,
    pub blue: u8,
    pub alpha: u8,
}

/// What an image is: a width, a height, and a pixel for every position
/// `(x, y)` inside, with `x` counted from the left and `y` from the top.
pub struct Grid {
    pub width: nat,
    pub height: nat,
    pub pixels: Map<(int, int), Pixel>,
}

impl Grid {
    /// Whether the position `(x, y)` lies inside the image.
    pub open spec fn contains(self, x: int, y: int) -> bool {
        0 <= x < self.width && 0 <= y < self.height
    }
}

/// The image whose pixels are listed row by row from the top, each row from
/// the left: the pixel at `(x, y)` is number `y * width + x` of the list.
pub open spec fn grid_of_rows(width: nat, height: nat, cells: Seq<Pixel>) -> Grid {
    Grid {
        width,
        height,
        pixels: Map::new(
            |at: (int, int)| 0 <= at.0 < width && 0 <= at.1 < height,
            |at: (int, int)| cells[at.1 * width + at.0],
        ),
    }
}

/// Every position inside a `width` by `height` image has its own place in
/// the list of rows.
pub proof fn lemma_cell_index(width: int, height: int, x: int, y: int)
    requires
        0 <= x < width,
        0 <= y < height,
    ensures
        0 <= y * width <= y * width + x < (y + 1) * width <= height * width,
        height * width == width * height,
{
    assert(0 <= y * width) by (nonlinear_arith)
        requires
            0 <= y,
            0 <= width,
    ;
    assert((y + 1) * width == y * width + width) by (nonlinear_arith);
    assert((y + 1) * width <= height * width) by (nonlinear_arith)
        requires
            y + 1 <= height,
            0 <= width,
    ;
    assert(height * width == width * height) by (nonlinear_arith);
}

/// A decoded image held in memory. It never changes once made.
pub struct Image {
    width: u32,
    height: u32,
    cells: Vec<Pixel>,
}

impl View for Image {
    type V = Grid;

    closed spec fn view(&self) -> Grid {
        grid_of_rows(self.width as nat, self.height as nat, self.cells@)
    }
}

impl Image {
    #[verifier::type_invariant]
    spec fn well_formed(&self) -> bool {
        self.cells@.len() == self.width * self.height
    }

    /// Makes an image from its pixels listed row by row. There must be
    /// exactly `width * height` of them.
    pub fn new(width: u32, height: u32, cells: Vec<Pixel>) -> (image: Option<Image>)
        ensures
            image is Some <==> cells@.len() == width * height,
            image matches Some(made) ==> made@ == grid_of_rows(
                width as nat,
                height as nat,
                cells@,
            ),
    {
        assert(width * height <= 0xffff_ffff * 0xffff_ffff) by (nonlinear_arith)
            requires
                width <= 0xffff_ffff,
                height <= 0xffff_ffff,
        ;
        if cells.len() as u64 == width as u64 * height as u64 {
            Some(Image { width, height, cells })
        } else {
            None
        }
    }

    /// The number of columns.
    pub fn width(&self) -> (width: u32)
        ensures
            width == self@.width,
    {
        self.width
    }

    /// The number of rows.
    pub fn height(&self) -> (height: u32)
        ensures
            height == self@.height,
    {
        self.height
    }

    /// The number of pixels.
    pub fn pixel_count(&self) -> (count: u64)
        ensures
            count == self@.width * self@.height,
    {
        let width = self.width;
        let height = self.height;
        assert(width * height <= 0xffff_ffff * 0xffff_ffff) by (nonlinear_arith)
            requires
                width <= 0xffff_ffff,
                height <= 0xffff_ffff,
        ;
        width as u64 * height as u64
    }

    /// The pixel at `(x, y)`, or nothing where the position lies outside the
    /// image.
    pub fn pixel(&self, x: u32, y: u32) -> (pixel: Option<Pixel>)
        ensures
            pixel == if self@.contains(x as int, y as int) {
                Some(self@.pixels[(x as int, y as int)])
            } else {
                None
            },
    {
        if x < self.width && y < self.height {
            proof {
                use_type_invariant(self);
                lemma_cell_index(self.width as int, self.height as int, x as int, y as int);
            }
            // The list holds `width * height` pixels, so the place of an
            // inside position is below its length.
            let count: usize = self.cells.len();
            let index: usize = y as usize * self.width as usize + x as usize;
            assert(index < count);
            Some(self.cells[index])
        } else {
            None
        }
    }
}

} // verus!
