//! The array declaration: its text, and the writer that produces it.
//!
//! The output is a version line, the declaration of a two-dimensional array
//! `vec4 image[W][H]`, and one brace group (a row of the array) per image
//! column `x`, holding the `H` pixels of that column from top to bottom:
//!
//! ```text
//! #version 420
//! vec4 image[2][1] = {
//!     {vec4(1.0000000, 0.0000000, 0.0000000, 1.0000000)},
//!     {vec4(0.0000000, 0.0000000, 1.0000000, 1.0000000)}
//! };
//! ```
//!
//! so that `image[x][y]` in the shader is the pixel at `(x, y)`. Each group
//! is indented by one tab character, and nothing follows the final
//! semicolon.

use vstd::prelude::*;
use vstd::string::*;
use crate::channel::{append_channel, channel_text};
use crate::digits::{append_decimal, decimal_text};
use crate::raster::{Grid, Image, Pixel};

verus! {

/// The element for one pixel: a `vec4` of its four channel literals in the
/// order red, green, blue, alpha.
pub open spec fn pixel_text(pixel: Pixel) -> Seq<char> {
    "vec4("@ + channel_text(pixel.red) + ", "@ + channel_text(pixel.green) + ", "@ + channel_text(
        pixel.blue,
    ) + ", "@ + channel_text(pixel.alpha) + ")"@
}

/// The line that declares the array with its two dimensions, width first.
pub open spec fn declaration_text(width: nat, height: nat) -> Seq<char> {
    "vec4 image["@ + decimal_text(width) + "]["@ + decimal_text(height) + "] = {\n"@
}

/// Everything before the first group: the version line and the declaration.
pub open spec fn preamble_text(width: nat, height: nat) -> Seq<char> {
    "#version 420\n"@ + declaration_text(width, height)
}

/// What follows the element at height `y` in its group: a comma and a space,
/// or the closing brace after the last element.
pub open spec fn element_separator(grid: Grid, y: nat) -> Seq<char> {
    if y + 1 == grid.height {
        "}"@
    } else {
        ", "@
    }
}

/// What follows the group of column `x`: a comma and a line break, or, after
/// the last group, a line break and the end of the array.
pub open spec fn group_terminator(grid: Grid, x: nat) -> Seq<char> {
    if x + 1 == grid.width {
        "\n};"@
    } else {
        ",\n"@
    }
}

/// The first `count` elements of the group of column `x`, each with its
/// separator.
pub open spec fn elements_text(grid: Grid, x: nat, count: nat) -> Seq<char>
    decreases count,
{
    if count == 0 {
        Seq::empty()
    } else {
        let y = (count - 1) as nat;
        elements_text(grid, x, y) + pixel_text(grid.pixels[(x as int, y as int)])
            + element_separator(grid, y)
    }
}

/// The group of column `x`: a tab, an opening brace, the column's pixels
/// from top to bottom, and the group's terminator.
pub open spec fn group_text(grid: Grid, x: nat) -> Seq<char> {
    "\t{"@ + elements_text(grid, x, grid.height) + group_terminator(grid, x)
}

/// The groups of the first `count` columns, left to right.
pub open spec fn groups_text(grid: Grid, count: nat) -> Seq<char>
    decreases count,
{
    if count == 0 {
        Seq::empty()
    } else {
        let x = (count - 1) as nat;
        groups_text(grid, x) + group_text(grid, x)
    }
}

/// The output after the groups of the first `columns` columns are written.
pub open spec fn written_text(grid: Grid, columns: nat) -> Seq<char> {
    preamble_text(grid.width, grid.height) + groups_text(grid, columns)
}

/// The complete output for an image.
///
/// An image without columns has no last group, so its text ends after the
/// declaration line; an image without rows has groups that are opened and
/// never closed.
pub open spec fn array_text(grid: Grid) -> Seq<char> {
    written_text(grid, grid.width)
}

/// Appends the element for one pixel to `out`.
pub fn append_pixel(out: &mut String, pixel: Pixel)
    ensures
        final(out)@ == old(out)@ + pixel_text(pixel),
{
    out.append("vec4(");
    append_channel(out, pixel.red);
    out.append(", ");
    append_channel(out, pixel.green);
    out.append(", ");
    append_channel(out, pixel.blue);
    out.append(", ");
    append_channel(out, pixel.alpha);
    out.append(")");
    assert(out@ =~= old(out)@ + pixel_text(pixel));
}

/// The element for one pixel.
pub fn pixel_literal(pixel: Pixel) -> (text: String)
    ensures
        text@ == pixel_text(pixel),
{
    let mut text = String::new();
    append_pixel(&mut text, pixel);
    text
}

/// The version line and the declaration of an array of the given size.
pub fn preamble(width: u32, height: u32) -> (text: String)
    ensures
        text@ == preamble_text(width as nat, height as nat),
{
    let mut text = String::new();
    text.append("#version 420\n");
    text.append("vec4 image[");
    append_decimal(&mut text, width);
    text.append("][");
    append_decimal(&mut text, height);
    text.append("] = {\n");
    assert(text@ =~= preamble_text(width as nat, height as nat));
    text
}

/// Appends the group of column `x` of `image` to `out`.
fn append_group(out: &mut String, image: &Image, x: u32)
    requires
        x < image@.width,
    ensures
        final(out)@ == old(out)@ + group_text(image@, x as nat),
{
    let ghost before = out@;
    let width = image.width();
    let height = image.height();
    out.append("\t{");
    let mut y: u32 = 0;
    while y < height
        invariant
            y <= height,
            x < width,
            width == image@.width,
            height == image@.height,
            out@ == before + "\t{"@ + elements_text(image@, x as nat, y as nat),
        decreases height - y,
    {
        let ghost so_far = out@;
        let pixel = image.pixel(x, y).unwrap();
        append_pixel(out, pixel);
        if y + 1 == height {
            out.append("}");
        } else {
            out.append(", ");
        }
        assert(out@ == so_far + pixel_text(pixel) + element_separator(image@, y as nat));
        y = y + 1;
        assert(out@ =~= before + "\t{"@ + elements_text(image@, x as nat, y as nat));
    }
    if x + 1 == width {
        out.append("\n};");
    } else {
        out.append(",\n");
    }
    assert(out@ =~= before + group_text(image@, x as nat));
}

/// Writes the array for one image, one group at a time.
///
/// A caller that wants to report progress writes the groups itself and asks
/// for [`ArrayWriter::pixels_written`] in between; [`serialize`] does the
/// same without stopping. At every moment the text written so far is the
/// preamble followed by the groups of the first columns.
pub struct ArrayWriter<'a> {
    image: &'a Image,
    columns: u32,
    text: String,
}

impl<'a> ArrayWriter<'a> {
    #[verifier::type_invariant]
    spec fn well_formed(&self) -> bool {
        &&& self.columns <= self.image@.width
        &&& self.text@ == written_text(self.image@, self.columns as nat)
    }

    /// The image that is being written.
    pub closed spec fn source(&self) -> Grid {
        self.image@
    }

    /// How many columns have their group in the text.
    pub closed spec fn columns_written(&self) -> nat {
        self.columns as nat
    }

    /// The text written so far.
    pub closed spec fn written(&self) -> Seq<char> {
        self.text@
    }

    /// Starts the array for `image`: the text holds the preamble and no
    /// group yet.
    pub fn new(image: &'a Image) -> (writer: Self)
        ensures
            writer.source() == image@,
            writer.columns_written() == 0,
            writer.written() == preamble_text(image@.width, image@.height),
            writer.written() == written_text(image@, 0),
    {
        let text = preamble(image.width(), image.height());
        assert(text@ =~= written_text(image@, 0));
        ArrayWriter { image, columns: 0, text }
    }

    /// Whether every column has its group in the text.
    pub fn is_complete(&self) -> (complete: bool)
        ensures
            complete == (self.columns_written() == self.source().width),
            self.columns_written() <= self.source().width,
    {
        proof {
            use_type_invariant(self);
        }
        self.columns == self.image.width()
    }

    /// The number of pixels whose element is in the text.
    pub fn pixels_written(&self) -> (count: u64)
        ensures
            count == self.columns_written() * self.source().height,
    {
        let columns = self.columns;
        let height = self.image.height();
        assert(columns * height <= 0xffff_ffff * 0xffff_ffff) by (nonlinear_arith)
            requires
                columns <= 0xffff_ffff,
                height <= 0xffff_ffff,
        ;
        columns as u64 * height as u64
    }

    /// Writes the group of the next column and hands the writer back. Once
    /// the array is complete this changes nothing.
    pub fn write_group(self) -> (next: Self)
        ensures
            next.source() == self.source(),
            self.columns_written() < self.source().width ==> {
                &&& next.columns_written() == self.columns_written() + 1
                &&& next.written() == self.written() + group_text(
                    self.source(),
                    self.columns_written(),
                )
            },
            self.columns_written() >= self.source().width ==> {
                &&& next.columns_written() == self.columns_written()
                &&& next.written() == self.written()
            },
            next.written() == written_text(next.source(), next.columns_written()),
    {
        proof {
            use_type_invariant(&self);
        }
        if self.columns < self.image.width() {
            let ArrayWriter { image, columns, text } = self;
            let mut text = text;
            append_group(&mut text, image, columns);
            assert(text@ =~= written_text(image@, (columns + 1) as nat));
            ArrayWriter { image, columns: columns + 1, text }
        } else {
            self
        }
    }

    /// Hands out the text written so far.
    pub fn into_text(self) -> (text: String)
        ensures
            text@ == self.written(),
            text@ == written_text(self.source(), self.columns_written()),
    {
        proof {
            use_type_invariant(&self);
        }
        self.text
    }
}

/// Writes the complete array for `image`.
pub fn serialize(image: &Image) -> (text: String)
    ensures
        text@ == array_text(image@),
{
    let mut writer = ArrayWriter::new(image);
    while !writer.is_complete()
        invariant
            writer.source() == image@,
        decreases image@.width - writer.columns_written(),
    {
        writer = writer.write_group();
    }
    writer.into_text()
}

} // verus!
