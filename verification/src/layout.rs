//! Where things stand in the array text.
//!
//! Every element has the same length, so the place of each pixel in the
//! output can be computed from its coordinates. The laws here state that
//! place, the total length of the text, and that the declared dimensions can
//! be read back from the declaration.

use vstd::prelude::*;
use vstd::string::*;
use crate::array::{
    array_text, element_separator, elements_text, group_terminator, group_text, groups_text,
    pixel_text, preamble_text, written_text,
};
use crate::channel::{
    channel_text, is_channel_literal, lemma_channel_round_trip, lemma_channel_text_shape,
    literal_units, nearest_byte, UNITS_PER_WHOLE,
};
use crate::digits::{decimal_text, lemma_decimal_text_reads_back, numeral_value};
use crate::raster::{Grid, Pixel};

verus! {

/// The length of the text before the first group: 32 fixed characters and
/// the two numerals.
pub open spec fn preamble_length(grid: Grid) -> int {
    32 + decimal_text(grid.width).len() as int + decimal_text(grid.height).len() as int
}

/// The distance from the start of one group to the start of the next, in an
/// image with at least one row: a tab and a brace, then 50 characters for
/// each element with what follows it, and a line break.
pub open spec fn group_stride(grid: Grid) -> int {
    50 * (grid.height as int) + 3
}

/// Where the element of the pixel at `(x, y)` starts in the array text.
pub open spec fn element_offset(grid: Grid, x: nat, y: nat) -> int {
    preamble_length(grid) + x * group_stride(grid) + 2 + 50 * (y as int)
}

proof fn lemma_subrange_in_front<A>(front: Seq<A>, back: Seq<A>, from: int, to: int)
    requires
        0 <= from <= to <= front.len(),
    ensures
        (front + back).subrange(from, to) == front.subrange(from, to),
{
    assert((front + back).subrange(from, to) =~= front.subrange(from, to));
}

proof fn lemma_subrange_in_back<A>(front: Seq<A>, back: Seq<A>, from: int, to: int)
    requires
        0 <= from <= to <= back.len(),
    ensures
        (front + back).subrange(front.len() + from, front.len() + to) == back.subrange(from, to),
{
    assert((front + back).subrange(front.len() + from, front.len() + to) =~= back.subrange(
        from,
        to,
    ));
}

proof fn lemma_subrange_of_subrange<A>(text: Seq<A>, start: int, length: int, from: int, to: int)
    requires
        0 <= start,
        start + length <= text.len(),
        0 <= from <= to <= length,
    ensures
        text.subrange(start, start + length).subrange(from, to) == text.subrange(
            start + from,
            start + to,
        ),
{
    assert(text.subrange(start, start + length).subrange(from, to) =~= text.subrange(
        start + from,
        start + to,
    ));
}

/// An element is 48 characters long: `vec4(`, the four channel literals of
/// nine characters each in the order red, green, blue, alpha, separated by a
/// comma and a space, and a closing parenthesis.
pub proof fn lemma_pixel_text_layout(pixel: Pixel)
    ensures
        pixel_text(pixel).len() == 48,
        pixel_text(pixel).subrange(0, 5) == "vec4("@,
        pixel_text(pixel).subrange(5, 14) == channel_text(pixel.red),
        pixel_text(pixel).subrange(14, 16) == ", "@,
        pixel_text(pixel).subrange(16, 25) == channel_text(pixel.green),
        pixel_text(pixel).subrange(25, 27) == ", "@,
        pixel_text(pixel).subrange(27, 36) == channel_text(pixel.blue),
        pixel_text(pixel).subrange(36, 38) == ", "@,
        pixel_text(pixel).subrange(38, 47) == channel_text(pixel.alpha),
        pixel_text(pixel).subrange(47, 48) == ")"@,
{
    reveal_strlit("vec4(");
    reveal_strlit(", ");
    reveal_strlit(")");
    lemma_channel_text_shape(pixel.red);
    lemma_channel_text_shape(pixel.green);
    lemma_channel_text_shape(pixel.blue);
    lemma_channel_text_shape(pixel.alpha);
    let text = pixel_text(pixel);
    assert(text.subrange(0, 5) =~= "vec4("@);
    assert(text.subrange(5, 14) =~= channel_text(pixel.red));
    assert(text.subrange(14, 16) =~= ", "@);
    assert(text.subrange(16, 25) =~= channel_text(pixel.green));
    assert(text.subrange(25, 27) =~= ", "@);
    assert(text.subrange(27, 36) =~= channel_text(pixel.blue));
    assert(text.subrange(36, 38) =~= ", "@);
    assert(text.subrange(38, 47) =~= channel_text(pixel.alpha));
    assert(text.subrange(47, 48) =~= ")"@);
}

/// The first `count` elements of a group take 50 characters each, one less
/// once the last element of the group is among them.
pub proof fn lemma_elements_length(grid: Grid, x: nat, count: nat)
    requires
        count <= grid.height,
    ensures
        elements_text(grid, x, count).len() == if count == grid.height && count > 0 {
            50 * count - 1
        } else {
            50 * count as int
        },
    decreases count,
{
    if count > 0 {
        let y = (count - 1) as nat;
        lemma_elements_length(grid, x, y);
        lemma_pixel_text_layout(grid.pixels[(x as int, y as int)]);
        reveal_strlit("}");
        reveal_strlit(", ");
    }
}

/// Within the first `count` elements of the group of column `x`, the element
/// of height `y` starts after `50 * y` characters.
pub proof fn lemma_element_in_elements(grid: Grid, x: nat, y: nat, count: nat)
    requires
        y < count <= grid.height,
    ensures
        elements_text(grid, x, count).subrange(50 * (y as int), 50 * (y as int) + 48)
            == pixel_text(grid.pixels[(x as int, y as int)]),
    decreases count,
{
    let last = (count - 1) as nat;
    let front = elements_text(grid, x, last);
    let element = pixel_text(grid.pixels[(x as int, last as int)]);
    let separator = element_separator(grid, last);
    lemma_elements_length(grid, x, last);
    lemma_pixel_text_layout(grid.pixels[(x as int, last as int)]);
    assert(elements_text(grid, x, count) == (front + element) + separator);
    let from: int = 50 * (y as int);
    if y == last {
        lemma_subrange_in_back(front, element, 0, 48);
        assert(element.subrange(0, 48) =~= element);
        lemma_subrange_in_front(front + element, separator, from, from + 48);
    } else {
        lemma_element_in_elements(grid, x, y, last);
        lemma_subrange_in_front(front, element, from, from + 48);
        lemma_subrange_in_front(front + element, separator, from, from + 48);
    }
}

/// In an image with at least one row, every group but the last is one stride
/// long, and the last is one character longer.
pub proof fn lemma_group_length(grid: Grid, x: nat)
    requires
        grid.height >= 1,
    ensures
        group_text(grid, x).len() == if x + 1 == grid.width {
            group_stride(grid) + 1
        } else {
            group_stride(grid)
        },
{
    lemma_elements_length(grid, x, grid.height);
    reveal_strlit("\t{");
    reveal_strlit("\n};");
    reveal_strlit(",\n");
}

/// In an image with at least one row, the groups of the first `count`
/// columns take one stride each, and one character more once the last group
/// is among them.
pub proof fn lemma_groups_length(grid: Grid, count: nat)
    requires
        grid.height >= 1,
        count <= grid.width,
    ensures
        groups_text(grid, count).len() == if count == grid.width && count > 0 {
            count * group_stride(grid) + 1
        } else {
            count * group_stride(grid)
        },
    decreases count,
{
    let stride = group_stride(grid);
    if count > 0 {
        let x = (count - 1) as nat;
        lemma_groups_length(grid, x);
        lemma_group_length(grid, x);
        assert(count * stride == x * stride + stride) by (nonlinear_arith)
            requires
                count == x + 1,
        ;
    } else {
        assert(count * stride == 0) by (nonlinear_arith)
            requires
                count == 0,
        ;
    }
}

/// Within the groups of the first `count` columns, the element of the pixel
/// at `(x, y)` starts `x` strides, a tab, a brace and `y` elements in.
pub proof fn lemma_element_in_groups(grid: Grid, x: nat, y: nat, count: nat)
    requires
        x < count <= grid.width,
        y < grid.height,
    ensures
        groups_text(grid, count).subrange(
            x * group_stride(grid) + 2 + 50 * y,
            x * group_stride(grid) + 2 + 50 * y + 48,
        ) == pixel_text(grid.pixels[(x as int, y as int)]),
    decreases count,
{
    let last = (count - 1) as nat;
    let front = groups_text(grid, last);
    let group = group_text(grid, last);
    let stride = group_stride(grid);
    let from: int = x * stride + 2 + 50 * y;
    let within: int = 2 + 50 * (y as int);
    lemma_groups_length(grid, last);
    lemma_group_length(grid, last);
    if x == last {
        let opening = "\t{"@;
        let elements = elements_text(grid, x, grid.height);
        let terminator = group_terminator(grid, x);
        reveal_strlit("\t{");
        lemma_elements_length(grid, x, grid.height);
        lemma_element_in_elements(grid, x, y, grid.height);
        lemma_subrange_in_back(opening, elements, within - 2, within + 46);
        lemma_subrange_in_front(opening + elements, terminator, within, within + 48);
        assert(group == (opening + elements) + terminator);
        lemma_subrange_in_back(front, group, within, within + 48);
    } else {
        lemma_element_in_groups(grid, x, y, last);
        assert(from + 48 <= last * stride) by (nonlinear_arith)
            requires
                x + 1 <= last,
                from == x * stride + 2 + 50 * y,
                stride == 50 * grid.height + 3,
                y < grid.height,
        ;
        lemma_subrange_in_front(front, group, from, from + 48);
    }
}

/// The preamble has the length that `preamble_length` gives.
pub proof fn lemma_preamble_length(grid: Grid)
    ensures
        preamble_text(grid.width, grid.height).len() == preamble_length(grid),
{
    reveal_strlit("#version 420\n");
    reveal_strlit("vec4 image[");
    reveal_strlit("][");
    reveal_strlit("] = {\n");
}

/// Every pixel has its element at the place that its coordinates give: the
/// 48 characters of the array text from `element_offset` on are the element
/// of the pixel at `(x, y)`.
pub proof fn lemma_element_position(grid: Grid, x: nat, y: nat)
    requires
        x < grid.width,
        y < grid.height,
    ensures
        element_offset(grid, x, y) + 48 <= array_text(grid).len(),
        array_text(grid).subrange(element_offset(grid, x, y), element_offset(grid, x, y) + 48)
            == pixel_text(grid.pixels[(x as int, y as int)]),
{
    let preamble = preamble_text(grid.width, grid.height);
    let groups = groups_text(grid, grid.width);
    let stride = group_stride(grid);
    let inner: int = x * stride + 2 + 50 * y;
    lemma_preamble_length(grid);
    lemma_groups_length(grid, grid.width);
    lemma_element_in_groups(grid, x, y, grid.width);
    assert(inner + 48 <= grid.width * stride) by (nonlinear_arith)
        requires
            x + 1 <= grid.width,
            inner == x * stride + 2 + 50 * y,
            stride == 50 * grid.height + 3,
            y < grid.height,
    ;
    lemma_subrange_in_back(preamble, groups, inner, inner + 48);
}

/// The channel of a pixel by its place in the element: red, green, blue,
/// alpha.
pub open spec fn channel_of(pixel: Pixel, index: nat) -> u8
    recommends
        index < 4,
{
    if index == 0 {
        pixel.red
    } else if index == 1 {
        pixel.green
    } else if index == 2 {
        pixel.blue
    } else {
        pixel.alpha
    }
}

/// Where the literal of channel `index` of the pixel at `(x, y)` starts in
/// the array text: after `vec4(` and the earlier channels of its element.
pub open spec fn literal_offset(grid: Grid, x: nat, y: nat, index: nat) -> int {
    element_offset(grid, x, y) + 5 + 11 * (index as int)
}

/// Every number in the array text is the literal of the channel it stands
/// for: at the place that the pixel's coordinates and the channel's index
/// give, the text holds nine characters that are a digit, a point and seven
/// digits, that denote a value from 0.0 to 1.0, and that read back, times 255
/// and rounded, as the channel byte of the image.
pub proof fn lemma_literal_position(grid: Grid, x: nat, y: nat, index: nat)
    requires
        x < grid.width,
        y < grid.height,
        index < 4,
    ensures
        ({
            let from = literal_offset(grid, x, y, index);
            let literal = array_text(grid).subrange(from, from + 9);
            let channel = channel_of(grid.pixels[(x as int, y as int)], index);
            &&& from + 9 <= array_text(grid).len()
            &&& literal == channel_text(channel)
            &&& is_channel_literal(literal)
            &&& literal_units(literal) <= UNITS_PER_WHOLE
            &&& nearest_byte(literal_units(literal)) == channel
        }),
{
    let pixel = grid.pixels[(x as int, y as int)];
    let text = array_text(grid);
    let start = element_offset(grid, x, y);
    let within: int = 5 + 11 * (index as int);
    lemma_element_position(grid, x, y);
    lemma_pixel_text_layout(pixel);
    lemma_preamble_length(grid);
    assert(0 <= x * group_stride(grid)) by (nonlinear_arith)
        requires
            0 <= group_stride(grid),
    ;
    lemma_subrange_of_subrange(text, start, 48, within, within + 9);
    lemma_channel_text_shape(channel_of(pixel, index));
    lemma_channel_round_trip(channel_of(pixel, index));
}

/// The length of the array text of an image with at least one pixel: the
/// preamble, one stride for each column, and the final semicolon.
pub proof fn lemma_array_length(grid: Grid)
    requires
        grid.width >= 1,
        grid.height >= 1,
    ensures
        array_text(grid).len() == preamble_length(grid) + grid.width * group_stride(grid) + 1,
{
    lemma_preamble_length(grid);
    lemma_groups_length(grid, grid.width);
}

/// The groups of the first columns are the beginning of the groups of more
/// columns.
pub proof fn lemma_groups_begin_groups(grid: Grid, count: nat, total: nat)
    requires
        count <= total,
    ensures
        groups_text(grid, count).len() <= groups_text(grid, total).len(),
        groups_text(grid, total).subrange(0, groups_text(grid, count).len() as int) == groups_text(
            grid,
            count,
        ),
    decreases total,
{
    let shorter = groups_text(grid, count);
    if count == total {
        assert(shorter.subrange(0, shorter.len() as int) =~= shorter);
    } else {
        let last = (total - 1) as nat;
        lemma_groups_begin_groups(grid, count, last);
        lemma_subrange_in_front(
            groups_text(grid, last),
            group_text(grid, last),
            0,
            shorter.len() as int,
        );
    }
}

/// Whatever the writer holds between two groups is the beginning of the
/// complete text: writing on never changes what is written.
pub proof fn lemma_written_begins_array(grid: Grid, columns: nat)
    requires
        columns <= grid.width,
    ensures
        written_text(grid, columns).len() <= array_text(grid).len(),
        array_text(grid).subrange(0, written_text(grid, columns).len() as int) == written_text(
            grid,
            columns,
        ),
{
    let preamble = preamble_text(grid.width, grid.height);
    let shorter = groups_text(grid, columns);
    let longer = groups_text(grid, grid.width);
    lemma_groups_begin_groups(grid, columns, grid.width);
    assert((preamble + longer).subrange(0, (preamble + shorter).len() as int) =~= preamble
        + longer.subrange(0, shorter.len() as int));
}

/// The array text declares the image's dimensions: it opens with the version
/// line and `vec4 image[`, then come the numeral of the width, `][`, the
/// numeral of the height and `] = {` with a line break, and each numeral
/// reads back as the dimension it stands for.
pub proof fn lemma_declared_dimensions(grid: Grid)
    ensures
        ({
            let text = array_text(grid);
            let width = decimal_text(grid.width);
            let height = decimal_text(grid.height);
            let width_at: int = 24;
            let height_at: int = width_at + width.len() + 2;
            &&& text.len() >= height_at + height.len() + 6
            &&& text.subrange(0, 13) == "#version 420\n"@
            &&& text.subrange(13, width_at) == "vec4 image["@
            &&& text.subrange(width_at, width_at + width.len()) == width
            &&& text.subrange(width_at + width.len(), height_at) == "]["@
            &&& text.subrange(height_at, height_at + height.len()) == height
            &&& text.subrange(height_at + height.len(), height_at + height.len() + 6)
                == "] = {\n"@
            &&& numeral_value(width) == grid.width
            &&& numeral_value(height) == grid.height
        }),
{
    let text = array_text(grid);
    let width = decimal_text(grid.width);
    let height = decimal_text(grid.height);
    let width_at: int = 24;
    let height_at: int = width_at + width.len() + 2;
    reveal_strlit("#version 420\n");
    reveal_strlit("vec4 image[");
    reveal_strlit("][");
    reveal_strlit("] = {\n");
    lemma_decimal_text_reads_back(grid.width);
    lemma_decimal_text_reads_back(grid.height);
    assert(text.subrange(0, 13) =~= "#version 420\n"@);
    assert(text.subrange(13, width_at) =~= "vec4 image["@);
    assert(text.subrange(width_at, width_at + width.len()) =~= width);
    assert(text.subrange(width_at + width.len(), height_at) =~= "]["@);
    assert(text.subrange(height_at, height_at + height.len()) =~= height);
    assert(text.subrange(height_at + height.len(), height_at + height.len() + 6) =~= "] = {\n"@);
}

} // verus!
