use glsl_array::array::{append_pixel, pixel_literal, preamble, serialize, ArrayWriter};
use glsl_array::raster::{Image, Pixel};

const RED: Pixel = Pixel { red: 255, green: 0, blue: 0, alpha: 255 };
const BLUE: Pixel = Pixel { red: 0, green: 0, blue: 255, alpha: 255 };

/// An image whose pixels all differ, so that a swapped coordinate shows.
fn gradient_pixel(x: u32, y: u32) -> Pixel {
    Pixel {
        red: (x * 37 + y * 11) as u8,
        green: (x * 5 + y * 101 + 3) as u8,
        blue: (255 - (x + y) % 256) as u8,
        alpha: (x * y + 128) as u8,
    }
}

fn gradient(width: u32, height: u32) -> Image {
    let mut cells = Vec::new();
    for y in 0..height {
        for x in 0..width {
            cells.push(gradient_pixel(x, y));
        }
    }
    Image::new(width, height, cells).unwrap()
}

/// The text that plain float formatting gives for an image.
fn float_formatted(image: &Image) -> String {
    let mut text = String::from("#version 420\n");
    text += &format!("vec4 image[{}][{}] = {{\n", image.width(), image.height());
    for x in 0..image.width() {
        text += "\t{";
        for y in 0..image.height() {
            let pixel = image.pixel(x, y).unwrap();
            text += &format!(
                "vec4({:.7}, {:.7}, {:.7}, {:.7})",
                (1 as f64) / (255 as f64) * (pixel.red as f64),
                (1 as f64) / (255 as f64) * (pixel.green as f64),
                (1 as f64) / (255 as f64) * (pixel.blue as f64),
                (1 as f64) / (255 as f64) * (pixel.alpha as f64)
            );
            text += if y + 1 == image.height() { "}" } else { ", " };
        }
        text += if x + 1 == image.width() { "\n};" } else { ",\n" };
    }
    text
}

#[test]
fn white_opaque_pixel() {
    let white = Pixel { red: 255, green: 255, blue: 255, alpha: 255 };
    let image = Image::new(1, 1, vec![white]).unwrap();
    assert_eq!(
        serialize(&image),
        "#version 420\nvec4 image[1][1] = {\n\t{vec4(1.0000000, 1.0000000, 1.0000000, 1.0000000)}\n};"
    );
    assert_eq!(serialize(&image).matches("vec4(").count(), 1);
}

#[test]
fn transparent_black_pixel() {
    let clear = Pixel { red: 0, green: 0, blue: 0, alpha: 0 };
    let image = Image::new(1, 1, vec![clear]).unwrap();
    assert_eq!(
        serialize(&image),
        "#version 420\nvec4 image[1][1] = {\n\t{vec4(0.0000000, 0.0000000, 0.0000000, 0.0000000)}\n};"
    );
}

#[test]
fn two_columns_make_two_groups_in_column_order() {
    let image = Image::new(2, 1, vec![RED, BLUE]).unwrap();
    let text = serialize(&image);
    assert_eq!(
        text,
        "#version 420\n\
         vec4 image[2][1] = {\n\
         \t{vec4(1.0000000, 0.0000000, 0.0000000, 1.0000000)},\n\
         \t{vec4(0.0000000, 0.0000000, 1.0000000, 1.0000000)}\n\
         };"
    );
    assert_eq!(text.matches("\t{").count(), 2);
}

#[test]
fn two_rows_make_one_group_from_top_to_bottom() {
    let image = Image::new(1, 2, vec![RED, BLUE]).unwrap();
    assert_eq!(
        serialize(&image),
        "#version 420\n\
         vec4 image[1][2] = {\n\
         \t{vec4(1.0000000, 0.0000000, 0.0000000, 1.0000000), \
         vec4(0.0000000, 0.0000000, 1.0000000, 1.0000000)}\n\
         };"
    );
}

#[test]
fn array_is_indexed_by_column_then_row() {
    let at = |red: u8, green: u8| Pixel { red, green, blue: 0, alpha: 255 };
    // Rows from the top: (0,0) (1,0) / (0,1) (1,1).
    let image = Image::new(2, 2, vec![at(0, 0), at(51, 0), at(0, 51), at(51, 51)]).unwrap();
    assert_eq!(
        serialize(&image),
        "#version 420\n\
         vec4 image[2][2] = {\n\
         \t{vec4(0.0000000, 0.0000000, 0.0000000, 1.0000000), \
         vec4(0.0000000, 0.2000000, 0.0000000, 1.0000000)},\n\
         \t{vec4(0.2000000, 0.0000000, 0.0000000, 1.0000000), \
         vec4(0.2000000, 0.2000000, 0.0000000, 1.0000000)}\n\
         };"
    );
}

#[test]
fn serialize_agrees_with_float_formatting() {
    for (width, height) in [(1, 1), (1, 7), (7, 1), (3, 5), (16, 16), (33, 9)] {
        let image = gradient(width, height);
        assert_eq!(serialize(&image), float_formatted(&image));
    }
}

#[test]
fn declared_dimensions_are_those_of_the_image() {
    for (width, height) in [(1u32, 1u32), (9, 10), (10, 9), (100, 3), (3, 100), (1, 1000)] {
        let text = serialize(&gradient(width, height));
        assert_eq!(text.lines().next().unwrap(), "#version 420");
        let declaration = text.lines().nth(1).unwrap();
        let inside = declaration.strip_prefix("vec4 image[").unwrap();
        let inside = inside.strip_suffix("] = {").unwrap();
        let (first, second) = inside.split_once("][").unwrap();
        assert_eq!(first.parse::<u32>().unwrap(), width);
        assert_eq!(second.parse::<u32>().unwrap(), height);
    }
}

#[test]
fn every_pixel_stands_at_the_place_of_its_coordinates() {
    let (width, height) = (12u32, 7u32);
    let image = gradient(width, height);
    let text = serialize(&image);
    let preamble_length = preamble(width, height).len();
    assert_eq!(preamble_length, 32 + 2 + 1);
    let stride = 50 * height as usize + 3;
    assert_eq!(text.len(), preamble_length + width as usize * stride + 1);
    for x in 0..width {
        for y in 0..height {
            let offset = preamble_length + x as usize * stride + 2 + 50 * y as usize;
            assert_eq!(&text[offset..offset + 48], pixel_literal(gradient_pixel(x, y)));
        }
    }
    assert_eq!(text.matches("vec4(").count(), (width * height) as usize);
}

#[test]
fn emitted_literals_read_back_as_the_pixels() {
    let image = gradient(5, 4);
    let text = serialize(&image);
    let body = text.split_once("= {\n").unwrap().1;
    let mut values = Vec::new();
    for element in body.split("vec4(").skip(1) {
        let inside = element.split_once(')').unwrap().0;
        for literal in inside.split(", ") {
            assert_eq!(literal.len(), 9);
            assert_eq!(literal.split_once('.').unwrap().1.len(), 7);
            let value: f64 = literal.parse().unwrap();
            assert!(0.0 <= value && value <= 1.0);
            values.push((value * 255.0).round() as u8);
        }
    }
    let mut expected = Vec::new();
    for x in 0..5 {
        for y in 0..4 {
            let pixel = gradient_pixel(x, y);
            expected.extend_from_slice(&[pixel.red, pixel.green, pixel.blue, pixel.alpha]);
        }
    }
    assert_eq!(values, expected);
}

#[test]
fn image_without_columns_ends_after_the_declaration() {
    let image = Image::new(0, 3, Vec::new()).unwrap();
    assert_eq!(serialize(&image), "#version 420\nvec4 image[0][3] = {\n");
    let image = Image::new(0, 0, Vec::new()).unwrap();
    assert_eq!(serialize(&image), "#version 420\nvec4 image[0][0] = {\n");
}

#[test]
fn image_without_rows_has_groups_that_are_never_closed() {
    let image = Image::new(2, 0, Vec::new()).unwrap();
    assert_eq!(serialize(&image), "#version 420\nvec4 image[2][0] = {\n\t{,\n\t{\n};");
    assert_eq!(serialize(&image), float_formatted(&image));
}

#[test]
fn preamble_holds_the_version_and_the_declaration() {
    assert_eq!(preamble(640, 480), "#version 420\nvec4 image[640][480] = {\n");
    assert_eq!(preamble(1, 1), "#version 420\nvec4 image[1][1] = {\n");
    assert_eq!(preamble(u32::MAX, 0), "#version 420\nvec4 image[4294967295][0] = {\n");
}

#[test]
fn pixel_literal_lists_red_green_blue_alpha() {
    let pixel = Pixel { red: 255, green: 128, blue: 1, alpha: 0 };
    assert_eq!(pixel_literal(pixel), "vec4(1.0000000, 0.5019608, 0.0039216, 0.0000000)");
    assert_eq!(pixel_literal(pixel).len(), 48);
}

#[test]
fn append_pixel_keeps_what_is_there() {
    let mut out = String::from("\t{");
    append_pixel(&mut out, Pixel { red: 0, green: 0, blue: 0, alpha: 255 });
    assert_eq!(out, "\t{vec4(0.0000000, 0.0000000, 0.0000000, 1.0000000)");
}

#[test]
fn writer_adds_one_group_at_a_time() {
    let image = gradient(3, 2);
    let whole = serialize(&image);
    let mut writer = ArrayWriter::new(&image);
    assert!(!writer.is_complete());
    assert_eq!(writer.pixels_written(), 0);

    writer = writer.write_group();
    assert!(!writer.is_complete());
    assert_eq!(writer.pixels_written(), 2);

    writer = writer.write_group();
    assert!(!writer.is_complete());
    assert_eq!(writer.pixels_written(), 4);

    writer = writer.write_group();
    assert!(writer.is_complete());
    assert_eq!(writer.pixels_written(), 6);
    assert_eq!(writer.pixels_written(), image.pixel_count());

    writer = writer.write_group();
    assert!(writer.is_complete());
    assert_eq!(writer.pixels_written(), 6);
    assert_eq!(writer.into_text(), whole);
}

#[test]
fn writer_text_grows_by_whole_groups() {
    let image = gradient(2, 2);
    let writer = ArrayWriter::new(&image);
    let writer = writer.write_group();
    let partial = writer.into_text();
    let whole = serialize(&image);
    assert!(whole.starts_with(&partial));
    assert!(partial.starts_with(&preamble(2, 2)));
    assert!(partial.ends_with("},\n"));
    assert_eq!(partial.matches("vec4(").count(), 2);
}

#[test]
fn writer_starts_with_the_preamble() {
    let image = gradient(2, 2);
    assert_eq!(ArrayWriter::new(&image).into_text(), preamble(2, 2));
}

#[test]
fn writer_of_an_image_without_columns_is_complete_at_once() {
    let image = Image::new(0, 5, Vec::new()).unwrap();
    let writer = ArrayWriter::new(&image);
    assert!(writer.is_complete());
    assert_eq!(writer.pixels_written(), 0);
    assert_eq!(writer.into_text(), preamble(0, 5));
}
