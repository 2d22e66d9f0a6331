use raytracer::color::{HexParseError, Rgb8};
use raytracer::image::{Image, Resolution};
use raytracer::render::header;

#[test]
fn resolution_new_keeps_both_dimensions() {
    let r = Resolution::new(640, 480);
    assert_eq!(r.width, 640);
    assert_eq!(r.height, 480);
}

#[test]
fn height_width_of_first_pixel_is_the_top_row() {
    let r = Resolution::new(4, 4);
    assert_eq!(r.get_height_width(0), (3, 0));
}

#[test]
fn height_width_counts_rows_down_to_zero() {
    let r = Resolution::new(4, 4);
    assert_eq!(r.get_height_width(3), (3, 3));
    assert_eq!(r.get_height_width(4), (2, 0));
    assert_eq!(r.get_height_width(5), (2, 1));
    assert_eq!(r.get_height_width(15), (0, 3));
}

#[test]
fn height_width_of_square_render_target() {
    let r = Resolution::new(600, 600);
    assert_eq!(r.get_height_width(0), (599, 0));
    assert_eq!(r.get_height_width(600), (598, 0));
    assert_eq!(r.get_height_width(359_999), (0, 599));
}

#[test]
fn height_width_of_a_tall_image() {
    let r = Resolution::new(2, 8);
    assert_eq!(r.get_height_width(0), (7, 0));
    assert_eq!(r.get_height_width(15), (0, 1));
    assert_eq!(r.get_height_width(9), (3, 1));
}

#[test]
fn height_width_of_a_wide_image() {
    let r = Resolution::new(8, 2);
    assert_eq!(r.get_height_width(7), (1, 7));
    assert_eq!(r.get_height_width(8), (0, 0));
}

#[test]
fn height_width_stays_within_the_image_and_names_each_pixel_once() {
    for (width, height) in [(1usize, 1usize), (1, 5), (5, 1), (3, 4), (4, 3), (2, 8)] {
        let r = Resolution::new(width, height);
        let mut seen = vec![false; width * height];
        for i in 0..width * height {
            let (h, w) = r.get_height_width(i);
            assert!(h < height && w < width);
            assert_eq!(i, (height - 1 - h) * width + w);
            assert!(!seen[h * width + w]);
            seen[h * width + w] = true;
        }
    }
}

#[test]
fn index_is_row_major() {
    let r = Resolution::new(1024, 1024);
    assert_eq!(r.get_index(0, 0), 0);
    assert_eq!(r.get_index(5, 2), 2 * 1024 + 5);
    assert_eq!(r.get_index(1023, 1023), 1024 * 1024 - 1);
}

#[test]
fn index_beyond_the_image_is_the_last_pixel() {
    let r = Resolution::new(1024, 1024);
    assert_eq!(r.get_index(1024, 1024), 1024 * 1024 - 1);
    assert_eq!(r.get_index(0, 1024), 1024 * 1024 - 1);
}

#[test]
fn index_that_would_not_fit_is_the_last_pixel() {
    let r = Resolution::new(3, 2);
    assert_eq!(r.get_index(usize::MAX, 1), 5);
    assert_eq!(r.get_index(1, usize::MAX), 5);
}

#[test]
fn index_of_single_pixel_image() {
    let r = Resolution::new(1, 1);
    assert_eq!(r.get_index(0, 0), 0);
    assert_eq!(r.get_index(1, 1), 0);
}

#[test]
fn new_image_is_filled() {
    let image = Image::new(Resolution::new(3, 2), 7u8);
    assert_eq!(image.resolution.width, 3);
    assert_eq!(image.resolution.height, 2);
    assert_eq!(image.get_data(), &vec![7u8; 6]);
}

#[test]
fn new_image_without_pixels() {
    let image = Image::new(Resolution::new(0, 5), 1u8);
    assert!(image.get_data().is_empty());
}

#[test]
fn image_from_data_checks_the_count() {
    assert!(Image::from_data(Resolution::new(2, 2), vec![1u8, 2, 3]).is_err());
    assert!(Image::from_data(Resolution::new(2, 2), vec![1u8, 2, 3, 4, 5]).is_err());
    let image = Image::from_data(Resolution::new(2, 2), vec![1u8, 2, 3, 4]).unwrap();
    assert_eq!(image.get_data(), &vec![1u8, 2, 3, 4]);
}

#[test]
fn image_from_data_with_a_resolution_too_large_to_count() {
    assert!(Image::from_data(Resolution::new(usize::MAX, 2), vec![0u8; 4]).is_err());
}

#[test]
fn image_pixels_can_be_written() {
    let mut image = Image::new(Resolution::new(2, 2), 0.0f32);
    image.get_data_mut()[3] = 2.5;
    assert_eq!(image.get_data(), &vec![0.0f32, 0.0, 0.0, 2.5]);
    assert_eq!(*image.get_at(1, 1), 2.5);
}

#[test]
fn image_lookup_is_row_major_and_held_to_the_last_pixel() {
    let image = Image::from_data(Resolution::new(3, 2), vec![10u8, 11, 12, 20, 21, 22]).unwrap();
    assert_eq!(*image.get_at(0, 0), 10);
    assert_eq!(*image.get_at(2, 0), 12);
    assert_eq!(*image.get_at(1, 1), 21);
    assert_eq!(*image.get_at(3, 0), 20);
    assert_eq!(*image.get_at(3, 2), 22);
    assert_eq!(*image.get_at(0, 9), 22);
}

fn hex(text: &str) -> Option<(u8, u8, u8)> {
    match Rgb8::from_hex(text) {
        Ok(c) => Some((c.r, c.g, c.b)),
        Err(HexParseError) => None,
    }
}

#[test]
fn hex_of_the_sky_colours() {
    assert_eq!(hex("#0396A6"), Some((0x03, 0x96, 0xa6)));
    assert_eq!(hex("#D14F0F"), Some((0xd1, 0x4f, 0x0f)));
}

#[test]
fn hex_of_the_scene_colours() {
    assert_eq!(hex("#F29F80"), Some((242, 159, 128)));
    assert_eq!(hex("#D95578"), Some((217, 85, 120)));
    assert_eq!(hex("#FFFFFF"), Some((255, 255, 255)));
    assert_eq!(hex("#000000"), Some((0, 0, 0)));
}

#[test]
fn hex_takes_either_case() {
    assert_eq!(hex("#abcdef"), Some((0xab, 0xcd, 0xef)));
    assert_eq!(hex("#AbCdEf"), Some((0xab, 0xcd, 0xef)));
}

#[test]
fn hex_without_number_sign_is_refused() {
    assert_eq!(hex("0396A6"), None);
    assert_eq!(hex("0396A6#"), None);
    assert_eq!(hex(" #0396A6"), None);
}

#[test]
fn hex_too_short_is_refused() {
    assert_eq!(hex(""), None);
    assert_eq!(hex("#"), None);
    assert_eq!(hex("#0396A"), None);
    assert_eq!(hex("#039"), None);
}

#[test]
fn hex_with_other_digits_is_refused() {
    assert_eq!(hex("#0396AG"), None);
    assert_eq!(hex("#G396A6"), None);
    assert_eq!(hex("#03 6A6"), None);
    assert_eq!(hex("#-396A6"), None);
    assert_eq!(hex("#0x96A6"), None);
    assert_eq!(hex("#03:6A6"), None);
    assert_eq!(hex("#03@6A6"), None);
    assert_eq!(hex("#03`6A6"), None);
}

#[test]
fn hex_with_text_outside_ascii_is_refused() {
    assert_eq!(hex("#é96A6"), None);
    assert_eq!(hex("#0396é"), None);
    assert_eq!(hex("#03966é"), None);
}

#[test]
fn hex_with_a_sign_is_refused() {
    assert_eq!(hex("#+f+f+f"), None);
    assert_eq!(hex("#+f0000"), None);
    assert_eq!(hex("#00+A00"), None);
    assert_eq!(hex("#0000+0"), None);
    assert_eq!(hex("#++0000"), None);
    assert_eq!(hex("#f+0000"), None);
    assert_eq!(hex("#-10000"), None);
}

#[test]
fn hex_channel_is_two_hex_digits_and_nothing_else() {
    for a in 0u8..=127 {
        for b in 0u8..=127 {
            let field = String::from_utf8(vec![a, b]).unwrap();
            let text = format!("#{}0000", field);
            let expected = match ((a as char).to_digit(16), (b as char).to_digit(16)) {
                (Some(high), Some(low)) => Some(((16 * high + low) as u8, 0, 0)),
                _ => None,
            };
            assert_eq!(hex(&text), expected);
            let text = format!("#0000{}", field);
            assert_eq!(hex(&text), expected.map(|(r, _, _)| (0, 0, r)));
        }
    }
}

#[test]
fn hex_does_not_look_past_the_seventh_byte() {
    assert_eq!(hex("#0396A6ff"), Some((0x03, 0x96, 0xa6)));
    assert_eq!(hex("#0396A6 and more"), Some((0x03, 0x96, 0xa6)));
}

#[test]
fn header_of_the_default_render() {
    assert_eq!(header(Resolution::new(600, 600)), b"P6 600 600 255\n".to_vec());
    assert_eq!(header(Resolution::new(600, 600)).len(), 15);
}

#[test]
fn header_length_follows_the_digits() {
    assert_eq!(header(Resolution::new(0, 0)), b"P6 0 0 255\n".to_vec());
    assert_eq!(header(Resolution::new(7, 1234)), b"P6 7 1234 255\n".to_vec());
    assert_eq!(header(Resolution::new(10, 10)).len(), 13);
    assert_eq!(header(Resolution::new(1000, 1000)).len(), 17);
}

#[test]
fn header_of_the_largest_resolution() {
    let text = format!("P6 {} {} 255\n", usize::MAX, usize::MAX);
    assert_eq!(header(Resolution::new(usize::MAX, usize::MAX)), text.into_bytes());
}

fn gray(level: &u8) -> Rgb8 {
    Rgb8 { r: *level, g: level.wrapping_add(1), b: level.wrapping_add(2) }
}

#[test]
fn tonemap_writes_three_channels_per_pixel_in_order() {
    let image = Image::from_data(Resolution::new(2, 1), vec![10u8, 20]).unwrap();
    assert_eq!(image.tonemap(&gray), vec![10, 11, 12, 20, 21, 22]);
}

#[test]
fn tonemap_of_no_pixels() {
    let image = Image::new(Resolution::new(0, 0), 0u8);
    assert!(image.tonemap(&gray).is_empty());
}

#[test]
fn ppm_is_header_then_body() {
    let image = Image::from_data(Resolution::new(2, 1), vec![10u8, 20]).unwrap();
    let mut expected = b"P6 2 1 255\n".to_vec();
    expected.extend_from_slice(&[10, 11, 12, 20, 21, 22]);
    assert_eq!(image.to_ppm(&gray), expected);
}

#[test]
fn ppm_length_with_three_digit_dimensions() {
    let image = Image::new(Resolution::new(100, 120), 0u8);
    let bytes = image.to_ppm(&gray);
    assert_eq!(bytes.len(), 15 + 100 * 120 * 3);
    assert_eq!(&bytes[..15], b"P6 100 120 255\n");
}

#[test]
fn ppm_header_reads_back_as_the_resolution() {
    let image = Image::new(Resolution::new(37, 5), 0u8);
    let bytes = image.to_ppm(&gray);
    let end = bytes.iter().position(|b| *b == b'\n').unwrap();
    let text = String::from_utf8(bytes[..end].to_vec()).unwrap();
    let words: Vec<&str> = text.split(' ').collect();
    assert_eq!(words, vec!["P6", "37", "5", "255"]);
    assert_eq!(bytes.len(), end + 1 + 37 * 5 * 3);
}
