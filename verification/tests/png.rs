use koharu::png::{pack_pixels, png_color, PngColor};

fn image(pixel: impl Fn(u8) -> [u8; 4]) -> Vec<u8> {
    let mut bytes = Vec::new();
    for y in 0..2u8 {
        for x in 0..3u8 {
            let value = 10 + (y * 3 + x);
            bytes.extend_from_slice(&pixel(value));
        }
    }
    bytes
}

fn unpack(packed: &[u8], color: PngColor) -> Vec<u8> {
    let mut bytes = Vec::new();
    match color {
        PngColor::L8 => {
            for &g in packed {
                bytes.extend_from_slice(&[g, g, g, 255]);
            }
        }
        PngColor::La8 => {
            for pair in packed.chunks_exact(2) {
                bytes.extend_from_slice(&[pair[0], pair[0], pair[0], pair[1]]);
            }
        }
        PngColor::Rgb8 => {
            for rgb in packed.chunks_exact(3) {
                bytes.extend_from_slice(&[rgb[0], rgb[1], rgb[2], 255]);
            }
        }
        PngColor::Rgba8 => bytes.extend_from_slice(packed),
    }
    bytes
}

#[test]
fn png_export_uses_the_smallest_lossless_color_type() {
    let fixtures = [
        (image(|value| [value, value, value, 255]), PngColor::L8),
        (image(|value| [value, value, value, 120 + value]), PngColor::La8),
        (image(|value| [value, value + 10, value + 20, 255]), PngColor::Rgb8),
        (
            image(|value| [value, value + 10, value + 20, 120 + value]),
            PngColor::Rgba8,
        ),
    ];
    for (original, expected) in fixtures {
        let color = png_color(&original);
        assert_eq!(color, expected);
        let packed = pack_pixels(&original, color);
        assert_eq!(unpack(&packed, color), original);
    }
}

#[test]
fn packed_bytes_follow_the_pixel_order() {
    let pixels = vec![1, 1, 1, 255, 2, 2, 2, 7];
    assert_eq!(png_color(&pixels), PngColor::La8);
    assert_eq!(pack_pixels(&pixels, PngColor::La8), vec![1, 255, 2, 7]);
    assert_eq!(pack_pixels(&pixels, PngColor::L8), vec![1, 2]);
    assert_eq!(pack_pixels(&pixels, PngColor::Rgb8), vec![1, 1, 1, 2, 2, 2]);
    assert_eq!(pack_pixels(&pixels, PngColor::Rgba8), pixels);
}

#[test]
fn an_empty_image_is_grey_and_opaque() {
    assert_eq!(png_color(&vec![]), PngColor::L8);
    assert_eq!(pack_pixels(&vec![], PngColor::L8), Vec::<u8>::new());
}

#[test]
fn trailing_bytes_are_dropped_when_repacking() {
    let pixels = vec![9, 9, 9, 255, 4];
    assert_eq!(png_color(&pixels), PngColor::L8);
    assert_eq!(pack_pixels(&pixels, PngColor::L8), vec![9]);
}
