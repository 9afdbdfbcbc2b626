use image_sieve::images::{
    draw_image, image_from_buffer, placeholder_image, rotate_image, rotation_degrees, Orientation,
    Rgb8Pixel, RgbaImage,
};

fn two_by_one() -> RgbaImage {
    // Left pixel red, right pixel blue.
    RgbaImage { width: 2, height: 1, pixels: vec![255, 0, 0, 255, 0, 0, 255, 255] }
}

#[test]
fn orientation_gives_rotation() {
    assert_eq!(rotation_degrees(None), 0);
    assert_eq!(rotation_degrees(Some(Orientation::Landscape)), 0);
    assert_eq!(rotation_degrees(Some(Orientation::Portrait90)), 90);
    assert_eq!(rotation_degrees(Some(Orientation::Landscape180)), 180);
    assert_eq!(rotation_degrees(Some(Orientation::Portrait270)), 270);
}

#[test]
fn alternating_tile_pattern() {
    let mut buffer = vec![Rgb8Pixel { r: 1, g: 2, b: 3 }; 6];
    draw_image(3, &mut buffer);
    let shades: Vec<u8> = buffer.iter().map(|p| p.r).collect();
    assert_eq!(shades, vec![0x66, 0xFF, 0x66, 0xFF, 0x66, 0xFF]);
    assert!(buffer.iter().all(|p| p.r == p.g && p.g == p.b));
    let mut even = vec![Rgb8Pixel { r: 0, g: 0, b: 0 }; 4];
    draw_image(2, &mut even);
    let shades: Vec<u8> = even.iter().map(|p| p.r).collect();
    assert_eq!(shades, vec![0x66, 0xFF, 0xFF, 0x66]);
}

#[test]
fn quarter_turn_swaps_size_and_moves_pixels() {
    let r = rotate_image(two_by_one(), 90);
    assert_eq!((r.width, r.height), (1, 2));
    assert_eq!(r.pixels, vec![255, 0, 0, 255, 0, 0, 255, 255]);
    let r = rotate_image(two_by_one(), 270);
    assert_eq!((r.width, r.height), (1, 2));
    assert_eq!(r.pixels, vec![0, 0, 255, 255, 255, 0, 0, 255]);
}

#[test]
fn half_turn_mirrors_both_ways() {
    let r = rotate_image(two_by_one(), 180);
    assert_eq!((r.width, r.height), (2, 1));
    assert_eq!(r.pixels, vec![0, 0, 255, 255, 255, 0, 0, 255]);
    let same = rotate_image(two_by_one(), 0);
    assert_eq!(same.pixels, two_by_one().pixels);
}

#[test]
fn placeholder_is_one_pixel() {
    let p = placeholder_image();
    assert_eq!((p.width, p.height), (1, 1));
    assert_eq!(p.pixels, vec![0, 0, 0, 0]);
}

#[test]
fn garbage_bytes_do_not_decode() {
    assert!(image_from_buffer(&[1, 2, 3, 4, 5]).is_err());
    assert!(image_from_buffer(&[]).is_err());
}

#[test]
fn png_bytes_decode_to_rgba() {
    let mut bytes: Vec<u8> = Vec::new();
    let raw: Vec<u8> = vec![10, 20, 30, 255, 40, 50, 60, 255];
    image::png::PngEncoder::new(&mut bytes)
        .encode(&raw, 2, 1, image::ColorType::Rgba8)
        .unwrap();
    let img = image_from_buffer(&bytes).unwrap();
    assert_eq!((img.width, img.height), (2, 1));
    assert_eq!(img.pixels, raw);
}
