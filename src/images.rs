//! Images as plain pixels: decoding, rotation by orientation, the
//! placeholder for unreadable files and the tiled grey background.
use vstd::prelude::*;

verus! {

/// The decoding error of the image crate, carried through unchanged.
#[verifier::external_type_specification]
#[verifier::external_body]
pub struct ExImageError(image::ImageError);

/// EXIF orientation of an image file.
#[derive(Clone, Copy, PartialEq, Eq, Structural, Debug)]
pub enum Orientation {
    Landscape,
    Portrait90,
    Landscape180,
    Portrait270,
}

/// Clockwise rotation, in degrees, that displays an image upright.
pub open spec fn rotation_of(orientation: Option<Orientation>) -> u32 {
    match orientation {
        Some(Orientation::Landscape) => 0,
        Some(Orientation::Portrait90) => 90,
        Some(Orientation::Landscape180) => 180,
        Some(Orientation::Portrait270) => 270,
        None => 0,
    }
}

/// The rotation to apply to a decoded image with the given orientation.
pub fn rotation_degrees(orientation: Option<Orientation>) -> (r: u32)
    ensures
        r == rotation_of(orientation),
{
    match orientation {
        Some(orientation) => match orientation {
            Orientation::Landscape => 0,
            Orientation::Portrait90 => 90,
            Orientation::Landscape180 => 180,
            Orientation::Portrait270 => 270,
        },
        None => 0,
    }
}

/// An RGB pixel with eight bits per channel.
#[derive(Clone, Copy, PartialEq, Eq, Structural, Debug)]
pub struct Rgb8Pixel {
    pub r: u8,
    pub g: u8,
    pub b: u8,
}

pub const DARK_SHADE: u8 = 0x66;

pub const LIGHT_SHADE: u8 = 0xFF;

/// Grey value of pixel `i` of a pattern of alternating tiles laid out in rows of `width` pixels:
/// the first pixel of an even row is dark, and shades alternate along a row.
pub open spec fn tile_shade(width: nat, i: nat) -> u8 {
    if ((i / width) + (i % width)) % 2 == 0 {
        DARK_SHADE
    } else {
        LIGHT_SHADE
    }
}

pub open spec fn grey(v: u8) -> Rgb8Pixel {
    Rgb8Pixel { r: v, g: v, b: v }
}

/// Draws a greyish pattern of alternating tiles into a pixel buffer of rows of `width` pixels.
pub fn draw_image(width: usize, buffer: &mut [Rgb8Pixel])
    requires
        width > 0,
    ensures
        final(buffer)@.len() == old(buffer)@.len(),
        forall|i: int|
            0 <= i < final(buffer)@.len() ==> #[trigger] final(buffer)@[i] == grey(
                tile_shade(width as nat, i as nat),
            ),
{
    let n = buffer.len();
    let mut i: usize = 0;
    while i < n
        invariant
            width > 0,
            n == buffer@.len(),
            i <= n,
            forall|j: int| 0 <= j < i ==> #[trigger] buffer@[j] == grey(
                tile_shade(width as nat, j as nat),
            ),
        decreases n - i,
    {
        let row = i / width;
        let col = i % width;
        let t: bool = (row % 2 == 0) == (col % 2 == 0);
        let val: u8 = if t {
            DARK_SHADE
        } else {
            LIGHT_SHADE
        };
        assert(t == (((row + col) as nat) % 2 == 0)) by (nonlinear_arith)
            requires
                t == ((row % 2 == 0) == (col % 2 == 0)),
        ;
        buffer[i] = Rgb8Pixel { r: val, g: val, b: val };
        i += 1;
    }
}

/// A decoded image: `width * height` pixels, row by row, four bytes (red,
/// green, blue, alpha) per pixel.
pub struct RgbaImage {
    pub width: u32,
    pub height: u32,
    pub pixels: Vec<u8>,
}

impl RgbaImage {
    pub open spec fn wf(&self) -> bool {
        self.pixels@.len() >= 4 * (self.width as int) * (self.height as int)
    }
}

/// Channel `c` of the pixel at column `x`, row `y` of a buffer `width` pixels wide.
pub open spec fn channel(p: Seq<u8>, width: int, x: int, y: int, c: int) -> u8 {
    p[4 * (y * width + x) + c]
}

/// The image held by an encoded file's bytes, as width, height and RGBA
/// pixels; none when the bytes are no image of a supported format.
pub uninterp spec fn decoded_rgba(bytes: Seq<u8>) -> Option<(u32, u32, Seq<u8>)>;

/// Relies on image::load_from_memory and DynamicImage::into_rgba8: decoding
/// depends on the bytes alone, and an RGBA buffer holds four bytes for each
/// of its pixels.
#[verifier::external_body]
fn decode_rgba(bytes: &[u8]) -> (r: Result<RgbaImage, image::ImageError>)
    ensures
        match r {
            Ok(img) => img.wf() && decoded_rgba(bytes@) == Some((img.width, img.height, img.pixels@)),
            Err(_) => decoded_rgba(bytes@) is None,
        },
{
    match image::load_from_memory(bytes) {
        Ok(d) => {
            let b = d.into_rgba8();
            Ok(RgbaImage { width: b.width(), height: b.height(), pixels: b.into_raw() })
        },
        Err(e) => Err(e),
    }
}

/// Decodes an encoded image file held in memory into RGBA pixels.
pub fn image_from_buffer(bytes: &[u8]) -> (r: Result<RgbaImage, image::ImageError>)
    ensures
        match r {
            Ok(img) => img.wf() && decoded_rgba(bytes@) == Some((img.width, img.height, img.pixels@)),
            Err(_) => decoded_rgba(bytes@) is None,
        },
{
    decode_rgba(bytes)
}

/// Relies on image::imageops::rotate90: the result is `height` wide and
/// `width` high, and the pixel at (x, y) goes to (height - 1 - y, x).
#[verifier::external_body]
fn rotate_quarter(img: &RgbaImage) -> (r: RgbaImage)
    requires
        img.wf(),
    ensures
        r.width == img.height,
        r.height == img.width,
        r.wf(),
        forall|x: int, y: int, c: int|
            0 <= x < img.width && 0 <= y < img.height && 0 <= c < 4 ==> channel(
                r.pixels@,
                r.width as int,
                img.height - 1 - y,
                x,
                c,
            ) == #[trigger] channel(img.pixels@, img.width as int, x, y, c),
{
    let b = image::RgbaImage::from_raw(img.width, img.height, img.pixels.clone()).unwrap();
    let o = image::imageops::rotate90(&b);
    RgbaImage { width: o.width(), height: o.height(), pixels: o.into_raw() }
}

/// Relies on image::imageops::rotate180: the size is kept, and the pixel at
/// (x, y) goes to (width - 1 - x, height - 1 - y).
#[verifier::external_body]
fn rotate_half(img: &RgbaImage) -> (r: RgbaImage)
    requires
        img.wf(),
    ensures
        r.width == img.width,
        r.height == img.height,
        r.wf(),
        forall|x: int, y: int, c: int|
            0 <= x < img.width && 0 <= y < img.height && 0 <= c < 4 ==> channel(
                r.pixels@,
                r.width as int,
                img.width - 1 - x,
                img.height - 1 - y,
                c,
            ) == #[trigger] channel(img.pixels@, img.width as int, x, y, c),
{
    let b = image::RgbaImage::from_raw(img.width, img.height, img.pixels.clone()).unwrap();
    let o = image::imageops::rotate180(&b);
    RgbaImage { width: o.width(), height: o.height(), pixels: o.into_raw() }
}

/// Relies on image::imageops::rotate270: the result is `height` wide and
/// `width` high, and the pixel at (x, y) goes to (y, width - 1 - x).
#[verifier::external_body]
fn rotate_three_quarters(img: &RgbaImage) -> (r: RgbaImage)
    requires
        img.wf(),
    ensures
        r.width == img.height,
        r.height == img.width,
        r.wf(),
        forall|x: int, y: int, c: int|
            0 <= x < img.width && 0 <= y < img.height && 0 <= c < 4 ==> channel(
                r.pixels@,
                r.width as int,
                y,
                img.width - 1 - x,
                c,
            ) == #[trigger] channel(img.pixels@, img.width as int, x, y, c),
{
    let b = image::RgbaImage::from_raw(img.width, img.height, img.pixels.clone()).unwrap();
    let o = image::imageops::rotate270(&b);
    RgbaImage { width: o.width(), height: o.height(), pixels: o.into_raw() }
}

/// Size of an image after a clockwise rotation by `degrees`: a quarter or
/// three-quarter turn swaps width and height; other values leave it as is.
pub open spec fn rotated_size(width: u32, height: u32, degrees: u32) -> (u32, u32) {
    if degrees == 90 || degrees == 270 {
        (height, width)
    } else {
        (width, height)
    }
}

/// Where the pixel at (x, y) of a `width` by `height` image goes under a
/// clockwise rotation by `degrees` (90, 180 or 270; any other value keeps it).
pub open spec fn rotated_position(width: int, height: int, degrees: u32, x: int, y: int) -> (int, int) {
    if degrees == 90 {
        (height - 1 - y, x)
    } else if degrees == 180 {
        (width - 1 - x, height - 1 - y)
    } else if degrees == 270 {
        (y, width - 1 - x)
    } else {
        (x, y)
    }
}

/// Rotates an image clockwise by `degrees`; a value other than 90, 180 or
/// 270 leaves it unchanged.
pub fn rotate_image(img: RgbaImage, degrees: u32) -> (r: RgbaImage)
    requires
        img.wf(),
    ensures
        r.wf(),
        (r.width, r.height) == rotated_size(img.width, img.height, degrees),
        forall|x: int, y: int, c: int|
            0 <= x < img.width && 0 <= y < img.height && 0 <= c < 4 ==> channel(
                r.pixels@,
                r.width as int,
                rotated_position(img.width as int, img.height as int, degrees, x, y).0,
                rotated_position(img.width as int, img.height as int, degrees, x, y).1,
                c,
            ) == #[trigger] channel(img.pixels@, img.width as int, x, y, c),
{
    if degrees == 90 {
        rotate_quarter(&img)
    } else if degrees == 180 {
        rotate_half(&img)
    } else if degrees == 270 {
        rotate_three_quarters(&img)
    } else {
        img
    }
}

/// The one-pixel, fully transparent black image shown when a file cannot be decoded.
pub fn placeholder_image() -> (r: RgbaImage)
    ensures
        r.wf(),
        r.width == 1,
        r.height == 1,
        r.pixels@ == seq![0u8, 0u8, 0u8, 0u8],
{
    let pixels: Vec<u8> = vec![0u8, 0u8, 0u8, 0u8];
    RgbaImage { width: 1, height: 1, pixels }
}

} // verus!
