//! Pictures as PNG files: screenshots written, the window's icon read.

use vstd::prelude::*;

verus! {

/// What `png::Encoder` makes of pixels of three bytes each, red, green and
/// blue: the file, or the text of the error.
pub uninterp spec fn png_written(rgb: Seq<u8>, width: u32, height: u32) -> Result<
    Seq<u8>,
    Seq<char>,
>;

/// Whether the bytes of a picture can be counted, with one more for each row.
pub open spec fn countable(width: u32, height: u32) -> bool {
    3 * width * height + height <= usize::MAX
}

/// Whether a file, or the text of an error, is what is written.
pub open spec fn same_file(
    got: Result<Vec<u8>, String>,
    want: Result<Seq<u8>, Seq<char>>,
) -> bool {
    match (got, want) {
        (Ok(a), Ok(b)) => a@ == b,
        (Err(e), Err(m)) => e@ == m,
        _ => false,
    }
}

/// `png::Encoder` with `write_header` and `write_image_data`, set to 8-bit
/// RGB and fast compression, into memory. The file, or the error's text,
/// depends on the pixels and the size alone; which bytes it has is left to
/// the name. It counts the picture's bytes in a `usize`, so sizes that don't
/// fit there are left out.
#[verifier::external_body]
fn write_png(rgb: &[u8], width: u32, height: u32) -> (file: Result<Vec<u8>, String>)
    requires
        countable(width, height),
    ensures
        same_file(file, png_written(rgb@, width, height)),
{
    let mut out = Vec::new();
    let mut encoder = png::Encoder::new(&mut out, width, height);
    encoder.set_color(png::ColorType::Rgb);
    encoder.set_depth(png::BitDepth::Eight);
    encoder.set_compression(png::Compression::Fast);
    let mut writer = encoder.write_header().map_err(|e| e.to_string())?;
    writer.write_image_data(rgb).map_err(|e| e.to_string())?;
    drop(writer);
    Ok(out)
}

/// What encoding a screen gives: the file, or the error of a size that no
/// screen has.
pub open spec fn encodes(
    file: Result<Vec<u8>, String>,
    rgb: Seq<u8>,
    width: u32,
    height: u32,
) -> bool {
    if countable(width, height) {
        same_file(file, png_written(rgb, width, height))
    } else {
        file matches Err(e) && e@ == "the picture is too big"@
    }
}

/// The pixels of a screen, three bytes each, as a PNG file.
pub fn encode_png(rgb: &[u8], width: u32, height: u32) -> (file: Result<Vec<u8>, String>)
    ensures
        encodes(file, rgb@, width, height),
{
    let (w, h): (u128, u128) = (width as u128, height as u128);
    assert(w * h <= 0xFFFF_FFFF * 0xFFFF_FFFF) by (nonlinear_arith)
        requires
            0 <= w <= 0xFFFF_FFFF,
            0 <= h <= 0xFFFF_FFFF,
    ;
    let area: u128 = w * h;
    assert(3 * width * height == 3 * area) by (nonlinear_arith)
        requires
            area == w * h,
            w == width,
            h == height,
    ;
    if 3 * area + h > usize::MAX as u128 {
        return Err(String::from_str("the picture is too big"));
    }
    write_png(rgb, width, height)
}

/// What `png::Decoder` makes of a file: width, height, colour type and bit
/// depth as the format numbers them, how many bytes the pixels have, and a
/// buffer with them; or the text of the error, if not the size was it.
pub uninterp spec fn png_read(file: Seq<u8>) -> Result<
    (u32, u32, u8, u8, usize, Seq<u8>),
    Option<Seq<char>>,
>;

/// The most a side of an icon may have.
pub const ICON_LIMIT: u32 = 0x1000;

/// A side of the picture as the header of a file gives it.
pub open spec fn header_side(file: Seq<u8>, at: int) -> int {
    file[at] * 0x100_0000 + file[at + 1] * 0x1_0000 + file[at + 2] * 0x100 + file[at + 3]
}

/// Whether the header of a file gives a small picture.
pub open spec fn icon_sized(file: Seq<u8>) -> bool {
    file.len() >= 24 && header_side(file, 16) <= ICON_LIMIT && header_side(file, 20) <= ICON_LIMIT
}

/// What is read from a file, as plain values.
pub open spec fn same_picture(
    got: Result<(u32, u32, u8, u8, usize, Vec<u8>), Option<String>>,
    want: Result<(u32, u32, u8, u8, usize, Seq<u8>), Option<Seq<char>>>,
) -> bool {
    match (got, want) {
        (Ok(a), Ok(b)) => a.0 == b.0 && a.1 == b.1 && a.2 == b.2 && a.3 == b.3 && a.4 == b.4 && a.5@
            == b.5,
        (Err(Some(e)), Err(Some(m))) => e@ == m,
        (Err(None), Err(None)) => true,
        _ => false,
    }
}

/// `png::Decoder` with `read_info`, `output_buffer_size` and `next_frame`:
/// the first picture of a file in memory. It depends on the file alone; which
/// pixels it has is left to the name. The buffer has as many bytes as the
/// header asks for, so files that ask for a big one are left out.
#[verifier::external_body]
fn read_png(file: &[u8]) -> (picture: Result<(u32, u32, u8, u8, usize, Vec<u8>), Option<String>>)
    requires
        icon_sized(file@),
    ensures
        same_picture(picture, png_read(file@)),
{
    let decoder = png::Decoder::new(std::io::Cursor::new(file));
    let mut reader = decoder.read_info().map_err(|e| Some(e.to_string()))?;
    let mut pixels = vec![0; reader.output_buffer_size().ok_or(None)?];
    let info = reader.next_frame(&mut pixels).map_err(|e| Some(e.to_string()))?;
    let (color, depth) = (info.color_type as u8, info.bit_depth as u8);
    Ok((info.width, info.height, color, depth, info.buffer_size(), pixels))
}

/// A colour type by its number in the format.
pub open spec fn color_text(color: u8) -> Seq<char> {
    if color == 0 {
        "Grayscale"@
    } else if color == 2 {
        "Rgb"@
    } else if color == 3 {
        "Indexed"@
    } else if color == 4 {
        "GrayscaleAlpha"@
    } else {
        "Rgba"@
    }
}

/// A bit depth.
pub open spec fn depth_text(depth: u8) -> Seq<char> {
    if depth == 1 {
        "One"@
    } else if depth == 2 {
        "Two"@
    } else if depth == 4 {
        "Four"@
    } else if depth == 8 {
        "Eight"@
    } else {
        "Sixteen"@
    }
}

/// What is made of a picture that was read: an icon of 8-bit RGBA pixels, or
/// why not.
pub open spec fn icon_of(
    picture: Result<(u32, u32, u8, u8, usize, Seq<u8>), Option<Seq<char>>>,
) -> Result<(u32, u32, Seq<u8>), Seq<char>> {
    match picture {
        Err(Some(m)) => Err(m),
        Err(None) => Err("the icon is too big"@),
        Ok((width, height, color, depth, size, pixels)) => if color != 6 || depth != 8 {
            Err(
                "the icon is "@ + color_text(color) + " "@ + depth_text(depth)
                    + ", not 8-bit RGBA"@,
            )
        } else if size < pixels.len() {
            Ok((width, height, pixels.take(size as int)))
        } else {
            Ok((width, height, pixels))
        },
    }
}

/// Whether an icon is another with its pixels and its message as values.
pub open spec fn same_icon(
    got: Result<(u32, u32, Vec<u8>), String>,
    want: Result<(u32, u32, Seq<u8>), Seq<char>>,
) -> bool {
    match (got, want) {
        (Ok(a), Ok(b)) => a.0 == b.0 && a.1 == b.1 && a.2@ == b.2,
        (Err(e), Err(m)) => e@ == m,
        _ => false,
    }
}

/// The icon of a picture that was read: its width, height and pixels, four
/// bytes each.
pub fn icon_from(picture: Result<(u32, u32, u8, u8, usize, Vec<u8>), Option<String>>) -> (icon:
    Result<(u32, u32, Vec<u8>), String>)
    ensures
        forall|want: Result<(u32, u32, u8, u8, usize, Seq<u8>), Option<Seq<char>>>|
            #[trigger] same_picture(picture, want) ==> same_icon(icon, icon_of(want)),
{
    match picture {
        Err(Some(e)) => Err(e),
        Err(None) => Err(String::from_str("the icon is too big")),
        Ok((width, height, color, depth, size, pixels)) => {
            if color != 6 || depth != 8 {
                let mut message = String::from_str("the icon is ");
                message.append(color_name(color));
                message.append(" ");
                message.append(depth_name(depth));
                message.append(", not 8-bit RGBA");
                return Err(message);
            }
            let mut pixels = pixels;
            if size < pixels.len() {
                pixels.truncate(size);
            }
            Ok((width, height, pixels))
        },
    }
}

fn color_name(color: u8) -> (name: &'static str)
    ensures
        name@ == color_text(color),
{
    if color == 0 {
        "Grayscale"
    } else if color == 2 {
        "Rgb"
    } else if color == 3 {
        "Indexed"
    } else if color == 4 {
        "GrayscaleAlpha"
    } else {
        "Rgba"
    }
}

fn depth_name(depth: u8) -> (name: &'static str)
    ensures
        name@ == depth_text(depth),
{
    if depth == 1 {
        "One"
    } else if depth == 2 {
        "Two"
    } else if depth == 4 {
        "Four"
    } else if depth == 8 {
        "Eight"
    } else {
        "Sixteen"
    }
}

/// The icon in a PNG file: its width, height and pixels, four bytes each: red,
/// green, blue and alpha.
pub fn icon(file: &[u8]) -> (icon: Result<(u32, u32, Vec<u8>), String>)
    requires
        icon_sized(file@),
    ensures
        same_icon(icon, icon_of(png_read(file@))),
{
    icon_from(read_png(file))
}

} // verus!
