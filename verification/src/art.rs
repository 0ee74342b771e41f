//! The enhanced artwork of the opening menu: a PNG picture of exactly the size
//! of the presentation.

use vstd::prelude::*;

verus! {

/// `png::DecodingError`: why a picture could not be decoded.
#[verifier::external_type_specification]
#[verifier::external_body]
pub struct ExDecodingError(png::DecodingError);

/// The number in the four bytes at `at`, highest byte first.
pub open spec fn be32(bytes: Seq<u8>, at: int) -> int {
    0x100_0000 * bytes[at] + 0x1_0000 * bytes[at + 1] + 0x100 * bytes[at + 2] + bytes[at + 3]
}

/// The bytes start as a PNG file does, and go on to the sides of the picture.
pub open spec fn has_header(data: Seq<u8>) -> bool {
    data.len() >= 24 && be32(data, 0) == 0x8950_4e47 && be32(data, 4) == 0x0d0a_1a0a
}

/// The sides of the picture, if a PNG file declares them in its header, are
/// short enough for any machine's memory to be addressed: under 16384 pixels.
pub open spec fn addressable(data: Seq<u8>) -> bool {
    has_header(data) ==> be32(data, 16) < 0x4000 && be32(data, 20) < 0x4000
}

/// The picture in a PNG file: its width, its height, the number of its colour
/// type and its bytes; none where the file cannot be decoded.
pub uninterp spec fn decoded_png(data: Seq<u8>) -> Option<(u32, u32, u8, Seq<u8>)>;

/// Decode a PNG file with `png::Decoder::new`, `Decoder::read_info`,
/// `Reader::output_buffer_size` and `Reader::next_frame`. The file declares no
/// size beyond what is addressable, so that there is memory for the picture. Claimed: what
/// comes out depends on the file's bytes alone.
#[verifier::external_body]
fn decode_png(data: &[u8]) -> (r: Result<(u32, u32, u8, Vec<u8>), png::DecodingError>)
    requires
        addressable(data@),
    ensures
        match r {
            Ok(p) => decoded_png(data@) == Some((p.0, p.1, p.2, p.3@)),
            Err(_) => decoded_png(data@) is None,
        },
{
    let mut reader = png::Decoder::new(std::io::Cursor::new(data)).read_info()?;
    let mut buf = vec![0; reader.output_buffer_size().unwrap_or(0)];
    let info = reader.next_frame(&mut buf)?;
    buf.truncate(info.buffer_size());
    Ok((info.width, info.height, info.color_type as u8, buf))
}

/// Why artwork is refused.
#[derive(Clone, Copy, Debug, PartialEq, Eq, Structural)]
pub enum ArtError {
    Undecodable,
    WrongSize { width: u32, height: u32 },
    /// Neither RGB nor RGBA.
    WrongColors,
}

/// PNG's numbers of the colour types RGB and RGBA.
pub const COLOR_RGB: u8 = 2;
pub const COLOR_RGBA: u8 = 6;

/// The bytes of a picture without every fourth one.
pub open spec fn without_alpha(bytes: Seq<u8>) -> Seq<u8> {
    Seq::new((bytes.len() / 4 * 3) as nat, |i: int| bytes[i / 3 * 4 + i % 3])
}

/// The artwork in a decoded picture.
pub open spec fn artwork(picture: Option<(u32, u32, u8, Seq<u8>)>) -> Result<Seq<u8>, ArtError> {
    match picture {
        None => Err(ArtError::Undecodable),
        Some((width, height, color, bytes)) => if width != 1280 || height != 720 {
            Err(ArtError::WrongSize { width, height })
        } else if color == COLOR_RGB {
            Ok(bytes)
        } else if color == COLOR_RGBA {
            Ok(without_alpha(bytes))
        } else {
            Err(ArtError::WrongColors)
        },
    }
}

/// The result is the artwork, or the error.
pub open spec fn is_artwork(r: Result<Vec<u8>, ArtError>, art: Result<Seq<u8>, ArtError>) -> bool {
    match r {
        Ok(v) => art == Ok::<Seq<u8>, ArtError>(v@),
        Err(e) => art == Err::<Seq<u8>, ArtError>(e),
    }
}

/// Drop every fourth byte.
fn drop_alpha(bytes: &Vec<u8>) -> (rgb: Vec<u8>)
    ensures
        rgb@ == without_alpha(bytes@),
{
    let mut rgb: Vec<u8> = Vec::new();
    let n: usize = bytes.len() / 4;
    for i in 0..n
        invariant
            n == bytes@.len() / 4,
            rgb@ == without_alpha(bytes@).take(3 * i),
    {
        assert(4 * i + 3 < bytes@.len());
        let len: usize = bytes.len();
        rgb.push(bytes[4 * i]);
        rgb.push(bytes[4 * i + 1]);
        rgb.push(bytes[4 * i + 2]);
        assert(rgb@ =~= without_alpha(bytes@).take(3 * (i + 1)));
    }
    assert(without_alpha(bytes@).take(3 * n) =~= without_alpha(bytes@));
    rgb
}

/// The artwork in a decoded picture: RGB, without opacity.
pub fn opening_menu_rgb(width: u32, height: u32, color: u8, bytes: Vec<u8>) -> (r: Result<Vec<u8>, ArtError>)
    ensures
        is_artwork(r, artwork(Some((width, height, color, bytes@)))),
{
    if width != 1280 || height != 720 {
        return Err(ArtError::WrongSize { width, height });
    }
    if color == COLOR_RGB {
        Ok(bytes)
    } else if color == COLOR_RGBA {
        Ok(drop_alpha(&bytes))
    } else {
        Err(ArtError::WrongColors)
    }
}

/// The number in the four bytes at `at`, highest byte first.
fn read_be32(data: &[u8], at: usize) -> (v: u32)
    requires
        at + 4 <= data@.len(),
    ensures
        v == be32(data@, at as int),
{
    data[at] as u32 * 0x100_0000 + data[at + 1] as u32 * 0x1_0000 + data[at + 2] as u32 * 0x100 + data[at + 3] as u32
}

/// Decode the artwork of the opening menu. A file that declares a picture too
/// large to be addressed on every machine is refused for its size, unread.
pub fn decode_opening_menu_hd(data: &[u8]) -> (r: Result<Vec<u8>, ArtError>)
    ensures
        addressable(data@) ==> is_artwork(r, artwork(decoded_png(data@))),
        !addressable(data@) ==> r == Err::<Vec<u8>, ArtError>(
            ArtError::WrongSize { width: be32(data@, 16) as u32, height: be32(data@, 20) as u32 },
        ),
{
    if data.len() >= 24 && read_be32(data, 0) == 0x8950_4e47 && read_be32(data, 4) == 0x0d0a_1a0a {
        let width: u32 = read_be32(data, 16);
        let height: u32 = read_be32(data, 20);
        if width >= 0x4000 || height >= 0x4000 {
            return Err(ArtError::WrongSize { width, height });
        }
    }
    match decode_png(data) {
        Ok((width, height, color, bytes)) => opening_menu_rgb(width, height, color, bytes),
        Err(_) => Err(ArtError::Undecodable),
    }
}

/// RGB artwork has three bytes for every four of an RGBA picture, so a picture
/// of the presentation's size gives artwork that the presentation can use.
pub proof fn law_artwork_fits(color: u8, bytes: Seq<u8>)
    requires
        color == COLOR_RGB && bytes.len() == 1280 * 720 * 3 || color == COLOR_RGBA && bytes.len() == 1280 * 720 * 4,
    ensures
        artwork(Some((1280, 720, color, bytes))) matches Ok(art) && art.len() == 1280 * 720 * 3,
{
}

/// Numbers in headers have their highest byte first.
pub proof fn law_headers_are_big_endian(bytes: Seq<u8>, at: int)
    requires
        0 <= at,
        at + 4 <= bytes.len(),
    ensures
        be32(bytes, at) == 0x100_0000 * bytes[at] + 0x1_0000 * bytes[at + 1] + 0x100 * bytes[at + 2] + bytes[at + 3],
        has_header(bytes) ==> bytes[0] == 0x89 && bytes[1] == 0x50 && bytes[2] == 0x4e && bytes[3] == 0x47 && bytes[4] == 0x0d
            && bytes[5] == 0x0a && bytes[6] == 0x1a && bytes[7] == 0x0a,
{
}

/// Without opacity, every pixel keeps its red, green and blue.
pub proof fn law_pixels_keep_their_colours(bytes: Seq<u8>, p: int)
    requires
        0 <= p,
        4 * p + 4 <= bytes.len(),
    ensures
        3 * p + 3 <= without_alpha(bytes).len(),
        without_alpha(bytes)[3 * p] == bytes[4 * p],
        without_alpha(bytes)[3 * p + 1] == bytes[4 * p + 1],
        without_alpha(bytes)[3 * p + 2] == bytes[4 * p + 2],
{
    assert((3 * p) / 3 == p && (3 * p) % 3 == 0);
    assert((3 * p + 1) / 3 == p && (3 * p + 1) % 3 == 1);
    assert((3 * p + 2) / 3 == p && (3 * p + 2) % 3 == 2);
    assert(bytes.len() / 4 >= p + 1);
}

/// Artwork has to be 1280 by 720, of red, green and blue with or without
/// opacity; each fault has its own error.
pub proof fn law_artwork_has_its_size(width: u32, height: u32, color: u8, bytes: Seq<u8>)
    ensures
        artwork(None) == Err::<Seq<u8>, ArtError>(ArtError::Undecodable),
        artwork(Some((width, height, color, bytes))) is Ok <==> width == 1280 && height == 720 && (color == COLOR_RGB || color
            == COLOR_RGBA),
        width != 1280 || height != 720 ==> artwork(Some((width, height, color, bytes))) == Err::<Seq<u8>, ArtError>(
            ArtError::WrongSize { width, height },
        ),
        width == 1280 && height == 720 && color == COLOR_RGB ==> artwork(Some((width, height, color, bytes))) == Ok::<
            Seq<u8>,
            ArtError,
        >(bytes),
        COLOR_RGB != COLOR_RGBA,
{
}

} // verus!
