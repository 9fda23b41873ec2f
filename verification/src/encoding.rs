//! The preview's last step: an 8-bit grey image encoded as PNG and handed
//! out as a `data:` URL in base64.
use vstd::prelude::*;

verus! {

/// The PNG file that the `image` crate writes for an 8-bit grey image of
/// `width` × `height` samples stored row by row, or the message of its
/// error.
pub uninterp spec fn png_gray8(width: int, height: int, pixels: Seq<u8>) -> Result<
    Seq<u8>,
    Seq<char>,
>;

/// The character of a 6-bit value in the standard base64 alphabet:
/// `A`–`Z`, `a`–`z`, `0`–`9`, `+`, `/`.
pub open spec fn base64_digit(v: int) -> char {
    if v < 26 {
        (65 + v) as char
    } else if v < 52 {
        (97 + v - 26) as char
    } else if v < 62 {
        (48 + v - 52) as char
    } else if v == 62 {
        '+'
    } else {
        '/'
    }
}

/// The standard base64 text (RFC 4648) of bytes: each group of three bytes
/// as four digits of six bits each, most significant first; a last group of
/// one or two bytes padded with zero bits and completed with `=`.
pub open spec fn base64_standard(b: Seq<u8>) -> Seq<char>
    decreases b.len(),
{
    if b.len() == 0 {
        Seq::empty()
    } else if b.len() == 1 {
        seq![base64_digit((b[0] as int) / 4), base64_digit((b[0] as int) % 4 * 16), '=', '=']
    } else if b.len() == 2 {
        seq![
            base64_digit((b[0] as int) / 4),
            base64_digit((b[0] as int) % 4 * 16 + (b[1] as int) / 16),
            base64_digit((b[1] as int) % 16 * 4),
            '=',
        ]
    } else {
        seq![
            base64_digit((b[0] as int) / 4),
            base64_digit((b[0] as int) % 4 * 16 + (b[1] as int) / 16),
            base64_digit((b[1] as int) % 16 * 4 + (b[2] as int) / 64),
            base64_digit((b[2] as int) % 64),
        ] + base64_standard(b.skip(3))
    }
}

/// Encodes an 8-bit grey image as PNG in memory
/// (`ImageBuffer::<Luma<u8>, _>::from_raw`, then `write_to` with
/// `ImageFormat::Png`), the error converted to its message. The outcome is
/// named `png_gray8`; the PNG format is not restated. `from_raw` accepts a
/// buffer of exactly `width × height` samples, hence the bound.
#[verifier::external_body]
fn png_gray(width: u32, height: u32, pixels: Vec<u8>) -> (r: Result<Vec<u8>, String>)
    requires
        pixels@.len() == width * height,
    ensures
        match r {
            Ok(b) => png_gray8(width as int, height as int, pixels@) == Ok::<Seq<u8>, Seq<char>>(b@),
            Err(m) => png_gray8(width as int, height as int, pixels@) == Err::<Seq<u8>, Seq<char>>(
                m@,
            ),
        },
{
    let img = image::ImageBuffer::<image::Luma<u8>, Vec<u8>>::from_raw(width, height, pixels)
        .expect("the buffer holds width × height samples");
    let mut buf: Vec<u8> = Vec::new();
    let written = img.write_to(&mut std::io::Cursor::new(&mut buf), image::ImageFormat::Png);
    match written {
        Ok(()) => Ok(buf),
        Err(e) => Err(e.to_string()),
    }
}

/// Base64 text of bytes (`base64::engine::general_purpose::STANDARD.encode`):
/// the standard alphabet with padding, as `base64_standard` spells out. The
/// engine computes the output length with checked arithmetic and allocates
/// it first; both succeed when `len / 3 * 4 + 4` fits in `isize`, hence the
/// bound.
#[verifier::external_body]
fn base64_encode(bytes: &[u8]) -> (s: String)
    requires
        bytes@.len() / 3 * 4 + 4 <= isize::MAX,
    ensures
        s@ == base64_standard(bytes@),
{
    base64::Engine::encode(&base64::engine::general_purpose::STANDARD, bytes)
}

/// `data:image/png;base64,`, the start of every preview URL.
pub open spec fn png_url_prefix() -> Seq<char> {
    "data:image/png;base64,"@
}

/// Whether bytes are few enough for base64 text to be made of them.
pub open spec fn encodable(bytes: Seq<u8>) -> bool {
    bytes.len() / 3 * 4 + 4 <= isize::MAX
}

/// A PNG file as a `data:` URL.
pub fn png_data_url(png: &[u8]) -> (url: String)
    requires
        encodable(png@),
    ensures
        url@ == png_url_prefix() + base64_standard(png@),
{
    let text = base64_encode(png);
    proof {
        reveal_strlit("data:image/png;base64,");
    }
    String::from_str("data:image/png;base64,").concat(text.as_str())
}

/// What a preview of an 8-bit grey image gives: its PNG file as a `data:`
/// URL (`Some`), none when the file is too large for base64 text, or the
/// message of the encoder's error.
pub open spec fn preview_url(width: int, height: int, gray: Seq<u8>) -> Result<
    Option<Seq<char>>,
    Seq<char>,
> {
    match png_gray8(width, height, gray) {
        Ok(png) => if encodable(png) {
            Ok(Some(png_url_prefix() + base64_standard(png)))
        } else {
            Ok(None)
        },
        Err(m) => Err(m),
    }
}

/// Encodes an 8-bit grey image of `width` × `height` samples, row by row,
/// as a PNG `data:` URL.
pub fn preview_data_url(width: u32, height: u32, gray: Vec<u8>) -> (r: Result<
    Option<String>,
    String,
>)
    requires
        gray@.len() == width * height,
    ensures
        match r {
            Ok(Some(url)) => preview_url(width as int, height as int, gray@) == Ok::<
                Option<Seq<char>>,
                Seq<char>,
            >(Some(url@)),
            Ok(None) => preview_url(width as int, height as int, gray@) == Ok::<
                Option<Seq<char>>,
                Seq<char>,
            >(None),
            Err(m) => preview_url(width as int, height as int, gray@) == Err::<
                Option<Seq<char>>,
                Seq<char>,
            >(m@),
        },
{
    match png_gray(width, height, gray) {
        Ok(png) => {
            let n = png.len();
            if n / 3 <= (isize::MAX as usize - 4) / 4 {
                assert(n / 3 * 4 + 4 <= isize::MAX);
                Ok(Some(png_data_url(png.as_slice())))
            } else {
                Ok(None)
            }
        },
        Err(m) => Err(m),
    }
}

} // verus!
