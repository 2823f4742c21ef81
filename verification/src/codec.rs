//! The outside encoders the screenshot path relies on: JPEG (`image`)
//! and Base64 (`base64`). Each item here is trusted: its contract states
//! what the outside crate's source shows, and nothing checks it.

use vstd::prelude::*;

use base64::Engine;

use crate::text::decimal;

verus! {

/// An `image::RgbaImage` (an `ImageBuffer` of RGBA bytes). Verus cannot
/// declare `ImageBuffer` itself (its parameter is bound by `image`'s
/// `Pixel` trait), so the buffer is held here, out of Verus's sight.
#[verifier::external_body]
pub struct RgbaImage {
    image: image::RgbaImage,
}

/// Width, height and raw RGBA bytes held by an image buffer.
pub uninterp spec fn rgba_image_contents(image: RgbaImage) -> (u32, u32, Seq<u8>);

/// The JPEG file that `image` writes for an RGBA picture of the given size
/// and bytes at the given quality (alpha dropped, as `DynamicImage` does
/// for JPEG).
pub uninterp spec fn jpeg_encoding(width: u32, height: u32, rgba: Seq<u8>, quality: u8) -> Seq<u8>;

/// The character of a 6-bit value in the standard Base64 alphabet
/// (`A-Z`, `a-z`, `0-9`, `+`, `/`).
pub open spec fn base64_char(v: int) -> char {
    if v < 26 {
        ('A' as int + v) as char
    } else if v < 52 {
        ('a' as int + (v - 26)) as char
    } else if v < 62 {
        ('0' as int + (v - 52)) as char
    } else if v == 62 {
        '+'
    } else {
        '/'
    }
}

/// Standard Base64 with `=` padding: each group of three bytes becomes four
/// characters of six bits each; a last group of one or two bytes is padded
/// with `=` to four characters.
pub open spec fn base64_text(b: Seq<u8>) -> Seq<char>
    decreases b.len(),
{
    let x = b[0] as int;
    let y = b[1] as int;
    let z = b[2] as int;
    if b.len() == 0 {
        Seq::empty()
    } else if b.len() == 1 {
        seq![base64_char(x / 4), base64_char((x % 4) * 16), '=', '=']
    } else if b.len() == 2 {
        seq![base64_char(x / 4), base64_char((x % 4) * 16 + y / 16), base64_char((y % 16) * 4), '=']
    } else {
        seq![
            base64_char(x / 4),
            base64_char((x % 4) * 16 + y / 16),
            base64_char((y % 16) * 4 + z / 64),
            base64_char(z % 64),
        ] + base64_text(b.skip(3))
    }
}

/// The message of the JPEG encoder's size error, as `ImageError` prints it.
pub open spec fn jpeg_size_error(width: u32, height: u32) -> Seq<char> {
    "Format error encoding Jpeg:\nInvalid image size ("@ + decimal(width as nat) + " x "@
        + decimal(height as nat) + ") to encode as JPEG: width and height must be >= 1 and <= 65535"@
}

/// Whether `4 * width * height` bytes fit in `len`, with neither `4 * width`
/// nor `4 * width * height` overflowing `usize` (the order in which
/// `ImageBuffer` multiplies).
pub open spec fn rgba_fits(width: u32, height: u32, len: nat) -> bool {
    &&& 4 * width <= usize::MAX
    &&& 4 * width * height <= usize::MAX
    &&& 4 * width * height <= len
}

/// `ImageBuffer::from_raw`: an RGBA image over `pixels` when the buffer holds
/// at least `4 * width * height` bytes (and that product fits in `usize`),
/// `None` otherwise. The image keeps the whole buffer.
#[verifier::external_body]
pub(crate) fn rgba_image_from_raw(width: u32, height: u32, pixels: Vec<u8>) -> (r: Option<RgbaImage>)
    ensures
        r is Some <==> rgba_fits(width, height, pixels@.len()),
        r matches Some(img) ==> rgba_image_contents(img) == (width, height, pixels@),
{
    match image::RgbaImage::from_raw(width, height, pixels) {
        Some(image) => Some(RgbaImage { image }),
        None => None,
    }
}

/// `DynamicImage::write_with_encoder` with `JpegEncoder::new_with_quality`
/// into an in-memory buffer. The source refuses sizes outside
/// `1..=65535` on either side, with its size error turned into text, and
/// otherwise writes the JPEG bytes (writing to memory cannot fail). The
/// bound on the output length is the one every `Vec<u8>` obeys (no
/// allocation exceeds `isize::MAX` bytes).
#[verifier::external_body]
pub(crate) fn encode_jpeg(image: RgbaImage, quality: u8) -> (r: Result<Vec<u8>, String>)
    ensures
        r is Ok <==> ({
            let (w, h, _px) = rgba_image_contents(image);
            1 <= w <= 65535 && 1 <= h <= 65535
        }),
        r matches Ok(bytes) ==> ({
            let (w, h, px) = rgba_image_contents(image);
            bytes@ == jpeg_encoding(w, h, px, quality) && bytes@.len() <= isize::MAX
        }),
        r matches Err(e) ==> ({
            let (w, h, _px) = rgba_image_contents(image);
            e@ == jpeg_size_error(w, h)
        }),
{
    let mut out = std::io::Cursor::new(Vec::new());
    let encoder = image::codecs::jpeg::JpegEncoder::new_with_quality(&mut out, quality);
    image::DynamicImage::ImageRgba8(image.image).write_with_encoder(encoder).map_err(|e| e.to_string())?;
    Ok(out.into_inner())
}

/// `base64::engine::general_purpose::STANDARD.encode`. The source panics
/// when the encoded length overflows `usize`, so such inputs are excluded.
#[verifier::external_body]
pub(crate) fn base64_encode(bytes: &[u8]) -> (s: String)
    requires
        bytes@.len() / 3 * 4 + 4 <= usize::MAX,
    ensures
        s@ == base64_text(bytes@),
{
    base64::engine::general_purpose::STANDARD.encode(bytes)
}

/// Text is the standard Base64 encoding of some bytes.
pub open spec fn is_base64(text: Seq<char>) -> bool {
    exists|b: Seq<u8>| #[trigger] base64_text(b) == text
}

/// `base64::engine::general_purpose::STANDARD.decode`, with the error
/// turned into its message (which message is not stated here). The
/// STANDARD engine requires canonical padding and rejects set trailing
/// bits (`GeneralPurposeConfig::new`), so it accepts exactly the texts
/// that standard encoding produces, and gives back the bytes encoded.
#[verifier::external_body]
pub(crate) fn base64_decode(text: &str) -> (r: Result<Vec<u8>, String>)
    ensures
        r is Ok <==> is_base64(text@),
        r matches Ok(bytes) ==> base64_text(bytes@) == text@,
{
    base64::engine::general_purpose::STANDARD.decode(text).map_err(|e| e.to_string())
}

proof fn lemma_base64_char(v: int, w: int)
    requires
        0 <= v < 64,
        0 <= w < 64,
    ensures
        base64_char(v) != '=',
        base64_char(v) == base64_char(w) ==> v == w,
{
}

/// Different bytes never have the same standard Base64 text.
pub proof fn lemma_base64_injective(a: Seq<u8>, b: Seq<u8>)
    requires
        base64_text(a) == base64_text(b),
    ensures
        a == b,
    decreases a.len(),
{
    let ta = base64_text(a);
    let tb = base64_text(b);
    if a.len() == 0 || b.len() == 0 {
        if a.len() > 0 {
            assert(ta.len() > 0);
        }
        if b.len() > 0 {
            assert(tb.len() > 0);
        }
        assert(a =~= b);
        return;
    }
    let (xa, ya, za) = (a[0] as int, a[1] as int, a[2] as int);
    let (xb, yb, zb) = (b[0] as int, b[1] as int, b[2] as int);
    assert(ta[0] == tb[0]);
    assert(ta[1] == tb[1]);
    assert(ta[2] == tb[2]);
    assert(ta[3] == tb[3]);
    lemma_base64_char(xa / 4, xb / 4);
    if a.len() == 1 {
        lemma_base64_char((xa % 4) * 16, 0);
        if b.len() >= 2 {
            lemma_base64_char((yb % 16) * 4, 0);
            lemma_base64_char((yb % 16) * 4 + zb / 64, 0);
            assert(false);
        }
        lemma_base64_char((xa % 4) * 16, (xb % 4) * 16);
        assert(a =~= b);
        return;
    }
    if b.len() == 1 {
        lemma_base64_char((ya % 16) * 4, 0);
        lemma_base64_char((ya % 16) * 4 + za / 64, 0);
        assert(false);
    }
    lemma_base64_char((xa % 4) * 16 + ya / 16, (xb % 4) * 16 + yb / 16);
    if a.len() == 2 {
        if b.len() >= 3 {
            lemma_base64_char(zb % 64, 0);
            assert(false);
        }
        lemma_base64_char((ya % 16) * 4, (yb % 16) * 4);
        assert(a =~= b);
        return;
    }
    if b.len() == 2 {
        lemma_base64_char(za % 64, 0);
        assert(false);
    }
    lemma_base64_char((ya % 16) * 4 + za / 64, (yb % 16) * 4 + zb / 64);
    lemma_base64_char(za % 64, zb % 64);
    assert(ta.skip(4) =~= base64_text(a.skip(3)));
    assert(tb.skip(4) =~= base64_text(b.skip(3)));
    lemma_base64_injective(a.skip(3), b.skip(3));
    assert(a =~= a.take(3) + a.skip(3));
    assert(b =~= b.take(3) + b.skip(3));
    assert(a.take(3) =~= b.take(3));
}

} // verus!
