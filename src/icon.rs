//! Turning a raw icon bitmap into a text-encoded PNG image.
//!
//! The operating system hands over a color bitmap as its width, its height
//! and its bits, four bytes per pixel with the color channels in
//! blue-green-red order. The library checks the geometry, brings the channels
//! into red-green-blue-alpha order, encodes a PNG image and turns it into
//! base64 text.

use vstd::prelude::*;
use vstd::string::*;
use image::ImageEncoder;

verus! {

/// Why no icon payload could be produced.
#[derive(Debug, PartialEq, Eq)]
pub enum IconError {
    /// The file has no icon at index 0.
    IconNotFound,
    /// The icon's bitmaps could not be queried.
    IconInfoUnavailable,
    /// The color bitmap's geometry could not be queried.
    BitmapInfoUnavailable,
    /// The color bitmap's bits could not be copied.
    BitmapBitsUnavailable,
    /// The bits do not fill `width * height` pixels of four bytes exactly.
    MalformedBitmap,
    /// The image encoder failed, with its message.
    CodecFailure(String),
}

/// Bytes per pixel, in the bitmap and in the image.
pub const BYTES_PER_PIXEL: u64 = 4;

/// The PNG file that the image encoder makes of `pixels`, an RGBA image of
/// `width` by `height` pixels.
pub uninterp spec fn png_rgba_of(width: u32, height: u32, pixels: Seq<u8>) -> Seq<u8>;

/// The standard, padded base64 text of `bytes`.
pub uninterp spec fn base64_of(bytes: Seq<u8>) -> Seq<char>;

/// Relies on `image::ImageBuffer::<Rgba<u8>, Vec<u8>>::from_raw`: it gives an
/// image exactly when the buffer holds at least `4 * width * height` bytes.
#[verifier::external_body]
fn image_fits(width: u32, height: u32, pixels: Vec<u8>) -> (r: bool)
    ensures
        r == (4 * width * height <= pixels@.len()),
{
    image::ImageBuffer::<image::Rgba<u8>, Vec<u8>>::from_raw(width, height, pixels).is_some()
}

/// Relies on `image::codecs::png::PngEncoder::write_image` with
/// `ColorType::Rgba8`, which panics unless the buffer holds exactly
/// `4 * width * height` bytes, and on its error's text. Into a `Vec` it fails
/// only on a zero width or height, which the PNG format does not allow.
#[verifier::external_body]
fn encode_png(pixels: &Vec<u8>, width: u32, height: u32) -> (r: Result<Vec<u8>, String>)
    requires
        pixels@.len() == 4 * width * height,
    ensures
        r is Ok ==> r->Ok_0@ == png_rgba_of(width, height, pixels@),
        r is Ok <==> (width > 0 && height > 0),
{
    let mut buf = Vec::new();
    let encoder = image::codecs::png::PngEncoder::new(&mut buf);
    match encoder.write_image(pixels, width, height, image::ColorType::Rgba8) {
        Ok(()) => Ok(buf),
        Err(e) => Err(e.to_string()),
    }
}

/// A character of the standard base64 alphabet, or the padding `=`.
pub open spec fn is_base64_char(c: char) -> bool {
    ('A' <= c && c <= 'Z') || ('a' <= c && c <= 'z') || ('0' <= c && c <= '9') || c == '+' || c
        == '/' || c == '='
}

/// The shape of the padded base64 text of `n` bytes: four characters for each
/// started group of three bytes, all of the alphabet.
pub open spec fn padded_base64_shape(s: Seq<char>, n: nat) -> bool {
    &&& s.len() == 4 * ((n + 2) / 3)
    &&& forall|k: int| 0 <= k < s.len() ==> is_base64_char(#[trigger] s[k])
}

/// Relies on `base64::encode`, the standard alphabet with padding: four
/// characters for each started group of three bytes.
#[verifier::external_body]
#[allow(deprecated)]
fn to_base64(bytes: &Vec<u8>) -> (r: String)
    ensures
        r@ == base64_of(bytes@),
        padded_base64_shape(r@, bytes@.len()),
{
    base64::encode(bytes)
}

/// Byte `i` of `raw` once the first and third byte of each whole group of
/// four have traded places; bytes after the last whole group stay.
pub open spec fn canonical_byte(raw: Seq<u8>, i: int) -> u8 {
    let whole = i - i % 4 + 4 <= raw.len();
    if whole && i % 4 == 0 {
        raw[i + 2]
    } else if whole && i % 4 == 2 {
        raw[i - 2]
    } else {
        raw[i]
    }
}

/// `raw` with its channels in canonical order.
pub open spec fn canonical_order(raw: Seq<u8>) -> Seq<u8> {
    Seq::new(raw.len(), |i: int| canonical_byte(raw, i))
}

/// Whether `len` bytes are exactly `width * height` pixels.
pub open spec fn geometry_matches(width: i32, height: i32, len: nat) -> bool {
    width >= 0 && height >= 0 && len == 4 * width * height
}

/// Swaps the first and third byte of every whole group of four, turning
/// blue-green-red-alpha pixels into red-green-blue-alpha ones.
pub fn swap_red_blue(buf: &mut Vec<u8>)
    ensures
        final(buf)@ == canonical_order(old(buf)@),
{
    let ghost raw = buf@;
    let len = buf.len();
    let mut i: usize = 0;
    while len - i >= 4
        invariant
            len == raw.len(),
            buf@.len() == len,
            i <= len,
            i % 4 == 0,
            forall|k: int| 0 <= k < i ==> buf@[k] == canonical_byte(raw, k),
            forall|k: int| i <= k < len ==> buf@[k] == raw[k],
        decreases len - i,
    {
        let first = buf[i];
        let third = buf[i + 2];
        buf.set(i, third);
        buf.set(i + 2, first);
        assert forall|k: int| i <= k < i + 4 implies buf@[k] == canonical_byte(raw, k) by {
            assert(k % 4 == k - i);
        }
        i = i + 4;
    }
    assert forall|k: int| i <= k < len implies buf@[k] == canonical_byte(raw, k) by {
        assert(k - k % 4 + 4 > len);
    }
    assert(buf@ =~= canonical_order(raw));
}

/// The size of the buffer that holds the bits of a `width` by `height`
/// bitmap: none for a negative side or a size past `usize`.
pub fn pixel_buffer_len(width: i32, height: i32) -> (r: Option<usize>)
    ensures
        r is Some <==> width >= 0 && height >= 0 && 4 * width * height <= usize::MAX,
        r is Some ==> r->Some_0 == 4 * width * height,
{
    if width < 0 || height < 0 {
        return None;
    }
    let w = width as u64;
    let h = height as u64;
    assert(w * h < 0x4000_0000_0000_0000) by (nonlinear_arith)
        requires
            w < 0x8000_0000,
            h < 0x8000_0000,
    ;
    let n = BYTES_PER_PIXEL * (w * h);
    assert(n == 4 * width * height) by (nonlinear_arith)
        requires
            n == 4 * (w * h),
            w == width,
            h == height,
    ;
    if n <= usize::MAX as u64 {
        Some(n as usize)
    } else {
        None
    }
}

/// The payload for an encoded PNG file: its base64 text, or the encoder's
/// failure.
pub fn payload_from_png(png: Result<Vec<u8>, String>) -> (r: Result<String, IconError>)
    ensures
        png is Ok ==> r is Ok && r->Ok_0@ == base64_of(png->Ok_0@) && padded_base64_shape(
            r->Ok_0@,
            png->Ok_0@.len(),
        ),
        png is Err ==> r == Err::<String, IconError>(IconError::CodecFailure(png->Err_0)),
{
    match png {
        Ok(bytes) => Ok(to_base64(&bytes)),
        Err(e) => Err(IconError::CodecFailure(e)),
    }
}

/// Decodes the bits of an icon's color bitmap, `width` by `height` pixels of
/// blue-green-red-alpha bytes, into a base64 PNG image of the same geometry
/// with its channels in red-green-blue-alpha order. Bits that do not fill the
/// geometry exactly are refused, neither truncated nor padded; any other
/// bitmap with pixels is encoded. The PNG format has no empty image, so a
/// bitmap without pixels is a codec failure.
pub fn encode_icon_bitmap(width: i32, height: i32, bits: Vec<u8>) -> (r: Result<String, IconError>)
    ensures
        !geometry_matches(width, height, bits@.len()) ==> r == Err::<String, IconError>(
            IconError::MalformedBitmap,
        ),
        geometry_matches(width, height, bits@.len()) ==> match r {
            Ok(s) => s@ == base64_of(
                png_rgba_of(width as u32, height as u32, canonical_order(bits@)),
            ),
            Err(e) => e is CodecFailure,
        },
        geometry_matches(width, height, bits@.len()) && width > 0 && height > 0 ==> r is Ok,
        geometry_matches(width, height, bits@.len()) && (width == 0 || height == 0) ==> r is Err
            && r->Err_0 is CodecFailure,
{
    let len = bits.len();
    let expected = pixel_buffer_len(width, height);
    match expected {
        None => {
            return Err(IconError::MalformedBitmap);
        },
        Some(n) => {
            if n != len {
                return Err(IconError::MalformedBitmap);
            }
        },
    }
    let w = width as u32;
    let h = height as u32;
    let mut pixels = bits;
    swap_red_blue(&mut pixels);
    if !image_fits(w, h, pixels.clone()) {
        return Err(IconError::MalformedBitmap);
    }
    let png = encode_png(&pixels, w, h);
    payload_from_png(png)
}

/// The path whose icon is looked up: the canonical form where there is one,
/// else the path as given.
pub fn resolve_icon_path(canonical: Option<String>, raw: String) -> (r: String)
    ensures
        canonical is Some ==> r == canonical->Some_0,
        canonical is None ==> r == raw,
{
    match canonical {
        Some(c) => c,
        None => raw,
    }
}

/// The payload of the bundled default icon, a PNG file.
pub fn default_icon_payload(png: &Vec<u8>) -> (r: String)
    ensures
        r@ == base64_of(png@),
        padded_base64_shape(r@, png@.len()),
{
    to_base64(png)
}

/// The icon to show for a dropped application: the resolved one, or the
/// default payload whatever went wrong, so that a failed lookup never stops a
/// registration.
pub fn icon_or_default(icon: Result<String, IconError>, default_payload: String) -> (r: String)
    ensures
        icon is Ok ==> r == icon->Ok_0,
        icon is Err ==> r == default_payload,
{
    match icon {
        Ok(s) => s,
        Err(_) => default_payload,
    }
}

impl IconError {
    /// A human-readable account of the failure.
    pub fn message(&self) -> (r: String)
        ensures
            self is CodecFailure ==> r == self->CodecFailure_0,
            self is IconNotFound ==> r@ == "Failed to load icon."@,
            self is IconInfoUnavailable ==> r@ == "Failed to get icon info."@,
            self is BitmapInfoUnavailable ==> r@ == "Failed to get bitmap info."@,
            self is BitmapBitsUnavailable ==> r@ == "Failed to get bitmap bits."@,
            self is MalformedBitmap ==> r@ == "Failed to create image buffer."@,
    {
        match self {
            IconError::IconNotFound => String::from_str("Failed to load icon."),
            IconError::IconInfoUnavailable => String::from_str("Failed to get icon info."),
            IconError::BitmapInfoUnavailable => String::from_str("Failed to get bitmap info."),
            IconError::BitmapBitsUnavailable => String::from_str("Failed to get bitmap bits."),
            IconError::MalformedBitmap => String::from_str("Failed to create image buffer."),
            IconError::CodecFailure(e) => e.clone(),
        }
    }
}

} // verus!
