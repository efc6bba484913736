//! Text and byte encodings that the stickers need and that other crates
//! compute: lower case, percent-encoding, base64 and QR codes.

use vstd::prelude::*;
use vstd::string::StringSliceAdditionalSpecFns;

verus! {

/// The lower-case form of `s`, as `str::to_lowercase` gives it.
pub uninterp spec fn lowercase(s: Seq<char>) -> Seq<char>;

/// Calls `str::to_lowercase`. The result is the lower-case form of `s`
/// under the Unicode rules that std implements; the contract gives it the
/// name `lowercase` and says nothing else of it.
#[verifier::external_body]
pub(crate) fn to_lowercase(s: &str) -> (r: String)
    ensures
        r@ == lowercase(s@),
{
    s.to_lowercase()
}

/// The bytes that percent-encoding leaves as they are: ASCII letters and
/// digits, `-`, `.`, `_` and `~`.
pub open spec fn is_unreserved(b: u8) -> bool {
    ||| 0x30 <= b <= 0x39
    ||| 0x41 <= b <= 0x5A
    ||| 0x61 <= b <= 0x7A
    ||| b == 0x2D
    ||| b == 0x2E
    ||| b == 0x5F
    ||| b == 0x7E
}

/// The upper-case hexadecimal digit of `d`, for `d` below 16.
pub open spec fn hex_digit(d: int) -> char {
    if d < 10 {
        ((0x30 + d) as u8) as char
    } else {
        ((0x37 + d) as u8) as char
    }
}

/// What stands for the byte `b` in percent-encoded text.
pub open spec fn percent_encoded_byte(b: u8) -> Seq<char> {
    if is_unreserved(b) {
        seq![b as char]
    } else {
        seq!['%', hex_digit(b as int / 16), hex_digit(b as int % 16)]
    }
}

/// The percent-encoding of `bytes`.
pub open spec fn percent_encoded(bytes: Seq<u8>) -> Seq<char>
    decreases bytes.len(),
{
    if bytes.len() == 0 {
        Seq::empty()
    } else {
        percent_encoded(bytes.drop_last()) + percent_encoded_byte(bytes.last())
    }
}

/// Calls `urlencoding::encode`, which percent-encodes every byte of the
/// UTF-8 form of `s` except ASCII letters and digits, `-`, `.`, `_` and `~`,
/// with upper-case hexadecimal digits.
#[verifier::external_body]
pub(crate) fn url_encode(s: &str) -> (r: String)
    ensures
        r@ == percent_encoded(s.spec_bytes()),
{
    urlencoding::encode(s).into_owned()
}

/// The character of the base64 digit `v`, for `v` below 64, in the standard
/// alphabet.
pub open spec fn base64_digit(v: int) -> char {
    if v < 26 {
        ((0x41 + v) as u8) as char
    } else if v < 52 {
        ((0x61 + v - 26) as u8) as char
    } else if v < 62 {
        ((0x30 + v - 52) as u8) as char
    } else if v == 62 {
        '+'
    } else {
        '/'
    }
}

/// The base64 form of `bytes`, in the standard alphabet and padded with `=`
/// to a multiple of four characters.
pub open spec fn base64(bytes: Seq<u8>) -> Seq<char>
    decreases bytes.len(),
{
    if bytes.len() == 0 {
        Seq::empty()
    } else if bytes.len() == 1 {
        seq![base64_digit(bytes[0] as int / 4), base64_digit((bytes[0] as int % 4) * 16), '=', '=']
    } else if bytes.len() == 2 {
        seq![
            base64_digit(bytes[0] as int / 4),
            base64_digit((bytes[0] as int % 4) * 16 + bytes[1] as int / 16),
            base64_digit((bytes[1] as int % 16) * 4),
            '=',
        ]
    } else {
        seq![
            base64_digit(bytes[0] as int / 4),
            base64_digit((bytes[0] as int % 4) * 16 + bytes[1] as int / 16),
            base64_digit((bytes[1] as int % 16) * 4 + bytes[2] as int / 64),
            base64_digit(bytes[2] as int % 64),
        ] + base64(bytes.skip(3))
    }
}

/// Whether the base64 form of `len` bytes has a length that fits in
/// `usize`.
pub open spec fn base64_fits(len: nat) -> bool {
    (len / 3) * 4 + 4 <= usize::MAX
}

/// Calls `encode` of the base64 crate's general-purpose engine, made with
/// the standard alphabet and the default configuration. That engine writes
/// the base64 form of the input with padding. It panics where the length of
/// the result does not fit in `usize`, which `requires` leaves out.
#[verifier::external_body]
pub(crate) fn base64_encode(bytes: &Vec<u8>) -> (r: String)
    requires
        base64_fits(bytes@.len()),
    ensures
        r@ == base64(bytes@),
{
    let config = base64::engine::general_purpose::GeneralPurposeConfig::default();
    let engine = base64::engine::general_purpose::GeneralPurpose::new(
        &base64::alphabet::STANDARD,
        config,
    );
    base64::Engine::encode(&engine, bytes)
}

/// The longest text, in bytes, that is handed to the QR code generator.
/// No QR code holds that much.
pub const QR_TEXT_LIMIT: usize = 0xFFFF;

/// The SVG document of the QR code of `text`, of the lowest error
/// correction level and `size` pixels wide, as the generator gives it; or
/// `None` where it gives none, because the text is too long for a QR code or
/// the size too small for it.
pub uninterp spec fn qr_svg(text: Seq<char>, size: nat) -> Option<Seq<char>>;

/// Calls `qrcode_generator::to_svg_to_string` with the lowest error
/// correction level and without a description. The result is a function of
/// the text and the size alone; the contract gives it the name `qr_svg`. An
/// error of the generator becomes `None`.
#[verifier::external_body]
pub(crate) fn qr_svg_of(text: &str, size: usize) -> (r: Option<String>)
    requires
        text.spec_bytes().len() <= QR_TEXT_LIMIT,
    ensures
        r is Some <==> qr_svg(text@, size as nat) is Some,
        r matches Some(svg) ==> svg@ == qr_svg(text@, size as nat).unwrap(),
{
    qrcode_generator::to_svg_to_string(text, qrcode_generator::QrCodeEcc::Low, size, None::<&str>)
        .ok()
}

} // verus!
