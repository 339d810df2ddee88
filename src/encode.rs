//! Turns the bytes of an image into a `data:<mime>;base64,<payload>` URI.
use crate::bytes::{ascii, ascii_bytes, ends_with, has_prefix, has_suffix, push_all, starts_with};
use vstd::prelude::*;
use vstd::utf8::valid_utf8;

verus! {

/// The image formats that a signature check tells apart; `Other` stands for
/// every recognised format that is not inlined.
#[derive(Clone, Copy, Debug, PartialEq, Eq, Structural)]
pub enum ImageKind {
    Jpeg,
    Png,
    Gif,
    Bmp,
    Tiff,
    Ico,
    WebP,
    Other,
}

/// The eight-byte PNG signature.
pub open spec fn png_signature() -> Seq<u8> {
    seq![0x89u8, 0x50u8, 0x4eu8, 0x47u8, 0x0du8, 0x0au8, 0x1au8, 0x0au8]
}

/// The format that the leading bytes of `bytes` announce, `None` when no
/// known signature matches.
pub uninterp spec fn sniffed_format(bytes: Seq<u8>) -> Option<ImageKind>;

/// The standard, padded base64 text of `bytes`, as ASCII bytes.
pub uninterp spec fn base64_of(bytes: Seq<u8>) -> Seq<u8>;

/// Relies on image::guess_format: a fixed table of leading signatures, the
/// PNG one first; an error when none matches.
#[verifier::external_body]
fn guess_kind(bytes: &[u8]) -> (r: Option<ImageKind>)
    ensures
        r == sniffed_format(bytes@),
        has_prefix(bytes@, png_signature()) ==> r == Some(ImageKind::Png),
        bytes@.len() == 0 ==> r.is_none(),
{
    match image::guess_format(bytes) {
        Ok(image::ImageFormat::Jpeg) => Some(ImageKind::Jpeg),
        Ok(image::ImageFormat::Png) => Some(ImageKind::Png),
        Ok(image::ImageFormat::Gif) => Some(ImageKind::Gif),
        Ok(image::ImageFormat::Bmp) => Some(ImageKind::Bmp),
        Ok(image::ImageFormat::Tiff) => Some(ImageKind::Tiff),
        Ok(image::ImageFormat::Ico) => Some(ImageKind::Ico),
        Ok(image::ImageFormat::WebP) => Some(ImageKind::WebP),
        Ok(_) => Some(ImageKind::Other),
        Err(_) => None,
    }
}

/// Relies on base64's `STANDARD` engine `encode`: standard alphabet, with
/// padding; the text depends on the bytes alone.
#[verifier::external_body]
fn encode_base64(bytes: &[u8]) -> (r: Vec<u8>)
    ensures
        r@ == base64_of(bytes@),
{
    base64::Engine::encode(&base64::prelude::BASE64_STANDARD, bytes).into_bytes()
}

/// Relies on std::str::from_utf8, which succeeds exactly on well-formed
/// UTF-8.
#[verifier::external_body]
fn is_utf8(bytes: &[u8]) -> (r: bool)
    ensures
        r == valid_utf8(bytes@),
{
    std::str::from_utf8(bytes).is_ok()
}

/// The MIME type under which a format is inlined.
pub open spec fn mime_of(kind: ImageKind) -> Option<Seq<u8>> {
    match kind {
        ImageKind::Jpeg => Some(ascii("image/jpeg"@)),
        ImageKind::Png => Some(ascii("image/png"@)),
        ImageKind::Gif => Some(ascii("image/gif"@)),
        ImageKind::Bmp => Some(ascii("image/bmp"@)),
        ImageKind::Tiff => Some(ascii("image/tiff"@)),
        ImageKind::Ico => Some(ascii("image/x-icon"@)),
        ImageKind::WebP => Some(ascii("image/webp"@)),
        ImageKind::Other => None,
    }
}

pub open spec fn svg_mime() -> Seq<u8> {
    ascii("image/svg+xml"@)
}

/// `data:<mime>;base64,<payload in base64>`.
pub open spec fn data_uri(mime: Seq<u8>, payload: Seq<u8>) -> Seq<u8> {
    ascii("data:"@) + mime + ascii(";base64,"@) + base64_of(payload)
}

/// A local path names an SVG file when its file name is `<stem>.svg` with a
/// non-empty stem.
pub open spec fn has_svg_extension(path: Seq<u8>) -> bool {
    has_suffix(path, ascii(".svg"@)) && path.len() > 4 && path[path.len() - 5] != '/' as u8
}

/// Fetched bytes that open with `<svg` and close with `</svg>`.
pub open spec fn looks_like_svg(bytes: Seq<u8>) -> bool {
    has_prefix(bytes, ascii("<svg"@)) && has_suffix(bytes, ascii("</svg>"@))
}

/// Whether an image is inlined as SVG text: a local file by its extension, a
/// URL by its ending or by what it returned.
pub open spec fn treated_as_svg(remote: bool, location: Seq<u8>, bytes: Seq<u8>) -> bool {
    if remote {
        has_suffix(location, ascii(".svg"@)) || looks_like_svg(bytes)
    } else {
        has_svg_extension(location)
    }
}

/// The data URI for an image loaded from `location`, or `None` when it is not
/// inlined: SVG text that is not UTF-8, or bytes of no supported format.
pub open spec fn encoded_image(remote: bool, location: Seq<u8>, bytes: Seq<u8>) -> Option<Seq<u8>> {
    if treated_as_svg(remote, location, bytes) {
        if valid_utf8(bytes) {
            Some(data_uri(svg_mime(), bytes))
        } else {
            None
        }
    } else {
        match sniffed_format(bytes) {
            Some(kind) => match mime_of(kind) {
                Some(mime) => Some(data_uri(mime, bytes)),
                None => None,
            },
            None => None,
        }
    }
}

/// The MIME type of a format, `None` for one that is not inlined.
pub fn mime_type(kind: ImageKind) -> (r: Option<&'static [u8]>)
    ensures
        match (r, mime_of(kind)) {
            (Some(m), Some(s)) => m@ == s,
            (None, None) => true,
            _ => false,
        },
{
    proof {
        reveal_strlit("image/jpeg");
        reveal_strlit("image/png");
        reveal_strlit("image/gif");
        reveal_strlit("image/bmp");
        reveal_strlit("image/tiff");
        reveal_strlit("image/x-icon");
        reveal_strlit("image/webp");
    }
    match kind {
        ImageKind::Jpeg => Some(ascii_bytes("image/jpeg")),
        ImageKind::Png => Some(ascii_bytes("image/png")),
        ImageKind::Gif => Some(ascii_bytes("image/gif")),
        ImageKind::Bmp => Some(ascii_bytes("image/bmp")),
        ImageKind::Tiff => Some(ascii_bytes("image/tiff")),
        ImageKind::Ico => Some(ascii_bytes("image/x-icon")),
        ImageKind::WebP => Some(ascii_bytes("image/webp")),
        ImageKind::Other => None,
    }
}

/// `data:<mime>;base64,<payload in base64>`.
pub fn make_data_uri(mime: &[u8], payload: &[u8]) -> (r: Vec<u8>)
    ensures
        r@ == data_uri(mime@, payload@),
{
    proof {
        reveal_strlit("data:");
        reveal_strlit(";base64,");
    }
    let mut out: Vec<u8> = Vec::new();
    push_all(&mut out, ascii_bytes("data:"));
    push_all(&mut out, mime);
    push_all(&mut out, ascii_bytes(";base64,"));
    let encoded = encode_base64(payload);
    push_all(&mut out, encoded.as_slice());
    out
}

pub fn has_svg_extension_exec(path: &[u8]) -> (r: bool)
    ensures
        r == has_svg_extension(path@),
{
    proof {
        reveal_strlit(".svg");
    }
    ends_with(path, ascii_bytes(".svg")) && path.len() > 4 && path[path.len() - 5] != '/' as u8
}

pub fn looks_like_svg_exec(bytes: &[u8]) -> (r: bool)
    ensures
        r == looks_like_svg(bytes@),
{
    proof {
        reveal_strlit("<svg");
        reveal_strlit("</svg>");
    }
    starts_with(bytes, ascii_bytes("<svg")) && ends_with(bytes, ascii_bytes("</svg>"))
}

/// The data URI for the bytes of an image loaded from `location` (a URL when
/// `remote`, else a file path), or `None` when the image is left as it is.
pub fn encode_image(remote: bool, location: &[u8], bytes: &[u8]) -> (r: Option<Vec<u8>>)
    ensures
        r.deep_view() == encoded_image(remote, location@, bytes@),
{
    proof {
        reveal_strlit(".svg");
        reveal_strlit("image/svg+xml");
    }
    let svg = if remote {
        ends_with(location, ascii_bytes(".svg")) || looks_like_svg_exec(bytes)
    } else {
        has_svg_extension_exec(location)
    };
    if svg {
        if is_utf8(bytes) {
            Some(make_data_uri(ascii_bytes("image/svg+xml"), bytes))
        } else {
            None
        }
    } else {
        match guess_kind(bytes) {
            Some(kind) => match mime_type(kind) {
                Some(mime) => Some(make_data_uri(mime, bytes)),
                None => None,
            },
            None => None,
        }
    }
}

} // verus!
