use base64::Engine;
use img_inline::bytes::{ends_with, replace_bytes, starts_with};
use img_inline::encode::{encode_image, has_svg_extension_exec, looks_like_svg_exec, make_data_uri, mime_type, ImageKind};
use img_inline::reference::{classify_reference, image_references, is_absolute_path, is_relative_path, resolve_local_path};
use img_inline::rewrite::{convert_img_to_base64, image_data_uri, LoadedImage};

const PNG: &[u8] = &[0x89, b'P', b'N', b'G', 0x0d, 0x0a, 0x1a, 0x0a, 0, 0, 0, 13, b'I', b'H', b'D', b'R', 1, 2, 3];

fn text(v: &[u8]) -> String {
    String::from_utf8(v.to_vec()).unwrap()
}

fn decode(payload: &str) -> Vec<u8> {
    base64::prelude::BASE64_STANDARD.decode(payload).unwrap()
}

fn load(html: &str, base: &str, found: &[(&str, &[u8])]) -> Vec<LoadedImage> {
    image_references(html, base.as_bytes())
        .into_iter()
        .map(|r| {
            let bytes = found
                .iter()
                .find(|(loc, _)| loc.as_bytes() == r.location.as_slice())
                .map(|(_, b)| b.to_vec());
            LoadedImage { reference: r, bytes }
        })
        .collect()
}

#[test]
fn replace_is_global_and_leftmost() {
    assert_eq!(replace_bytes(b"a-b-a", b"a", b"xy"), b"xy-b-xy".to_vec());
    assert_eq!(replace_bytes(b"aaa", b"aa", b"b"), b"ba".to_vec());
    assert_eq!(replace_bytes(b"abc", b"", b"z"), b"abc".to_vec());
    assert_eq!(replace_bytes(b"", b"a", b"z"), b"".to_vec());
    assert_eq!(replace_bytes(b"abc", b"abcd", b"z"), b"abc".to_vec());
}

#[test]
fn prefix_and_suffix() {
    assert!(starts_with(b"<svg>", b"<svg"));
    assert!(!starts_with(b"<sv", b"<svg"));
    assert!(ends_with(b"x</svg>", b"</svg>"));
    assert!(!ends_with(b"x</svg> ", b"</svg>"));
}

#[test]
fn remote_and_local_sources() {
    assert!(!is_relative_path(b"http://example.com/a.png"));
    assert!(!is_relative_path(b"https://example.com/a.png"));
    assert!(is_relative_path(b"img/a.png"));
    assert!(is_relative_path(b"ftp://example.com/a.png"));
    assert!(is_relative_path(b"HTTP://example.com/a.png"));
}

#[test]
fn absolute_and_relative_resolution() {
    assert!(is_absolute_path(b"/abs/pic.png"));
    assert!(!is_absolute_path(b"img/pic.png"));
    assert_eq!(resolve_local_path(b"docs", b"/abs/pic.png"), b"/abs/pic.png".to_vec());
    assert_eq!(resolve_local_path(b"docs", b"img/pic.png"), b"docs/img/pic.png".to_vec());
    assert_eq!(resolve_local_path(b"docs/", b"img/pic.png"), b"docs/img/pic.png".to_vec());
    assert_eq!(resolve_local_path(b"", b"img/pic.png"), b"img/pic.png".to_vec());
}

#[test]
fn remote_source_is_never_a_path() {
    let r = classify_reference(b"docs", b"https://example.com/pic.png");
    assert!(r.remote);
    assert_eq!(r.location, b"https://example.com/pic.png".to_vec());
    let l = classify_reference(b"docs", b"pic.png");
    assert!(!l.remote);
    assert_eq!(l.location, b"docs/pic.png".to_vec());
}

#[test]
fn references_follow_document_order() {
    let html = "<p><img src=\"a.png\"><img alt=\"none\"><IMG SRC=\"http://x.org/b.gif\"></p>";
    let refs = image_references(html, b"base");
    assert_eq!(refs.len(), 2);
    assert_eq!(refs[0].src, b"a.png".to_vec());
    assert_eq!(refs[0].location, b"base/a.png".to_vec());
    assert!(!refs[0].remote);
    assert_eq!(refs[1].src, b"http://x.org/b.gif".to_vec());
    assert!(refs[1].remote);
}

#[test]
fn no_references_without_images() {
    assert!(image_references("<p>hello <a href=\"pic.png\">x</a></p>", b"base").is_empty());
}

#[test]
fn mime_types() {
    assert_eq!(mime_type(ImageKind::Jpeg), Some(&b"image/jpeg"[..]));
    assert_eq!(mime_type(ImageKind::Png), Some(&b"image/png"[..]));
    assert_eq!(mime_type(ImageKind::Gif), Some(&b"image/gif"[..]));
    assert_eq!(mime_type(ImageKind::Bmp), Some(&b"image/bmp"[..]));
    assert_eq!(mime_type(ImageKind::Tiff), Some(&b"image/tiff"[..]));
    assert_eq!(mime_type(ImageKind::Ico), Some(&b"image/x-icon"[..]));
    assert_eq!(mime_type(ImageKind::WebP), Some(&b"image/webp"[..]));
    assert_eq!(mime_type(ImageKind::Other), None);
}

#[test]
fn data_uri_layout() {
    assert_eq!(text(&make_data_uri(b"image/png", b"abc")), "data:image/png;base64,YWJj");
    assert_eq!(text(&make_data_uri(b"image/gif", b"ab")), "data:image/gif;base64,YWI=");
    assert_eq!(text(&make_data_uri(b"image/gif", b"")), "data:image/gif;base64,");
}

#[test]
fn svg_extension() {
    assert!(has_svg_extension_exec(b"icon.svg"));
    assert!(has_svg_extension_exec(b"dir/icon.svg"));
    assert!(!has_svg_extension_exec(b".svg"));
    assert!(!has_svg_extension_exec(b"dir/.svg"));
    assert!(!has_svg_extension_exec(b"icon.SVG"));
    assert!(!has_svg_extension_exec(b"icon.png"));
}

#[test]
fn svg_content_heuristic() {
    assert!(looks_like_svg_exec(b"<svg></svg>"));
    assert!(!looks_like_svg_exec(b" <svg></svg>"));
    assert!(!looks_like_svg_exec(b"<svg></svg>\n"));
}

#[test]
fn png_is_inlined_with_original_bytes() {
    let uri = text(&encode_image(false, b"base/pic.png", PNG).unwrap());
    let payload = uri.strip_prefix("data:image/png;base64,").unwrap();
    assert_eq!(decode(payload), PNG.to_vec());
}

#[test]
fn signatures_give_mime_types() {
    let jpeg = text(&encode_image(false, b"a.jpg", &[0xff, 0xd8, 0xff, 0xe0]).unwrap());
    assert!(jpeg.starts_with("data:image/jpeg;base64,"));
    let gif = text(&encode_image(true, b"http://x/a", b"GIF89a....").unwrap());
    assert!(gif.starts_with("data:image/gif;base64,"));
    let bmp = text(&encode_image(false, b"a.bmp", b"BM....").unwrap());
    assert!(bmp.starts_with("data:image/bmp;base64,"));
    let tiff = text(&encode_image(false, b"a.tif", b"II*\x00....").unwrap());
    assert!(tiff.starts_with("data:image/tiff;base64,"));
    let ico = text(&encode_image(false, b"a.ico", &[0, 0, 1, 0, 1]).unwrap());
    assert!(ico.starts_with("data:image/x-icon;base64,"));
    let webp = text(&encode_image(false, b"a.webp", b"RIFF\x10\x00\x00\x00WEBPVP8 ").unwrap());
    assert!(webp.starts_with("data:image/webp;base64,"));
}

#[test]
fn unsupported_bytes_are_skipped() {
    assert_eq!(encode_image(false, b"a.png", b"not an image"), None);
    assert_eq!(encode_image(false, b"a.png", b""), None);
    assert_eq!(encode_image(false, b"a.qoi", b"qoif...."), None);
}

#[test]
fn local_svg_is_inlined_as_text() {
    let svg = b"<svg xmlns=\"http://www.w3.org/2000/svg\">\xc3\xa9</svg>\n";
    let uri = text(&encode_image(false, b"base/icon.svg", svg).unwrap());
    let payload = uri.strip_prefix("data:image/svg+xml;base64,").unwrap();
    assert_eq!(decode(payload), svg.to_vec());
}

#[test]
fn svg_that_is_not_utf8_is_skipped() {
    assert_eq!(encode_image(false, b"icon.svg", b"<svg>\xff</svg>"), None);
}

#[test]
fn remote_svg_by_url_or_content() {
    let by_url = text(&encode_image(true, b"http://x.org/i.svg", b"<?xml?><svg/>").unwrap());
    assert!(by_url.starts_with("data:image/svg+xml;base64,"));
    let by_content = text(&encode_image(true, b"http://x.org/i", b"<svg></svg>").unwrap());
    assert!(by_content.starts_with("data:image/svg+xml;base64,"));
    assert_eq!(encode_image(true, b"http://x.org/i", b"<?xml?><svg></svg>"), None);
}

#[test]
fn nothing_loaded_gives_no_uri() {
    let r = classify_reference(b"base", b"pic.png");
    assert_eq!(image_data_uri(&LoadedImage { reference: r, bytes: None }), None);
}

#[test]
fn document_without_images_is_unchanged() {
    let html = "<html><body><p>Hi</p><a href=\"pic.png\">pic.png</a></body></html>";
    let images = load(html, "base", &[("base/pic.png", PNG)]);
    assert_eq!(convert_img_to_base64(html, &images), html.as_bytes().to_vec());
}

#[test]
fn local_png_round_trip() {
    let html = "<img src=\"pic.png\">";
    let images = load(html, "base", &[("base/pic.png", PNG)]);
    let out = text(&convert_img_to_base64(html, &images));
    let payload = out
        .strip_prefix("<img src=\"data:image/png;base64,")
        .and_then(|s| s.strip_suffix("\">"))
        .unwrap();
    assert_eq!(decode(payload), PNG.to_vec());
}

#[test]
fn local_svg_round_trip() {
    let svg = b"<svg><circle r=\"1\"/></svg>";
    let html = "<img src=\"icon.svg\">";
    let images = load(html, "base", &[("base/icon.svg", svg)]);
    let out = text(&convert_img_to_base64(html, &images));
    let payload = out
        .strip_prefix("<img src=\"data:image/svg+xml;base64,")
        .and_then(|s| s.strip_suffix("\">"))
        .unwrap();
    assert_eq!(decode(payload), svg.to_vec());
}

#[test]
fn absolute_source_ignores_base() {
    let html = "<img src=\"/abs/pic.png\"><img src=\"img/pic.png\">";
    let images = load(html, "base", &[("/abs/pic.png", PNG)]);
    assert_eq!(images[0].reference.location, b"/abs/pic.png".to_vec());
    assert_eq!(images[1].reference.location, b"base/img/pic.png".to_vec());
    let out = text(&convert_img_to_base64(html, &images));
    assert!(out.starts_with("<img src=\"data:image/png;base64,"));
    assert!(out.ends_with("<img src=\"img/pic.png\">"));
}

#[test]
fn missing_or_unsupported_images_are_unchanged() {
    let html = "<img src=\"gone.png\"><img src=\"notes.png\">";
    let images = load(html, "base", &[("base/notes.png", b"plain text")]);
    assert_eq!(convert_img_to_base64(html, &images), html.as_bytes().to_vec());
}

#[test]
fn remote_source_is_not_read_from_disk() {
    let html = "<img src=\"http://x.org/pic.png\">";
    let images = load(html, "base", &[("base/http://x.org/pic.png", PNG)]);
    assert!(images[0].reference.remote);
    assert_eq!(images[0].bytes, None);
    assert_eq!(convert_img_to_base64(html, &images), html.as_bytes().to_vec());
}

#[test]
fn every_occurrence_of_src_is_replaced() {
    let html = "<a href=\"pic.png\">pic.png</a><img src=\"pic.png\">";
    let images = load(html, "base", &[("base/pic.png", PNG)]);
    let uri = text(&image_data_uri(&images[0]).unwrap());
    let out = text(&convert_img_to_base64(html, &images));
    assert_eq!(out, format!("<a href=\"{uri}\">{uri}</a><img src=\"{uri}\">"));
}

#[test]
fn later_images_see_earlier_replacements() {
    let html = "<img src=\"a.png\"><img src=\"a.png\">";
    let images = load(html, "", &[("a.png", PNG)]);
    assert_eq!(images.len(), 2);
    let uri = text(&image_data_uri(&images[0]).unwrap());
    let out = text(&convert_img_to_base64(html, &images));
    assert_eq!(out, format!("<img src=\"{uri}\"><img src=\"{uri}\">"));
}
