//! Rewrites a document so that each loaded image's `src` value gives way to
//! its data URI, by global textual replacement.
use crate::bytes::{replace_all, replace_bytes};
use crate::encode::{encode_image, encoded_image};
use crate::reference::{ImageRef, img_src_attrs, present, refers_to, is_remote, is_absolute, resolved_path};
use vstd::prelude::*;
use vstd::utf8::encode_utf8;

verus! {

/// An image reference together with what loading it gave: its bytes, or
/// `None` when the file or URL could not be read.
pub struct LoadedImage {
    pub reference: ImageRef,
    pub bytes: Option<Vec<u8>>,
}

/// The data URI that replaces the image's `src`, if any.
pub open spec fn image_uri(img: LoadedImage) -> Option<Seq<u8>> {
    match img.bytes {
        Some(b) => encoded_image(img.reference.remote, img.reference.location@, b@),
        None => None,
    }
}

/// The document after the images, in order, have each replaced every
/// occurrence of their `src` value in the text so far by their data URI.
pub open spec fn converted(doc: Seq<u8>, images: Seq<LoadedImage>) -> Seq<u8>
    decreases images.len(),
{
    if images.len() == 0 {
        doc
    } else {
        let prev = converted(doc, images.drop_last());
        match image_uri(images.last()) {
            Some(uri) => replace_all(prev, images.last().reference.src@, uri),
            None => prev,
        }
    }
}

/// The data URI for a loaded image, `None` when it is left as it is.
pub fn image_data_uri(img: &LoadedImage) -> (r: Option<Vec<u8>>)
    ensures
        r.deep_view() == image_uri(*img),
{
    match &img.bytes {
        Some(b) => encode_image(img.reference.remote, img.reference.location.as_slice(), b.as_slice()),
        None => None,
    }
}

/// The text of `html` with the images inlined, in the order given.
pub fn convert_img_to_base64(html: &str, images: &Vec<LoadedImage>) -> (r: Vec<u8>)
    ensures
        r@ == converted(encode_utf8(html@), images@),
{
    let mut acc: Vec<u8> = vstd::slice::slice_to_vec(html.as_bytes());
    let mut i: usize = 0;
    while i < images.len()
        invariant
            i <= images@.len(),
            acc@ == converted(encode_utf8(html@), images@.take(i as int)),
        decreases images@.len() - i,
    {
        assert(images@.take(i + 1).drop_last() =~= images@.take(i as int));
        assert(images@.take(i + 1).last() == images@[i as int]);
        match image_data_uri(&images[i]) {
            Some(uri) => {
                assert(image_uri(images@[i as int]) == Some(uri@));
                acc = replace_bytes(acc.as_slice(), images[i].reference.src.as_slice(), uri.as_slice());
            },
            None => {
                assert(image_uri(images@[i as int]).is_none());
            },
        }
        i = i + 1;
    }
    assert(images@.take(i as int) =~= images@);
    acc
}

/// A document in which the parser finds no image with a `src` comes out
/// exactly as it went in.
pub proof fn law_no_images_unchanged(html: Seq<char>, images: Seq<LoadedImage>)
    requires
        present(img_src_attrs(html)).len() == 0,
        images.len() == present(img_src_attrs(html)).len(),
    ensures
        converted(encode_utf8(html), images) == encode_utf8(html),
{
}

/// An image that is not inlined (nothing loaded, SVG text that is not UTF-8,
/// or bytes of no supported format) changes nothing: the result is the one
/// without it.
pub proof fn law_skipped_image_changes_nothing(doc: Seq<u8>, images: Seq<LoadedImage>, i: int)
    requires
        0 <= i < images.len(),
        image_uri(images[i]).is_none(),
    ensures
        converted(doc, images) == converted(doc, images.remove(i)),
    decreases images.len(),
{
    if i == images.len() - 1 {
        assert(images.drop_last() =~= images.remove(i));
    } else {
        law_skipped_image_changes_nothing(doc, images.drop_last(), i);
        assert(images.remove(i).drop_last() =~= images.drop_last().remove(i));
        assert(images.remove(i).last() == images.last());
    }
}

/// A `src` that begins with `http://` or `https://` is a URL, fetched as it
/// is written, and never a file path.
pub proof fn law_remote_is_never_a_path(r: ImageRef, base: Seq<u8>, src: Seq<u8>)
    requires
        refers_to(r, base, src),
        is_remote(src),
    ensures
        r.remote,
        r.location@ == src,
{
}

/// A local absolute path is read as written; a relative one is joined below
/// the base directory with one `/` between them.
pub proof fn law_absolute_and_relative_paths(base: Seq<u8>, src: Seq<u8>)
    ensures
        is_absolute(src) ==> resolved_path(base, src) == src,
        !is_absolute(src) && base.len() > 0 && base.last() != '/' as u8 ==> resolved_path(base, src)
            == base + seq!['/' as u8] + src,
        !is_absolute(src) && base.len() > 0 && base.last() == '/' as u8 ==> resolved_path(base, src)
            == base + src,
{
}

/// An inlined image replaces its `src` value throughout the whole text, not
/// only inside its own tag.
pub proof fn law_replacement_is_global(doc: Seq<u8>, img: LoadedImage, uri: Seq<u8>)
    requires
        image_uri(img) == Some(uri),
    ensures
        converted(doc, seq![img]) == replace_all(doc, img.reference.src@, uri),
{
    let one = seq![img];
    assert(one.drop_last() =~= Seq::<LoadedImage>::empty());
    assert(one.last() == img);
    assert(converted(doc, one.drop_last()) == doc);
}

} // verus!
