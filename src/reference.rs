//! What an `<img>` element's `src` refers to: a URL to fetch, or a file path
//! resolved against a base directory.
use crate::bytes::{ascii, ascii_bytes, has_prefix, push_all, starts_with};
use vstd::prelude::*;

verus! {

/// A `src` value is remote when it begins with `http://` or `https://`.
pub open spec fn is_remote(src: Seq<u8>) -> bool {
    has_prefix(src, ascii("http://"@)) || has_prefix(src, ascii("https://"@))
}

/// Paths are `/`-separated; an absolute path begins at the root.
pub open spec fn is_absolute(path: Seq<u8>) -> bool {
    path.len() > 0 && path[0] == '/' as u8
}

/// Where a local `src` is read from: an absolute path as it stands, a
/// relative one below `base`.
pub open spec fn resolved_path(base: Seq<u8>, src: Seq<u8>) -> Seq<u8> {
    if is_absolute(src) || base.len() == 0 {
        src
    } else if base.last() == '/' as u8 {
        base + src
    } else {
        base + seq!['/' as u8] + src
    }
}

/// One image reference of a document.
pub struct ImageRef {
    /// The `src` attribute value, as written in the document.
    pub src: Vec<u8>,
    /// Whether `src` is a URL rather than a file path.
    pub remote: bool,
    /// The URL to fetch, or the file path to read.
    pub location: Vec<u8>,
}

/// The reference that `src` makes, with relative paths taken below `base`.
pub open spec fn refers_to(r: ImageRef, base: Seq<u8>, src: Seq<u8>) -> bool {
    &&& r.src@ == src
    &&& r.remote == is_remote(src)
    &&& r.location@ == if is_remote(src) {
        src
    } else {
        resolved_path(base, src)
    }
}

/// The value of each `img` element's `src` attribute, in document order, as
/// an HTML parser reads `html`; `None` for an element without one.
pub uninterp spec fn img_src_attrs(html: Seq<char>) -> Seq<Option<Seq<u8>>>;

/// The `src` values that are present, in order.
pub open spec fn present(attrs: Seq<Option<Seq<u8>>>) -> Seq<Seq<u8>>
    decreases attrs.len(),
{
    if attrs.len() == 0 {
        Seq::empty()
    } else {
        let prev = present(attrs.drop_last());
        match attrs.last() {
            Some(v) => prev.push(v),
            None => prev,
        }
    }
}

/// Relies on select: `Document::from` parses the text, `find(Name("img"))`
/// walks its `img` elements in document order, and `attr("src")` gives each
/// one's attribute value. The parse depends on the text alone.
#[verifier::external_body]
fn img_src_attributes(html: &str) -> (r: Vec<Option<Vec<u8>>>)
    ensures
        r.deep_view() == img_src_attrs(html@),
{
    let document = select::document::Document::from(html);
    document
        .find(select::predicate::Name("img"))
        .map(|node| node.attr("src").map(|v| v.as_bytes().to_vec()))
        .collect()
}

/// Whether `src` names something on disk rather than a URL.
pub fn is_relative_path(src: &[u8]) -> (r: bool)
    ensures
        r == !is_remote(src@),
{
    proof {
        reveal_strlit("http://");
        reveal_strlit("https://");
    }
    let http = ascii_bytes("http://");
    let https = ascii_bytes("https://");
    !starts_with(src, http) && !starts_with(src, https)
}

pub fn is_absolute_path(path: &[u8]) -> (r: bool)
    ensures
        r == is_absolute(path@),
{
    path.len() > 0 && path[0] == '/' as u8
}

/// The path that a local `src` names, relative to `base`.
pub fn resolve_local_path(base: &[u8], src: &[u8]) -> (r: Vec<u8>)
    ensures
        r@ == resolved_path(base@, src@),
{
    let mut out: Vec<u8> = Vec::new();
    if is_absolute_path(src) || base.len() == 0 {
        push_all(&mut out, src);
        assert(out@ =~= src@);
        return out;
    }
    push_all(&mut out, base);
    if base[base.len() - 1] != '/' as u8 {
        out.push('/' as u8);
    }
    push_all(&mut out, src);
    assert(out@ =~= resolved_path(base@, src@));
    out
}

/// What `src` refers to, with relative paths taken below `base`.
pub fn classify_reference(base: &[u8], src: &[u8]) -> (r: ImageRef)
    ensures
        refers_to(r, base@, src@),
{
    let owned = vstd::slice::slice_to_vec(src);
    if is_relative_path(src) {
        ImageRef { src: owned, remote: false, location: resolve_local_path(base, src) }
    } else {
        ImageRef { src: owned, remote: true, location: vstd::slice::slice_to_vec(src) }
    }
}

/// The image references of `html`: one for each `img` element that has a
/// `src` attribute, in document order.
pub fn image_references(html: &str, base: &[u8]) -> (r: Vec<ImageRef>)
    ensures
        r@.len() == present(img_src_attrs(html@)).len(),
        forall|i: int|
            0 <= i < r@.len() ==> refers_to(#[trigger] r@[i], base@, present(img_src_attrs(html@))[i]),
{
    let attrs = img_src_attributes(html);
    let ghost all = img_src_attrs(html@);
    let mut out: Vec<ImageRef> = Vec::new();
    let mut i: usize = 0;
    while i < attrs.len()
        invariant
            i <= attrs@.len(),
            attrs.deep_view() == all,
            out@.len() == present(all.take(i as int)).len(),
            forall|k: int|
                0 <= k < out@.len() ==> refers_to(#[trigger] out@[k], base@, present(all.take(i as int))[k]),
        decreases attrs@.len() - i,
    {
        assert(all.take(i + 1).drop_last() =~= all.take(i as int));
        assert(all.take(i + 1).last() == all[i as int]);
        match &attrs[i] {
            Some(v) => {
                assert(all[i as int] == Some(v@));
                let r = classify_reference(base, v.as_slice());
                out.push(r);
                assert(present(all.take(i + 1)) == present(all.take(i as int)).push(v@));
            },
            None => {
                assert(all[i as int] == None::<Seq<u8>>);
                assert(present(all.take(i + 1)) == present(all.take(i as int)));
            },
        }
        i = i + 1;
    }
    assert(all.take(i as int) =~= all);
    out
}

} // verus!
