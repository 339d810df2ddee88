//! Byte-string helpers: prefixes, suffixes, ASCII literals and global
//! substring replacement.
use vstd::prelude::*;

verus! {

/// The bytes of a string made of ASCII characters.
pub open spec fn ascii(s: Seq<char>) -> Seq<u8> {
    s.map_values(|c: char| c as u8)
}

pub open spec fn has_prefix(s: Seq<u8>, p: Seq<u8>) -> bool {
    p.len() <= s.len() && s.subrange(0, p.len() as int) == p
}

pub open spec fn has_suffix(s: Seq<u8>, p: Seq<u8>) -> bool {
    p.len() <= s.len() && s.subrange(s.len() - p.len(), s.len() as int) == p
}

/// `s` with every occurrence of `pat` replaced by `rep`, scanning from the
/// left and never letting two replaced occurrences overlap. An empty pattern
/// replaces nothing.
pub open spec fn replace_all(s: Seq<u8>, pat: Seq<u8>, rep: Seq<u8>) -> Seq<u8>
    decreases s.len(),
{
    if pat.len() == 0 || s.len() < pat.len() {
        s
    } else if has_prefix(s, pat) {
        rep + replace_all(s.subrange(pat.len() as int, s.len() as int), pat, rep)
    } else {
        seq![s[0]] + replace_all(s.drop_first(), pat, rep)
    }
}

/// The bytes of an ASCII string literal.
pub fn ascii_bytes(s: &str) -> (r: &[u8])
    requires
        vstd::utf8::is_ascii_chars(s@),
    ensures
        r@ == ascii(s@),
{
    proof {
        broadcast use vstd::string::is_ascii_spec_bytes;
    }
    assert(vstd::string::is_ascii(s));
    let b = s.as_bytes();
    assert(b@ =~= ascii(s@));
    b
}

/// Does `s` begin with the bytes `p` at position `at`?
pub fn matches_at(s: &[u8], at: usize, p: &[u8]) -> (r: bool)
    requires
        at <= s@.len(),
    ensures
        r == has_prefix(s@.subrange(at as int, s@.len() as int), p@),
{
    let ghost rest = s@.subrange(at as int, s@.len() as int);
    if p.len() > s.len() - at {
        return false;
    }
    let n = s.len();
    let mut i: usize = 0;
    while i < p.len()
        invariant
            n == s@.len(),
            at + p@.len() <= n,
            i <= p@.len(),
            rest == s@.subrange(at as int, s@.len() as int),
            forall|j: int| 0 <= j < i ==> rest[j] == p@[j],
        decreases p@.len() - i,
    {
        if s[at + i] != p[i] {
            assert(rest.subrange(0, p@.len() as int)[i as int] != p@[i as int]);
            return false;
        }
        i = i + 1;
    }
    assert(rest.subrange(0, p@.len() as int) =~= p@);
    true
}

pub fn starts_with(s: &[u8], p: &[u8]) -> (r: bool)
    ensures
        r == has_prefix(s@, p@),
{
    assert(s@.subrange(0, s@.len() as int) =~= s@);
    matches_at(s, 0, p)
}

pub fn ends_with(s: &[u8], p: &[u8]) -> (r: bool)
    ensures
        r == has_suffix(s@, p@),
{
    if p.len() > s.len() {
        return false;
    }
    let at = s.len() - p.len();
    let r = matches_at(s, at, p);
    assert(s@.subrange(at as int, s@.len() as int).subrange(0, p@.len() as int)
        =~= s@.subrange(at as int, s@.len() as int));
    r
}

/// Appends the bytes of `src` to `dst`.
pub fn push_all(dst: &mut Vec<u8>, src: &[u8])
    ensures
        final(dst)@ == old(dst)@ + src@,
{
    let mut i: usize = 0;
    while i < src.len()
        invariant
            i <= src@.len(),
            dst@ == old(dst)@ + src@.subrange(0, i as int),
        decreases src@.len() - i,
    {
        dst.push(src[i]);
        i = i + 1;
        assert(dst@ =~= old(dst)@ + src@.subrange(0, i as int));
    }
    assert(src@.subrange(0, i as int) =~= src@);
}

proof fn lemma_replace_step(s: Seq<u8>, i: int, pat: Seq<u8>, rep: Seq<u8>)
    requires
        pat.len() > 0,
        0 <= i < s.len(),
    ensures
        s.subrange(i, s.len() as int).len() >= pat.len() && has_prefix(
            s.subrange(i, s.len() as int),
            pat,
        ) ==> i + pat.len() <= s.len() && replace_all(s.subrange(i, s.len() as int), pat, rep)
            == rep + replace_all(s.subrange(i + pat.len(), s.len() as int), pat, rep),
        !(s.subrange(i, s.len() as int).len() >= pat.len() && has_prefix(
            s.subrange(i, s.len() as int),
            pat,
        )) ==> replace_all(s.subrange(i, s.len() as int), pat, rep) == seq![s[i]]
            + replace_all(s.subrange(i + 1, s.len() as int), pat, rep),
{
    let t = s.subrange(i, s.len() as int);
    assert(t.drop_first() =~= s.subrange(i + 1, s.len() as int));
    if t.len() >= pat.len() {
        assert(t.subrange(pat.len() as int, t.len() as int) =~= s.subrange(
            i + pat.len(),
            s.len() as int,
        ));
    } else {
        assert(!has_prefix(t, pat));
        let u = s.subrange(i + 1, s.len() as int);
        assert(u.len() < pat.len());
    }
}

/// Every occurrence of `pat` in `s` replaced by `rep`, leftmost first and
/// without overlaps; `s` itself when `pat` is empty.
pub fn replace_bytes(s: &[u8], pat: &[u8], rep: &[u8]) -> (r: Vec<u8>)
    ensures
        r@ == replace_all(s@, pat@, rep@),
{
    let mut out: Vec<u8> = Vec::new();
    if pat.len() == 0 {
        push_all(&mut out, s);
        assert(out@ =~= s@);
        return out;
    }
    let mut i: usize = 0;
    assert(s@.subrange(0, s@.len() as int) =~= s@);
    while i < s.len()
        invariant
            pat@.len() > 0,
            i <= s@.len(),
            out@ + replace_all(s@.subrange(i as int, s@.len() as int), pat@, rep@) == replace_all(
                s@,
                pat@,
                rep@,
            ),
        decreases s@.len() - i,
    {
        proof {
            lemma_replace_step(s@, i as int, pat@, rep@);
        }
        if matches_at(s, i, pat) {
            push_all(&mut out, rep);
            i = i + pat.len();
        } else {
            out.push(s[i]);
            i = i + 1;
        }
        assert(out@ + replace_all(s@.subrange(i as int, s@.len() as int), pat@, rep@)
            =~= replace_all(s@, pat@, rep@));
    }
    assert(s@.subrange(i as int, s@.len() as int) =~= Seq::<u8>::empty());
    assert(out@ =~= out@ + replace_all(s@.subrange(i as int, s@.len() as int), pat@, rep@));
    out
}

} // verus!
