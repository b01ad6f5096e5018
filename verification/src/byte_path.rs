//! Unix paths as bytes.
//!
//! A path is any bytes, whether or not they are UTF-8. Its separators and dots
//! are ASCII, so that the functions of [`crate::path`] apply to it once each
//! byte stands as a character of its own.

use vstd::prelude::*;
use vstd::utf8::*;

use crate::path;
use crate::text;

verus! {

/// Bytes as text, with the character of its number for each byte.
pub open spec fn byte_text(bytes: Seq<u8>) -> Seq<char> {
    Seq::new(bytes.len(), |i: int| bytes[i] as char)
}

/// The bytes that such a text stands for.
pub open spec fn text_bytes(s: Seq<char>) -> Seq<u8> {
    Seq::new(s.len(), |i: int| s[i] as u8)
}

/// Whether each character of a text is one whose number is a byte.
pub open spec fn is_byte_text(s: Seq<char>) -> bool {
    forall|i: int| 0 <= i < s.len() ==> ((#[trigger] s[i]) as u8) as char == s[i]
}

/// Lists of bytes as texts.
pub open spec fn byte_texts(list: Seq<Seq<u8>>) -> Seq<Seq<char>> {
    list.map_values(|bytes: Seq<u8>| byte_text(bytes))
}

/// Optional bytes as text.
pub open spec fn maybe_text(bytes: Option<Seq<u8>>) -> Option<Seq<char>> {
    match bytes {
        Some(b) => Some(byte_text(b)),
        None => None,
    }
}

/// The bytes inside an optional slice.
pub open spec fn bytes_in(bytes: Option<&[u8]>) -> Option<Seq<u8>> {
    match bytes {
        Some(b) => Some(b@),
        None => None,
    }
}

/// Bytes and text that stand for each other.
pub proof fn lemma_byte_text(bytes: Seq<u8>)
    ensures
        is_byte_text(byte_text(bytes)),
        text_bytes(byte_text(bytes)) == bytes,
{
    assert(text_bytes(byte_text(bytes)) =~= bytes);
}

/// Text and bytes that stand for each other.
pub proof fn lemma_text_bytes(s: Seq<char>)
    requires
        is_byte_text(s),
    ensures
        byte_text(text_bytes(s)) == s,
{
    assert(byte_text(text_bytes(s)) =~= s);
}

proof fn lemma_trimmed_bytes(s: Seq<char>)
    requires
        is_byte_text(s),
    ensures
        is_byte_text(path::trimmed_path(s)),
    decreases s.len(),
{
    if s.len() > 1 && (s.last() == '/' || (s.last() == '.' && s[s.len() - 2] == '/')) {
        lemma_trimmed_bytes(s.drop_last());
    }
}

/// The parent of a path has only characters of the path.
pub proof fn lemma_parent_bytes(s: Seq<char>)
    requires
        is_byte_text(s),
    ensures
        path::parent_of(s) matches Some(p) ==> is_byte_text(p),
{
    let t = path::trimmed_path(s);
    lemma_trimmed_bytes(s);
    path::lemma_last_slash(t);
    let up = t.take(path::last_slash(t) + 1);
    assert(is_byte_text(up));
    lemma_trimmed_bytes(up);
}

/// Bytes as text.
pub fn text_of_bytes(bytes: &[u8]) -> (r: String)
    ensures
        r@ == byte_text(bytes@),
{
    let mut out = String::new();
    let mut i: usize = 0;
    assert(out@ =~= byte_text(bytes@.take(0)));
    while i < bytes.len()
        invariant
            i <= bytes@.len(),
            out@ == byte_text(bytes@.take(i as int)),
        decreases bytes@.len() - i,
    {
        out.push(bytes[i] as char);
        assert(out@ =~= byte_text(bytes@.take(i + 1)));
        i = i + 1;
    }
    assert(bytes@.take(i as int) =~= bytes@);
    out
}

/// The bytes that a text stands for.
pub fn bytes_of_text(s: &str) -> (r: Vec<u8>)
    ensures
        r@ == text_bytes(s@),
        is_byte_text(s@) ==> byte_text(r@) == s@,
{
    let cs = text::chars_of(s);
    let mut out: Vec<u8> = Vec::new();
    let mut i: usize = 0;
    assert(out@ =~= text_bytes(s@.take(0)));
    while i < cs.len()
        invariant
            cs@ == s@,
            i <= cs@.len(),
            out@ == text_bytes(s@.take(i as int)),
        decreases cs@.len() - i,
    {
        out.push(cs[i] as u8);
        assert(out@ =~= text_bytes(s@.take(i + 1)));
        i = i + 1;
    }
    assert(s@.take(i as int) =~= s@);
    proof {
        if is_byte_text(s@) {
            lemma_text_bytes(s@);
        }
    }
    out
}

/// A copy of bytes.
pub fn copy(bytes: &[u8]) -> (r: Vec<u8>)
    ensures
        r@ == bytes@,
{
    let mut out: Vec<u8> = Vec::new();
    out.extend_from_slice(bytes);
    assert(out@ =~= bytes@);
    out
}

/// The path without its last component.
pub fn parent(path: &[u8]) -> (r: Option<Vec<u8>>)
    ensures
        maybe_text(r.deep_view()) == path::parent_of(byte_text(path@)),
{
    proof {
        lemma_byte_text(path@);
        lemma_parent_bytes(byte_text(path@));
    }
    match path::parent(text_of_bytes(path).as_str()) {
        Some(p) => {
            let up = bytes_of_text(p.as_str());
            assert(up.deep_view() =~= up@);
            Some(up)
        },
        None => None,
    }
}

/// A path below another; an absolute path stands by itself.
pub open spec fn joined(base: Seq<u8>, child: Seq<u8>) -> Seq<u8> {
    if child.len() > 0 && child[0] == 0x2f {
        child
    } else if base.len() == 0 || base.last() == 0x2f {
        base + child
    } else {
        base + seq![0x2fu8] + child
    }
}

/// A path that is text below another.
pub open spec fn joined_text(base: Seq<u8>, child: Seq<char>) -> Seq<u8> {
    joined(base, encode_utf8(child))
}

/// A path below another.
pub fn join(base: &[u8], child: &[u8]) -> (r: Vec<u8>)
    ensures
        r@ == joined(base@, child@),
        byte_text(r@) == path::joined_path(byte_text(base@), byte_text(child@)),
{
    if child.len() > 0 && child[0] == 0x2f {
        return copy(child);
    }
    let mut out = copy(base);
    proof {
        reveal_strlit("/");
        if base@.len() > 0 {
            assert(byte_text(base@).last() == base@.last() as char);
        }
        if child@.len() > 0 {
            assert(byte_text(child@)[0] == child@[0] as char);
        }
    }
    if base.len() > 0 && base[base.len() - 1] != 0x2f {
        out.push(0x2f);
    }
    out.extend_from_slice(child);
    proof {
        assert(out@ =~= joined(base@, child@));
        assert(byte_text(out@) =~= path::joined_path(byte_text(base@), byte_text(child@)));
    }
    out
}

/// A path that is text below another.
pub fn join_text(base: &[u8], child: &str) -> (r: Vec<u8>)
    ensures
        r@ == joined_text(base@, child@),
{
    join(base, child.as_bytes())
}

/// A path with another name at its end.
pub open spec fn renamed(path: Seq<u8>, name: Seq<u8>) -> Seq<u8> {
    match (path::name_of(byte_text(path)), path::parent_of(byte_text(path))) {
        (Some(_), Some(parent)) => joined(text_bytes(parent), name),
        _ => joined(path, name),
    }
}

/// A path with another name at its end.
pub fn with_file_name(path: &[u8], name: &[u8]) -> (r: Vec<u8>)
    ensures
        r@ == renamed(path@, name@),
{
    let whole = text_of_bytes(path);
    if path::file_name(whole.as_str()).is_some() {
        if let Some(parent) = path::parent(whole.as_str()) {
            return join(bytes_of_text(parent.as_str()).as_slice(), name);
        }
    }
    join(path, name)
}

// ---------------------------------------------------------------------------
// Showing paths
// ---------------------------------------------------------------------------

/// The text that stands for bytes in what is shown: their own where they are
/// text.
pub open spec fn shown_text(bytes: Seq<u8>) -> Seq<char> {
    if valid_utf8(bytes) {
        decode_utf8(bytes)
    } else {
        text::lossy_text(bytes)
    }
}

/// The text that stands for bytes in what is shown.
pub fn shown(bytes: &[u8]) -> (r: String)
    ensures
        r@ == shown_text(bytes@),
{
    text::utf8_lossy(bytes)
}

/// The path that is a text is shown as that text.
pub proof fn law_text_is_shown_as_it_is(s: Seq<char>)
    ensures
        shown_text(encode_utf8(s)) == s,
{
    encode_utf8_valid_utf8(s);
    encode_utf8_decode_utf8(s);
}

} // verus!
