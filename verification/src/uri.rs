//! URIs of files.

use vstd::prelude::*;
use vstd::string::*;
use vstd::utf8::*;

use crate::byte_path;
use crate::path;
use crate::text;

verus! {

/// The value of a hexadecimal digit.
pub open spec fn hex_value(b: u8) -> Option<int> {
    if 48 <= b <= 57 {
        Some(b - 48)
    } else if 65 <= b <= 70 {
        Some(b - 65 + 10)
    } else if 97 <= b <= 102 {
        Some(b - 97 + 10)
    } else {
        None
    }
}

/// Bytes with every `%` and two hexadecimal digits replaced by the byte that
/// they name; any other `%` stays.
pub open spec fn percent_decoded(s: Seq<u8>) -> Seq<u8>
    decreases s.len(),
{
    if s.len() == 0 {
        s
    } else if s.len() >= 3 && s[0] == 37 && hex_value(s[1]) is Some && hex_value(s[2]) is Some {
        seq![(hex_value(s[1])->0 * 16 + hex_value(s[2])->0) as u8] + percent_decoded(s.skip(3))
    } else {
        seq![s[0]] + percent_decoded(s.skip(1))
    }
}

/// Text with its percent-escapes decoded, where the bytes that come out are
/// text.
pub open spec fn percent_text(s: Seq<char>) -> Option<Seq<char>> {
    let bytes = percent_decoded(encode_utf8(s));
    if valid_utf8(bytes) {
        Some(decode_utf8(bytes))
    } else {
        None
    }
}

/// `urlencoding::decode` replaces each `%` that two hexadecimal digits follow
/// by the byte that they name, keeps everything else, and fails exactly when
/// the bytes that come out are not UTF-8.
#[verifier::external_body]
fn urlencoding_decode(s: &str) -> (r: Option<String>)
    ensures
        r.deep_view() == percent_text(s@),
{
    urlencoding::decode(s).ok().map(|text| text.into_owned())
}

/// What a URI names: the path of a `file://` URI, with its escapes decoded
/// where that gives text, and any other URI itself.
pub open spec fn uri_path(uri: Seq<char>) -> Seq<char> {
    match text::after_prefix(uri, "file://"@) {
        Some(path) => match percent_text(path) {
            Some(decoded) => decoded,
            None => path,
        },
        None => uri,
    }
}

/// Decodes a `file://` URI to a path.
pub fn decode_uri(uri: &str) -> (r: String)
    ensures
        r@ == uri_path(uri@),
{
    match text::strip_prefix(uri, "file://") {
        Some(path) => match urlencoding_decode(path) {
            Some(decoded) => decoded,
            None => path.to_string(),
        },
        None => uri.to_string(),
    }
}

// ---------------------------------------------------------------------------
// From paths to URIs
// ---------------------------------------------------------------------------

/// Whether a byte of a path component is escaped in a URI: control characters,
/// anything that is not ASCII, and the characters that mean something else in
/// the path of a URI.
pub open spec fn is_escaped(b: u8) -> bool {
    ||| b <= 0x20
    ||| b >= 0x7f
    ||| b == 0x22
    ||| b == 0x23
    ||| b == 0x25
    ||| b == 0x2f
    ||| b == 0x3c
    ||| b == 0x3e
    ||| b == 0x3f
    ||| b == 0x5c
    ||| b == 0x60
    ||| b == 0x7b
    ||| b == 0x7d
}

/// A hexadecimal digit, in capitals.
pub open spec fn hex_digit(n: int) -> char {
    if n < 10 {
        (48 + n) as char
    } else {
        (55 + n) as char
    }
}

/// A byte as it stands in a URI.
pub open spec fn escaped_byte(b: u8) -> Seq<char> {
    if is_escaped(b) {
        seq!['%', hex_digit(b as int / 16), hex_digit(b as int % 16)]
    } else {
        seq![b as char]
    }
}

/// Bytes as they stand in a URI.
pub open spec fn escaped(bytes: Seq<u8>) -> Seq<char>
    decreases bytes.len(),
{
    if bytes.len() == 0 {
        Seq::empty()
    } else {
        escaped_byte(bytes[0]) + escaped(bytes.drop_first())
    }
}

/// Components as they stand in a URI, each behind a slash.
pub open spec fn escaped_components(components: Seq<Seq<char>>) -> Seq<char>
    decreases components.len(),
{
    if components.len() == 0 {
        Seq::empty()
    } else {
        "/"@ + escaped(encode_utf8(components[0])) + escaped_components(components.drop_first())
    }
}

/// The URI of a file, where its path is absolute.
pub open spec fn file_uri(path: Seq<char>) -> Option<Seq<char>> {
    let components = path::components_of(path);
    if !path::absolute(path) {
        None
    } else if components.len() == 0 {
        Some("file:///"@)
    } else {
        Some("file://"@ + escaped_components(components))
    }
}

/// The URI of a directory, where its path is absolute: it ends in a slash.
pub open spec fn dir_uri(path: Seq<char>) -> Option<Seq<char>> {
    match file_uri(path) {
        Some(uri) => if uri.last() == '/' {
            Some(uri)
        } else {
            Some(uri + "/"@)
        },
        None => None,
    }
}

/// `url::Url::from_file_path`, on a platform whose paths are those of Unix,
/// fails exactly when the path is not absolute. Otherwise the URL is `file://`,
/// and behind it each component of the path with a slash in front; a path
/// without components gives one slash. In a component, the bytes that
/// [`is_escaped`] names are percent-encoded.
#[verifier::external_body]
fn url_from_file_path(path: &str) -> (r: Option<String>)
    ensures
        r.deep_view() == file_uri(path@),
{
    url::Url::from_file_path(path).ok().map(|url| url.to_string())
}

/// `url::Url::from_directory_path` gives what `url::Url::from_file_path` gives,
/// with a slash at the end where there is none.
#[verifier::external_body]
fn url_from_directory_path(path: &str) -> (r: Option<String>)
    ensures
        r.deep_view() == dir_uri(path@),
{
    url::Url::from_directory_path(path).ok().map(|url| url.to_string())
}

/// The bytes of the path that the `url` crate finds in a URI.
pub uninterp spec fn url_file_path(uri: Seq<char>) -> Option<Seq<u8>>;

/// `url::Url::parse`, then `url::Url::to_file_path`, on a platform whose paths are
/// those of Unix: the path's bytes, or nothing, depend on the URI alone.
#[verifier::external_body]
fn url_to_file_path(uri: &str) -> (r: Option<Vec<u8>>)
    ensures
        r.deep_view() == url_file_path(uri@),
{
    let url = url::Url::parse(uri).ok();
    let path = url.and_then(|url| url.to_file_path().ok());
    path.map(|path| path.into_os_string().into_encoded_bytes())
}

/// The URI of a file.
pub fn uri_of_file(path: &str) -> (r: Option<String>)
    ensures
        r.deep_view() == file_uri(path@),
{
    url_from_file_path(path)
}

/// The path of the file that a URI names.
pub fn file_of_uri(uri: &str) -> (r: Option<Vec<u8>>)
    ensures
        r.deep_view() == url_file_path(uri@),
{
    url_to_file_path(uri)
}

// ---------------------------------------------------------------------------
// Paths as bytes
//
// The URI of a path that is not text is put together here: there is no safe way
// to make a `Path` of its bytes without a part of std that only Unix has.
// ---------------------------------------------------------------------------

/// Components as they stand in a URI, each behind a slash, where each character
/// of a component stands for a byte.
pub open spec fn escaped_byte_components(components: Seq<Seq<char>>) -> Seq<char>
    decreases components.len(),
{
    if components.len() == 0 {
        Seq::empty()
    } else {
        escaped_byte_components(components.drop_last()) + "/"@ + escaped(
            byte_path::text_bytes(components.last()),
        )
    }
}

/// The URI of the file at a path, where the path is absolute.
pub open spec fn path_uri(path: Seq<u8>) -> Option<Seq<char>> {
    let components = path::components_of(byte_path::byte_text(path));
    if valid_utf8(path) {
        file_uri(decode_utf8(path))
    } else if !path::absolute(byte_path::byte_text(path)) {
        None
    } else if components.len() == 0 {
        Some("file:///"@)
    } else {
        Some("file://"@ + escaped_byte_components(components))
    }
}

/// The URI of the directory at a path, where the path is absolute: it ends in a
/// slash.
pub open spec fn dir_path_uri(path: Seq<u8>) -> Option<Seq<char>> {
    match path_uri(path) {
        Some(uri) => if uri.last() == '/' {
            Some(uri)
        } else {
            Some(uri + "/"@)
        },
        None => None,
    }
}

fn must_escape(b: u8) -> (r: bool)
    ensures
        r == is_escaped(b),
{
    b <= 0x20 || b >= 0x7f || b == 0x22 || b == 0x23 || b == 0x25 || b == 0x2f || b == 0x3c || b
        == 0x3e || b == 0x3f || b == 0x5c || b == 0x60 || b == 0x7b || b == 0x7d
}

fn digit(n: u8) -> (r: char)
    requires
        n < 16,
    ensures
        r == hex_digit(n as int),
{
    if n < 10 {
        (48 + n) as char
    } else {
        (55 + n) as char
    }
}

proof fn lemma_escaped_push(bytes: Seq<u8>, b: u8)
    ensures
        escaped(bytes.push(b)) == escaped(bytes) + escaped_byte(b),
    decreases bytes.len(),
{
    let more = bytes.push(b);
    if bytes.len() == 0 {
        assert(more.drop_first() =~= bytes);
        assert(escaped(more) =~= escaped_byte(b));
        assert(escaped(bytes) + escaped_byte(b) =~= escaped_byte(b));
    } else {
        lemma_escaped_push(bytes.drop_first(), b);
        assert(more.drop_first() =~= bytes.drop_first().push(b));
        assert(escaped(more) =~= escaped(bytes) + escaped_byte(b));
    }
}

/// Appends a component, each of whose characters stands for a byte.
fn append_component(out: &mut String, component: &str)
    ensures
        final(out)@ == old(out)@ + "/"@ + escaped(byte_path::text_bytes(component@)),
{
    let cs = text::chars_of(component);
    out.append("/");
    let ghost start = out@;
    let ghost bytes = byte_path::text_bytes(component@);
    let mut i: usize = 0;
    assert(out@ =~= start + escaped(bytes.take(0)));
    while i < cs.len()
        invariant
            i <= cs@.len(),
            cs@ == component@,
            bytes == byte_path::text_bytes(component@),
            out@ == start + escaped(bytes.take(i as int)),
        decreases cs@.len() - i,
    {
        let b: u8 = cs[i] as u8;
        let ghost before = out@;
        if must_escape(b) {
            out.push('%');
            out.push(digit(b / 16));
            out.push(digit(b % 16));
        } else {
            out.push(b as char);
        }
        proof {
            assert(out@ =~= before + escaped_byte(b));
            lemma_escaped_push(bytes.take(i as int), b);
            assert(bytes.take(i as int).push(b) =~= bytes.take(i + 1));
            assert(out@ =~= start + escaped(bytes.take(i + 1)));
        }
        i = i + 1;
    }
    assert(bytes.take(i as int) =~= bytes);
}

/// The URI of the file at a path.
pub fn uri_of_path(path: &[u8]) -> (r: Option<String>)
    ensures
        r.deep_view() == path_uri(path@),
{
    if let Some(s) = text::utf8_text(path) {
        proof {
            encode_utf8_decode_utf8(s@);
        }
        return uri_of_file(s);
    }
    let whole = byte_path::text_of_bytes(path);
    if !path::is_absolute(whole.as_str()) {
        return None;
    }
    let components = path::components(whole.as_str());
    if components.len() == 0 {
        return Some("file:///".to_string());
    }
    let ghost all = components.deep_view();
    let mut out = "file://".to_string();
    let mut i: usize = 0;
    assert(out@ =~= "file://"@ + escaped_byte_components(all.take(0)));
    while i < components.len()
        invariant
            i <= components@.len(),
            all == components.deep_view(),
            out@ == "file://"@ + escaped_byte_components(all.take(i as int)),
        decreases components@.len() - i,
    {
        append_component(&mut out, components[i].as_str());
        proof {
            assert(all.take(i + 1).drop_last() =~= all.take(i as int));
            assert(out@ =~= "file://"@ + escaped_byte_components(all.take(i + 1)));
        }
        i = i + 1;
    }
    assert(all.take(i as int) =~= all);
    Some(out)
}

/// The URI of the directory at a path.
fn uri_of_directory(path: &[u8]) -> (r: Option<String>)
    ensures
        r.deep_view() == dir_path_uri(path@),
{
    if let Some(s) = text::utf8_text(path) {
        proof {
            encode_utf8_decode_utf8(s@);
        }
        return url_from_directory_path(s);
    }
    match uri_of_path(path) {
        Some(uri) => {
            proof {
                reveal_strlit("/");
                reveal_strlit("file://");
                reveal_strlit("file:///");
                let tail = uri@.subrange(uri@.len() - 1, uri@.len() as int);
                assert(tail[0] == uri@.last());
                assert(uri@.last() == '/' ==> tail =~= "/"@);
            }
            if text::ends_with(uri.as_str(), "/") {
                Some(uri)
            } else {
                Some(uri.concat("/"))
            }
        },
        None => None,
    }
}

/// The URI of a directory, or the error that its path is not absolute.
pub open spec fn directory_uri_result(path: Seq<u8>) -> Result<Seq<char>, Seq<char>> {
    match dir_path_uri(path) {
        Some(uri) => Ok(uri),
        None => Err("workspace root is not an absolute file path: "@ + byte_path::shown_text(path)),
    }
}

/// The URI of a directory.
pub fn directory_uri(path: &[u8]) -> (r: Result<String, String>)
    ensures
        match r {
            Ok(uri) => directory_uri_result(path@) == Ok::<Seq<char>, Seq<char>>(uri@),
            Err(e) => directory_uri_result(path@) == Err::<Seq<char>, Seq<char>>(e@),
        },
{
    match uri_of_directory(path) {
        Some(uri) => Ok(uri),
        None => Err(
            "workspace root is not an absolute file path: ".to_string().concat(
                byte_path::shown(path).as_str(),
            ),
        ),
    }
}

// ---------------------------------------------------------------------------
// Laws
// ---------------------------------------------------------------------------

/// Components of a path, each behind a slash.
pub open spec fn slashed(components: Seq<Seq<char>>) -> Seq<char>
    decreases components.len(),
{
    if components.len() == 0 {
        Seq::empty()
    } else {
        "/"@ + components[0] + slashed(components.drop_first())
    }
}

/// An absolute path without empty components, single dots and a slash at its
/// end.
pub open spec fn plain_path(path: Seq<char>) -> Seq<char> {
    let components = path::components_of(path);
    if components.len() == 0 {
        "/"@
    } else {
        slashed(components)
    }
}

proof fn lemma_encode_concat(a: Seq<char>, b: Seq<char>)
    ensures
        encode_utf8(a + b) == encode_utf8(a) + encode_utf8(b),
    decreases a.len(),
{
    if a.len() == 0 {
        assert(a + b =~= b);
        assert(encode_utf8(a) + encode_utf8(b) =~= encode_utf8(b));
    } else {
        lemma_encode_concat(a.drop_first(), b);
        assert((a + b).drop_first() =~= a.drop_first() + b);
        assert((a + b)[0] == a[0]);
        assert(encode_utf8(a + b) =~= encode_utf8(a) + encode_utf8(b));
    }
}

proof fn lemma_escaped_byte(b: u8, rest: Seq<u8>)
    ensures
        percent_decoded(encode_utf8(escaped_byte(b)) + rest) == seq![b] + percent_decoded(rest),
{
    let cs = escaped_byte(b);
    assert(is_ascii_chars(cs));
    is_ascii_chars_encode_utf8(cs);
    let s = encode_utf8(cs) + rest;
    assert forall|i: int| 0 <= i < cs.len() implies #[trigger] s[i] == cs[i] as u8 by {
        assert(encode_utf8(cs)[i] == cs[i] as u8);
    }
    if is_escaped(b) {
        assert(s[0] == 37);
        assert(hex_value(s[1]) == Some(b as int / 16));
        assert(hex_value(s[2]) == Some(b as int % 16));
        assert((b as int / 16) * 16 + b as int % 16 == b);
        assert(s.skip(3) =~= rest);
    } else {
        assert(s[0] == b);
        assert(s.skip(1) =~= rest);
    }
}

proof fn lemma_escaped(bytes: Seq<u8>, rest: Seq<u8>)
    ensures
        percent_decoded(encode_utf8(escaped(bytes)) + rest) == bytes + percent_decoded(rest),
    decreases bytes.len(),
{
    if bytes.len() == 0 {
        assert(encode_utf8(escaped(bytes)) + rest =~= rest);
        assert(bytes + percent_decoded(rest) =~= percent_decoded(rest));
    } else {
        let first = escaped_byte(bytes[0]);
        let others = escaped(bytes.drop_first());
        lemma_encode_concat(first, others);
        assert(encode_utf8(escaped(bytes)) + rest =~= encode_utf8(first) + (encode_utf8(others)
            + rest));
        lemma_escaped_byte(bytes[0], encode_utf8(others) + rest);
        lemma_escaped(bytes.drop_first(), rest);
        assert(seq![bytes[0]] + (bytes.drop_first() + percent_decoded(rest)) =~= bytes
            + percent_decoded(rest));
    }
}

proof fn lemma_slash(rest: Seq<u8>)
    ensures
        percent_decoded(encode_utf8("/"@) + rest) == encode_utf8("/"@) + percent_decoded(rest),
{
    reveal_strlit("/");
    assert(is_ascii_chars("/"@));
    is_ascii_chars_encode_utf8("/"@);
    let s = encode_utf8("/"@) + rest;
    assert(encode_utf8("/"@)[0] == "/"@[0] as u8);
    assert(s[0] == 47);
    assert(s.skip(1) =~= rest);
    assert(encode_utf8("/"@) =~= seq![47u8]);
}

proof fn lemma_components_decoded(components: Seq<Seq<char>>)
    ensures
        percent_decoded(encode_utf8(escaped_components(components))) == encode_utf8(
            slashed(components),
        ),
    decreases components.len(),
{
    if components.len() > 0 {
        let name = encode_utf8(components[0]);
        let others = components.drop_first();
        let tail = encode_utf8(escaped_components(others));
        lemma_encode_concat("/"@ + escaped(name), escaped_components(others));
        lemma_encode_concat("/"@, escaped(name));
        assert(encode_utf8(escaped_components(components)) =~= encode_utf8("/"@) + (encode_utf8(
            escaped(name),
        ) + tail));
        lemma_slash(encode_utf8(escaped(name)) + tail);
        lemma_escaped(name, tail);
        lemma_components_decoded(others);
        lemma_encode_concat("/"@ + components[0], slashed(others));
        lemma_encode_concat("/"@, components[0]);
        assert(encode_utf8(slashed(components)) =~= encode_utf8("/"@) + (name + encode_utf8(
            slashed(others),
        )));
    }
}

/// Reading the URI of a file gives its path back, whatever characters are in
/// it.
pub proof fn law_file_uri_round_trip(path: Seq<char>)
    requires
        path::absolute(path),
    ensures
        uri_path(file_uri(path)->0) == plain_path(path),
{
    let components = path::components_of(path);
    reveal_strlit("file:///");
    reveal_strlit("file://");
    reveal_strlit("/");
    let uri = file_uri(path)->0;
    let prefix = "file://"@;
    if components.len() == 0 {
        assert(uri =~= prefix + "/"@);
        lemma_slash(Seq::empty());
        assert(encode_utf8("/"@) + Seq::<u8>::empty() =~= encode_utf8("/"@));
        assert(uri.skip(prefix.len() as int) =~= "/"@);
        encode_utf8_valid_utf8("/"@);
        encode_utf8_decode_utf8("/"@);
    } else {
        assert(uri.skip(prefix.len() as int) =~= escaped_components(components));
        lemma_components_decoded(components);
        encode_utf8_valid_utf8(slashed(components));
        encode_utf8_decode_utf8(slashed(components));
    }
    assert(prefix.is_prefix_of(uri));
}

proof fn lemma_byte_components_decoded(components: Seq<Seq<char>>, rest: Seq<u8>)
    requires
        components.len() > 0,
    ensures
        percent_decoded(encode_utf8(escaped_byte_components(components)) + rest)
            == byte_path::text_bytes("/"@ + text::joined(components, "/"@)) + percent_decoded(rest),
    decreases components.len(),
{
    reveal_strlit("/");
    let front = components.drop_last();
    let name = byte_path::text_bytes(components.last());
    let before = escaped_byte_components(front);
    let tail = encode_utf8(escaped(name)) + rest;
    assert(is_ascii_chars("/"@));
    is_ascii_chars_encode_utf8("/"@);
    assert(encode_utf8("/"@) =~= seq![47u8]) by {
        assert(encode_utf8("/"@)[0] == "/"@[0] as u8);
    }
    lemma_encode_concat(before + "/"@, escaped(name));
    lemma_encode_concat(before, "/"@);
    lemma_slash(tail);
    lemma_escaped(name, rest);
    assert(encode_utf8(escaped_byte_components(components)) + rest =~= encode_utf8(before) + (
    encode_utf8("/"@) + tail));
    if front.len() > 0 {
        lemma_byte_components_decoded(front, encode_utf8("/"@) + tail);
        assert(byte_path::text_bytes("/"@ + text::joined(front, "/"@)) + (encode_utf8("/"@) + (name
            + percent_decoded(rest))) =~= byte_path::text_bytes(
            "/"@ + text::joined(components, "/"@),
        ) + percent_decoded(rest));
    } else {
        assert(before =~= Seq::<char>::empty());
        assert(encode_utf8(before) + (encode_utf8("/"@) + tail) =~= encode_utf8("/"@) + tail);
        assert(encode_utf8("/"@) + (name + percent_decoded(rest)) =~= byte_path::text_bytes(
            "/"@ + text::joined(components, "/"@),
        ) + percent_decoded(rest));
    }
}

/// Decoding the URI of a file whose path is not text gives the bytes of the
/// path back.
pub proof fn law_path_uri_keeps_bytes(path: Seq<u8>)
    requires
        path::absolute(byte_path::byte_text(path)),
        !valid_utf8(path),
    ensures
        text::after_prefix(path_uri(path)->0, "file://"@) matches Some(rest) && percent_decoded(
            encode_utf8(rest),
        ) == byte_path::text_bytes(path::normal_path(byte_path::byte_text(path))),
{
    let components = path::components_of(byte_path::byte_text(path));
    let uri = path_uri(path)->0;
    let none = Seq::<u8>::empty();
    reveal_strlit("file:///");
    reveal_strlit("file://");
    reveal_strlit("/");
    if components.len() == 0 {
        assert(uri =~= "file://"@ + "/"@);
        assert(uri.skip("file://"@.len() as int) =~= "/"@);
        assert(is_ascii_chars("/"@));
        is_ascii_chars_encode_utf8("/"@);
        lemma_slash(none);
        assert(encode_utf8("/"@) + none =~= encode_utf8("/"@));
        assert("/"@ + text::joined(components, "/"@) =~= "/"@);
        assert(encode_utf8("/"@)[0] == "/"@[0] as u8);
        assert(encode_utf8("/"@) =~= byte_path::text_bytes("/"@));
    } else {
        let rest = escaped_byte_components(components);
        assert(uri.skip("file://"@.len() as int) =~= rest);
        lemma_byte_components_decoded(components, none);
        assert(encode_utf8(rest) + none =~= encode_utf8(rest));
        assert(byte_path::text_bytes("/"@ + text::joined(components, "/"@)) + none
            =~= byte_path::text_bytes("/"@ + text::joined(components, "/"@)));
    }
    assert("file://"@.is_prefix_of(uri));
}

} // verus!
