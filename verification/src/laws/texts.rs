//! Texts, paths and addresses.

use vstd::prelude::*;
use vstd::string::*;
use vstd::utf8::*;

use crate::byte_path;
use crate::lsp::transport;
use crate::lsp::transport::HeaderLine;
use crate::path;
use crate::text;
use crate::uri;
use crate::workspace_watcher;

verus! {

// ---------------------------------------------------------------------------
// Texts
// ---------------------------------------------------------------------------

/// The pieces of a text, put together with the separator between them, are the
/// text, and none of them holds the separator.
pub proof fn law_pieces_make_the_text(s: Seq<char>, sep: char)
    ensures
        text::joined(text::split(s, sep), seq![sep]) == s,
        text::split(s, sep).len() > 0,
        forall|i: int|
            0 <= i < text::split(s, sep).len() ==> !(#[trigger] text::split(s, sep)[i]).contains(
                sep,
            ),
    decreases s.len(),
{
    let i = text::find_from(s, sep, 0);
    lemma_found(s, sep, 0);
    let pieces = text::split(s, sep);
    if i < s.len() {
        let rest = s.skip(i + 1);
        law_pieces_make_the_text(rest, sep);
        lemma_joined_front(s.take(i), text::split(rest, sep), seq![sep]);
        assert(s.take(i) + seq![sep] + rest =~= s);
        assert forall|k: int| 0 <= k < pieces.len() implies !(#[trigger] pieces[k]).contains(
            sep,
        ) by {
            if k > 0 {
                assert(pieces[k] == text::split(rest, sep)[k - 1]);
            }
        }
    }
}

proof fn lemma_found(s: Seq<char>, c: char, from: int)
    requires
        0 <= from <= s.len(),
    ensures
        from <= text::find_from(s, c, from) <= s.len(),
        text::find_from(s, c, from) < s.len() ==> s[text::find_from(s, c, from)] == c,
        forall|k: int| from <= k < text::find_from(s, c, from) ==> s[k] != c,
    decreases s.len() - from,
{
    if from < s.len() && s[from] != c {
        lemma_found(s, c, from + 1);
    }
}

proof fn lemma_joined_front(first: Seq<char>, rest: Seq<Seq<char>>, sep: Seq<char>)
    requires
        rest.len() > 0,
    ensures
        text::joined(seq![first] + rest, sep) == first + sep + text::joined(rest, sep),
    decreases rest.len(),
{
    let all = seq![first] + rest;
    assert(all.last() == rest.last());
    assert(all.drop_last() =~= seq![first] + rest.drop_last());
    if rest.len() == 1 {
        assert(all.drop_last() =~= seq![first]);
        assert(text::joined(all.drop_last(), sep) == first);
    } else {
        lemma_joined_front(first, rest.drop_last(), sep);
        assert(text::joined(all, sep) =~= first + sep + text::joined(rest, sep));
    }
}

/// Whether a text holds white space alone.
pub open spec fn is_space(s: Seq<char>) -> bool {
    forall|i: int| 0 <= i < s.len() ==> text::whitespace(#[trigger] s[i])
}

/// Trimming takes the white space off both ends of a text, all of it, and nothing
/// else.
pub proof fn law_trimming_takes_space_off_both_ends(
    before: Seq<char>,
    s: Seq<char>,
    after: Seq<char>,
)
    requires
        is_space(before),
        is_space(after),
        s.len() > 0 ==> !text::whitespace(s[0]) && !text::whitespace(s.last()),
    ensures
        text::trimmed(before + s + after) == s,
{
    if s.len() == 0 {
        assert(is_space(before + s + after));
        lemma_trim_start(before + s + after, Seq::empty());
        assert((before + s + after) + Seq::<char>::empty() =~= before + s + after);
        assert(s =~= Seq::empty());
    } else {
        lemma_trim_start(before, s + after);
        assert(before + (s + after) =~= before + s + after);
        lemma_trim_end(s, after);
    }
}

proof fn lemma_trim_start(before: Seq<char>, s: Seq<char>)
    requires
        is_space(before),
        s.len() > 0 ==> !text::whitespace(s[0]),
    ensures
        text::trim_start(before + s) == s,
    decreases before.len(),
{
    let all = before + s;
    if before.len() > 0 {
        assert(text::whitespace(before[0]));
        assert(all.drop_first() =~= before.drop_first() + s);
        assert(is_space(before.drop_first())) by {
            assert forall|i: int| 0 <= i < before.drop_first().len() implies text::whitespace(
                #[trigger] before.drop_first()[i],
            ) by {
                assert(text::whitespace(before[i + 1]));
            }
        }
        lemma_trim_start(before.drop_first(), s);
    } else {
        assert(all =~= s);
    }
}

proof fn lemma_trim_end(s: Seq<char>, after: Seq<char>)
    requires
        is_space(after),
        s.len() > 0 ==> !text::whitespace(s.last()),
    ensures
        text::trim_end(s + after) == s,
    decreases after.len(),
{
    let all = s + after;
    if after.len() > 0 {
        assert(text::whitespace(after[after.len() - 1]));
        assert(all.last() == after.last());
        assert(all.drop_last() =~= s + after.drop_last());
        assert(is_space(after.drop_last())) by {
            assert forall|i: int| 0 <= i < after.drop_last().len() implies text::whitespace(
                #[trigger] after.drop_last()[i],
            ) by {
                assert(text::whitespace(after[i]));
            }
        }
        lemma_trim_end(s, after.drop_last());
    } else {
        assert(all =~= s);
    }
}

/// The notation of a number has its digits from the highest to the lowest, with no
/// zero before them.
pub proof fn law_numbers_are_written_in_tens(n: nat)
    ensures
        n < 10 ==> text::decimal(n).len() == 1 && text::decimal(n)[0] as u32 == '0' as u32 + n,
        n >= 10 ==> text::decimal(n).len() == text::decimal(n / 10).len() + 1 && text::decimal(
            n,
        ).last() as u32 == '0' as u32 + n % 10 && text::decimal(n).drop_last() == text::decimal(
            n / 10,
        ),
        n > 0 ==> text::decimal(n)[0] != '0',
    decreases n,
{
    if n >= 10 {
        law_numbers_are_written_in_tens(n / 10);
        assert(text::decimal(n).drop_last() =~= text::decimal(n / 10));
    }
}

/// A prefix is taken off a text that begins with it, and what follows it stays.
pub proof fn law_prefixes_are_taken_off(prefix: Seq<char>, rest: Seq<char>, s: Seq<char>)
    ensures
        text::after_prefix(prefix + rest, prefix) == Some(rest),
        text::after_prefix(s, prefix) is Some <==> exists|r: Seq<char>| s == #[trigger] (prefix + r),
{
    assert((prefix + rest).skip(prefix.len() as int) =~= rest);
    assert((prefix + rest).take(prefix.len() as int) =~= prefix);
    if text::after_prefix(s, prefix) is Some {
        assert(s =~= prefix + s.skip(prefix.len() as int));
    }
    if exists|r: Seq<char>| s == #[trigger] (prefix + r) {
        let r = choose|r: Seq<char>| s == #[trigger] (prefix + r);
        assert((prefix + r).take(prefix.len() as int) =~= prefix);
    }
}

/// Two texts are the same but for their case exactly where each character of one
/// is that of the other or its capital.
pub proof fn law_case_is_ignored(a: Seq<char>, b: Seq<char>, i: int)
    requires
        text::same_ignoring_case(a, b),
        0 <= i < a.len(),
    ensures
        a.len() == b.len(),
        a[i] == b[i] || ('A' <= a[i] <= 'Z' && b[i] as u32 == a[i] as u32 + 32) || ('A' <= b[i]
            <= 'Z' && a[i] as u32 == b[i] as u32 + 32),
{
    assert(text::ascii_lower(a[i]) == text::ascii_lower(b[i]));
}

// ---------------------------------------------------------------------------
// Paths
// ---------------------------------------------------------------------------

/// Whether a text can be the name of a file.
pub open spec fn is_name(name: Seq<char>) -> bool {
    name.len() > 0 && !name.contains('/') && name != "."@ && name != ".."@
}

/// A name below a directory is the name of the path, and the directory is its
/// parent.
pub proof fn law_paths_have_name_and_parent(directory: Seq<char>, name: Seq<char>)
    requires
        is_name(name),
    ensures
        path::name_of(directory + seq!['/'] + name) == Some(name),
        path::parent_of(directory + seq!['/'] + name) is Some,
        path::components_of(path::parent_of(directory + seq!['/'] + name)->0)
            == path::components_of(directory),
        path::components_of(directory + seq!['/'] + name) == path::components_of(directory).push(
            name,
        ),
        path::name_of(name) == Some(name),
{
    lemma_name_chars(name);
    path::lemma_components_append(directory, name);
    path::lemma_parent(directory + seq!['/'] + name);
    path::lemma_name(directory + seq!['/'] + name);
    path::lemma_one_piece(name);
    path::lemma_name(name);
    assert(path::components_of(directory).push(name).drop_last() =~= path::components_of(
        directory,
    ));
}

proof fn lemma_name_chars(name: Seq<char>)
    requires
        !name.contains('/'),
    ensures
        forall|k: int| 0 <= k < name.len() ==> name[k] != '/',
{
    assert forall|k: int| 0 <= k < name.len() implies name[k] != '/' by {
        assert(name.contains(name[k]));
    }
}

/// A path below another lies below it as it is, one that begins at the root stands
/// for itself.
pub proof fn law_paths_are_joined(base: Seq<char>, child: Seq<char>)
    ensures
        child.len() > 0 && child[0] == '/' ==> path::joined_path(base, child) == child,
        child.len() > 0 && child[0] != '/' && base.len() > 0 && base.last() != '/'
            ==> path::joined_path(base, child) == base + seq!['/'] + child,
        child.len() > 0 && child[0] != '/' && base.len() > 0 && base.last() == '/'
            ==> path::joined_path(base, child) == base + child,
{
    reveal_strlit("/");
    assert("/"@ =~= seq!['/']);
}

/// Empty pieces and single dots between slashes do not count.
pub proof fn law_empty_pieces_do_not_count(a: Seq<char>, name: Seq<char>)
    requires
        is_name(name),
    ensures
        path::components_of(a + seq!['/'] + Seq::<char>::empty()) == path::components_of(a),
        path::components_of(a + seq!['/'] + "."@) == path::components_of(a),
        path::components_of(a + seq!['/'] + name).last() == name,
{
    reveal_strlit(".");
    lemma_name_chars(name);
    path::lemma_components_append(a, Seq::empty());
    path::lemma_components_append(a, "."@);
    path::lemma_components_append(a, name);
}

/// The extension of a file is what follows the last dot of its name, where the
/// name does not begin with that dot.
pub proof fn law_extensions_follow_the_last_dot(
    directory: Seq<char>,
    stem: Seq<char>,
    extension: Seq<char>,
)
    requires
        stem.len() > 0,
        !stem.contains('/'),
        !extension.contains('/'),
        !extension.contains('.'),
        is_name(stem + seq!['.'] + extension),
    ensures
        path::extension_of(directory + seq!['/'] + (stem + seq!['.'] + extension)) == Some(
            extension,
        ),
{
    let name = stem + seq!['.'] + extension;
    law_paths_have_name_and_parent(directory, name);
    assert forall|k: int| stem.len() < k < name.len() implies name[k] != '.' by {
        assert(extension.contains(name[k])) by {
            assert(extension[k - stem.len() - 1] == name[k]);
        }
    }
    lemma_last_dot(name, stem.len() as int);
    assert(name.skip((stem.len() + 1) as int) =~= extension);
}

proof fn lemma_last_dot(s: Seq<char>, at: int)
    requires
        0 <= at < s.len(),
        s[at] == '.',
        forall|k: int| at < k < s.len() ==> s[k] != '.',
    ensures
        path::last_dot(s) == at,
    decreases s.len(),
{
    if at < s.len() - 1 {
        assert(s[s.len() - 1] != '.');
        assert forall|k: int| at < k < s.drop_last().len() implies s.drop_last()[k] != '.' by {
            assert(s[k] != '.');
        }
        lemma_last_dot(s.drop_last(), at);
    }
}

/// One path lies within another exactly where it goes on from it.
pub proof fn law_within_is_going_on(base: Seq<char>, name: Seq<char>, other: Seq<char>)
    requires
        is_name(name),
        base.len() > 0,
    ensures
        path::within(base, base),
        path::within(base + seq!['/'] + name, base),
        path::absolute(base) && path::components_of(other).len() < path::components_of(base).len()
            ==> !path::within(other, base),
        path::absolute(base) && !path::absolute(other) ==> !path::within(other, base),
{
    law_paths_have_name_and_parent(base, name);
    let all = path::components_of(base);
    assert(all.take(all.len() as int) =~= all);
    assert(all.push(name).take(all.len() as int) =~= all);
    assert((base + seq!['/'] + name)[0] == base[0]);
}

// ---------------------------------------------------------------------------
// Addresses
// ---------------------------------------------------------------------------

/// Every byte is escaped or stands for itself, and the bytes of letters, digits
/// and the four unreserved marks always stand for themselves.
pub proof fn law_plain_bytes_are_not_escaped(b: u8)
    ensures
        'a' as u32 <= b <= 'z' as u32 || 'A' as u32 <= b <= 'Z' as u32 || '0' as u32 <= b
            <= '9' as u32 || b == '-' as u32 || b == '.' as u32 || b == '_' as u32 || b
            == '~' as u32 ==> uri::escaped_byte(b) == seq![b as char],
        b <= 0x20 || b >= 0x7f || b == '%' as u32 || b == '#' as u32 || b == '?' as u32
            ==> uri::escaped_byte(b).len() == 3 && uri::escaped_byte(b)[0] == '%',
{
}

/// What an escape stands for is the byte of its two digits.
pub proof fn law_escapes_are_two_digits(b: u8)
    ensures
        uri::escaped_byte(b).len() == 3 ==> {
            &&& uri::hex_value(uri::escaped_byte(b)[1] as u8) == Some(b as int / 16)
            &&& uri::hex_value(uri::escaped_byte(b)[2] as u8) == Some(b as int % 16)
        },
        uri::escaped_byte(b).len() != 3 ==> uri::escaped_byte(b) == seq![b as char],
{
}

/// The address of a file begins with the scheme of files, and only a path from the
/// root has one. That of a directory ends in a slash.
pub proof fn law_file_addresses_have_their_scheme(path: Seq<char>)
    ensures
        uri::file_uri(path) is Some <==> path.len() > 0 && path[0] == '/',
        uri::file_uri(path) matches Some(u) ==> "file:///"@.is_prefix_of(u),
        uri::dir_uri(path) is Some <==> path.len() > 0 && path[0] == '/',
        uri::dir_uri(path) matches Some(u) ==> u.last() == '/' && uri::file_uri(
            path,
        )->0.is_prefix_of(u),
{
    reveal_strlit("file:///");
    reveal_strlit("file://");
    reveal_strlit("/");
    let components = path::components_of(path);
    if path::absolute(path) && components.len() > 0 {
        let u = uri::file_uri(path)->0;
        assert(u.take(8) =~= "file:///"@);
    }
    if let Some(u) = uri::file_uri(path) {
        let d = uri::dir_uri(path)->0;
        assert(d.take(u.len() as int) =~= u);
    }
}

/// An address of another scheme is left as it is.
pub proof fn law_other_addresses_stay(address: Seq<char>, rest: Seq<char>)
    ensures
        !"file://"@.is_prefix_of(address) ==> uri::uri_path(address) == address,
        !encode_utf8(rest).contains(37u8) ==> uri::uri_path("file://"@ + rest) == rest,
{
    if !encode_utf8(rest).contains(37u8) {
        let prefix = "file://"@;
        assert((prefix + rest).skip(prefix.len() as int) =~= rest);
        assert((prefix + rest).take(prefix.len() as int) =~= prefix);
        lemma_no_escapes(encode_utf8(rest));
        encode_utf8_valid_utf8(rest);
        encode_utf8_decode_utf8(rest);
    }
}

proof fn lemma_no_escapes(s: Seq<u8>)
    requires
        !s.contains(37u8),
    ensures
        uri::percent_decoded(s) == s,
    decreases s.len(),
{
    if s.len() > 0 {
        assert(s.contains(s[0]));
        assert(!s.skip(1).contains(37u8)) by {
            if s.skip(1).contains(37u8) {
                let i = choose|i: int| 0 <= i < s.skip(1).len() && s.skip(1)[i] == 37u8;
                assert(s[i + 1] == 37u8);
            }
        }
        lemma_no_escapes(s.skip(1));
        assert(seq![s[0]] + s.skip(1) =~= s);
    }
}

// ---------------------------------------------------------------------------
// Frames
// ---------------------------------------------------------------------------

/// A message goes out behind one header with the number of its bytes, and an empty
/// line.
pub proof fn law_frames_begin_with_their_length(body: Seq<u8>)
    ensures
        transport::framed(body) == encode_utf8(
            "Content-Length: "@ + text::decimal(body.len()) + "\r\n\r\n"@,
        ) + body,
{
}

/// A header names the length of its message whatever the case of its name and the
/// space around it. A second one, one that is no number and one that is too large
/// are refused.
pub proof fn law_lengths_are_read(
    name: Seq<char>,
    length: nat,
    after: Seq<char>,
    known: bool,
)
    requires
        text::same_ignoring_case(name, "Content-Length"@),
        is_space(after),
        length <= usize::MAX,
    ensures
        ({
            let line = name + seq![':', ' '] + text::decimal(length) + after;
            let read = transport::header_line(line, known);
            &&& !known && length <= 67_108_864 ==> read == (HeaderLine::Length {
                length: length as usize,
            })
            &&& !known && length > 67_108_864 ==> read == (HeaderLine::Fail {
                error: transport::FrameError::TooLarge { length: length as usize },
            })
            &&& known ==> read == (HeaderLine::Fail {
                error: transport::FrameError::DuplicateLength,
            })
        }),
{
    reveal_strlit("Content-Length");
    let d = text::decimal(length);
    text::lemma_decimal_digits(length);
    text::law_decimal_round_trip(length, usize::MAX as nat);
    assert forall|i: int| 0 <= i < name.len() implies name[i] != ':' && !text::whitespace(
        #[trigger] name[i],
    ) by {
        assert(text::ascii_lower(name[i]) == text::ascii_lower("Content-Length"@[i]));
    }
    let core = name + seq![':', ' '] + d;
    let line = core + after;
    assert(text::is_digit(d[d.len() - 1]));
    assert(text::is_digit(d[0]));
    assert(core.last() == d.last());
    assert(core[0] == name[0]);
    law_trimming_takes_space_off_both_ends(Seq::empty(), core, after);
    assert(Seq::<char>::empty() + core + after =~= line);
    assert(text::trimmed(line) == core);
    text::lemma_find_from(core, ':', 0, name.len() as int);
    assert(core.take(name.len() as int) =~= name);
    law_trimming_takes_space_off_both_ends(Seq::empty(), name, Seq::empty());
    assert(Seq::<char>::empty() + name + Seq::<char>::empty() =~= name);
    let value = core.skip((name.len() + 1) as int);
    assert(value =~= seq![' '] + d + Seq::<char>::empty());
    law_trimming_takes_space_off_both_ends(seq![' '], d, Seq::empty());
}

// ---------------------------------------------------------------------------
// Files
// ---------------------------------------------------------------------------

/// The files of Julia and Markdown are watched by their extension.
pub proof fn law_sources_are_watched(file: Seq<u8>, directory: Seq<char>, stem: Seq<char>)
    requires
        stem.len() > 0,
        !stem.contains('/'),
    ensures
        byte_path::byte_text(file) == directory + seq!['/'] + (stem + seq!['.'] + "jl"@)
            ==> workspace_watcher::is_workspace_file(file),
        byte_path::byte_text(file) == directory + seq!['/'] + (stem + seq!['.'] + "jmd"@)
            ==> workspace_watcher::is_workspace_file(file),
        byte_path::byte_text(file) == directory + seq!['/'] + (stem + seq!['.'] + "md"@)
            ==> workspace_watcher::is_workspace_file(file),
{
    reveal_strlit("jl");
    reveal_strlit("jmd");
    reveal_strlit("md");
    lemma_source_name(stem, "jl"@);
    lemma_source_name(stem, "jmd"@);
    lemma_source_name(stem, "md"@);
    law_extensions_follow_the_last_dot(directory, stem, "jl"@);
    law_extensions_follow_the_last_dot(directory, stem, "jmd"@);
    law_extensions_follow_the_last_dot(directory, stem, "md"@);
}

proof fn lemma_source_name(stem: Seq<char>, extension: Seq<char>)
    requires
        stem.len() > 0,
        !stem.contains('/'),
        !extension.contains('/'),
        extension.len() > 0,
        extension[0] != '.',
    ensures
        is_name(stem + seq!['.'] + extension),
{
    reveal_strlit(".");
    reveal_strlit("..");
    let name = stem + seq!['.'] + extension;
    lemma_name_chars(stem);
    lemma_name_chars(extension);
    if name.contains('/') {
        let k = choose|k: int| 0 <= k < name.len() && name[k] == '/';
        if k > stem.len() {
            assert(extension[k - stem.len() - 1] == '/');
        }
    }
}

/// A header without a colon, or with another name, says nothing of the length.
pub proof fn law_other_headers_are_passed_over(line: Seq<char>, name: Seq<char>, rest: Seq<char>)
    requires
        text::trimmed(line).len() > 0,
    ensures
        !text::trimmed(line).contains(':') ==> transport::header_line(line, false)
            is Other && transport::header_line(line, true) is Other,
        text::trimmed(line) == name + seq![':'] + rest && !name.contains(':')
            && !text::same_ignoring_case(text::trimmed(name), "Content-Length"@)
            ==> transport::header_line(line, false) is Other && transport::header_line(line, true)
            is Other,
{
    let t = text::trimmed(line);
    lemma_found(t, ':', 0);
    let colon = text::find_from(t, ':', 0);
    if !t.contains(':') && colon < t.len() {
        assert(t.contains(t[colon]));
    }
    if t == name + seq![':'] + rest && !name.contains(':') {
        assert(t[name.len() as int] == ':');
        if colon < name.len() {
            assert(name.contains(name[colon]));
        }
        assert(t.take(name.len() as int) =~= name);
    }
}

/// A number is written with digits alone, after a plus sign or none.
pub proof fn law_only_digits_make_a_number(s: Seq<char>, max: nat, i: int)
    ensures
        s.len() == 0 ==> text::unsigned_value(s, max) is None,
        0 < i < s.len() && !('0' <= s[i] <= '9') ==> text::unsigned_value(s, max) is None,
        s.len() > 0 && s[0] != '+' && !('0' <= s[0] <= '9') ==> text::unsigned_value(s, max) is None,
        s == seq!['+'] ==> text::unsigned_value(s, max) is None,
        text::unsigned_value(s, max) matches Some(n) ==> n <= max,
{
    let body = if s.len() > 0 && s[0] == '+' {
        s.drop_first()
    } else {
        s
    };
    if 0 < i < s.len() {
        if s[0] == '+' {
            assert(body[i - 1] == s[i]);
        } else {
            assert(body[i] == s[i]);
        }
    }
    if s.len() > 0 && s[0] != '+' {
        assert(body[0] == s[0]);
    }
}

/// A text is part of another exactly where the other is something before it, the
/// text and something behind it.
pub proof fn law_parts_lie_between(before: Seq<char>, part: Seq<char>, after: Seq<char>, s: Seq<char>)
    ensures
        text::has_infix(before + part + after, part),
        text::has_infix(s, part) ==> exists|a: Seq<char>, b: Seq<char>|
            s == #[trigger] (a + part + b),
{
    let whole = before + part + after;
    let at: int = before.len() as int;
    assert(whole.subrange(at, at + part.len()) =~= part);
    if text::has_infix(s, part) {
        let i = choose|i: int|
            0 <= i <= s.len() - part.len() && #[trigger] s.subrange(i, i + part.len()) == part;
        assert(s =~= s.take(i) + part + s.skip(i + part.len()));
    }
}


} // verus!
