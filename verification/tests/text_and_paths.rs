use simplecc::byte_path;
use simplecc::path;
use simplecc::strmap::StrMap;
use simplecc::text;
use simplecc::uri;
use std::path::Path;

const PATHS: [&str; 26] = [
    "", "/", "//", "a", "/a", "a/", "/a/", "a/b", "/a/b", "/a/b/", "/a//b", "./a", "a/.", "a/./b",
    "..", "../a", "/..", "a/..", "a/../b", ".hidden", "/x/.hidden", "a.b.c", "/x/a.", "/x/é.jl",
    "/My Project/src/main.jl", ".",
];

#[test]
fn whitespace_is_that_of_unicode() {
    for code in 0..=0x10ffffu32 {
        if let Some(c) = char::from_u32(code) {
            assert_eq!(text::is_whitespace(c), c.is_whitespace(), "{code:x}");
        }
    }
}

#[test]
fn trimming_takes_whitespace_off_both_ends() {
    for s in ["", " ", "a", " a ", "\t\r\na b\u{2003}", "\u{a0}x", "é ", " \u{200b} "] {
        assert_eq!(text::trim(s), s.trim(), "{s:?}");
        assert_eq!(text::is_blank(s), s.trim().is_empty(), "{s:?}");
    }
}

#[test]
fn numbers_are_written_and_read() {
    for n in [0u64, 7, 10, 99, 100, 12345, 67108864, u64::MAX] {
        assert_eq!(text::decimal_text(n), n.to_string());
        assert_eq!(text::parse_usize(&n.to_string()), n.to_string().parse::<usize>().ok());
    }
    for n in [0i64, -1, 42, i64::MIN, i64::MAX] {
        assert_eq!(text::signed_text(n), n.to_string());
    }
    for s in ["", "+", "+5", "-5", "5 ", "0x5", "007", "18446744073709551616", "1_0", "٣"] {
        assert_eq!(text::parse_usize(s), s.parse::<usize>().ok(), "{s:?}");
    }
}

#[test]
fn text_is_compared_and_cut() {
    assert!(text::str_eq("aé", "aé") && !text::str_eq("a", "ab") && !text::str_eq("b", "a"));
    for (a, b) in [("a", "b"), ("a", "ab"), ("", "a"), ("é", "z"), ("x", "x")] {
        assert_eq!(text::str_less(a, b), a < b);
        assert_eq!(text::str_less(b, a), b < a);
    }
    for (s, p) in [("file:///a", "file://"), ("file", "file://"), ("", ""), ("é1", "é")] {
        assert_eq!(text::starts_with(s, p), s.starts_with(p));
        assert_eq!(text::ends_with(s, p), s.ends_with(p));
        assert_eq!(text::strip_prefix(s, p), s.strip_prefix(p));
        assert_eq!(text::contains_text(s, p), s.contains(p));
    }
    assert!(text::contains_text("uses LanguageServer here", "LanguageServer"));
    assert!(!text::contains_text("Language Server", "LanguageServer"));
    assert_eq!(text::split_text("a.b..c", '.'), ["a", "b", "", "c"]);
    assert_eq!(text::split_text("", '.'), [""]);
    let pieces = vec!["x".to_string(), "".to_string(), "y".to_string()];
    assert_eq!(text::join(&pieces, ", "), "x, , y");
    assert_eq!(text::join(&vec![], ", "), "");
    for (a, b) in [("Content-Length", "content-length"), ("a", "b"), ("é", "É"), ("ab", "a")] {
        assert_eq!(text::eq_ignore_ascii_case(a, b), a.eq_ignore_ascii_case(b));
    }
}

#[test]
fn paths_are_taken_apart_as_the_platform_does() {
    for p in PATHS {
        let std_path = Path::new(p);
        let name = std_path.file_name().map(|s| s.to_str().unwrap().to_string());
        assert_eq!(path::file_name(p), name, "{p:?}");
        let extension = std_path.extension().map(|s| s.to_str().unwrap().to_string());
        assert_eq!(path::extension(p), extension, "{p:?}");
        assert_eq!(
            path::parent(p).map(|s| Path::new(&s).to_path_buf()),
            std_path.parent().map(|s| s.to_path_buf()),
            "{p:?}"
        );
        assert_eq!(path::is_absolute(p), std_path.is_absolute(), "{p:?}");
    }
}

#[test]
fn paths_are_put_together_as_the_platform_does() {
    for base in PATHS {
        for child in PATHS {
            let joined = path::join(base, child);
            assert_eq!(Path::new(&joined), Path::new(base).join(child), "{base:?} {child:?}");
            assert_eq!(
                path::is_within(base, child),
                Path::new(base).starts_with(child),
                "{base:?} {child:?}"
            );
            assert_eq!(path::is_same(base, child), Path::new(base) == Path::new(child));
        }
    }
    for p in ["/a/b", "b", "/a/b/", "/"] {
        assert_eq!(
            byte_path::with_file_name(p.as_bytes(), b".b.tmp"),
            Path::new(p).with_file_name(".b.tmp").to_str().unwrap().as_bytes(),
            "{p:?}"
        );
    }
}

#[test]
fn the_top_directory_is_stripped() {
    assert_eq!(path::strip_top_dir("clangd-release/bin/clangd").unwrap(), "bin/clangd");
    assert_eq!(path::strip_top_dir("clangd-release/"), None);
    assert_eq!(path::strip_top_dir("clangd-release"), None);
    assert_eq!(path::strip_top_dir(""), None);
    assert_eq!(path::strip_top_dir("/a//b/./c/").unwrap(), "a/b/c");
    assert_eq!(path::strip_top_dir("./a/b").unwrap(), "a/b");
    assert_eq!(path::strip_top_dir("/"), None);
    for p in PATHS {
        if let Some(rest) = path::strip_top_dir(p) {
            assert_eq!(rest, Path::new(p).components().skip(1).collect::<std::path::PathBuf>().to_str().unwrap());
        }
    }
}

#[test]
fn uris_are_decoded_to_paths() {
    assert_eq!(uri::decode_uri("file:///tmp/a.jl"), "/tmp/a.jl");
    assert_eq!(uri::decode_uri("file:///tmp/My%20Project/source.jl"), "/tmp/My Project/source.jl");
    assert_eq!(uri::decode_uri("file:///a%2fb%C3%A9%zz%4"), "/a/bé%zz%4");
    assert_eq!(uri::decode_uri("file:///bad%ff"), "/bad%ff");
    assert_eq!(uri::decode_uri("https://example.com/%20"), "https://example.com/%20");
}

#[test]
fn directory_uri_percent_encodes_reserved_path_characters() {
    let uri = uri::directory_uri(b"/tmp/Simple CC#workspace").unwrap();
    assert_eq!(uri, "file:///tmp/Simple%20CC%23workspace/");
}

#[test]
fn relative_directories_have_no_uri() {
    assert_eq!(
        uri::directory_uri(b"work/here").unwrap_err(),
        "workspace root is not an absolute file path: work/here"
    );
    assert_eq!(uri::directory_uri(b"/").unwrap(), "file:///");
    assert_eq!(
        uri::directory_uri(b"w\xff").unwrap_err(),
        "workspace root is not an absolute file path: w\u{fffd}"
    );
    assert!(uri::uri_of_file("relative").is_none());
}

#[test]
fn file_uris_and_back() {
    for p in ["/tmp/a.jl", "/a b/ü#?%\"<>`{}\\^~[]|.jl", "/x"] {
        let uri = uri::uri_of_file(p).unwrap();
        assert_eq!(uri::decode_uri(&uri), p);
        assert_eq!(uri::file_of_uri(&uri).unwrap(), p.as_bytes());
        assert_eq!(uri::uri_of_path(p.as_bytes()).unwrap(), uri);
    }
    assert_eq!(
        uri::uri_of_file("/a b/ü#?%\"<>`{}\\^~[]|.jl").unwrap(),
        "file:///a%20b/%C3%BC%23%3F%25%22%3C%3E%60%7B%7D%5C^~[]|.jl"
    );
    assert_eq!(uri::uri_of_file("/").unwrap(), "file:///");
    assert!(uri::file_of_uri("https://example.com/x").is_none());
    assert!(uri::file_of_uri("no uri").is_none());
}

#[test]
fn paths_that_are_not_text_have_uris() {
    assert_eq!(
        uri::uri_of_path(b"/a\xff//./b c\x01\x7f\xc3\xbc{~}/").unwrap(),
        "file:///a%FF/b%20c%01%7F%C3%BC%7B~%7D"
    );
    assert_eq!(
        uri::file_of_uri("file:///a%FF/b%20c%01%7F%C3%BC%7B~%7D").unwrap(),
        b"/a\xff/b c\x01\x7f\xc3\xbc{~}"
    );
    assert!(uri::uri_of_path(b"a\xff").is_none());
    assert!(uri::uri_of_path(b"").is_none());
    assert_eq!(uri::directory_uri(b"/\xfe").unwrap(), "file:///%FE/");
    assert_eq!(uri::directory_uri(b"/").unwrap(), "file:///");
    assert_eq!(uri::directory_uri("/ü".as_bytes()).unwrap(), "file:///%C3%BC/");
    assert!(uri::directory_uri(b"a").is_err());
}

#[test]
fn paths_are_the_same_when_their_normal_forms_are() {
    for a in PATHS {
        assert_eq!(Path::new(&path::normal(a)), Path::new(a), "{a}");
        for b in PATHS {
            let same = Path::new(a) == Path::new(b);
            assert_eq!(path::is_same(a, b), same, "{a} {b}");
            assert_eq!(path::normal(a) == path::normal(b), same, "{a} {b}");
        }
    }
    assert_eq!(path::normal("//a/.//b/./"), "/a/b");
    assert_eq!(path::normal("./a/./"), "./a");
}

#[test]
fn byte_paths_are_read_as_text_is() {
    for a in PATHS {
        let parent = Path::new(a).parent().map(|parent| parent.to_str().unwrap().as_bytes());
        assert_eq!(byte_path::parent(a.as_bytes()).as_deref(), parent, "{a}");
        for b in PATHS {
            let joined = Path::new(a).join(b);
            assert_eq!(
                byte_path::join(a.as_bytes(), b.as_bytes()),
                joined.to_str().unwrap().as_bytes(),
                "{a} {b}"
            );
        }
    }
    assert_eq!(byte_path::parent(b"/\xff/\xfe/"), Some(b"/\xff".to_vec()));
    assert_eq!(byte_path::text_of_bytes(b"a\xff"), "a\u{ff}");
    assert_eq!(byte_path::bytes_of_text("a\u{ff}"), b"a\xff");
}

#[test]
fn maps_keep_the_last_value_of_a_key() {
    let mut map: StrMap<u32> = StrMap::new();
    assert!(!map.contains("a"));
    map.insert("a", 1);
    map.insert("b", 2);
    map.insert("a", 3);
    assert_eq!(map.get("a"), Some(&3));
    assert_eq!(map.keys(), ["a", "b"]);
    map.remove("a");
    assert_eq!(map.get("a"), None);
    assert_eq!(map.get("b"), Some(&2));
    map.remove("missing");
    assert_eq!(map.keys(), ["b"]);
}

#[test]
fn the_uri_of_a_file_names_the_file() {
    for path in ["/", "/a", "/tmp/My Project/ä%20?#{}.jl", "/a/../b"] {
        assert_eq!(uri::decode_uri(&uri::uri_of_file(path).unwrap()), path);
    }
    assert_eq!(uri::decode_uri(&uri::uri_of_file("//a/./b/").unwrap()), "/a/b");
}
