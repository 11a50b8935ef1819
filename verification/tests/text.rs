use std::path::Path;

use gitom::bytes::text_of_utf8;
use gitom::numerals::{decimal_i64, decimal_u64, hex_padded, hex_text};
use gitom::paths::{absolute, extension, join_path, path_lies_under, path_steps};
use gitom::text::{
    begins_with, contains_char, contains_text, finishes_with, line_one, same_ignoring_case,
    split_first, split_text, strip_front, trim_leading, trim_text, trim_trailing, white_space,
};

#[test]
fn white_space_is_that_of_unicode() {
    for n in 0..=0x10ffffu32 {
        if let Some(c) = char::from_u32(n) {
            assert_eq!(white_space(c), c.is_whitespace(), "{:x}", n);
        }
    }
}

#[test]
fn searching_agrees_with_the_standard_library() {
    let texts = ["", ".", "..", "a..b", "a.b.c", "/", "a/b", "x\0y", "\u{e9}t\u{e9}", "aab", "aaab"];
    let parts = ["", ".", "..", "/", "\u{e9}", "aab", "b"];
    for t in texts {
        for p in parts {
            assert_eq!(contains_text(t, p), t.contains(p), "{t} {p}");
            assert_eq!(begins_with(t, p), t.starts_with(p), "{t} {p}");
            assert_eq!(finishes_with(t, p), t.ends_with(p), "{t} {p}");
            assert_eq!(
                strip_front(t, p),
                t.strip_prefix(p).map(|s| s.to_string()),
                "{t} {p}"
            );
            if !p.is_empty() {
                assert_eq!(trim_leading(t, p), t.trim_start_matches(p), "{t} {p}");
            }
        }
        for c in ['.', '/', '\0', 'a', '\u{e9}'] {
            assert_eq!(contains_char(t, c), t.contains(c));
            assert_eq!(split_text(t, c), t.split(c).collect::<Vec<_>>());
            assert_eq!(trim_trailing(t, c), t.trim_end_matches(c));
            assert_eq!(
                split_first(t, c),
                t.split_once(c).map(|(a, b)| (a.to_string(), b.to_string()))
            );
        }
    }
}

#[test]
fn trimming_agrees_with_the_standard_library() {
    for t in ["", " ", " a ", "\t\na b\u{3000}", "a", "\u{85}x\u{2028}"] {
        assert_eq!(trim_text(t), t.trim());
    }
}

#[test]
fn first_lines_agree_with_the_standard_library() {
    for t in ["", "\n", "one", "one\ntwo", "one\r\ntwo", "one\rtwo", "one\r", "\r\n", "a\r\r\nb"] {
        assert_eq!(line_one(t), t.lines().next().unwrap_or(""), "{t:?}");
    }
}

#[test]
fn case_is_ignored_for_ascii_letters_only() {
    assert!(same_ignoring_case("LocalHost", "localhost"));
    assert!(!same_ignoring_case("localhost.", "localhost"));
    assert!(!same_ignoring_case("\u{c9}", "\u{e9}"));
    assert!(!same_ignoring_case("@", "`"));
}

#[test]
fn numbers_are_written_as_the_formatter_writes_them() {
    for n in [0u64, 7, 10, 99, 100, 12345, u64::MAX] {
        assert_eq!(decimal_u64(n), format!("{n}"));
        assert_eq!(hex_padded(n as u128, 4), format!("{n:04x}"));
    }
    for n in [0i64, -1, 42, -604800, i64::MIN, i64::MAX] {
        assert_eq!(decimal_i64(n), format!("{n}"));
    }
    assert_eq!(hex_text(&[0, 15, 16, 255]), "000f10ff");
}

#[test]
fn bytes_are_text_only_where_they_are_utf8() {
    assert_eq!(text_of_utf8("h\u{e9}".as_bytes()), Some("h\u{e9}".to_string()));
    assert_eq!(text_of_utf8(&[0xff, 0x41]), None);
    assert_eq!(text_of_utf8(&[]), Some(String::new()));
}

#[test]
fn paths_agree_with_the_standard_library() {
    let paths = [
        "", "/", "a", "a/b", "/a/b", "a//b", "./a", "a/./b", "a/../b", "/a/b/", "..", "/..", "a.git",
        "/data/repos", "/data/repos/x", "/data/reposx", ".", "././x",
    ];
    for p in paths {
        assert_eq!(absolute(p), Path::new(p).is_absolute(), "{p}");
        for q in paths {
            assert_eq!(path_lies_under(p, q), Path::new(p).starts_with(q), "{p} under {q}");
            assert_eq!(
                path_steps(join_path(p, q).as_str()),
                path_steps(Path::new(p).join(q).to_str().unwrap()),
                "{p} + {q}"
            );
        }
    }
}

#[test]
fn extensions_agree_with_the_standard_library() {
    for p in [
        "", "a", "a.rs", "a.tar.gz", ".gitignore", ".a.b", "dir/x.md", "dir.d/x", "a.", "..", "dir/..",
        "x/", "x.rs/", "a..b", "...", "dir/.hidden",
    ] {
        let wanted = Path::new(p).extension().and_then(|e| e.to_str()).unwrap_or("");
        assert_eq!(extension(p), wanted, "{p}");
    }
}
