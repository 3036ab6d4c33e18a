use std::path::Path;

use omarkeyd::duration::Duration;
use omarkeyd::paths::{file_name, file_stem, is_absolute, join, parent, UnixPath};
use omarkeyd::text::{
    contains_text, is_space_char, is_subsequence, join_texts, parse_u64, split_words, to_ascii_lower, trim,
    write_number,
};

const PATHS: [&str; 28] = [
    "", "/", "//", ".", "./", "..", "a", "a/", "/a", "/a/", "/a/b", "/a//b", "a/./b", "./b", "/./b",
    "a/.", "a/..", "/a/b/.", "/a/b/./", "///a", ".a", ".a/b", "/run/user/1000/omarkey.sock", "./.",
    "a/b/../c", "/.", "/é/ü.ö.x", "é",
];

#[test]
fn paths_agree_with_the_standard_library() {
    for text in PATHS {
        let std = Path::new(text);
        let path = &UnixPath::from_text(text);
        let text = |part: Option<&Path>| {
            part.map(|p| UnixPath::from_bytes(p.as_os_str().as_encoded_bytes().to_vec()))
        };
        assert_eq!(parent(path), text(std.parent()), "parent of {path:?}");
        assert_eq!(
            file_name(path),
            text(std.file_name().map(Path::new)),
            "file name of {path:?}"
        );
        assert_eq!(
            file_stem(path),
            text(std.file_stem().map(Path::new)),
            "file stem of {path:?}"
        );
        assert_eq!(is_absolute(path), std.is_absolute());
        for rest in ["", "x", "/x", "x/y"] {
            assert_eq!(
                join(path, &UnixPath::from_text(rest)).display(),
                std.join(rest).to_string_lossy(),
                "{path:?} joined with {rest:?}"
            );
        }
    }
}

#[test]
fn paths_that_are_not_text() {
    let path = UnixPath::from_bytes(b"/a\xff/b\xfe.x".to_vec());
    assert_eq!(path.display(), "/a\u{fffd}/b\u{fffd}.x");
    assert_eq!(file_name(&path).unwrap().as_bytes(), b"b\xfe.x");
    assert_eq!(file_stem(&path).unwrap().as_bytes(), b"b\xfe");
    assert_eq!(parent(&path).unwrap().as_bytes(), b"/a\xff");
    assert_eq!(UnixPath::from_text("/é").as_bytes(), "/é".as_bytes());
    assert_eq!(UnixPath::from_text("/é").display(), "/é");
}

#[test]
fn text_functions_agree_with_the_standard_library() {
    let samples = [
        "", " ", "a b", "  a\t\u{2003}b\n", "\u{a0}x\u{3000}", "ÄÖ ü", "İ", "~250", "+5", "-5", "007",
        "18446744073709551615", "18446744073709551616", "1 2", "+", "٣",
    ];
    for text in samples {
        assert_eq!(trim(text), text.trim(), "{text:?}");
        assert_eq!(split_words(text), text.split_whitespace().collect::<Vec<_>>());
        assert_eq!(to_ascii_lower(text), text.to_ascii_lowercase());
        assert_eq!(parse_u64(text), text.parse::<u64>().ok(), "{text:?}");
        for part in ["", " ", "a", "ü", "25", "zz"] {
            assert_eq!(contains_text(text, part), text.contains(part));
        }
    }
}

#[test]
fn white_space_is_that_of_the_standard_library() {
    for c in '\0'..=char::MAX {
        assert_eq!(is_space_char(c), c.is_whitespace(), "{c:?}");
    }
}

#[test]
fn numbers_are_written_in_any_base() {
    assert_eq!(write_number(0, 8), "0");
    assert_eq!(write_number(0o755, 8), "755");
    assert_eq!(write_number(18446744073709551615, 10), "18446744073709551615");
    assert_eq!(write_number(5, 2), "101");
}

#[test]
fn texts_are_joined() {
    let list = |items: &[&str]| items.iter().map(|s| s.to_string()).collect::<Vec<_>>();
    assert_eq!(join_texts(&list(&[]), ", "), "");
    assert_eq!(join_texts(&list(&["a"]), ", "), "a");
    assert_eq!(join_texts(&list(&["a", "b", ""]), ", "), "a, b, ");
}

#[test]
fn subsequences() {
    assert!(is_subsequence("", "abc"));
    assert!(is_subsequence("ac", "abc"));
    assert!(is_subsequence("abc", "abc"));
    assert!(!is_subsequence("ca", "abc"));
    assert!(!is_subsequence("aa", "abc"));
    assert!(!is_subsequence("a", ""));
}

#[test]
fn durations() {
    assert_eq!(Duration::from_secs(2).as_millis(), 2000);
    assert_eq!(Duration::from_millis(2999).as_secs(), 2);
    assert!(Duration::from_millis(0).is_zero());
    assert!(!Duration::from_millis(1).is_zero());
    assert!(Duration::from_millis(1).shorter_than(&Duration::from_secs(1)));
    assert!(!Duration::from_secs(1).shorter_than(&Duration::from_secs(1)));
    let rest = Duration::from_secs(3).saturating_sub(Duration::from_millis(500));
    assert_eq!(rest.as_millis(), 2500);
    assert!(Duration::from_secs(1)
        .saturating_sub(Duration::from_secs(2))
        .is_zero());
    assert_eq!(
        Duration::from_secs(18446744073709551615).as_secs(),
        18446744073709551615
    );
}
