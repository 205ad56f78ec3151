//! Text, paths and variables.

use std::path::{Path, PathBuf};

use tmuy::env_map::EnvMap;
use tmuy::path::{is_absolute, join, starts_with};
use tmuy::text::{
    Separator, ascii_upper_text, decimal_text, hex7_text, is_white_space, optional_code_text,
    optional_pid_text, padded_decimal_text, same_text, signed_decimal_text, split_fields,
    text_before, trimmed, year_text,
};

const SAMPLES: [&str; 18] = [
    "", "/", ".", "..", "a", "/a", "a/b", "/a/b", "/a/b/", "//a//b", "./a", "a/./b", "/a/.",
    "/./a", "a/../b", "/ab", "./", "\u{e9}/x",
];

#[test]
fn paths_are_joined_as_the_standard_library_joins_them() {
    for base in SAMPLES {
        for tail in SAMPLES {
            let expected = Path::new(base).join(tail);
            assert_eq!(join(base, tail), expected.to_str().unwrap());
        }
        assert_eq!(is_absolute(base), PathBuf::from(base).is_absolute());
    }
}

#[test]
fn paths_lie_within_as_the_standard_library_says() {
    for path in SAMPLES {
        for base in SAMPLES {
            assert_eq!(
                starts_with(path, base),
                Path::new(path).starts_with(base),
                "{path:?} {base:?}"
            );
        }
    }
}

#[test]
fn white_space_is_what_the_standard_library_says() {
    for code in 0..=0x10ffffu32 {
        if let Some(c) = char::from_u32(code) {
            assert_eq!(is_white_space(c), c.is_whitespace(), "{code:x}");
        }
    }
}

#[test]
fn fields_and_trimming_follow_the_standard_library() {
    for text in ["", " ", "a", " a  b\tc\n", "\u{2003}x\u{a0}y\u{85}", "a b", "  \u{e9} "] {
        let expected: Vec<&str> = text.split_whitespace().collect();
        assert_eq!(split_fields(text, Separator::White), expected);
        assert_eq!(trimmed(text), text.trim());
        assert_eq!(ascii_upper_text(text), text.to_ascii_uppercase());
    }
    assert_eq!(split_fields("//a/b//", Separator::Slash), vec!["a", "b"]);
    assert_eq!(ascii_upper_text("sigterm\u{e9}"), "SIGTERM\u{e9}");
}

#[test]
fn numbers_are_written_as_the_standard_library_writes_them() {
    for n in [0u64, 7, 10, 99, 100, 12345, u64::MAX] {
        assert_eq!(decimal_text(n), n.to_string());
        assert_eq!(padded_decimal_text(n, 2), format!("{n:02}"));
    }
    for n in [0i32, -1, 42, i32::MIN, i32::MAX] {
        assert_eq!(signed_decimal_text(n), n.to_string());
        assert_eq!(optional_code_text(Some(n)), format!("{:?}", Some(n)));
        assert_eq!(year_text(n), format!("{n:04}"));
    }
    for n in [5i32, -5, 999, -999, 1000, -1000, 2026] {
        assert_eq!(year_text(n), format!("{n:04}"));
    }
    assert_eq!(optional_code_text(None), "None");
    assert_eq!(optional_pid_text(Some(u32::MAX)), format!("{:?}", Some(u32::MAX)));
    assert_eq!(optional_pid_text(None), "None");
    for n in [0u32, 1, 0xab, 0x0fff_ffff, 0x0123_4567] {
        assert_eq!(hex7_text(n), format!("{n:07x}"));
    }
}

#[test]
fn texts_are_compared_as_the_standard_library_compares_them() {
    let texts = ["", "a", "A", "ab", "abc", "b", "\u{e9}", "\u{1f600}", "\u{ffff}", "a\u{e9}"];
    for a in texts {
        for b in texts {
            assert_eq!(text_before(a, b), a < b);
            assert_eq!(same_text(a, b), a == b);
        }
    }
}

#[test]
fn variables_are_sorted_and_set_once() {
    let env = EnvMap::new()
        .insert("b", "1")
        .insert("a", "2")
        .insert("c", "3")
        .insert("b", "4")
        .insert("", "5");
    let pairs: Vec<(&str, &str)> =
        env.entries().iter().map(|(name, value)| (name.as_str(), value.as_str())).collect();
    assert_eq!(pairs, vec![("", "5"), ("a", "2"), ("b", "4"), ("c", "3")]);
    assert_eq!(env.get("b").map(String::as_str), Some("4"));
    assert_eq!(env.get("d"), None);
    let copy = env.clone();
    assert_eq!(copy.entries(), env.entries());
}
