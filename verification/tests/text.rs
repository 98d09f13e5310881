//! Text, numbers and paths, held against what std does.
use codex_ctl::numbers::{parse_integer, parse_natural, push_decimal, push_signed};
use codex_ctl::paths::{file_name, path_join};
use codex_ctl::text::{
    same_lines, space, str_contains, str_find, str_folded, str_join, str_lines, str_split,
    str_starts_with, str_strip_leading, str_strip_prefix, str_trim, str_trim_end, str_trim_start,
};

const SAMPLES: [&str; 12] = [
    "",
    " ",
    "a",
    "  a b  ",
    "\t\u{a0}x\u{3000}\n",
    "one\ntwo\r\nthree",
    "\n\n",
    "a\r\n",
    "a\rb\n",
    "ü→›•",
    "a,b,,c,",
    "codex resume me",
];

#[test]
fn white_space_is_that_of_unicode() {
    for c in '\0'..=char::MAX {
        assert_eq!(space(c), c.is_whitespace(), "{:?}", c);
    }
}

#[test]
fn small_letters_tell_the_same_ascii_names_apart() {
    // A character that lowers to ASCII is lowered to the same, and no other becomes ASCII.
    for c in '\0'..=char::MAX {
        let lower: String = c.to_lowercase().collect();
        let small = str_folded(&c.to_string());
        if lower.is_ascii() {
            assert_eq!(small, lower, "{:?}", c);
        } else {
            assert!(!small.is_ascii(), "{:?}", c);
        }
    }
}

#[test]
fn trimming_as_std_does() {
    for s in SAMPLES {
        assert_eq!(str_trim(s), s.trim());
        assert_eq!(str_trim_start(s), s.trim_start());
        assert_eq!(str_trim_end(s), s.trim_end());
        assert_eq!(str_strip_leading(s, 'a'), s.trim_start_matches('a'));
    }
}

#[test]
fn searching_as_std_does() {
    for s in SAMPLES {
        for needle in ["", "a", "b", "one\n", "→", "codex resume "] {
            assert_eq!(str_contains(s, needle), s.contains(needle));
            assert_eq!(str_starts_with(s, needle), s.starts_with(needle));
            assert_eq!(str_strip_prefix(s, needle), s.strip_prefix(needle));
            // Places are counted in characters.
            let place = s.find(needle).map(|at| s[..at].chars().count());
            assert_eq!(str_find(s, needle), place);
        }
    }
}

#[test]
fn splitting_and_joining_as_std_does() {
    for s in SAMPLES {
        assert_eq!(str_split(s, ','), s.split(',').collect::<Vec<_>>());
        assert_eq!(str_lines(s), s.lines().collect::<Vec<_>>());
        let parts: Vec<String> = s.split(',').map(|p| p.to_string()).collect();
        assert_eq!(str_join(&parts, ", "), parts.join(", "));
        assert!(same_lines(&parts, &parts.clone()));
    }
    assert!(!same_lines(&["a".to_string()], &["b".to_string()]));
    assert!(!same_lines(&["a".to_string()], &[]));
}

#[test]
fn numbers_as_std_reads_them() {
    let texts = [
        "", "0", "7", "+7", "-7", "-0", "007", "1 ", "x", "+", "-", "255", "256", "2147483647",
        "2147483648", "-2147483648", "-2147483649", "18446744073709551615",
        "18446744073709551616", "٣",
    ];
    for s in texts {
        assert_eq!(parse_natural(s, u64::MAX), s.parse::<u64>().ok(), "{:?}", s);
        assert_eq!(parse_natural(s, 255), s.parse::<u8>().ok().map(u64::from), "{:?}", s);
        assert_eq!(parse_integer(s), s.parse::<i32>().ok(), "{:?}", s);
    }
}

#[test]
fn numbers_as_std_writes_them() {
    for n in [0u64, 1, 9, 10, 99, 100, 12345, u64::MAX] {
        let mut s = "n=".to_string();
        push_decimal(&mut s, n);
        assert_eq!(s, format!("n={n}"));
        // What is written is read back.
        assert_eq!(parse_natural(&s[2..], u64::MAX), Some(n));
    }
    for n in [0i32, 7, -7, i32::MAX, i32::MIN] {
        let mut s = String::new();
        push_signed(&mut s, n);
        assert_eq!(s, n.to_string());
    }
}

#[test]
fn file_names_as_std_finds_them() {
    let paths = [
        "", ".", "..", "/", "a", "a/", "a/b", "a/b/", "a//b", "a/.", "./a", "./.", "a/..", "a/../",
        "/a/b.rs", "//", "a/./b/.", ".hidden", "a/.hidden/", "./", "/.",
    ];
    for path in paths {
        let name = std::path::Path::new(path).file_name().map(|n| n.to_str().unwrap().to_string());
        assert_eq!(file_name(path), name, "{:?}", path);
    }
}

#[test]
fn paths_are_joined_as_std_does() {
    for base in ["", "/", "/tmp", "/tmp/", "a"] {
        let joined = std::path::Path::new(base).join("daemon.sock");
        assert_eq!(path_join(base, "daemon.sock"), joined.to_str().unwrap());
    }
}
