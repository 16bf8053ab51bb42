use simple_sandbox::digest::{hash_text, hex_digest};
use simple_sandbox::mechanism::port_number;
use simple_sandbox::paths::{file_name, is_absolute, is_same_path, join, parent, parts_of};
use simple_sandbox::text::{
    contains_char, decimal_text, has_prefix, hexadecimal_text, join_lines, lower_text,
    parse_unsigned, same_text, strip_prefix, trim_text, white, words_of,
};

const SAMPLES: [&str; 9] = [
    "",
    " ",
    "abc",
    "  Ab C\t",
    "\u{a0}x\u{2003}y\u{3000}",
    "ÄÖ über\r\n",
    "one  two\u{85}three",
    "\u{200b}zero width\u{200b}",
    "tail ",
];

#[test]
fn white_space_is_that_of_unicode() {
    let mut code: u32 = 0;
    while code <= 0x10ffff {
        if let Some(c) = char::from_u32(code) {
            assert_eq!(white(c), c.is_whitespace(), "{:x}", code);
        }
        code += 1;
    }
}

#[test]
fn trimming_and_splitting_follow_std() {
    for s in SAMPLES {
        assert_eq!(trim_text(s), s.trim());
        assert_eq!(lower_text(s), s.to_ascii_lowercase());
        let words: Vec<String> = s.split_whitespace().map(|w| w.to_string()).collect();
        assert_eq!(words_of(s), words);
        assert_eq!(strip_prefix(s, "a"), s.strip_prefix("a").map(|t| t.to_string()));
        assert_eq!(has_prefix(s, "  A"), s.starts_with("  A"));
        assert_eq!(contains_char(s, 'b'), s.contains('b'));
        assert!(same_text(s, s));
    }
}

#[test]
fn numbers_follow_std() {
    for n in vec![0u64, 1, 9, 10, 65535, 1_000_000_007, u64::MAX] {
        assert_eq!(decimal_text(n), format!("{}", n));
        assert_eq!(parse_unsigned(&decimal_text(n), u64::MAX), Some(n));
        assert_eq!(hexadecimal_text(n as u128), format!("{:x}", n));
    }
    assert_eq!(hexadecimal_text(u128::MAX), format!("{:x}", u128::MAX));
    for s in vec!["", "+", "+7", "007", "-0", "1 ", "18446744073709551616", "٣"] {
        assert_eq!(parse_unsigned(s, u64::MAX), s.parse::<u64>().ok(), "{}", s);
    }
    assert_eq!(port_number(&Some("65535".to_string())), Some(65535));
    assert_eq!(port_number(&Some("65536".to_string())), None);
    assert_eq!(port_number(&None), None);
}

#[test]
fn paths_follow_std() {
    let samples =
        vec!["", "/", "a", "a/b", "/a/b", "a/b/", "/a//b/./c", "..", "a/..", ".", "./a", "//", "/."];
    for p in samples.iter().copied() {
        let std_path = std::path::Path::new(p);
        assert_eq!(is_absolute(p), std_path.is_absolute(), "{}", p);
        assert_eq!(
            file_name(p),
            std_path.file_name().map(|n| n.to_string_lossy().to_string()),
            "{}",
            p
        );
        assert_eq!(parent(p), std_path.parent().map(|d| d.display().to_string()), "{}", p);
        for q in samples.iter().copied() {
            assert_eq!(join(p, q), std_path.join(q).display().to_string(), "{} {}", p, q);
            assert_eq!(is_same_path(p, q), std_path == std::path::Path::new(q), "{} {}", p, q);
        }
    }
    assert_eq!(parts_of("/a//b/./c"), vec!["a", "b", "c"]);
}

#[test]
fn digests_are_sha256() {
    assert_eq!(
        hash_text(""),
        "e3b0c44298fc1c149afbf4c8996fb92427ae41e4649b934ca495991b7852b855"
    );
    let mut digest = vec![0u8; 32];
    digest[0] = 0xba;
    digest[31] = 0x0f;
    assert_eq!(hex_digest(&digest), format!("ba{}0f", "00".repeat(30)));
    assert_ne!(hash_text("abc"), hash_text("abd"));
}

#[test]
fn lines_end_with_a_newline() {
    assert_eq!(join_lines(&vec!["a".to_string(), "b".to_string()]), "a\nb\n");
}
