use ossup::text::{
    chars_of, contains, ends_with, is_whitespace, join, lines_of, lowercase, starts_with, trim,
    trim_end, trim_json, trim_slashes,
};

const TEXTS: [&str; 24] = [
    "",
    " ",
    "a",
    " a ",
    "\u{3000}a b\u{a0}\u{2028}",
    "\n",
    "\r",
    "\r\n",
    "a\nb",
    "a\r\nb\r",
    "a\r\nb\r\n",
    "a\n\nb\n",
    "\n\na",
    "a\rb\nc",
    "a\r\r\nb",
    "/",
    "//a//b/",
    " /a/ ",
    "/ a /",
    "中文 \u{85}",
    "ossutil OSSUTIL",
    "oss\u{130}l",
    "\u{212a}elvin \u{17f}",
    "0.147220(s) elapsed",
];

#[test]
fn white_space_is_that_of_the_standard_library() {
    for code in 0..=0x10ffffu32 {
        if let Some(c) = char::from_u32(code) {
            assert_eq!(is_whitespace(c), c.is_whitespace(), "{code:x}");
        }
    }
}

#[test]
fn trimming_is_that_of_the_standard_library() {
    for text in TEXTS {
        assert_eq!(trim(text), text.trim());
        assert_eq!(trim_end(text), text.trim_end());
        assert_eq!(trim_slashes(text), text.trim_matches('/'));
        assert_eq!(trim_json(text), text.trim_matches([' ', '\n', '\t', '\r']));
        assert_eq!(trim(trim(text)), trim(text));
    }
}

#[test]
fn lines_are_those_of_the_standard_library() {
    for text in TEXTS {
        let expected: Vec<String> = text.lines().map(|l| l.to_string()).collect();
        assert_eq!(lines_of(text), expected, "{text:?}");
        let chars: Vec<char> = text.chars().collect();
        assert_eq!(chars_of(text), chars);
    }
}

#[test]
fn searching_is_that_of_the_standard_library() {
    for text in TEXTS {
        for word in ["", "a", "b", "ossutil", "(s) elapsed", "/", "中", "\n", "0.147220(s) elapsed "] {
            assert_eq!(starts_with(text, word), text.starts_with(word));
            assert_eq!(ends_with(text, word), text.ends_with(word));
            assert_eq!(contains(text, word), text.contains(word));
        }
    }
}

#[test]
fn joining_is_that_of_the_standard_library() {
    let parts = |n: usize| (0..n).map(|i| format!("p{i}")).collect::<Vec<String>>();
    for n in 0..4 {
        assert_eq!(join(&parts(n), "\n"), parts(n).join("\n"));
        assert_eq!(join(&parts(n), ", "), parts(n).join(", "));
    }
}

#[test]
fn lower_case_reaches_the_letters_of_the_alphabet() {
    assert_eq!(lowercase("Cn-BeiJing-9"), "cn-beijing-9");
    for code in 0..=0x10ffffu32 {
        let Some(c) = char::from_u32(code) else { continue };
        let lower: String = c.to_lowercase().collect();
        let ours = lowercase(&c.to_string());
        if lower.chars().any(|l| l.is_ascii_lowercase()) && c != '\u{130}' {
            assert_eq!(ours, lower, "{code:x}");
        } else {
            assert_eq!(ours, c.to_string(), "{code:x}");
        }
    }
}

#[test]
fn names_of_ossutil_are_found_in_any_case() {
    for text in ["ossutil", "OSSUTIL v2", "x OssUtil64", "ossut\u{130}l", "oss util", "o\u{17f}sutil"] {
        assert_eq!(
            contains(&lowercase(text), "ossutil"),
            text.to_lowercase().contains("ossutil"),
            "{text}"
        );
    }
}
