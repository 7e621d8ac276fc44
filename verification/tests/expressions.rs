use ossup::pattern::{OBJECTS, OK_1X, OK_2X, PERCENT, SPEED, TOTAL_1X, TOTAL_2X};
use regex::Regex;

fn group(expression: &Regex, text: &str) -> Option<String> {
    expression
        .captures(text)
        .and_then(|c| c.get(1))
        .map(|m| m.as_str().to_string())
}

fn folded(text: &str) -> String {
    text.chars()
        .map(|c| match c {
            '\u{17f}' => 's',
            '\u{212a}' => 'k',
            c => c.to_ascii_lowercase(),
        })
        .collect()
}

fn mentions(text: &str, word: &str) -> bool {
    folded(text).contains(word)
}

fn is_gap(c: char) -> bool {
    c.is_ascii() && !c.is_ascii_alphanumeric() && c != '_'
}

fn ends_count(rest: &str) -> bool {
    match rest.chars().next() {
        Some(c) => c.is_ascii() && !c.is_ascii_digit() && c != ',',
        None => true,
    }
}

fn begins_number(before: &str) -> bool {
    match before.chars().last() {
        Some(c) => c.is_ascii() && !c.is_ascii_digit() && c != '.',
        None => true,
    }
}

/// Pieces of text that come close to matching.
const PIECES: [&str; 29] = [
    "", "Total num: ", "total ", "TOTAL", "num:", "OK ", "o\u{212a} num: 3", "dealt", "done:(",
    "xdone:(", "ok", "Object ", "number", "is: ", "7", "1,2", ",", ".", "\u{664}", " ", "%", "5 %",
    "B/\u{17f}", "9 KB/s", "files", "中", "_", "\u{301}", "\n",
];

/// White space that may stand inside a percentage or a speed.
const GAPS: [&str; 3] = ["", " ", "\t\u{3000}\u{85}"];

fn texts() -> Vec<String> {
    let mut list = Vec::new();
    for a in PIECES {
        for b in PIECES {
            list.push(format!("{a}{b}"));
        }
    }
    list
}

#[test]
fn expressions_take_what_they_are_meant_for() {
    let compile = |pattern: &str| Regex::new(pattern).unwrap();
    let (percent, speed) = (compile(PERCENT), compile(SPEED));
    let (total_1x, total_2x) = (compile(TOTAL_1X), compile(TOTAL_2X));
    let (ok_1x, ok_2x, objects) = (compile(OK_1X), compile(OK_2X), compile(OBJECTS));
    let list = texts();
    let mut met = [0u32; 7];
    for before in &list {
        for after in PIECES {
            let n = "1,23,";
            if ends_count(after) && !mentions(before, "num:") {
                let text = format!("{before}Total num: {n}{after}");
                assert_eq!(group(&total_1x, &text).as_deref(), Some(n), "{text:?}");
                met[0] += 1;
            }
            if !after.chars().next().is_some_and(|c| !is_gap(c)) && !mentions(before, "total") {
                let text = format!("{before}Total {n} files{after}");
                assert_eq!(group(&total_2x, &text).as_deref(), Some(n), "{text:?}");
                met[1] += 1;
            }
            if ends_count(after) && !mentions(before, "ok") && !mentions(before, "dealt") {
                let text = format!("{before}OK num: {n}{after}");
                assert_eq!(group(&ok_1x, &text).as_deref(), Some(n), "{text:?}");
                met[2] += 1;
            }
            if !before.chars().last().is_some_and(|c| !is_gap(c)) && !mentions(before, "done:(") {
                let text = format!("{before}done:({n} objects{after}");
                assert_eq!(group(&ok_2x, &text).as_deref(), Some(n), "{text:?}");
                met[3] += 1;
            }
            if ends_count(after) && !mentions(before, "number") {
                let text = format!("{before}Object Number is: {n}{after}");
                assert_eq!(group(&objects, &text).as_deref(), Some(n), "{text:?}");
                met[4] += 1;
            }
            if begins_number(before) && !mentions(before, "%") {
                for n in ["7", "12.5"] {
                    for gap in GAPS {
                        let text = format!("{before}{n}{gap}%{after}");
                        assert_eq!(group(&percent, &text).as_deref(), Some(n), "{text:?}");
                    }
                }
                met[5] += 1;
            }
            if begins_number(before) && !mentions(before, "b/s") {
                for n in ["7", "12.5"] {
                    for unit in [
                        "B/s", "KB/s", "MB/s", "GB/s", "TB/s", "KiB/s", "MiB/s", "GiB/s", "TiB/s",
                    ] {
                        for gap in GAPS {
                            let text = format!("{before}{n}{gap}{unit}{after}");
                            let found = group(&speed, &text);
                            assert_eq!(found, Some(format!("{n}{gap}{unit}")), "{text:?}");
                        }
                    }
                }
                met[6] += 1;
            }
        }
    }
    assert!(met.iter().all(|m| *m > 1000), "{met:?}");
}

#[test]
fn expressions_cannot_do_without_their_words() {
    let words: [(&str, &[&str]); 7] = [
        (PERCENT, &["%"]),
        (SPEED, &["b/s"]),
        (TOTAL_1X, &["total", "num:"]),
        (TOTAL_2X, &["total"]),
        (OK_1X, &["num:"]),
        (OK_2X, &["done:("]),
        (OBJECTS, &["number"]),
    ];
    let list = texts();
    for (pattern, needed) in words {
        let expression = Regex::new(pattern).unwrap();
        for a in &list {
            for b in PIECES {
                let text = format!("{a}{b}");
                if let Some(found) = group(&expression, &text) {
                    assert!(text.contains(&found));
                    for word in needed {
                        assert!(mentions(&text, word), "{pattern} {text:?}");
                    }
                }
            }
        }
    }
}
