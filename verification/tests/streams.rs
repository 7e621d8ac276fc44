use ossup::event::UploadEvent;
use ossup::stream::{line_shown, Pump};

fn lines(events: &[UploadEvent]) -> Vec<String> {
    events.iter().map(|e| e.line.clone().unwrap()).collect()
}

fn whole(pieces: &[&[u8]]) -> Vec<String> {
    let mut pump = Pump::new();
    let mut all = Vec::new();
    for piece in pieces {
        all.extend(pump.feed(piece, "t"));
    }
    all.extend(pump.flush("t"));
    for event in &all {
        assert_eq!(event.task_id.as_deref(), Some("t"));
    }
    lines(&all)
}

#[test]
fn output_is_cut_at_both_breaks() {
    assert_eq!(whole(&[b"a\rb\nc\r\n\n d  \n"]), ["a", "b", "c", " d"]);
    assert_eq!(whole(&[b"tail"]), ["tail"]);
    assert_eq!(whole(&[b"   \n\t\r"]), Vec::<String>::new());
    assert_eq!(whole(&[]), Vec::<String>::new());
}

#[test]
fn progress_comes_without_a_line_feed() {
    let mut pump = Pump::new();
    let events = pump.feed("Total num: 4 OK num: 1\rTotal num: 4 OK num: 2\rrest".as_bytes(), "x");
    assert_eq!(events.len(), 2);
    assert_eq!(events[1].kind, "progress");
    assert_eq!((events[1].total_num, events[1].ok_num), (Some(4), Some(2)));
    assert_eq!(pump.flush("x").unwrap().line.as_deref(), Some("rest"));
    assert!(pump.flush("x").is_none());
}

#[test]
fn pieces_do_not_matter() {
    let bytes = "中 5%\r\nx\r".as_bytes();
    let expected = whole(&[bytes]);
    assert_eq!(expected, ["中 5%", "x"]);
    for i in 0..=bytes.len() {
        for j in i..=bytes.len() {
            assert_eq!(whole(&[&bytes[..i], &bytes[i..j], &bytes[j..]]), expected);
        }
    }
}

#[test]
fn bytes_that_are_not_text_are_replaced() {
    assert_eq!(whole(&[b"a\xff\xfeb\n\xe4\xb8"]), ["a\u{fffd}\u{fffd}b", "\u{fffd}"]);
}

#[test]
fn blank_segments_are_not_shown() {
    assert!(line_shown(" \u{3000}", "t").is_none());
    assert!(line_shown("", "t").is_none());
    let event = line_shown(" x ", "t").unwrap();
    assert_eq!((event.line.as_deref(), event.task_id.as_deref()), (Some(" x"), Some("t")));
}
