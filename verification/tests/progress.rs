use ossup::event::{
    cap_f64, cap_str, cap_u64, event_of_groups, parse_line, LineGroups, Percent, UploadEvent,
};
use ossup::UploadRequest;

fn percent(event: &UploadEvent) -> Option<f64> {
    match &event.percent {
        Some(Percent::Printed(text)) => Some(text.parse().unwrap()),
        Some(Percent::Counted { ok, total }) => Some(*ok as f64 * 100.0 / *total as f64),
        None => None,
    }
}

#[test]
fn progress_parsing() {
    let e = parse_line("Total 8 files, 12 B, 1 dirs, Upload done:(2 objects) failed:(0 objects)");
    assert_eq!(e.kind, "progress");
    assert_eq!(e.total_num, Some(8));
    assert_eq!(e.ok_num, Some(2));
    assert_eq!(percent(&e), Some(25.0));

    let e = parse_line(
        "Total 4 files, 12 B, 1 dirs, Upload done:(0 objects) failed:(4 objects, 12 B)",
    );
    assert_eq!(e.ok_num, Some(0));
    assert_eq!(percent(&e), Some(0.0));

    let e = parse_line("Total num: 10, size: 100. OK num: 5. 50% speed: 1.2 MB/s");
    assert_eq!(
        (e.total_num, e.ok_num, percent(&e)),
        (Some(10), Some(5), Some(50.0))
    );
    assert_eq!(e.speed.as_deref(), Some("1.2 MB/s"));

    assert_eq!(
        parse_line("copying 3.5 MiB/s").speed.as_deref(),
        Some("3.5 MiB/s")
    );

    assert_eq!(parse_line("Error: NoSuchBucket").kind, "log");
}

#[test]
fn progress_needs_more_than_files_that_are_through() {
    let e = parse_line("Upload done:(3 objects)");
    assert_eq!(e.kind, "log");
    assert_eq!(e.ok_num, Some(3));
    assert_eq!(percent(&e), None);
    let e = parse_line("failed:(3 objects)");
    assert_eq!(e.ok_num, None);
}

#[test]
fn progress_of_no_files_has_no_percentage() {
    let e = parse_line("Total 0 files, Upload done:(0 objects)");
    assert_eq!(e.kind, "progress");
    assert_eq!((e.total_num, e.ok_num), (Some(0), Some(0)));
    assert!(e.percent.is_none());
}

#[test]
fn progress_shows_only_what_the_line_says() {
    let e = parse_line("Total 8 files, 12 B, 1 dirs, Upload done:(2 objects)");
    assert_eq!(e.speed, None);
    let e = parse_line("Total num: 4, size: 1. OK num: 1");
    assert_eq!(percent(&e), Some(25.0));
    let e = parse_line("OK num: 3 50%");
    assert_eq!((e.total_num, e.ok_num, percent(&e)), (None, Some(3), Some(50.0)));
}

#[test]
fn progress_counts_may_hold_commas() {
    let e = parse_line("Total 1,234 files, 9 B, Upload done:(1,000 objects)");
    assert_eq!((e.total_num, e.ok_num), (Some(1234), Some(1000)));
    let e = parse_line("Total num: 12,345, size: 1. OK num: 1,2. 50 % 7MB/s");
    assert_eq!((e.total_num, e.ok_num, percent(&e)), (Some(12345), Some(12), Some(50.0)));
    assert_eq!(e.speed.as_deref(), Some("7MB/s"));
}

#[test]
fn progress_prefers_what_is_printed() {
    let e = parse_line("Total num: 4 OK num: 1 99.5 % done");
    assert_eq!(percent(&e), Some(99.5));
    let e = parse_line("dealt num: 7, TOTAL NUM: 1,234");
    assert_eq!((e.total_num, e.ok_num), (Some(1234), Some(7)));
}

#[test]
fn progress_takes_the_second_form_where_the_first_has_no_number() {
    let e = parse_line("total num: , Total 5 files");
    assert_eq!(e.total_num, Some(5));
    // Digits of other scripts are digits to the expression, and no number.
    let e = parse_line("total num: \u{664} \u{665}% total 3 files done:(1 objects)");
    assert_eq!((e.total_num, e.ok_num), (Some(3), Some(1)));
    assert_eq!(percent(&e), Some(1.0 * 100.0 / 3.0));
}

#[test]
fn groups_are_read_one_by_one() {
    let s = |t: &str| Some(t.to_string());
    assert_eq!(cap_u64(&s("1,234,567")), Some(1_234_567));
    assert_eq!(cap_u64(&s(",")), None);
    assert_eq!(cap_u64(&None), None);
    assert_eq!(cap_f64(&s("12.5")).as_deref(), Some("12.5"));
    assert_eq!(cap_f64(&s("\u{665}")), None);
    assert_eq!(cap_f64(&None), None);
    assert_eq!(cap_str(&s(" 1 KB/s ")).as_deref(), Some("1 KB/s"));
    assert_eq!(cap_str(&None), None);
}

#[test]
fn event_follows_from_the_groups() {
    let none = LineGroups {
        percent: None,
        speed: None,
        total_1x: None,
        total_2x: None,
        ok_1x: None,
        ok_2x: None,
    };
    let e = event_of_groups("hello", &none);
    assert_eq!((e.kind, e.line.as_deref(), e.code), ("log", Some("hello"), None));
    let some = LineGroups {
        percent: None,
        speed: Some(" 2 B/s".to_string()),
        total_1x: Some("x".to_string()),
        total_2x: Some("4".to_string()),
        ok_1x: Some("3".to_string()),
        ok_2x: Some("2".to_string()),
    };
    let e = event_of_groups("line", &some);
    assert_eq!(e.kind, "progress");
    assert_eq!(e.speed.as_deref(), Some("2 B/s"));
    assert_eq!((e.total_num, e.ok_num), (Some(4), Some(3)));
    assert_eq!(percent(&e), Some(75.0));
}

#[test]
fn events_of_a_task() {
    let e = UploadEvent::log("hi".to_string()).for_task("t1");
    assert_eq!((e.kind, e.task_id.as_deref(), e.line.as_deref()), ("log", Some("t1"), Some("hi")));
    let e = UploadEvent::finished("t2", -1);
    assert_eq!(e.kind, "finished");
    assert_eq!(e.task_id.as_deref(), Some("t2"));
    assert_eq!(e.line.as_deref(), Some("[exit] ossutil 退出码 -1"));
    assert_eq!(e.code, Some(-1));
    assert_eq!(
        UploadEvent::finished("t", i32::MIN).line.as_deref(),
        Some("[exit] ossutil 退出码 -2147483648")
    );
}

#[test]
fn start_is_announced() {
    let req = UploadRequest {
        local_path: "/data".to_string(),
        bucket: "b".to_string(),
        prefix: String::new(),
        access_key_id: "id".to_string(),
        access_key_secret: "secret".to_string(),
        endpoint: String::new(),
        jobs: 5,
        parallel: 8,
        part_size_mb: 16,
        ossutil_path: String::new(),
        cli_creds: false,
    };
    let e = UploadEvent::started(&req, "/data", "oss://b/data/");
    assert_eq!(e.kind, "log");
    assert_eq!(e.task_id, None);
    assert_eq!(
        e.line.as_deref(),
        Some("[start] /data -> oss://b/data/  (jobs=5, parallel=8, part-size=16MB)")
    );
}
