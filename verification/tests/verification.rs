use ossup::audit::{count_objects, remote_count, scan_local, verify_upload, LocalEntry};

#[test]
fn local_files_are_counted() {
    let entry = |is_file, len| LocalEntry { is_file, len };
    assert_eq!(scan_local(&Vec::new()), (0, 0));
    assert_eq!(
        scan_local(&vec![
            entry(false, Some(4096)),
            entry(true, Some(10)),
            entry(true, None),
            entry(true, Some(u64::MAX - 10)),
        ]),
        (3, u64::MAX)
    );
}

#[test]
fn remote_objects_are_counted() {
    assert_eq!(remote_count("oss://b/a\noss://b/c\n\nObject Number is: 1,234\n0.1(s) elapsed\n"), 1234);
    assert_eq!(remote_count("OBJECT  number\tIS:7"), 7);
    assert_eq!(remote_count("oss://b/a\r\n oss://b/b\noss://b/c\n0.1(s) elapsed"), 2);
    assert_eq!(remote_count("Object Number is: ,\noss://b/a"), 1);
    assert_eq!(remote_count(""), 0);
}

#[test]
fn count_comes_from_the_listing_itself() {
    assert_eq!(count_objects(&Some("12".to_string()), "oss://b/a"), 12);
    assert_eq!(count_objects(&Some(",".to_string()), "oss://b/a"), 1);
    assert_eq!(count_objects(&None, "oss://b/a\noss://"), 2);
}

#[test]
fn both_sides_are_reported() {
    let r = verify_upload(3, 1536, b"oss://b/\xff\nObject Number is: 3\n");
    assert_eq!((r.local_count, r.local_size, r.remote_count), (3, 1536, 3));
    assert_eq!(r.local_size_human, "1.50 KB");
    assert_eq!(verify_upload(0, 0, b"\xff\noss://b/\xff").remote_count, 1);
}
