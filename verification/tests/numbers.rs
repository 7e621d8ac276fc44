use ossup::human_size;
use ossup::number::{
    decimal_text, is_number, push_decimal, push_signed, read_count, read_number, to_double,
};

/// The same size by way of a double.
fn by_double(bytes: u64) -> String {
    let units = ["B", "KB", "MB", "GB", "TB"];
    let mut value = bytes as f64;
    let mut unit = 0;
    while value >= 1024.0 && unit < units.len() - 1 {
        value /= 1024.0;
        unit += 1;
    }
    if unit == 0 {
        format!("{bytes} B")
    } else {
        format!("{value:.2} {}", units[unit])
    }
}

fn samples() -> Vec<u64> {
    let mut list: Vec<u64> = (0..5000).collect();
    for shift in 0..64 {
        let p = 1u64 << shift;
        for d in 0..300 {
            list.push(p.wrapping_add(d));
            list.push(p.wrapping_sub(d));
            list.push(p.wrapping_add(d * 128));
            list.push(p.wrapping_add(d.wrapping_mul(p >> 7)));
        }
    }
    let mut x: u64 = 0x9e37_79b9_7f4a_7c15;
    for i in 0..200_000u32 {
        x ^= x << 13;
        x ^= x >> 7;
        x ^= x << 17;
        list.push(x >> (i % 64));
    }
    list
}

#[test]
fn human_size_exact_values() {
    assert_eq!(human_size(0), "0 B");
    assert_eq!(human_size(1023), "1023 B");
    assert_eq!(human_size(1024), "1.00 KB");
    assert_eq!(human_size(1536), "1.50 KB");
    assert_eq!(human_size(1152), "1.12 KB");
    assert_eq!(human_size(1408), "1.38 KB");
    assert_eq!(human_size(1_048_575), "1024.00 KB");
    assert_eq!(human_size(1_048_576), "1.00 MB");
    assert_eq!(human_size(5 << 30), "5.00 GB");
    assert_eq!(human_size(2 << 40), "2.00 TB");
    assert_eq!(human_size(u64::MAX), "16777216.00 TB");
}

#[test]
fn human_size_is_what_a_double_shows() {
    for bytes in samples() {
        assert_eq!(human_size(bytes), by_double(bytes), "{bytes}");
    }
}

#[test]
fn doubles_of_whole_numbers() {
    for n in samples() {
        assert_eq!(to_double(n), n as f64 as u128, "{n}");
    }
    assert_eq!(to_double((1 << 53) + 1), 1 << 53);
    assert_eq!(to_double((1 << 53) + 3), (1 << 53) + 4);
    assert_eq!(to_double(u64::MAX), 1 << 64);
}

#[test]
fn counts_are_read_as_doubles() {
    let by_double = |s: &str| s.replace(',', "").parse::<f64>().ok().map(|v| v as u64);
    for n in samples() {
        let text = n.to_string();
        assert_eq!(read_count(&text), by_double(&text), "{text}");
    }
    for text in [
        "", ",", ",,", "0", "007", "1,2,3", ",1", "1,", "18446744073709551615",
        "18446744073709551616", "18446744073709549568", "18446744073709550591",
        "18446744073709550592", "99999999999999999999999999999999999999", "\u{664}", "1\u{664}",
    ] {
        assert_eq!(read_count(text), by_double(text), "{text}");
    }
    let long = "9".repeat(400);
    assert_eq!(read_count(&long), Some(u64::MAX));
    assert_eq!(read_count("1a"), None);
}

#[test]
fn numbers_are_kept_as_text() {
    assert_eq!(read_number("50").as_deref(), Some("50"));
    assert_eq!(read_number("99.5").as_deref(), Some("99.5"));
    assert_eq!(read_number("1,000.25").as_deref(), Some("1000.25"));
    assert!(is_number("0.147220") && is_number("7") && !is_number("1,000.25"));
    for text in ["", ",", ".", ".5", "5.", "1.2.3", "1..2", "a", "1e5", "-1", "\u{664}"] {
        assert_eq!(read_number(text), None, "{text}");
        assert!(!is_number(text), "{text}");
    }
}

#[test]
fn numbers_are_written_in_decimal() {
    for n in samples() {
        assert_eq!(decimal_text(n), n.to_string());
    }
    let mut out = "n=".to_string();
    push_decimal(&mut out, 40);
    push_signed(&mut out, -7);
    push_signed(&mut out, 0);
    push_signed(&mut out, i32::MIN);
    assert_eq!(out, "n=40-70-2147483648");
}
