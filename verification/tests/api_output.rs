use ossup::reply::{
    api_result, failure_text, is_silent, oss_api, oss_run, parse_api_output, run_result,
    value_of_reading,
};

#[test]
fn api_output_ignores_trailing_elapsed_line() {
    let raw = "{\"Buckets\":{\"Bucket\":[]},\"IsTruncated\":\"true\"}\n\n0.976553(s) elapsed\n";
    let value = parse_api_output(raw).expect("尾部计时行不该让解析失败");
    assert_eq!(value["IsTruncated"], "true");
}

#[test]
fn api_output_empty_is_null() {
    assert!(parse_api_output("").unwrap().is_null());
}

#[test]
fn api_output_broken_json_still_errors() {
    assert!(parse_api_output("{not json").is_err());
}

#[test]
fn api_output_blank_is_null() {
    assert!(parse_api_output(" \t\r\n").unwrap().is_null());
    assert!(parse_api_output("null").unwrap().is_null());
}

#[test]
fn api_output_does_not_depend_on_what_follows() {
    let bodies = [
        "{\"a\":[1,2,{\"b\":null}]}",
        "  [1, 2.5, \"x\"]",
        "\"text\"",
        "\n{}",
    ];
    let rests = ["", "\n0.1(s) elapsed", "}", "]", "\"", "{\"a\":", "x", " "];
    for body in bodies {
        let alone = parse_api_output(body).unwrap();
        for rest in rests {
            let both = format!("{body}{rest}");
            assert_eq!(parse_api_output(&both).unwrap(), alone);
        }
    }
}

#[test]
fn api_output_of_nothing_but_the_time_is_null() {
    for text in [
        "\n0.147220(s) elapsed\n",
        "0.147220(s) elapsed",
        "\r\n\r\n 0.1(s) elapsed \r\n",
        "12(s) elapsed\n\n3.5(s) elapsed",
    ] {
        assert!(is_silent(text), "{text:?}");
        assert!(parse_api_output(text).unwrap().is_null(), "{text:?}");
    }
    assert!(api_result("delete-object", true, "\n0.147220(s) elapsed\n", "").unwrap().is_null());
    assert!(oss_api("delete-object", true, b"\n0.147220(s) elapsed\n", b"").unwrap().is_null());
}

#[test]
fn api_output_with_more_than_the_time_is_read() {
    for text in ["", " \n\t\r\n"] {
        assert!(is_silent(text));
    }
    for text in [
        "x 0.1(s) elapsed",
        "(s) elapsed",
        ".5(s) elapsed",
        "0.1(s) elapsed.",
        "0.1(s) elapsed\n{}",
        "{not json\n0.1(s) elapsed",
        "\u{3000}",
    ] {
        assert!(!is_silent(text), "{text:?}");
        assert!(parse_api_output(text).is_err(), "{text:?}");
    }
    // The first value counts, even with the time on its line.
    assert_eq!(parse_api_output("{\"a\":1} 0.1(s) elapsed").unwrap()["a"], 1);
    assert_eq!(parse_api_output("1,2(s) elapsed").unwrap(), 1);
}

#[test]
fn api_output_of_a_bare_value_ends_at_white_space() {
    for body in ["12", "-1.5e3", "true", "false", "null", " 7 ", "\"s\"", "{}", "[1]"] {
        let alone = parse_api_output(body).unwrap();
        for tail in ["", "0.976553(s) elapsed\n", "x", "}", "{\"a\":", "12", "(s) elapsed"] {
            for gap in ["\n", " ", "\t", "\r\n"] {
                let both = format!("{body}{gap}{tail}");
                assert_eq!(parse_api_output(&both).unwrap(), alone, "{both:?}");
            }
        }
    }
    assert!(parse_api_output("12x").is_err());
}

#[test]
fn a_number_with_a_bracket_behind_it_is_no_value() {
    let long = "9".repeat(400);
    for number in ["0", "00", "007", "5", "0.1", "00.5", "123456789012345678901234567890", &long] {
        for blank in ["", " \n"] {
            for rest in ["", "s) elapsed", "s) elapsed\n{}"] {
                let text = format!("{blank}{number}({rest}");
                let mut stream =
                    serde_json::Deserializer::from_str(&text).into_iter::<serde_json::Value>();
                assert!(stream.next().unwrap().is_err(), "{text:?}");
            }
        }
    }
}

#[test]
fn api_output_error_quotes_the_answer() {
    let error = parse_api_output("{not json").unwrap_err();
    assert!(error.starts_with("解析 ossutil 输出失败: key must be a string"));
    assert!(error.ends_with("\n{not json"));
    assert_eq!(
        value_of_reading(Some(Err("oops".to_string())), "{x").unwrap_err(),
        "解析 ossutil 输出失败: oops\n{x"
    );
    assert!(value_of_reading(None, "").unwrap().is_null());
}

#[test]
fn failure_tells_all_lines_but_the_elapsed_one() {
    let stderr = "Error: oss: service returned error\n  Error Code: InvalidAccessKeyId\r\n\n";
    let stdout = "partial\n0.147220(s) elapsed\n";
    assert_eq!(
        failure_text("ls", stdout, stderr),
        "Error: oss: service returned error\nError Code: InvalidAccessKeyId\npartial"
    );
}

#[test]
fn failure_without_words_names_the_command() {
    assert_eq!(
        failure_text("list-buckets", "0.1(s) elapsed", " \n"),
        "ossutil list-buckets 执行失败"
    );
    assert_eq!(failure_text("rm", "", ""), "ossutil rm 执行失败");
}

#[test]
fn api_call_reads_stdout_only_on_success() {
    assert_eq!(api_result("op", true, "{\"k\":1}", "noise").unwrap()["k"], 1);
    assert_eq!(
        api_result("op", false, "{\"k\":1}", "denied").unwrap_err(),
        "denied\n{\"k\":1}"
    );
    assert_eq!(oss_api("op", true, b"[true]", b"").unwrap()[0], true);
    assert_eq!(
        oss_api("op", false, b"a\xffb", b"").unwrap_err(),
        "a\u{fffd}b"
    );
}

#[test]
fn run_gives_trimmed_output_or_the_failure() {
    assert_eq!(run_result("stat", true, "  text \n", "x").unwrap(), "text");
    assert_eq!(run_result("stat", false, "", "").unwrap_err(), "ossutil stat 执行失败");
    assert_eq!(oss_run("stat", true, b" ok\r\n", b"").unwrap(), "ok");
    assert_eq!(oss_run("stat", false, b"out", b"err").unwrap_err(), "err\nout");
}
