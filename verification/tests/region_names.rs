use ossup::region::region_from_endpoint;

#[test]
fn region_derivation() {
    let r = |e| region_from_endpoint(e);
    assert_eq!(
        r("oss-cn-hangzhou.aliyuncs.com").as_deref(),
        Some("cn-hangzhou")
    );
    assert_eq!(
        r("oss-cn-hangzhou-internal.aliyuncs.com").as_deref(),
        Some("cn-hangzhou")
    );
    assert_eq!(
        r("oss-ap-southeast-1.aliyuncs.com").as_deref(),
        Some("ap-southeast-1")
    );
    assert_eq!(
        r(" oss-us-west-1.aliyuncs.com ").as_deref(),
        Some("us-west-1")
    );
    assert_eq!(r("oss-accelerate.aliyuncs.com"), None);
    assert_eq!(r("cdn.example.com"), None);
    assert_eq!(r(""), None);
}

#[test]
fn region_ignores_case() {
    assert_eq!(
        region_from_endpoint("OSS-CN-Beijing-INTERNAL.AliyunCS.COM").as_deref(),
        Some("cn-beijing")
    );
    // The long s and the Kelvin sign are letters in another case too.
    assert_eq!(
        region_from_endpoint("o\u{17f}s-cn-\u{212a}u\u{17f}u.aliyuncs.com").as_deref(),
        Some("cn-ku\u{17f}u")
    );
}

#[test]
fn region_needs_the_whole_host() {
    for host in [
        "https://oss-cn-hangzhou.aliyuncs.com",
        "oss-cn-hangzhou.aliyuncs.com/",
        "oss-cn-hangzhou.aliyuncs.com.",
        "oss-cn-hangzhou_aliyuncs.com",
        "oss-cn.aliyuncs.com",
        "oss-cn-.aliyuncs.com",
        "oss-c1-x.aliyuncs.com",
        "oss-cn-h\u{e4}ngzhou.aliyuncs.com",
        "oss-.aliyuncs.com",
        "oss-aliyuncs.com",
    ] {
        assert_eq!(region_from_endpoint(host), None, "{host}");
    }
}

#[test]
fn region_reads_an_ambiguous_host_as_internal() {
    let r = |e| region_from_endpoint(e);
    assert_eq!(r("oss-cn-a-internal.aliyuncs.com").as_deref(), Some("cn-a"));
    assert_eq!(
        r("oss-cn--internal.aliyuncs.com").as_deref(),
        Some("cn--internal")
    );
    assert_eq!(
        r("oss-cn-a-internal-internal.aliyuncs.com").as_deref(),
        Some("cn-a-internal")
    );
    assert_eq!(r("oss-cn-internal.aliyuncs.com").as_deref(), Some("cn-internal"));
}

/// What the grammar of hosts says, written out without a regular expression.
fn by_hand(host: &str) -> Option<String> {
    fn fold(c: char) -> char {
        match c {
            '\u{17f}' => 's',
            '\u{212a}' => 'k',
            c => c.to_ascii_lowercase(),
        }
    }
    fn is_region(s: &[char]) -> bool {
        s.len() > 3
            && s[0].is_ascii_lowercase()
            && s[1].is_ascii_lowercase()
            && s[2] == '-'
            && s[3..]
                .iter()
                .all(|c| c.is_ascii_lowercase() || c.is_ascii_digit() || *c == '-')
    }
    let chars: Vec<char> = host.chars().collect();
    let folded: Vec<char> = host.chars().map(fold).collect();
    let text: String = folded.iter().collect();
    if folded.len() < 17 || !text.starts_with("oss-") || !text.ends_with(".aliyuncs.com") {
        return None;
    }
    let end = folded.len() - 13;
    let inner: String = folded[4..end].iter().collect();
    let group = if inner.ends_with("-internal") && is_region(&folded[4..end - 9]) {
        &chars[4..end - 9]
    } else if is_region(&folded[4..end]) {
        &chars[4..end]
    } else {
        return None;
    };
    Some(group.iter().collect::<String>().to_lowercase())
}

#[test]
fn region_agrees_with_the_grammar() {
    let heads = ["oss-", "OSS-", "o\u{17f}s-", "os-", "xoss-", ""];
    let bodies = [
        "cn-hangzhou", "CN-9", "cn-", "cn--", "c-n", "\u{212a}\u{17f}-x", "cn-x_y", "cn-\u{e9}",
        "cn-a-internal", "cn-internal", "cn--internal", "-internal", "", "cn-a\n",
    ];
    let middles = ["", "-internal", "-INTERNAL", "-internal-internal", "internal"];
    let tails = [
        ".aliyuncs.com", ".ALIYUNC\u{17f}.COM", "xaliyuncs.com", ".aliyuncs.com\n", ".aliyuncs", "",
    ];
    for head in heads {
        for body in bodies {
            for middle in middles {
                for tail in tails {
                    let host = format!("{head}{body}{middle}{tail}");
                    assert_eq!(region_from_endpoint(&host), by_hand(host.trim()), "{host:?}");
                }
            }
        }
    }
}
