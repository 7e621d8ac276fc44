use ossup::discovery::{
    binary_name, check_ossutil, extract_embedded, resolve_ossutil, version_label, OssutilStep,
    VersionProbe, VersionStep,
};
use ossup::reply::Output;

fn output(success: bool, stdout: &[u8], stderr: &[u8]) -> Result<Output, String> {
    Ok(Output {
        success,
        stdout: stdout.to_vec(),
        stderr: stderr.to_vec(),
    })
}

fn told(step: VersionStep) -> Result<String, String> {
    match step {
        VersionStep::Tell(told) => told,
        VersionStep::Ask(probe) => panic!("asks {probe:?}"),
    }
}

#[test]
fn bare_version_gets_a_name() {
    assert_eq!(version_label("2.3.0\n"), "ossutil 2.3.0");
    assert_eq!(version_label("\n \n  ossutil version: v1.7.19  \nmore"), "ossutil version: v1.7.19");
    assert_eq!(version_label("OSSUTIL v2"), "OSSUTIL v2");
    assert_eq!(version_label(" \n"), "ossutil");
    assert_eq!(version_label(""), "ossutil");
    // A dotted capital I is not the letter that the name is written with.
    assert_eq!(version_label("ossut\u{130}l"), "ossutil ossut\u{130}l");
}

#[test]
fn version_is_asked_for_in_two_ways() {
    assert_eq!(VersionProbe::Subcommand.arg(), "version");
    assert_eq!(VersionProbe::Flag.arg(), "--version");
    let step = check_ossutil(VersionProbe::Subcommand, &output(false, b"unknown", b""));
    assert!(matches!(step, VersionStep::Ask(VersionProbe::Flag)));
    let step = check_ossutil(VersionProbe::Subcommand, &output(true, b"2.3.0", b""));
    assert_eq!(told(step).unwrap(), "ossutil 2.3.0");
    let step = check_ossutil(VersionProbe::Flag, &output(false, b"", b"oops\xff\n"));
    assert_eq!(told(step).unwrap(), "ossutil oops\u{fffd}");
    let step = check_ossutil(VersionProbe::Flag, &output(true, b" oss", b"util 1 "));
    assert_eq!(told(step).unwrap(), "ossutil 1");
}

#[test]
fn ossutil_that_does_not_start() {
    for probe in [VersionProbe::Subcommand, VersionProbe::Flag] {
        let step = check_ossutil(probe, &Err("not found".to_string()));
        assert_eq!(told(step).unwrap_err(), "无法启动 ossutil: not found");
    }
}

#[test]
fn ossutil_is_looked_for_in_order() {
    let step = resolve_ossutil("  /opt/x  ", None, None);
    assert!(matches!(step, OssutilStep::UseCustom(path) if path == "/opt/x"));
    assert!(matches!(resolve_ossutil(" ", None, None), OssutilStep::LookForBundled));
    assert!(matches!(resolve_ossutil("", Some(true), None), OssutilStep::UseBundled));
    assert!(matches!(resolve_ossutil("", Some(false), None), OssutilStep::Extract));
    assert!(matches!(resolve_ossutil("", Some(false), Some(true)), OssutilStep::UseEmbedded));
    assert!(matches!(resolve_ossutil("", Some(false), Some(false)), OssutilStep::UseSystem));
    assert_eq!(binary_name(true), "ossutil.exe");
    assert_eq!(binary_name(false), "ossutil");
}

#[test]
fn embedded_ossutil_is_written_once() {
    assert!(extract_embedded(None, 10));
    assert!(extract_embedded(Some(9), 10));
    assert!(!extract_embedded(Some(10), 10));
}
