use ossup::command::{
    add_auth_args, api_args, cred_file_body, cred_file_name, cred_tag, list_args, run_args,
    transfer_args, Arg,
};
use ossup::request::start_upload;
use ossup::UploadRequest;

const PUBLIC: &str = "oss-cn-hangzhou.aliyuncs.com";

fn request() -> UploadRequest {
    UploadRequest {
        local_path: "/data/photos".to_string(),
        bucket: " my-bucket ".to_string(),
        prefix: " /a/b/ ".to_string(),
        access_key_id: " LTAI ".to_string(),
        access_key_secret: " s3cret ".to_string(),
        endpoint: PUBLIC.to_string(),
        jobs: 5,
        parallel: 8,
        part_size_mb: 16,
        ossutil_path: String::new(),
        cli_creds: false,
    }
}

fn shown(args: &[Arg]) -> Vec<String> {
    args.iter()
        .map(|a| match a {
            Arg::Text(t) => t.clone(),
            Arg::CredFile => "<cred>".to_string(),
            Arg::CheckpointDir => "<checkpoints>".to_string(),
            Arg::OutputDir => "<output>".to_string(),
        })
        .collect()
}

fn strings(list: &[&str]) -> Vec<String> {
    list.iter().map(|s| s.to_string()).collect()
}

#[test]
fn transfer_of_a_directory() {
    let args = transfer_args(&request(), "/data/photos", "oss://my-bucket/a/b/photos/", true);
    assert_eq!(
        shown(&args),
        strings(&[
            "cp", "-r", "-u", "-f", "--config-file", "<cred>", "--checkpoint-dir", "<checkpoints>",
            "--output-dir", "<output>", "-j", "5", "--parallel", "8", "--part-size", "16777216",
            "/data/photos", "oss://my-bucket/a/b/photos/",
        ])
    );
}

#[test]
fn transfer_of_a_file_with_everything_else() {
    let mut req = request();
    req.endpoint = " oss-accelerate.aliyuncs.com ".to_string();
    req.jobs = 0;
    req.parallel = 0;
    req.part_size_mb = 0;
    req.cli_creds = true;
    let args = transfer_args(&req, "oss://b/k", "/tmp/x", false);
    assert_eq!(
        shown(&args),
        strings(&[
            "cp", "-u", "-f", "--config-file", "<cred>", "--sign-version", "v1", "--checkpoint-dir",
            "<checkpoints>", "--output-dir", "<output>", "-j", "1", "--parallel", "1",
            "--part-size", "1048576", "oss://b/k", "/tmp/x", "-i", "LTAI", "-k", " s3cret ", "-e",
            "oss-accelerate.aliyuncs.com",
        ])
    );
}

#[test]
fn largest_part_size() {
    let mut req = request();
    req.part_size_mb = u64::MAX >> 20;
    let args = shown(&transfer_args(&req, "s", "t", false));
    assert_eq!(args[14], "18446744073708503040");
}

#[test]
fn credentials_stay_off_the_command_line() {
    let mut other = request();
    other.access_key_id = "other".to_string();
    other.access_key_secret = "thing".to_string();
    assert_eq!(
        shown(&transfer_args(&request(), "s", "t", true)),
        shown(&transfer_args(&other, "s", "t", true))
    );
    assert_eq!(shown(&list_args(&request())), shown(&list_args(&other)));
}

#[test]
fn calls_of_the_service() {
    assert_eq!(
        shown(&api_args("list-objects", &strings(&["--bucket", "b"]), PUBLIC)),
        strings(&[
            "api", "list-objects", "--config-file", "<cred>", "--bucket", "b", "--output-format",
            "json",
        ])
    );
    assert_eq!(
        shown(&api_args("x", &Vec::new(), "")),
        strings(&[
            "api", "x", "--config-file", "<cred>", "--sign-version", "v1", "--output-format",
            "json",
        ])
    );
}

#[test]
fn subcommands_keep_their_arguments_together() {
    assert_eq!(
        shown(&run_args(&strings(&["cp", "src", "dst"]), PUBLIC).unwrap()),
        strings(&["cp", "--config-file", "<cred>", "src", "dst"])
    );
    assert_eq!(
        run_args(&Vec::new(), PUBLIC).unwrap_err(),
        "没有指定 ossutil 子命令"
    );
}

#[test]
fn listing() {
    assert_eq!(
        shown(&list_args(&request())),
        strings(&["ls", "--short-format", "--config-file", "<cred>", "oss://my-bucket/a/b/"])
    );
}

#[test]
fn signing_follows_the_endpoint() {
    for (endpoint, signed) in [
        (PUBLIC, false),
        (" oss-us-west-1.aliyuncs.com ", false),
        ("oss-accelerate.aliyuncs.com", true),
        ("cdn.example.com", true),
        ("", true),
    ] {
        let mut args = Vec::new();
        add_auth_args(&mut args, endpoint);
        assert_eq!(shown(&args).contains(&"--sign-version".to_string()), signed, "{endpoint}");
        assert_eq!(cred_file_body("a", "b", endpoint).contains("region="), !signed);
    }
}

#[test]
fn file_with_credentials() {
    assert_eq!(
        cred_file_body(" LTAI ", " s ", " OSS-CN-Hangzhou.aliyuncs.com "),
        "[default]\nlanguage=CH\naccessKeyID=LTAI\naccessKeySecret= s \n\
         endpoint=OSS-CN-Hangzhou.aliyuncs.com\nregion=cn-hangzhou\n"
    );
    assert_eq!(
        cred_file_body("a", "b", " "),
        "[default]\nlanguage=CH\naccessKeyID=a\naccessKeySecret=b\n"
    );
    assert_eq!(
        cred_file_body("a", "b", "cdn.example.com"),
        "[default]\nlanguage=CH\naccessKeyID=a\naccessKeySecret=b\nendpoint=cdn.example.com\n"
    );
}

#[test]
fn files_with_credentials_have_names_of_their_own() {
    assert_eq!(cred_tag(12, 345), "12-345");
    assert_eq!(cred_file_name(4242, 0), "session-4242-0.ossutilconfig");
    let mut names = Vec::new();
    for pid in [0, 1, 11, 111, u32::MAX] {
        for seq in [0, 1, 11, 111, u64::MAX] {
            let name = cred_file_name(pid, seq);
            assert!(!names.contains(&name));
            names.push(name);
        }
    }
}

#[test]
fn addresses() {
    let target = |bucket: &str, prefix: &str| {
        let mut req = request();
        req.bucket = bucket.to_string();
        req.prefix = prefix.to_string();
        req.target()
    };
    assert_eq!(target(" b ", ""), "oss://b/");
    assert_eq!(target("b", "  "), "oss://b/");
    assert_eq!(target("b", "///"), "oss://b/");
    assert_eq!(target("b", "x"), "oss://b/x/");
    assert_eq!(target("b", " //x//y// "), "oss://b/x//y/");
    assert_eq!(target("b", "/ x /"), "oss://b/ x /");
}

#[test]
fn upload_of_a_directory_keeps_its_name() {
    let plan = start_upload(&request(), true, true, Some("photos")).unwrap();
    assert!(plan.recursive);
    assert_eq!(plan.target, "oss://my-bucket/a/b/photos/");
    let plan = start_upload(&request(), true, true, None).unwrap();
    assert!(plan.recursive);
    assert_eq!(plan.target, "oss://my-bucket/a/b/");
    let plan = start_upload(&request(), true, false, Some("x.bin")).unwrap();
    assert!(!plan.recursive);
    assert_eq!(plan.target, "oss://my-bucket/a/b/");
}

#[test]
fn upload_of_nothing_is_refused() {
    assert_eq!(
        start_upload(&request(), false, false, Some("photos")).err().unwrap(),
        "本地路径不存在: /data/photos"
    );
}
