use ossup::command::Arg;
use ossup::reply::Output;
use ossup::session::{spawn_transfer, Action, Call, Reply, Transfer};
use ossup::{AppState, Auth, UploadRequest};

fn request() -> UploadRequest {
    UploadRequest {
        local_path: "/d".to_string(),
        bucket: "b".to_string(),
        prefix: String::new(),
        access_key_id: "id".to_string(),
        access_key_secret: "key".to_string(),
        endpoint: "oss-cn-hangzhou.aliyuncs.com".to_string(),
        jobs: 5,
        parallel: 8,
        part_size_mb: 16,
        ossutil_path: String::new(),
        cli_creds: false,
    }
}

fn transfer() -> Transfer {
    spawn_transfer(
        &AppState::default(),
        request(),
        "/d".to_string(),
        "oss://b/d/".to_string(),
        true,
        "t1".to_string(),
        42,
        7,
        true,
    )
    .unwrap()
}

fn auth() -> Auth {
    Auth {
        access_key_id: "id".to_string(),
        access_key_secret: "key".to_string(),
        endpoint: "cdn.example.com".to_string(),
        ossutil_path: String::new(),
    }
}

const BODY: &str = "[default]\nlanguage=CH\naccessKeyID=id\naccessKeySecret=key\n\
                    endpoint=oss-cn-hangzhou.aliyuncs.com\nregion=cn-hangzhou\n";

/// What is done for a transfer, with the replies that `answer` gives.
fn play(mut t: Transfer, answer: impl Fn(&str) -> Reply) -> (Vec<String>, Option<Result<(), String>>) {
    let mut done = Vec::new();
    loop {
        let name = match t.action() {
            Action::FindConfigDir => "find".to_string(),
            Action::MakeConfigDir => "make".to_string(),
            Action::MakeCheckpointDir => "checkpoints".to_string(),
            Action::WriteCredFile { name, body } => {
                assert_eq!(body, BODY);
                format!("write {name}")
            }
            Action::RestrictCredFile(mode) => format!("restrict {mode:?}"),
            Action::Tell(event) => {
                assert_eq!(event.task_id.as_deref(), Some("t1"));
                format!("tell {} {}", event.kind, event.line.unwrap())
            }
            Action::Start(args) => format!("start {}", args.len()),
            Action::List => "list".to_string(),
            Action::Watch => "watch".to_string(),
            Action::Run(_) => unreachable!(),
            Action::RemoveCredFile => "remove".to_string(),
            Action::Rest => return (done, t.answer()),
        };
        let reply = answer(name.split(' ').next().unwrap());
        done.push(name);
        t = t.advance(reply);
    }
}

const PRELUDE: [&str; 7] = [
    "find",
    "make",
    "checkpoints",
    "write session-42-7.ossutilconfig",
    "restrict Some(384)",
    "tell log [start] /d -> oss://b/d/  (jobs=5, parallel=8, part-size=16MB)",
    "start 18",
];

#[test]
fn a_transfer_from_start_to_end() {
    let (done, answer) = play(transfer(), |name| match name {
        "watch" => Reply::Ended(0),
        _ => Reply::Done,
    });
    assert_eq!(done[..7], PRELUDE);
    assert_eq!(
        done[7..],
        ["list", "watch", "remove", "tell finished [exit] ossutil 退出码 0"]
    );
    assert_eq!(answer, Some(Ok(())));
}

#[test]
fn a_transfer_is_answered_while_it_runs() {
    let mut t = transfer();
    assert_eq!(t.task_id(), "t1");
    for _ in 0..8 {
        assert_eq!(t.answer(), None);
        t = t.advance(Reply::Done);
    }
    for _ in 0..5 {
        assert!(matches!(t.action(), Action::Watch));
        assert_eq!(t.answer(), Some(Ok(())));
        t = t.advance(Reply::Done);
    }
    t = t.advance(Reply::Ended(-1));
    assert!(matches!(t.action(), Action::RemoveCredFile));
    t = t.advance(Reply::Failed("locked".to_string()));
    match t.action() {
        Action::Tell(event) => {
            assert_eq!((event.kind, event.code), ("finished", Some(-1)));
            assert_eq!(event.task_id.as_deref(), Some("t1"));
        }
        other => panic!("{other:?}"),
    }
}

#[test]
fn a_transfer_fails_where_something_fails() {
    let failing = |step: &'static str| {
        play(transfer(), move |name| {
            if name == step {
                Reply::Failed("why".to_string())
            } else {
                Reply::Done
            }
        })
    };
    let (done, answer) = failing("find");
    assert_eq!(done, ["find"]);
    assert_eq!(answer, Some(Err("无法定位配置目录: why".to_string())));
    let (done, answer) = failing("make");
    assert_eq!(done.len(), 2);
    assert_eq!(answer, Some(Err("无法创建配置目录: why".to_string())));
    let (done, answer) = failing("checkpoints");
    assert_eq!(done.len(), 3);
    assert_eq!(answer, Some(Err("why".to_string())));
    let (done, answer) = failing("write");
    assert_eq!(done.len(), 4);
    assert_eq!(answer, Some(Err("无法写入临时凭证文件: why".to_string())));
    let (done, answer) = failing("start");
    assert_eq!(done[..7], PRELUDE);
    assert_eq!(done[7..], ["remove"]);
    assert_eq!(answer, Some(Err("无法启动 ossutil: why".to_string())));
}

#[test]
fn a_transfer_goes_on_where_only_telling_fails() {
    let (done, answer) = play(transfer(), |name| match name {
        "restrict" | "tell" | "list" | "remove" => Reply::Failed("why".to_string()),
        "watch" => Reply::Ended(5),
        _ => Reply::Done,
    });
    assert_eq!(done.len(), 11);
    assert_eq!(done[10], "tell finished [exit] ossutil 退出码 5");
    assert_eq!(answer, Some(Ok(())));
}

#[test]
fn a_running_task_is_not_started_again() {
    let mut state = AppState::default();
    state.insert("t1");
    let refused = spawn_transfer(
        &state,
        request(),
        "s".to_string(),
        "t".to_string(),
        false,
        "t1".to_string(),
        1,
        1,
        false,
    );
    assert_eq!(refused.err().unwrap(), "任务 t1 已在运行");
    // That comes before the size of a part is looked at.
    let mut large = request();
    large.part_size_mb = u64::MAX;
    let refused = spawn_transfer(
        &state,
        large,
        "s".to_string(),
        "t".to_string(),
        false,
        "t1".to_string(),
        1,
        1,
        false,
    );
    assert_eq!(refused.err().unwrap(), "任务 t1 已在运行");
    assert!(state.contains("t1"));
}

/// What is done for a call, with `outcome` as what comes of running it.
fn call(mut c: Call, outcome: Result<Output, String>) -> (Vec<String>, Result<Output, String>) {
    let mut done = Vec::new();
    let mut outcome = Some(outcome);
    loop {
        let mut reply = Reply::Done;
        let name = match c.action() {
            Action::FindConfigDir => "find".to_string(),
            Action::MakeConfigDir => "make".to_string(),
            Action::WriteCredFile { name, .. } => format!("write {name}"),
            Action::RestrictCredFile(mode) => format!("restrict {mode:?}"),
            Action::Run(args) => {
                reply = match outcome.take().unwrap() {
                    Ok(output) => Reply::Ran(output),
                    Err(reason) => Reply::Failed(reason),
                };
                let words: Vec<&str> = args
                    .iter()
                    .map(|a| match a {
                        Arg::Text(t) => t.as_str(),
                        Arg::CredFile => "<cred>",
                        Arg::CheckpointDir | Arg::OutputDir => unreachable!(),
                    })
                    .collect();
                format!("run {}", words.join(" "))
            }
            Action::RemoveCredFile => "remove".to_string(),
            Action::Rest => return (done, c.result().unwrap()),
            other => panic!("{other:?}"),
        };
        done.push(name);
        c = c.advance(reply);
    }
}

fn success() -> Result<Output, String> {
    Ok(Output {
        success: true,
        stdout: b"out".to_vec(),
        stderr: b"err".to_vec(),
    })
}

#[test]
fn a_call_from_start_to_end() {
    let args = vec!["--bucket".to_string(), "b".to_string()];
    let (done, result) = call(Call::api(auth(), "get-bucket", &args, 42, 7, false), success());
    assert_eq!(
        done,
        [
            "find",
            "make",
            "write session-42-7.ossutilconfig",
            "restrict None",
            "run api get-bucket --config-file <cred> --sign-version v1 --bucket b --output-format json",
            "remove",
        ]
    );
    let output = result.unwrap();
    assert_eq!((output.success, output.stdout, output.stderr), (true, b"out".to_vec(), b"err".to_vec()));
}

#[test]
fn a_call_that_cannot_run_removes_its_file_too() {
    let args = vec!["rm".to_string(), "x".to_string()];
    let (done, result) = call(Call::run(auth(), &args, 1, 2, true).unwrap(), Err("why".to_string()));
    assert_eq!(done[4], "run rm --config-file <cred> --sign-version v1 x");
    assert_eq!(done[5], "remove");
    assert_eq!(result.unwrap_err(), "无法启动 ossutil: why");
    let (done, result) = call(Call::list(request(), 1, 3, true), Err("why".to_string()));
    assert_eq!(done[4], "run ls --short-format --config-file <cred> oss://b/");
    assert_eq!(done[5], "remove");
    assert_eq!(result.unwrap_err(), "校验失败: why");
}

#[test]
fn a_call_that_stops_early() {
    let expected = ["无法定位配置目录: why", "无法创建配置目录: why", "无法写入临时凭证文件: why"];
    for (steps, error) in expected.iter().enumerate() {
        let mut c = Call::list(request(), 1, 3, true);
        for _ in 0..steps {
            c = c.advance(Reply::Done);
        }
        c = c.advance(Reply::Failed("why".to_string()));
        assert!(matches!(c.action(), Action::Rest));
        assert_eq!(c.result().unwrap().unwrap_err(), *error);
    }
    assert!(Call::list(request(), 1, 3, true).result().is_none());
    assert_eq!(
        Call::run(auth(), &Vec::new(), 1, 2, true).err().unwrap(),
        "没有指定 ossutil 子命令"
    );
}
