//! The order in which things are done: the file with the credentials is written, `ossutil` runs, and
//! the file is removed, whatever happened in between.
//!
//! A [`Transfer`] and a [`Call`] each say what is to be done next. The program around does it, and
//! reports what came of it.
use crate::command;
use crate::command::Arg;
use crate::command::ArgView;
use crate::config;
use crate::event;
use crate::event::EventView;
use crate::event::UploadEvent;
use crate::reply::Output;
use crate::reply::OutputView;
use crate::request::Auth;
use crate::request::RequestView;
use crate::request::UploadRequest;
use crate::tasks::AppState;
use crate::text;
use vstd::prelude::*;
use vstd::string::*;

verus! {

/// Something to be done.
#[derive(Debug)]
pub enum Action {
    /// Find the directory of the settings.
    FindConfigDir,
    /// Make that directory, unless it is there.
    MakeConfigDir,
    /// Make the directory for what an interrupted transfer leaves, unless it is there.
    MakeCheckpointDir,
    /// Write the file with the credentials into the directory of the settings.
    WriteCredFile { name: String, body: String },
    /// Give that file these permission bits, where there are such bits.
    RestrictCredFile(Option<u32>),
    /// Tell the interface.
    Tell(UploadEvent),
    /// Start `ossutil`, and read what it writes while it runs.
    Start(Vec<Arg>),
    /// Note that the task is running.
    List,
    /// Look after the task, in a moment.
    Watch,
    /// Run `ossutil` to its end.
    Run(Vec<Arg>),
    /// Remove the file with the credentials.
    RemoveCredFile,
    /// Nothing.
    Rest,
}

/// What an [`Action`] says.
#[verifier::ext_equal]
pub enum ActionView {
    FindConfigDir,
    MakeConfigDir,
    MakeCheckpointDir,
    WriteCredFile { name: Seq<char>, body: Seq<char> },
    RestrictCredFile(Option<u32>),
    Tell(EventView),
    Start(Seq<ArgView>),
    List,
    Watch,
    Run(Seq<ArgView>),
    RemoveCredFile,
    Rest,
}

impl View for Action {
    type V = ActionView;

    open spec fn view(&self) -> ActionView {
        match *self {
            Action::FindConfigDir => ActionView::FindConfigDir,
            Action::MakeConfigDir => ActionView::MakeConfigDir,
            Action::MakeCheckpointDir => ActionView::MakeCheckpointDir,
            Action::WriteCredFile { name, body } => ActionView::WriteCredFile {
                name: name@,
                body: body@,
            },
            Action::RestrictCredFile(mode) => ActionView::RestrictCredFile(mode),
            Action::Tell(event) => ActionView::Tell(event@),
            Action::Start(args) => ActionView::Start(command::args_view(args@)),
            Action::List => ActionView::List,
            Action::Watch => ActionView::Watch,
            Action::Run(args) => ActionView::Run(command::args_view(args@)),
            Action::RemoveCredFile => ActionView::RemoveCredFile,
            Action::Rest => ActionView::Rest,
        }
    }
}

/// What came of something that was to be done.
#[derive(Debug)]
pub enum Reply {
    /// It was done, or, of a task that was looked after, it is running.
    Done,
    /// It failed, for the reason given.
    Failed(String),
    /// The task that was looked after is over, with this exit code.
    Ended(i32),
    /// The command that was run is over.
    Ran(Output),
}

/// What a [`Reply`] says.
#[verifier::ext_equal]
pub enum ReplyView {
    Done,
    Failed(Seq<char>),
    Ended(i32),
    Ran(OutputView),
}

impl View for Reply {
    type V = ReplyView;

    open spec fn view(&self) -> ReplyView {
        match *self {
            Reply::Done => ReplyView::Done,
            Reply::Failed(reason) => ReplyView::Failed(reason@),
            Reply::Ended(code) => ReplyView::Ended(code),
            Reply::Ran(output) => ReplyView::Ran(output@),
        }
    }
}

/// The permission bits of a file with credentials.
pub open spec fn private_mode(unix: bool) -> Option<u32> {
    if unix {
        Some(0o600u32)
    } else {
        None
    }
}

/// The reason, with `prefix` in front.
fn complain(prefix: &str, reason: String) -> (message: String)
    ensures
        message@ == prefix@ + reason@,
{
    let mut message = String::new();
    message.append(prefix);
    message.append(reason.as_str());
    assert(message@ =~= prefix@ + reason@);
    message
}

/// How far a transfer has come.
#[derive(Debug)]
pub enum TransferState {
    /// The directory of the settings is looked for.
    Finding,
    /// That directory is made.
    Making,
    /// The directory for what an interrupted transfer leaves is made.
    MakingCheckpoints,
    /// The file with the credentials is written.
    Writing,
    /// Its permissions are restricted.
    Restricting,
    /// The transfer is announced.
    Announcing,
    /// `ossutil` is started.
    Starting,
    /// It could not be started, and the file with the credentials is removed.
    Retreating(String),
    /// The task is noted.
    Listing,
    /// The task runs.
    Watching,
    /// The task is over, and the file with the credentials is removed.
    Clearing(i32),
    /// The interface is told that the task is over.
    Closing(i32),
    /// Nothing came of it.
    Failed(String),
    /// Everything is done.
    Over,
}

/// What a [`TransferState`] says.
#[verifier::ext_equal]
pub enum TransferStateView {
    Finding,
    Making,
    MakingCheckpoints,
    Writing,
    Restricting,
    Announcing,
    Starting,
    Retreating(Seq<char>),
    Listing,
    Watching,
    Clearing(i32),
    Closing(i32),
    Failed(Seq<char>),
    Over,
}

impl View for TransferState {
    type V = TransferStateView;

    open spec fn view(&self) -> TransferStateView {
        match *self {
            TransferState::Finding => TransferStateView::Finding,
            TransferState::Making => TransferStateView::Making,
            TransferState::MakingCheckpoints => TransferStateView::MakingCheckpoints,
            TransferState::Writing => TransferStateView::Writing,
            TransferState::Restricting => TransferStateView::Restricting,
            TransferState::Announcing => TransferStateView::Announcing,
            TransferState::Starting => TransferStateView::Starting,
            TransferState::Retreating(error) => TransferStateView::Retreating(error@),
            TransferState::Listing => TransferStateView::Listing,
            TransferState::Watching => TransferStateView::Watching,
            TransferState::Clearing(code) => TransferStateView::Clearing(code),
            TransferState::Closing(code) => TransferStateView::Closing(code),
            TransferState::Failed(error) => TransferStateView::Failed(error@),
            TransferState::Over => TransferStateView::Over,
        }
    }
}

/// How far a transfer has come once something was done. What only tidies up or tells goes on whether
/// it failed or not; while the task runs, nothing changes.
pub open spec fn next_transfer_state(state: TransferStateView, reply: ReplyView) -> TransferStateView {
    match (state, reply) {
        (TransferStateView::Finding, ReplyView::Failed(reason)) => TransferStateView::Failed(
            "无法定位配置目录: "@ + reason,
        ),
        (TransferStateView::Finding, _) => TransferStateView::Making,
        (TransferStateView::Making, ReplyView::Failed(reason)) => TransferStateView::Failed(
            "无法创建配置目录: "@ + reason,
        ),
        (TransferStateView::Making, _) => TransferStateView::MakingCheckpoints,
        (TransferStateView::MakingCheckpoints, ReplyView::Failed(reason)) => TransferStateView::Failed(
            reason,
        ),
        (TransferStateView::MakingCheckpoints, _) => TransferStateView::Writing,
        (TransferStateView::Writing, ReplyView::Failed(reason)) => TransferStateView::Failed(
            "无法写入临时凭证文件: "@ + reason,
        ),
        (TransferStateView::Writing, _) => TransferStateView::Restricting,
        (TransferStateView::Restricting, _) => TransferStateView::Announcing,
        (TransferStateView::Announcing, _) => TransferStateView::Starting,
        (TransferStateView::Starting, ReplyView::Failed(reason)) => TransferStateView::Retreating(
            "无法启动 ossutil: "@ + reason,
        ),
        (TransferStateView::Starting, _) => TransferStateView::Listing,
        (TransferStateView::Retreating(error), _) => TransferStateView::Failed(error),
        (TransferStateView::Listing, _) => TransferStateView::Watching,
        (TransferStateView::Watching, ReplyView::Ended(code)) => TransferStateView::Clearing(code),
        (TransferStateView::Watching, _) => TransferStateView::Watching,
        (TransferStateView::Clearing(code), _) => TransferStateView::Closing(code),
        (TransferStateView::Closing(_), _) => TransferStateView::Over,
        (TransferStateView::Failed(error), _) => TransferStateView::Failed(error),
        (TransferStateView::Over, _) => TransferStateView::Over,
    }
}

/// How far a transfer has come once something was done.
fn after_reply(state: TransferState, reply: Reply) -> (res: TransferState)
    ensures
        res@ == next_transfer_state(state@, reply@),
{
    match (state, reply) {
        (TransferState::Finding, Reply::Failed(reason)) => TransferState::Failed(
            complain("无法定位配置目录: ", reason),
        ),
        (TransferState::Finding, _) => TransferState::Making,
        (TransferState::Making, Reply::Failed(reason)) => TransferState::Failed(
            complain("无法创建配置目录: ", reason),
        ),
        (TransferState::Making, _) => TransferState::MakingCheckpoints,
        (TransferState::MakingCheckpoints, Reply::Failed(reason)) => TransferState::Failed(reason),
        (TransferState::MakingCheckpoints, _) => TransferState::Writing,
        (TransferState::Writing, Reply::Failed(reason)) => TransferState::Failed(
            complain("无法写入临时凭证文件: ", reason),
        ),
        (TransferState::Writing, _) => TransferState::Restricting,
        (TransferState::Restricting, _) => TransferState::Announcing,
        (TransferState::Announcing, _) => TransferState::Starting,
        (TransferState::Starting, Reply::Failed(reason)) => TransferState::Retreating(
            complain("无法启动 ossutil: ", reason),
        ),
        (TransferState::Starting, _) => TransferState::Listing,
        (TransferState::Retreating(error), _) => TransferState::Failed(error),
        (TransferState::Listing, _) => TransferState::Watching,
        (TransferState::Watching, Reply::Ended(code)) => TransferState::Clearing(code),
        (TransferState::Watching, _) => TransferState::Watching,
        (TransferState::Clearing(code), _) => TransferState::Closing(code),
        (TransferState::Closing(_), _) => TransferState::Over,
        (TransferState::Failed(error), _) => TransferState::Failed(error),
        (TransferState::Over, _) => TransferState::Over,
    }
}

/// A transfer, up or down, from the time it is asked for to its end.
#[derive(Debug)]
pub struct Transfer {
    req: UploadRequest,
    source: String,
    target: String,
    recursive: bool,
    task_id: String,
    pid: u32,
    seq: u64,
    unix: bool,
    state: TransferState,
}

/// What a [`Transfer`] says.
#[verifier::ext_equal]
pub struct TransferView {
    pub req: RequestView,
    pub source: Seq<char>,
    pub target: Seq<char>,
    /// Whether a whole directory is copied.
    pub recursive: bool,
    pub task_id: Seq<char>,
    /// The number of this process.
    pub pid: u32,
    /// The number of files with credentials that it made before.
    pub seq: u64,
    /// Whether files have permission bits here.
    pub unix: bool,
    pub state: TransferStateView,
}

impl View for Transfer {
    type V = TransferView;

    closed spec fn view(&self) -> TransferView {
        TransferView {
            req: self.req@,
            source: self.source@,
            target: self.target@,
            recursive: self.recursive,
            task_id: self.task_id@,
            pid: self.pid,
            seq: self.seq,
            unix: self.unix,
            state: self.state@,
        }
    }
}

/// What is to be done next for a transfer.
pub open spec fn transfer_action(t: TransferView) -> ActionView {
    match t.state {
        TransferStateView::Finding => ActionView::FindConfigDir,
        TransferStateView::Making => ActionView::MakeConfigDir,
        TransferStateView::MakingCheckpoints => ActionView::MakeCheckpointDir,
        TransferStateView::Writing => ActionView::WriteCredFile {
            name: command::cred_file_text(t.pid as nat, t.seq as nat),
            body: command::cred_text(
                t.req.access_key_id,
                t.req.access_key_secret,
                t.req.endpoint,
            ),
        },
        TransferStateView::Restricting => ActionView::RestrictCredFile(private_mode(t.unix)),
        TransferStateView::Announcing => ActionView::Tell(
            EventView {
                task_id: Some(t.task_id),
                ..event::log_event(
                    event::start_line(
                        t.source,
                        t.target,
                        t.req.jobs,
                        t.req.parallel,
                        t.req.part_size_mb,
                    ),
                )
            },
        ),
        TransferStateView::Starting => ActionView::Start(
            command::transfer_line(t.req, t.source, t.target, t.recursive),
        ),
        TransferStateView::Retreating(_) => ActionView::RemoveCredFile,
        TransferStateView::Listing => ActionView::List,
        TransferStateView::Watching => ActionView::Watch,
        TransferStateView::Clearing(_) => ActionView::RemoveCredFile,
        TransferStateView::Closing(code) => ActionView::Tell(event::finished_event(t.task_id, code)),
        TransferStateView::Failed(_) => ActionView::Rest,
        TransferStateView::Over => ActionView::Rest,
    }
}

/// What the interface is answered, as soon as it can be: that the transfer runs, or why it does not.
pub open spec fn transfer_answer(state: TransferStateView) -> Option<Result<(), Seq<char>>> {
    match state {
        TransferStateView::Watching => Some(Ok(())),
        TransferStateView::Clearing(_) => Some(Ok(())),
        TransferStateView::Closing(_) => Some(Ok(())),
        TransferStateView::Over => Some(Ok(())),
        TransferStateView::Failed(error) => Some(Err(error)),
        _ => None,
    }
}

/// What an answer says.
pub open spec fn answer_view(answer: Option<Result<(), String>>) -> Option<Result<(), Seq<char>>> {
    match answer {
        Some(Ok(_)) => Some(Ok(())),
        Some(Err(error)) => Some(Err(error@)),
        None => None,
    }
}

/// Begins a transfer, unless a task of that name is running.
pub fn spawn_transfer(
    running: &AppState,
    req: UploadRequest,
    source: String,
    target: String,
    recursive: bool,
    task_id: String,
    pid: u32,
    seq: u64,
    unix: bool,
) -> (res: Result<Transfer, String>)
    requires
        running@.contains(task_id@) || command::part_bytes(req.part_size_mb) <= u64::MAX,
    ensures
        res is Ok <==> !running@.contains(task_id@),
        res matches Ok(t) ==> t.wf() && t@ == (TransferView {
            req: req@,
            source: source@,
            target: target@,
            recursive,
            task_id: task_id@,
            pid,
            seq,
            unix,
            state: TransferStateView::Finding,
        }),
        res matches Err(e) ==> e@ == "任务 "@ + task_id@ + " 已在运行"@,
{
    match running.check_free(task_id.as_str()) {
        Ok(_) => Ok(
            Transfer {
                req,
                source,
                target,
                recursive,
                task_id,
                pid,
                seq,
                unix,
                state: TransferState::Finding,
            },
        ),
        Err(error) => Err(error),
    }
}

impl Transfer {
    /// Whether the size of a part can be written down in bytes.
    pub open spec fn wf(&self) -> bool {
        command::part_bytes(self@.req.part_size_mb) <= u64::MAX
    }

    /// The name of the task.
    pub fn task_id(&self) -> (id: &str)
        ensures
            id@ == self@.task_id,
    {
        self.task_id.as_str()
    }

    /// What is to be done next.
    pub fn action(&self) -> (res: Action)
        requires
            self.wf(),
        ensures
            res@ == transfer_action(self@),
    {
        match &self.state {
            TransferState::Finding => Action::FindConfigDir,
            TransferState::Making => Action::MakeConfigDir,
            TransferState::MakingCheckpoints => Action::MakeCheckpointDir,
            TransferState::Writing => Action::WriteCredFile {
                name: command::cred_file_name(self.pid, self.seq),
                body: command::cred_file_body(
                    self.req.access_key_id.as_str(),
                    self.req.access_key_secret.as_str(),
                    self.req.endpoint.as_str(),
                ),
            },
            TransferState::Restricting => Action::RestrictCredFile(
                config::restrict_permissions(self.unix),
            ),
            TransferState::Announcing => Action::Tell(
                UploadEvent::started(
                    &self.req,
                    self.source.as_str(),
                    self.target.as_str(),
                ).for_task(self.task_id.as_str()),
            ),
            TransferState::Starting => Action::Start(
                command::transfer_args(
                    &self.req,
                    self.source.as_str(),
                    self.target.as_str(),
                    self.recursive,
                ),
            ),
            TransferState::Retreating(_) => Action::RemoveCredFile,
            TransferState::Listing => Action::List,
            TransferState::Watching => Action::Watch,
            TransferState::Clearing(_) => Action::RemoveCredFile,
            TransferState::Closing(code) => Action::Tell(
                UploadEvent::finished(self.task_id.as_str(), *code),
            ),
            TransferState::Failed(_) => Action::Rest,
            TransferState::Over => Action::Rest,
        }
    }

    /// The transfer once that was done.
    pub fn advance(self, reply: Reply) -> (res: Self)
        requires
            self.wf(),
        ensures
            res.wf(),
            res@ == (TransferView { state: next_transfer_state(self@.state, reply@), ..self@ }),
    {
        let Transfer { req, source, target, recursive, task_id, pid, seq, unix, state } = self;
        let state = after_reply(state, reply);
        Transfer { req, source, target, recursive, task_id, pid, seq, unix, state }
    }

    /// What the interface is answered, once it can be.
    pub fn answer(&self) -> (res: Option<Result<(), String>>)
        ensures
            answer_view(res) == transfer_answer(self@.state),
    {
        match &self.state {
            TransferState::Watching => Some(Ok(())),
            TransferState::Clearing(_) => Some(Ok(())),
            TransferState::Closing(_) => Some(Ok(())),
            TransferState::Over => Some(Ok(())),
            TransferState::Failed(error) => Some(Err(error.clone())),
            _ => None,
        }
    }
}

/// How far a call has come.
#[derive(Debug)]
pub enum CallState {
    /// The directory of the settings is looked for.
    Finding,
    /// That directory is made.
    Making,
    /// The file with the credentials is written.
    Writing,
    /// Its permissions are restricted.
    Restricting,
    /// `ossutil` runs.
    Running,
    /// It ran, and the file with the credentials is removed.
    Clearing(Output),
    /// It could not be run, and the file with the credentials is removed.
    Retreating(String),
    /// Everything is done.
    Over(Output),
    /// Nothing came of it.
    Failed(String),
}

/// What a [`CallState`] says.
#[verifier::ext_equal]
pub enum CallStateView {
    Finding,
    Making,
    Writing,
    Restricting,
    Running,
    Clearing(OutputView),
    Retreating(Seq<char>),
    Over(OutputView),
    Failed(Seq<char>),
}

impl View for CallState {
    type V = CallStateView;

    open spec fn view(&self) -> CallStateView {
        match *self {
            CallState::Finding => CallStateView::Finding,
            CallState::Making => CallStateView::Making,
            CallState::Writing => CallStateView::Writing,
            CallState::Restricting => CallStateView::Restricting,
            CallState::Running => CallStateView::Running,
            CallState::Clearing(output) => CallStateView::Clearing(output@),
            CallState::Retreating(error) => CallStateView::Retreating(error@),
            CallState::Over(output) => CallStateView::Over(output@),
            CallState::Failed(error) => CallStateView::Failed(error@),
        }
    }
}

/// How far a call has come once something was done. Where `ossutil` cannot be run, `complaint` says
/// so in front of the reason. What only tidies up goes on whether it failed or not; while `ossutil`
/// runs, nothing changes.
pub open spec fn next_call_state(
    state: CallStateView,
    reply: ReplyView,
    complaint: Seq<char>,
) -> CallStateView {
    match (state, reply) {
        (CallStateView::Finding, ReplyView::Failed(reason)) => CallStateView::Failed(
            "无法定位配置目录: "@ + reason,
        ),
        (CallStateView::Finding, _) => CallStateView::Making,
        (CallStateView::Making, ReplyView::Failed(reason)) => CallStateView::Failed(
            "无法创建配置目录: "@ + reason,
        ),
        (CallStateView::Making, _) => CallStateView::Writing,
        (CallStateView::Writing, ReplyView::Failed(reason)) => CallStateView::Failed(
            "无法写入临时凭证文件: "@ + reason,
        ),
        (CallStateView::Writing, _) => CallStateView::Restricting,
        (CallStateView::Restricting, _) => CallStateView::Running,
        (CallStateView::Running, ReplyView::Ran(output)) => CallStateView::Clearing(output),
        (CallStateView::Running, ReplyView::Failed(reason)) => CallStateView::Retreating(
            complaint + reason,
        ),
        (CallStateView::Running, _) => CallStateView::Running,
        (CallStateView::Clearing(output), _) => CallStateView::Over(output),
        (CallStateView::Retreating(error), _) => CallStateView::Failed(error),
        (CallStateView::Over(output), _) => CallStateView::Over(output),
        (CallStateView::Failed(error), _) => CallStateView::Failed(error),
    }
}

/// How far a call has come once something was done.
fn after_call_reply(state: CallState, reply: Reply, complaint: &str) -> (res: CallState)
    ensures
        res@ == next_call_state(state@, reply@, complaint@),
{
    match (state, reply) {
        (CallState::Finding, Reply::Failed(reason)) => CallState::Failed(
            complain("无法定位配置目录: ", reason),
        ),
        (CallState::Finding, _) => CallState::Making,
        (CallState::Making, Reply::Failed(reason)) => CallState::Failed(
            complain("无法创建配置目录: ", reason),
        ),
        (CallState::Making, _) => CallState::Writing,
        (CallState::Writing, Reply::Failed(reason)) => CallState::Failed(
            complain("无法写入临时凭证文件: ", reason),
        ),
        (CallState::Writing, _) => CallState::Restricting,
        (CallState::Restricting, _) => CallState::Running,
        (CallState::Running, Reply::Ran(output)) => CallState::Clearing(output),
        (CallState::Running, Reply::Failed(reason)) => CallState::Retreating(
            complain(complaint, reason),
        ),
        (CallState::Running, _) => CallState::Running,
        (CallState::Clearing(output), _) => CallState::Over(output),
        (CallState::Retreating(error), _) => CallState::Failed(error),
        (CallState::Over(output), _) => CallState::Over(output),
        (CallState::Failed(error), _) => CallState::Failed(error),
    }
}

/// A command that is waited for, from the time it is asked for to its end.
#[derive(Debug)]
pub struct Call {
    access_key_id: String,
    access_key_secret: String,
    endpoint: String,
    args: Vec<Arg>,
    complaint: &'static str,
    pid: u32,
    seq: u64,
    unix: bool,
    state: CallState,
}

/// What a [`Call`] says.
#[verifier::ext_equal]
pub struct CallView {
    pub access_key_id: Seq<char>,
    pub access_key_secret: Seq<char>,
    pub endpoint: Seq<char>,
    /// The command line.
    pub args: Seq<ArgView>,
    /// What stands in front of the reason where `ossutil` cannot be run.
    pub complaint: Seq<char>,
    /// The number of this process.
    pub pid: u32,
    /// The number of files with credentials that it made before.
    pub seq: u64,
    /// Whether files have permission bits here.
    pub unix: bool,
    pub state: CallStateView,
}

impl View for Call {
    type V = CallView;

    closed spec fn view(&self) -> CallView {
        CallView {
            access_key_id: self.access_key_id@,
            access_key_secret: self.access_key_secret@,
            endpoint: self.endpoint@,
            args: command::args_view(self.args@),
            complaint: self.complaint@,
            pid: self.pid,
            seq: self.seq,
            unix: self.unix,
            state: self.state@,
        }
    }
}

/// What is to be done next for a call.
pub open spec fn call_action(c: CallView) -> ActionView {
    match c.state {
        CallStateView::Finding => ActionView::FindConfigDir,
        CallStateView::Making => ActionView::MakeConfigDir,
        CallStateView::Writing => ActionView::WriteCredFile {
            name: command::cred_file_text(c.pid as nat, c.seq as nat),
            body: command::cred_text(c.access_key_id, c.access_key_secret, c.endpoint),
        },
        CallStateView::Restricting => ActionView::RestrictCredFile(private_mode(c.unix)),
        CallStateView::Running => ActionView::Run(c.args),
        CallStateView::Clearing(_) => ActionView::RemoveCredFile,
        CallStateView::Retreating(_) => ActionView::RemoveCredFile,
        CallStateView::Over(_) => ActionView::Rest,
        CallStateView::Failed(_) => ActionView::Rest,
    }
}

/// What comes of a call, once it is over.
pub open spec fn call_result(state: CallStateView) -> Option<Result<OutputView, Seq<char>>> {
    match state {
        CallStateView::Over(output) => Some(Ok(output)),
        CallStateView::Failed(error) => Some(Err(error)),
        _ => None,
    }
}

/// What a result says.
pub open spec fn output_view(result: Option<Result<Output, String>>) -> Option<
    Result<OutputView, Seq<char>>,
> {
    match result {
        Some(Ok(output)) => Some(Ok(output@)),
        Some(Err(error)) => Some(Err(error@)),
        None => None,
    }
}

impl Call {
    fn begin(
        access_key_id: String,
        access_key_secret: String,
        endpoint: String,
        args: Vec<Arg>,
        complaint: &'static str,
        pid: u32,
        seq: u64,
        unix: bool,
    ) -> (res: Self)
        ensures
            res@ == (CallView {
                access_key_id: access_key_id@,
                access_key_secret: access_key_secret@,
                endpoint: endpoint@,
                args: command::args_view(args@),
                complaint: complaint@,
                pid,
                seq,
                unix,
                state: CallStateView::Finding,
            }),
    {
        Call {
            access_key_id,
            access_key_secret,
            endpoint,
            args,
            complaint,
            pid,
            seq,
            unix,
            state: CallState::Finding,
        }
    }

    /// A call of the service.
    pub fn api(auth: Auth, op: &str, args: &Vec<String>, pid: u32, seq: u64, unix: bool) -> (res:
        Self)
        ensures
            res@ == (CallView {
                access_key_id: auth.access_key_id@,
                access_key_secret: auth.access_key_secret@,
                endpoint: auth.endpoint@,
                args: command::api_line(op@, text::texts(args@), auth.endpoint@),
                complaint: "无法启动 ossutil: "@,
                pid,
                seq,
                unix,
                state: CallStateView::Finding,
            }),
    {
        let args = command::api_args(op, args, auth.endpoint.as_str());
        Call::begin(
            auth.access_key_id,
            auth.access_key_secret,
            auth.endpoint,
            args,
            "无法启动 ossutil: ",
            pid,
            seq,
            unix,
        )
    }

    /// A subcommand, which the first of `args` names.
    pub fn run(auth: Auth, args: &Vec<String>, pid: u32, seq: u64, unix: bool) -> (res: Result<
        Self,
        String,
    >)
        ensures
            res is Ok <==> args.len() > 0,
            res matches Ok(call) ==> call@ == (CallView {
                access_key_id: auth.access_key_id@,
                access_key_secret: auth.access_key_secret@,
                endpoint: auth.endpoint@,
                args: command::run_line(text::texts(args@), auth.endpoint@),
                complaint: "无法启动 ossutil: "@,
                pid,
                seq,
                unix,
                state: CallStateView::Finding,
            }),
            res matches Err(e) ==> e@ == "没有指定 ossutil 子命令"@,
    {
        match command::run_args(args, auth.endpoint.as_str()) {
            Ok(args) => Ok(
                Call::begin(
                    auth.access_key_id,
                    auth.access_key_secret,
                    auth.endpoint,
                    args,
                    "无法启动 ossutil: ",
                    pid,
                    seq,
                    unix,
                ),
            ),
            Err(error) => Err(error),
        }
    }

    /// A listing of what lies at the address of a request.
    pub fn list(req: UploadRequest, pid: u32, seq: u64, unix: bool) -> (res: Self)
        ensures
            res@ == (CallView {
                access_key_id: req.access_key_id@,
                access_key_secret: req.access_key_secret@,
                endpoint: req.endpoint@,
                args: command::list_line(req@),
                complaint: "校验失败: "@,
                pid,
                seq,
                unix,
                state: CallStateView::Finding,
            }),
    {
        let args = command::list_args(&req);
        Call::begin(
            req.access_key_id,
            req.access_key_secret,
            req.endpoint,
            args,
            "校验失败: ",
            pid,
            seq,
            unix,
        )
    }

    /// What is to be done next.
    pub fn action(&self) -> (res: Action)
        ensures
            res@ == call_action(self@),
    {
        match &self.state {
            CallState::Finding => Action::FindConfigDir,
            CallState::Making => Action::MakeConfigDir,
            CallState::Writing => Action::WriteCredFile {
                name: command::cred_file_name(self.pid, self.seq),
                body: command::cred_file_body(
                    self.access_key_id.as_str(),
                    self.access_key_secret.as_str(),
                    self.endpoint.as_str(),
                ),
            },
            CallState::Restricting => Action::RestrictCredFile(
                config::restrict_permissions(self.unix),
            ),
            CallState::Running => Action::Run(command::copy_args(&self.args)),
            CallState::Clearing(_) => Action::RemoveCredFile,
            CallState::Retreating(_) => Action::RemoveCredFile,
            CallState::Over(_) => Action::Rest,
            CallState::Failed(_) => Action::Rest,
        }
    }

    /// The call once that was done.
    pub fn advance(self, reply: Reply) -> (res: Self)
        ensures
            res@ == (CallView {
                state: next_call_state(self@.state, reply@, self@.complaint),
                ..self@
            }),
    {
        let Call {
            access_key_id,
            access_key_secret,
            endpoint,
            args,
            complaint,
            pid,
            seq,
            unix,
            state,
        } = self;
        let state = after_call_reply(state, reply, complaint);
        Call { access_key_id, access_key_secret, endpoint, args, complaint, pid, seq, unix, state }
    }

    /// What came of the call, once it is over.
    pub fn result(self) -> (res: Option<Result<Output, String>>)
        ensures
            output_view(res) == call_result(self@.state),
    {
        match self.state {
            CallState::Over(output) => Some(Ok(output)),
            CallState::Failed(error) => Some(Err(error)),
            _ => None,
        }
    }
}

/// The file with the credentials of one command.
pub enum CredFile {
    /// It does not stand on disk.
    Absent,
    /// It stands on disk, with the permissions that any file gets.
    Written,
    /// It stands on disk, for its owner alone where there are permission bits.
    Private,
}

/// The file with the credentials once something was done, and came to `reply`. To remove it, or to
/// restrict its permissions, is taken to have worked, and to have failed to write it is taken to have
/// left nothing.
pub open spec fn cred_file_after(file: CredFile, action: ActionView, reply: ReplyView) -> CredFile {
    match action {
        ActionView::WriteCredFile { .. } => if reply is Failed {
            CredFile::Absent
        } else {
            CredFile::Written
        },
        ActionView::RestrictCredFile(_) => CredFile::Private,
        ActionView::RemoveCredFile => CredFile::Absent,
        _ => file,
    }
}

/// A transfer after the replies to all that it had done.
pub open spec fn transfer_after(t: TransferView, replies: Seq<ReplyView>) -> TransferView
    decreases replies.len(),
{
    if replies.len() == 0 {
        t
    } else {
        let before = transfer_after(t, replies.drop_last());
        TransferView { state: next_transfer_state(before.state, replies.last()), ..before }
    }
}

/// The file with the credentials after the replies to all that a transfer had done.
pub open spec fn transfer_file(t: TransferView, replies: Seq<ReplyView>) -> CredFile
    decreases replies.len(),
{
    if replies.len() == 0 {
        CredFile::Absent
    } else {
        let before = replies.drop_last();
        cred_file_after(
            transfer_file(t, before),
            transfer_action(transfer_after(t, before)),
            replies.last(),
        )
    }
}

/// A call after the replies to all that it had done.
pub open spec fn call_after(c: CallView, replies: Seq<ReplyView>) -> CallView
    decreases replies.len(),
{
    if replies.len() == 0 {
        c
    } else {
        let before = call_after(c, replies.drop_last());
        CallView {
            state: next_call_state(before.state, replies.last(), before.complaint),
            ..before
        }
    }
}

/// The file with the credentials after the replies to all that a call had done.
pub open spec fn call_file(c: CallView, replies: Seq<ReplyView>) -> CredFile
    decreases replies.len(),
{
    if replies.len() == 0 {
        CredFile::Absent
    } else {
        let before = replies.drop_last();
        cred_file_after(call_file(c, before), call_action(call_after(c, before)), replies.last())
    }
}

proof fn lemma_transfer_file(t: TransferView, replies: Seq<ReplyView>)
    requires
        t.state is Finding,
    ensures
        transfer_after(t, replies) == (TransferView {
            state: transfer_after(t, replies).state,
            ..t
        }),
        transfer_file(t, replies) == match transfer_after(t, replies).state {
            TransferStateView::Restricting => CredFile::Written,
            TransferStateView::Announcing => CredFile::Private,
            TransferStateView::Starting => CredFile::Private,
            TransferStateView::Retreating(_) => CredFile::Private,
            TransferStateView::Listing => CredFile::Private,
            TransferStateView::Watching => CredFile::Private,
            TransferStateView::Clearing(_) => CredFile::Private,
            _ => CredFile::Absent,
        },
    decreases replies.len(),
{
    if replies.len() > 0 {
        lemma_transfer_file(t, replies.drop_last());
    }
}

proof fn lemma_call_file(c: CallView, replies: Seq<ReplyView>)
    requires
        c.state is Finding,
    ensures
        call_after(c, replies) == (CallView { state: call_after(c, replies).state, ..c }),
        call_file(c, replies) == match call_after(c, replies).state {
            CallStateView::Restricting => CredFile::Written,
            CallStateView::Running => CredFile::Private,
            CallStateView::Clearing(_) => CredFile::Private,
            CallStateView::Retreating(_) => CredFile::Private,
            _ => CredFile::Absent,
        },
    decreases replies.len(),
{
    if replies.len() > 0 {
        lemma_call_file(c, replies.drop_last());
    }
}

/// A transfer leaves no credentials behind: once nothing is left to be done, whatever was done
/// before and whatever came of it, the file is gone.
pub proof fn lemma_transfer_leaves_no_credentials(t: TransferView, replies: Seq<ReplyView>)
    requires
        t.state is Finding,
        transfer_action(transfer_after(t, replies)) is Rest,
    ensures
        transfer_file(t, replies) is Absent,
{
    lemma_transfer_file(t, replies);
}

/// `ossutil` has its credentials, and nobody else does: when a transfer starts it, and as long as it
/// is looked after, the file stands on disk, for its owner alone.
pub proof fn lemma_transfer_has_credentials(t: TransferView, replies: Seq<ReplyView>)
    requires
        t.state is Finding,
        transfer_action(transfer_after(t, replies)) is Start || transfer_action(
            transfer_after(t, replies),
        ) is Watch,
    ensures
        transfer_file(t, replies) is Private,
{
    lemma_transfer_file(t, replies);
}

/// A call leaves no credentials behind: once nothing is left to be done, whatever was done before
/// and whatever came of it, the file is gone.
pub proof fn lemma_call_leaves_no_credentials(c: CallView, replies: Seq<ReplyView>)
    requires
        c.state is Finding,
        call_action(call_after(c, replies)) is Rest,
    ensures
        call_file(c, replies) is Absent,
{
    lemma_call_file(c, replies);
}

/// `ossutil` has its credentials, and nobody else does: when a call runs it, the file stands on
/// disk, for its owner alone.
pub proof fn lemma_call_has_credentials(c: CallView, replies: Seq<ReplyView>)
    requires
        c.state is Finding,
        call_action(call_after(c, replies)) is Run,
    ensures
        call_file(c, replies) is Private,
{
    lemma_call_file(c, replies);
}

/// Whatever a transfer tells the interface of says which task it comes from: that it starts, and that
/// it is over. What `ossutil` prints in between does so too, by
/// [`lemma_output_is_tagged`](crate::stream::lemma_output_is_tagged).
pub proof fn lemma_told_events_are_tagged(t: TransferView)
    ensures
        transfer_action(t) matches ActionView::Tell(event) ==> event.task_id == Some(t.task_id),
{
}

/// Whether `ossutil` was started in the course of a transfer.
pub open spec fn was_started(t: TransferView, replies: Seq<ReplyView>) -> bool
    decreases replies.len(),
{
    if replies.len() == 0 {
        false
    } else {
        let before = replies.drop_last();
        was_started(t, before) || (transfer_action(transfer_after(t, before)) is Start
            && !(replies.last() is Failed))
    }
}

/// Whether an action tells the interface that a task is over.
pub open spec fn tells_end(action: ActionView) -> bool {
    action matches ActionView::Tell(event) && event.kind == "finished"@
}

/// How often the interface was told, in the course of a transfer, that the task is over.
pub open spec fn ends_told(t: TransferView, replies: Seq<ReplyView>) -> nat
    decreases replies.len(),
{
    if replies.len() == 0 {
        0
    } else {
        let before = replies.drop_last();
        ends_told(t, before) + if tells_end(transfer_action(transfer_after(t, before))) {
            1nat
        } else {
            0
        }
    }
}

proof fn lemma_ends_told(t: TransferView, replies: Seq<ReplyView>)
    requires
        t.state is Finding,
    ensures
        ({
            let state = transfer_after(t, replies).state;
            &&& was_started(t, replies) <==> (state is Listing || transfer_answer(state) == Some(
                Ok::<(), Seq<char>>(()),
            ))
            &&& ends_told(t, replies) == if state is Over {
                1nat
            } else {
                0
            }
        }),
    decreases replies.len(),
{
    if replies.len() > 0 {
        lemma_ends_told(t, replies.drop_last());
        reveal_strlit("log");
        reveal_strlit("finished");
        assert("log"@.len() != "finished"@.len());
    }
}

/// The interface always learns that a task is over, and learns it once: when nothing is left to be
/// done for a transfer whose `ossutil` was started, it was told exactly once; of any other transfer
/// it was told nothing of the kind.
pub proof fn lemma_end_is_told_once(t: TransferView, replies: Seq<ReplyView>)
    requires
        t.state is Finding,
        transfer_action(transfer_after(t, replies)) is Rest,
    ensures
        ends_told(t, replies) == if was_started(t, replies) {
            1nat
        } else {
            0
        },
{
    lemma_ends_told(t, replies);
}

/// Whoever asks for a transfer is answered that it runs exactly when `ossutil` was started, and is
/// told an error when it was not.
pub proof fn lemma_answer_is_true(t: TransferView, replies: Seq<ReplyView>)
    requires
        t.state is Finding,
    ensures
        transfer_answer(transfer_after(t, replies).state) matches Some(answer) ==> (answer is Ok
            <==> was_started(t, replies)),
{
    lemma_ends_told(t, replies);
}

/// How much is left to be done for a transfer, at most, but for the time that the task runs.
pub open spec fn transfer_steps_left(state: TransferStateView) -> nat {
    match state {
        TransferStateView::Finding => 11,
        TransferStateView::Making => 10,
        TransferStateView::MakingCheckpoints => 9,
        TransferStateView::Writing => 8,
        TransferStateView::Restricting => 7,
        TransferStateView::Announcing => 6,
        TransferStateView::Starting => 5,
        TransferStateView::Retreating(_) => 1,
        TransferStateView::Listing => 4,
        TransferStateView::Watching => 3,
        TransferStateView::Clearing(_) => 2,
        TransferStateView::Closing(_) => 1,
        TransferStateView::Failed(_) => 0,
        TransferStateView::Over => 0,
    }
}

/// A transfer comes to an end: whatever is done, and whatever comes of it, less is left to be done,
/// except while the task runs.
pub proof fn lemma_transfer_goes_on(state: TransferStateView, reply: ReplyView)
    requires
        !(state is Watching && !(reply is Ended)),
        transfer_steps_left(state) > 0,
    ensures
        transfer_steps_left(next_transfer_state(state, reply)) < transfer_steps_left(state),
{
}

/// The interface is told the very exit code that looking after the task came to: once a task that is
/// looked after is over with `code`, the file with the credentials is removed, whatever comes of that
/// the end is told with `code`, and nothing is left to be done then.
pub proof fn lemma_exit_code_is_told(
    t: TransferView,
    replies: Seq<ReplyView>,
    code: i32,
    removed: ReplyView,
    told: ReplyView,
)
    requires
        t.state is Finding,
        transfer_action(transfer_after(t, replies)) is Watch,
    ensures
        ({
            let ended = replies.push(ReplyView::Ended(code));
            let cleared = ended.push(removed);
            let closed = cleared.push(told);
            &&& transfer_action(transfer_after(t, ended)) is RemoveCredFile
            &&& transfer_action(transfer_after(t, cleared)) matches ActionView::Tell(event)
                && event.kind == "finished"@ && event.code == Some(code) && event.task_id == Some(
                t.task_id,
            )
            &&& transfer_action(transfer_after(t, closed)) is Rest
        }),
{
    let ended = replies.push(ReplyView::Ended(code));
    let cleared = ended.push(removed);
    let closed = cleared.push(told);
    assert(ended.drop_last() =~= replies);
    assert(cleared.drop_last() =~= ended);
    assert(closed.drop_last() =~= cleared);
    lemma_transfer_file(t, replies);
}

/// While a task runs, it is looked after again and again: nothing that is not its end changes that.
pub proof fn lemma_watching_goes_on(state: TransferStateView, reply: ReplyView)
    requires
        state is Watching,
    ensures
        !(reply is Ended) ==> next_transfer_state(state, reply) is Watching,
        reply matches ReplyView::Ended(code) ==> next_transfer_state(state, reply)
            == TransferStateView::Clearing(code),
{
}

/// The order in which a transfer goes where nothing fails: directories, credentials, announcement,
/// start, the list of tasks, and then the watch.
pub proof fn lemma_transfer_order(reply: ReplyView)
    requires
        !(reply is Failed),
    ensures
        next_transfer_state(TransferStateView::Finding, reply) is Making,
        next_transfer_state(TransferStateView::Making, reply) is MakingCheckpoints,
        next_transfer_state(TransferStateView::MakingCheckpoints, reply) is Writing,
        next_transfer_state(TransferStateView::Writing, reply) is Restricting,
        next_transfer_state(TransferStateView::Restricting, reply) is Announcing,
        next_transfer_state(TransferStateView::Announcing, reply) is Starting,
        next_transfer_state(TransferStateView::Starting, reply) is Listing,
        next_transfer_state(TransferStateView::Listing, reply) is Watching,
{
}

/// A transfer fails where a directory, the file with the credentials or the start fails, and only
/// there, and the interface is answered the reason: after the file is removed, where it was written.
pub proof fn lemma_transfer_failures(reason: Seq<char>, next: ReplyView, code: i32)
    ensures
        ({
            let failed = ReplyView::Failed(reason);
            let answer = |state: TransferStateView| transfer_answer(state);
            let refused = |text: Seq<char>| Some(Err::<(), Seq<char>>(text));
            &&& answer(next_transfer_state(TransferStateView::Finding, failed)) == refused(
                "无法定位配置目录: "@ + reason,
            )
            &&& answer(next_transfer_state(TransferStateView::Making, failed)) == refused(
                "无法创建配置目录: "@ + reason,
            )
            &&& answer(next_transfer_state(TransferStateView::MakingCheckpoints, failed))
                == refused(reason)
            &&& answer(next_transfer_state(TransferStateView::Writing, failed)) == refused(
                "无法写入临时凭证文件: "@ + reason,
            )
            &&& next_transfer_state(TransferStateView::Starting, failed) is Retreating
            &&& answer(
                next_transfer_state(next_transfer_state(TransferStateView::Starting, failed), next),
            ) == refused("无法启动 ossutil: "@ + reason)
            &&& next_transfer_state(TransferStateView::Restricting, failed) is Announcing
            &&& next_transfer_state(TransferStateView::Announcing, failed) is Starting
            &&& next_transfer_state(TransferStateView::Listing, failed) is Watching
            &&& next_transfer_state(TransferStateView::Watching, failed) is Watching
            &&& next_transfer_state(TransferStateView::Clearing(code), failed)
                == TransferStateView::Closing(code)
            &&& next_transfer_state(TransferStateView::Closing(code), failed) is Over
            &&& next_transfer_state(TransferStateView::Failed(reason), next)
                == TransferStateView::Failed(reason)
            &&& next_transfer_state(TransferStateView::Over, next) is Over
        }),
{
}

/// The interface is kept waiting until the transfer runs or has failed, and no longer.
pub proof fn lemma_transfer_is_answered(state: TransferStateView)
    ensures
        transfer_answer(state) is None <==> (state is Finding || state is Making
            || state is MakingCheckpoints || state is Writing || state is Restricting
            || state is Announcing || state is Starting || state is Retreating || state is Listing),
        state is Watching || state is Clearing || state is Closing || state is Over
            ==> transfer_answer(state) == Some(Ok::<(), Seq<char>>(())),
        state matches TransferStateView::Failed(e) ==> transfer_answer(state) == Some(
            Err::<(), Seq<char>>(e),
        ),
{
}

/// What is done in each step of a transfer, and with what: the credentials of the request go into a
/// file that is this command's own, the command line is that of the request from its source to its
/// target, and what is told names the task.
pub proof fn lemma_transfer_actions(t: TransferView)
    ensures
        t.state is Finding ==> transfer_action(t) is FindConfigDir,
        t.state is Making ==> transfer_action(t) is MakeConfigDir,
        t.state is MakingCheckpoints ==> transfer_action(t) is MakeCheckpointDir,
        t.state is Writing ==> transfer_action(t) == (ActionView::WriteCredFile {
            name: command::cred_file_text(t.pid as nat, t.seq as nat),
            body: command::cred_text(
                t.req.access_key_id,
                t.req.access_key_secret,
                t.req.endpoint,
            ),
        }),
        t.state is Restricting && t.unix ==> transfer_action(t) == ActionView::RestrictCredFile(
            Some(0o600u32),
        ),
        t.state is Restricting && !t.unix ==> transfer_action(t) == ActionView::RestrictCredFile(
            None,
        ),
        t.state is Announcing ==> (transfer_action(t) matches ActionView::Tell(e) && e.kind
            == "log"@ && e.task_id == Some(t.task_id) && e.line == Some(
            event::start_line(
                t.source,
                t.target,
                t.req.jobs,
                t.req.parallel,
                t.req.part_size_mb,
            ),
        )),
        t.state is Starting ==> transfer_action(t) == ActionView::Start(
            command::transfer_line(t.req, t.source, t.target, t.recursive),
        ),
        t.state is Retreating || t.state is Clearing ==> transfer_action(t) is RemoveCredFile,
        t.state is Listing ==> transfer_action(t) is List,
        t.state is Watching ==> transfer_action(t) is Watch,
        t.state matches TransferStateView::Closing(code) ==> (transfer_action(t) matches
            ActionView::Tell(e) && e.kind == "finished"@ && e.task_id == Some(t.task_id) && e.code
            == Some(code)),
        t.state is Failed || t.state is Over ==> transfer_action(t) is Rest,
{
}

/// The order in which a call goes, and what is done in each step: directory, credentials, the command,
/// and the removal of the credentials.
pub proof fn lemma_call_order(c: CallView, reply: ReplyView)
    ensures
        ({
            let next = next_call_state(c.state, reply, c.complaint);
            &&& c.state is Finding ==> call_action(c) is FindConfigDir && (!(reply is Failed)
                ==> next is Making)
            &&& c.state is Making ==> call_action(c) is MakeConfigDir && (!(reply is Failed)
                ==> next is Writing)
            &&& c.state is Writing ==> call_action(c) == (ActionView::WriteCredFile {
                name: command::cred_file_text(c.pid as nat, c.seq as nat),
                body: command::cred_text(c.access_key_id, c.access_key_secret, c.endpoint),
            }) && (!(reply is Failed) ==> next is Restricting)
            &&& c.state is Restricting && c.unix ==> call_action(c)
                == ActionView::RestrictCredFile(Some(0o600u32))
            &&& c.state is Restricting && !c.unix ==> call_action(c)
                == ActionView::RestrictCredFile(None)
            &&& c.state is Restricting ==> next is Running
            &&& c.state is Running ==> call_action(c) == ActionView::Run(c.args)
            &&& c.state is Clearing || c.state is Retreating ==> call_action(c) is RemoveCredFile
            &&& c.state is Over || c.state is Failed ==> call_action(c) is Rest && next == c.state
        }),
{
}

/// What a call comes to is what the command wrote, unchanged, whatever comes of removing the file; or
/// the reason for which something failed.
pub proof fn lemma_call_gives_what_was_written(
    output: OutputView,
    reason: Seq<char>,
    next: ReplyView,
    complaint: Seq<char>,
)
    ensures
        ({
            let failed = ReplyView::Failed(reason);
            let refused = |text: Seq<char>| Some(Err::<OutputView, Seq<char>>(text));
            let step = |state: CallStateView, reply: ReplyView|
                next_call_state(state, reply, complaint);
            let ran = step(CallStateView::Running, ReplyView::Ran(output));
            let stuck = step(CallStateView::Running, failed);
            &&& call_result(ran) is None
            &&& ran is Clearing
            &&& call_result(step(ran, next)) == Some(Ok::<OutputView, Seq<char>>(output))
            &&& call_result(stuck) is None
            &&& stuck is Retreating
            &&& call_result(step(stuck, next)) == refused(complaint + reason)
            &&& call_result(step(CallStateView::Finding, failed)) == refused(
                "无法定位配置目录: "@ + reason,
            )
            &&& call_result(step(CallStateView::Making, failed)) == refused(
                "无法创建配置目录: "@ + reason,
            )
            &&& call_result(step(CallStateView::Writing, failed)) == refused(
                "无法写入临时凭证文件: "@ + reason,
            )
            &&& !(next is Ran) && !(next is Failed) ==> step(CallStateView::Running, next) is Running
        }),
{
}

/// An action and a reply say what they hold.
pub proof fn lemma_steps_say_what_they_hold(action: Action, reply: Reply)
    ensures
        action matches Action::WriteCredFile { name, body } ==> action@
            == (ActionView::WriteCredFile { name: name@, body: body@ }),
        action matches Action::RestrictCredFile(mode) ==> action@ == ActionView::RestrictCredFile(
            mode,
        ),
        action matches Action::Tell(e) ==> action@ == ActionView::Tell(e@),
        action matches Action::Start(args) ==> action@ == ActionView::Start(
            command::args_view(args@),
        ),
        action matches Action::Run(args) ==> action@ == ActionView::Run(command::args_view(args@)),
        action is FindConfigDir <==> action@ is FindConfigDir,
        action is MakeConfigDir <==> action@ is MakeConfigDir,
        action is MakeCheckpointDir <==> action@ is MakeCheckpointDir,
        action is List <==> action@ is List,
        action is Watch <==> action@ is Watch,
        action is RemoveCredFile <==> action@ is RemoveCredFile,
        action is Rest <==> action@ is Rest,
        reply is Done <==> reply@ is Done,
        reply matches Reply::Failed(reason) ==> reply@ == ReplyView::Failed(reason@),
        reply matches Reply::Ended(code) ==> reply@ == ReplyView::Ended(code),
        reply matches Reply::Ran(output) ==> reply@ == ReplyView::Ran(output@),
{
}

/// An answer and a result say what they hold.
pub proof fn lemma_answers_say_what_they_hold(error: String, output: Output)
    ensures
        answer_view(Some(Ok(()))) == Some(Ok::<(), Seq<char>>(())),
        answer_view(Some(Err(error))) == Some(Err::<(), Seq<char>>(error@)),
        answer_view(None) is None,
        output_view(Some(Ok(output))) == Some(Ok::<OutputView, Seq<char>>(output@)),
        output_view(Some(Err(error))) == Some(Err::<OutputView, Seq<char>>(error@)),
        output_view(None) is None,
{
}

} // verus!
