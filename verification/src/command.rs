//! The command lines of `ossutil`, and the file that its credentials stand in.
use crate::number;
use crate::outside;
use crate::region;
use crate::request;
use crate::request::RequestView;
use crate::request::UploadRequest;
use crate::text;
use vstd::prelude::*;
use vstd::string::*;

verus! {

/// The name, in the directory of the settings, of the directory in which an interrupted transfer
/// leaves what is needed to go on.
pub const CHECKPOINT_DIR: &'static str = "checkpoints";

/// The name, in the directory of the settings, of the directory for reports of errors.
pub const OUTPUT_DIR: &'static str = "output";

/// An argument of `ossutil`. A path of this machine need not be text, so those stand for themselves.
#[derive(Debug, Clone)]
pub enum Arg {
    /// A text.
    Text(String),
    /// The path of the file with the credentials.
    CredFile,
    /// The path of the directory in which an interrupted transfer leaves what is needed to go on. It
    /// is the same for every transfer and every run of the program.
    CheckpointDir,
    /// The path of the directory for reports of errors.
    OutputDir,
}

/// What an [`Arg`] says.
#[verifier::ext_equal]
pub enum ArgView {
    Text(Seq<char>),
    CredFile,
    CheckpointDir,
    OutputDir,
}

impl View for Arg {
    type V = ArgView;

    open spec fn view(&self) -> ArgView {
        match *self {
            Arg::Text(text) => ArgView::Text(text@),
            Arg::CredFile => ArgView::CredFile,
            Arg::CheckpointDir => ArgView::CheckpointDir,
            Arg::OutputDir => ArgView::OutputDir,
        }
    }
}

/// What a list of arguments says.
pub open spec fn args_view(args: Seq<Arg>) -> Seq<ArgView> {
    args.map_values(|a: Arg| a@)
}

/// The arguments that texts are.
pub open spec fn text_args(list: Seq<Seq<char>>) -> Seq<ArgView> {
    list.map_values(|s: Seq<char>| ArgView::Text(s))
}

/// A copy of a list of arguments.
pub(crate) fn copy_args(args: &Vec<Arg>) -> (res: Vec<Arg>)
    ensures
        args_view(res@) == args_view(args@),
{
    let mut res: Vec<Arg> = Vec::new();
    let mut i: usize = 0;
    while i < args.len()
        invariant
            i <= args.len(),
            args_view(res@) == args_view(args@).take(i as int),
        decreases args.len() - i,
    {
        let arg = match &args[i] {
            Arg::Text(text) => Arg::Text(text.clone()),
            Arg::CredFile => Arg::CredFile,
            Arg::CheckpointDir => Arg::CheckpointDir,
            Arg::OutputDir => Arg::OutputDir,
        };
        push_arg(&mut res, arg);
        i = i + 1;
        assert(args_view(args@).take(i as int) =~= args_view(args@).take(i - 1).push(arg@));
    }
    assert(args_view(args@).take(i as int) =~= args_view(args@));
    res
}

/// Appends a text to a list of arguments.
fn push_text(args: &mut Vec<Arg>, text: &str)
    ensures
        args_view(final(args)@) == args_view(old(args)@).push(ArgView::Text(text@)),
{
    args.push(Arg::Text(text.to_owned()));
    assert(args_view(args@) =~= args_view(old(args)@).push(ArgView::Text(text@)));
}

/// Appends a number to a list of arguments.
fn push_number(args: &mut Vec<Arg>, n: u64)
    ensures
        args_view(final(args)@) == args_view(old(args)@).push(
            ArgView::Text(number::decimal(n as nat)),
        ),
{
    args.push(Arg::Text(number::decimal_text(n)));
    assert(args_view(args@) =~= args_view(old(args)@).push(
        ArgView::Text(number::decimal(n as nat)),
    ));
}

/// Appends an argument to a list.
fn push_arg(args: &mut Vec<Arg>, arg: Arg)
    ensures
        args_view(final(args)@) == args_view(old(args)@).push(arg@),
{
    args.push(arg);
    assert(args_view(args@) =~= args_view(old(args)@).push(arg@));
}

/// Appends texts to a list of arguments, from the one at `from` on.
fn push_texts(args: &mut Vec<Arg>, list: &Vec<String>, from: usize)
    requires
        from <= list.len(),
    ensures
        args_view(final(args)@) == args_view(old(args)@) + text_args(
            text::texts(list@).skip(from as int),
        ),
{
    let ghost before = args_view(args@);
    let ghost all = text::texts(list@);
    let mut i: usize = from;
    assert(all.subrange(from as int, from as int) =~= seq![]);
    assert(before + text_args(all.subrange(from as int, from as int)) =~= before);
    while i < list.len()
        invariant
            from <= i <= list.len(),
            all == text::texts(list@),
            args_view(args@) == before + text_args(all.subrange(from as int, i as int)),
        decreases list.len() - i,
    {
        push_text(args, list[i].as_str());
        i = i + 1;
        proof {
            assert(all.subrange(from as int, i as int) =~= all.subrange(from as int, i - 1).push(
                list@[i - 1]@,
            ));
            assert(text_args(all.subrange(from as int, i as int)) =~= text_args(
                all.subrange(from as int, i - 1),
            ).push(ArgView::Text(list@[i - 1]@)));
            assert(args_view(args@) =~= before + text_args(all.subrange(from as int, i as int)));
        }
    }
    assert(all.skip(from as int) =~= all.subrange(from as int, list.len() as int));
}

/// The arguments that every command carries: where the credentials are, and, where the endpoint
/// tells no region, that requests are signed in version 1, which needs none.
pub open spec fn auth_line(endpoint: Seq<char>) -> Seq<ArgView> {
    if region::region_of(endpoint) is None {
        seq![
            ArgView::Text("--config-file"@),
            ArgView::CredFile,
            ArgView::Text("--sign-version"@),
            ArgView::Text("v1"@),
        ]
    } else {
        seq![ArgView::Text("--config-file"@), ArgView::CredFile]
    }
}

/// Appends the arguments that every command carries.
pub fn add_auth_args(args: &mut Vec<Arg>, endpoint: &str)
    ensures
        args_view(final(args)@) == args_view(old(args)@) + auth_line(endpoint@),
{
    let ghost before = args_view(args@);
    push_text(args, "--config-file");
    push_arg(args, Arg::CredFile);
    if region::region_from_endpoint(endpoint).is_none() {
        push_text(args, "--sign-version");
        push_text(args, "v1");
    }
    assert(args_view(args@) =~= before + auth_line(endpoint@));
}

/// The command line of a call of the service: `api`, the operation, and its arguments.
pub open spec fn api_line(op: Seq<char>, args: Seq<Seq<char>>, endpoint: Seq<char>) -> Seq<ArgView> {
    seq![ArgView::Text("api"@), ArgView::Text(op)] + auth_line(endpoint) + text_args(args) + seq![
        ArgView::Text("--output-format"@),
        ArgView::Text("json"@),
    ]
}

/// The command line of a call of the service. One command covers every operation: to browse, delete
/// or rename is to name another one.
pub fn api_args(op: &str, args: &Vec<String>, endpoint: &str) -> (res: Vec<Arg>)
    ensures
        args_view(res@) == api_line(op@, text::texts(args@), endpoint@),
{
    let mut res: Vec<Arg> = Vec::new();
    push_text(&mut res, "api");
    push_text(&mut res, op);
    add_auth_args(&mut res, endpoint);
    push_texts(&mut res, args, 0);
    push_text(&mut res, "--output-format");
    push_text(&mut res, "json");
    proof {
        let all = text::texts(args@);
        assert(all.skip(0) =~= all);
        assert(args_view(res@) =~= api_line(op@, all, endpoint@));
    }
    res
}

/// The command line of a subcommand. The arguments that every command carries stand right behind its
/// name, so that its own stay together in their order.
pub open spec fn run_line(args: Seq<Seq<char>>, endpoint: Seq<char>) -> Seq<ArgView> {
    seq![ArgView::Text(args[0])] + auth_line(endpoint) + text_args(args.skip(1))
}

/// The command line of a subcommand, which the first of `args` names.
pub fn run_args(args: &Vec<String>, endpoint: &str) -> (res: Result<Vec<Arg>, String>)
    ensures
        res is Ok <==> args.len() > 0,
        res matches Ok(line) ==> args_view(line@) == run_line(text::texts(args@), endpoint@),
        res matches Err(e) ==> e@ == "没有指定 ossutil 子命令"@,
{
    if args.len() == 0 {
        return Err("没有指定 ossutil 子命令".to_owned());
    }
    let mut res: Vec<Arg> = Vec::new();
    push_text(&mut res, args[0].as_str());
    add_auth_args(&mut res, endpoint);
    push_texts(&mut res, args, 1);
    assert(args_view(res@) =~= run_line(text::texts(args@), endpoint@));
    Ok(res)
}

/// `n`, or 1 where it is zero.
pub open spec fn at_least_one(n: nat) -> nat {
    if n == 0 {
        1
    } else {
        n
    }
}

/// The size of a part in bytes.
pub open spec fn part_bytes(part_size_mb: u64) -> nat {
    at_least_one(part_size_mb as nat) * 1024 * 1024
}

/// The start of the command line of a transfer. What is up to date already is skipped (`-u`), and
/// nothing is asked (`-f`). Only a directory is copied with `-r`: for a single file `ossutil` refuses
/// it.
pub open spec fn copy_line(recursive: bool) -> Seq<ArgView> {
    if recursive {
        seq![
            ArgView::Text("cp"@),
            ArgView::Text("-r"@),
            ArgView::Text("-u"@),
            ArgView::Text("-f"@),
        ]
    } else {
        seq![ArgView::Text("cp"@), ArgView::Text("-u"@), ArgView::Text("-f"@)]
    }
}

/// The directories that a transfer works with, how much of it goes on at a time, and what is copied
/// to where.
pub open spec fn option_line(req: RequestView, source: Seq<char>, target: Seq<char>) -> Seq<
    ArgView,
> {
    seq![
        ArgView::Text("--checkpoint-dir"@),
        ArgView::CheckpointDir,
        ArgView::Text("--output-dir"@),
        ArgView::OutputDir,
        ArgView::Text("-j"@),
        ArgView::Text(number::decimal(at_least_one(req.jobs as nat))),
        ArgView::Text("--parallel"@),
        ArgView::Text(number::decimal(at_least_one(req.parallel as nat))),
        ArgView::Text("--part-size"@),
        ArgView::Text(number::decimal(part_bytes(req.part_size_mb))),
        ArgView::Text(source),
        ArgView::Text(target),
    ]
}

/// The credentials on the command line, where the user wants them there.
pub open spec fn key_line(req: RequestView) -> Seq<ArgView> {
    if req.cli_creds {
        seq![
            ArgView::Text("-i"@),
            ArgView::Text(text::trimmed(req.access_key_id)),
            ArgView::Text("-k"@),
            ArgView::Text(req.access_key_secret),
            ArgView::Text("-e"@),
            ArgView::Text(text::trimmed(req.endpoint)),
        ]
    } else {
        seq![]
    }
}

/// The command line of a transfer.
pub open spec fn transfer_line(
    req: RequestView,
    source: Seq<char>,
    target: Seq<char>,
    recursive: bool,
) -> Seq<ArgView> {
    copy_line(recursive) + auth_line(req.endpoint) + option_line(req, source, target) + key_line(
        req,
    )
}

fn push_options(args: &mut Vec<Arg>, req: &UploadRequest, source: &str, target: &str)
    requires
        part_bytes(req.part_size_mb) <= u64::MAX,
    ensures
        args_view(final(args)@) == args_view(old(args)@) + option_line(req@, source@, target@),
{
    let jobs: u32 = if req.jobs == 0 {
        1
    } else {
        req.jobs
    };
    let parallel: u32 = if req.parallel == 0 {
        1
    } else {
        req.parallel
    };
    let part_size_mb: u64 = if req.part_size_mb == 0 {
        1
    } else {
        req.part_size_mb
    };
    let ghost before = args_view(args@);
    push_text(args, "--checkpoint-dir");
    push_arg(args, Arg::CheckpointDir);
    push_text(args, "--output-dir");
    push_arg(args, Arg::OutputDir);
    push_text(args, "-j");
    push_number(args, jobs as u64);
    push_text(args, "--parallel");
    push_number(args, parallel as u64);
    push_text(args, "--part-size");
    push_number(args, part_size_mb * 1024 * 1024);
    push_text(args, source);
    push_text(args, target);
    assert(args_view(args@) =~= before + option_line(req@, source@, target@));
}

fn push_keys(args: &mut Vec<Arg>, req: &UploadRequest)
    ensures
        args_view(final(args)@) == args_view(old(args)@) + key_line(req@),
{
    let ghost before = args_view(args@);
    if req.cli_creds {
        push_text(args, "-i");
        push_text(args, text::trim(req.access_key_id.as_str()));
        push_text(args, "-k");
        push_text(args, req.access_key_secret.as_str());
        push_text(args, "-e");
        push_text(args, text::trim(req.endpoint.as_str()));
    }
    assert(args_view(args@) =~= before + key_line(req@));
}

/// The command line of a transfer from `source` to `target`, up or down.
pub fn transfer_args(
    req: &UploadRequest,
    source: &str,
    target: &str,
    recursive: bool,
) -> (res: Vec<Arg>)
    requires
        part_bytes(req.part_size_mb) <= u64::MAX,
    ensures
        args_view(res@) == transfer_line(req@, source@, target@, recursive),
{
    let mut res: Vec<Arg> = Vec::new();
    push_text(&mut res, "cp");
    if recursive {
        push_text(&mut res, "-r");
    }
    push_text(&mut res, "-u");
    push_text(&mut res, "-f");
    assert(args_view(res@) =~= copy_line(recursive));
    add_auth_args(&mut res, req.endpoint.as_str());
    push_options(&mut res, req, source, target);
    push_keys(&mut res, req);
    res
}

/// The command line that lists what lies at the address of a request.
pub open spec fn list_line(req: RequestView) -> Seq<ArgView> {
    seq![ArgView::Text("ls"@), ArgView::Text("--short-format"@)] + auth_line(req.endpoint) + seq![
        ArgView::Text(request::address(req.bucket, req.prefix)),
    ]
}

/// The command line that lists what lies at the address of a request.
pub fn list_args(req: &UploadRequest) -> (res: Vec<Arg>)
    ensures
        args_view(res@) == list_line(req@),
{
    let mut res: Vec<Arg> = Vec::new();
    push_text(&mut res, "ls");
    push_text(&mut res, "--short-format");
    add_auth_args(&mut res, req.endpoint.as_str());
    push_text(&mut res, req.target().as_str());
    assert(args_view(res@) =~= list_line(req@));
    res
}

/// The text of a file with credentials: the profile, the key and its secret, the endpoint where
/// there is one, and the region where the endpoint tells it.
pub open spec fn cred_text(ak: Seq<char>, sk: Seq<char>, endpoint: Seq<char>) -> Seq<char> {
    "[default]\nlanguage=CH\naccessKeyID="@ + text::trimmed(ak) + "\naccessKeySecret="@ + sk
        + "\n"@ + (if text::trimmed(endpoint).len() == 0 {
        seq![]
    } else {
        "endpoint="@ + text::trimmed(endpoint) + "\n"@
    }) + (match region::region_of(endpoint) {
        Some(name) => "region="@ + name + "\n"@,
        None => seq![],
    })
}

/// The text of a file with credentials.
pub fn cred_file_body(ak: &str, sk: &str, endpoint: &str) -> (body: String)
    ensures
        body@ == cred_text(ak@, sk@, endpoint@),
{
    let trimmed = text::trim(endpoint);
    let mut body = String::new();
    body.append("[default]\nlanguage=CH\naccessKeyID=");
    body.append(text::trim(ak));
    body.append("\naccessKeySecret=");
    body.append(sk);
    body.append("\n");
    if !trimmed.is_empty() {
        body.append("endpoint=");
        body.append(trimmed);
        body.append("\n");
    }
    proof {
        region::lemma_region_ignores_margin(endpoint@);
    }
    if let Some(name) = region::region_from_endpoint(trimmed) {
        body.append("region=");
        body.append(name.as_str());
        body.append("\n");
        assert(region::region_of(endpoint@) == Some(name@));
    }
    assert(body@ =~= cred_text(ak@, sk@, endpoint@));
    body
}

/// What tells the files with credentials of one machine apart.
pub open spec fn tag_text(pid: nat, seq: nat) -> Seq<char> {
    number::decimal(pid) + "-"@ + number::decimal(seq)
}

/// The name of a file with credentials.
pub open spec fn cred_file_text(pid: nat, seq: nat) -> Seq<char> {
    "session-"@ + tag_text(pid, seq) + ".ossutilconfig"@
}

/// What tells a file with credentials apart: the process, and how many such files it made before.
/// Commands run side by side, and each removes its own file when it is done.
pub fn cred_tag(pid: u32, seq: u64) -> (tag: String)
    ensures
        tag@ == tag_text(pid as nat, seq as nat),
{
    let mut tag = number::decimal_text(pid as u64);
    tag.append("-");
    number::push_decimal(&mut tag, seq);
    tag
}

/// The name of a file with credentials.
pub fn cred_file_name(pid: u32, seq: u64) -> (name: String)
    ensures
        name@ == cred_file_text(pid as nat, seq as nat),
{
    let mut name = String::new();
    name.append("session-");
    name.append(cred_tag(pid, seq).as_str());
    name.append(".ossutilconfig");
    assert(name@ =~= cred_file_text(pid as nat, seq as nat));
    name
}

/// A transfer starts with its flags: only a directory is copied with `-r`, and what is up to date
/// already is always skipped.
pub proof fn lemma_copy_flags(
    req: RequestView,
    source: Seq<char>,
    target: Seq<char>,
    recursive: bool,
)
    ensures
        copy_line(recursive).is_prefix_of(transfer_line(req, source, target, recursive)),
        copy_line(recursive).contains(ArgView::Text("-r"@)) <==> recursive,
        copy_line(recursive).contains(ArgView::Text("-u"@)),
{
    reveal_strlit("cp");
    reveal_strlit("-r");
    reveal_strlit("-u");
    reveal_strlit("-f");
    let line = copy_line(recursive);
    let whole = transfer_line(req, source, target, recursive);
    assert(whole.subrange(0, line.len() as int) =~= line);
    if recursive {
        assert(line[1] == ArgView::Text("-r"@));
        assert(line[2] == ArgView::Text("-u"@));
    } else {
        assert(line[1] == ArgView::Text("-u"@));
        assert("cp"@[0] != "-r"@[0]);
        assert("-u"@[1] != "-r"@[1]);
        assert("-f"@[1] != "-r"@[1]);
    }
}

/// Every transfer works with the same directory for what is needed to go on after an interruption,
/// whatever is asked for: so a transfer that is asked for again goes on.
pub proof fn lemma_checkpoints_are_fixed(
    req: RequestView,
    source: Seq<char>,
    target: Seq<char>,
    recursive: bool,
)
    ensures
        ({
            let line = transfer_line(req, source, target, recursive);
            let at = copy_line(recursive).len() as int + auth_line(req.endpoint).len();
            &&& line[at] == ArgView::Text("--checkpoint-dir"@)
            &&& line[at + 1] == ArgView::CheckpointDir
        }),
{
    let front = copy_line(recursive) + auth_line(req.endpoint);
    let line = transfer_line(req, source, target, recursive);
    let at = front.len() as int;
    assert(line[at] == option_line(req, source, target)[0]);
    assert(line[at + 1] == option_line(req, source, target)[1]);
}

/// Unless the user wants it otherwise, no credentials stand on a command line: that of a transfer is
/// the same whatever the key and its secret are.
pub proof fn lemma_transfer_hides_credentials(
    req: RequestView,
    ak: Seq<char>,
    sk: Seq<char>,
    source: Seq<char>,
    target: Seq<char>,
    recursive: bool,
)
    requires
        !req.cli_creds,
    ensures
        transfer_line(
            RequestView { access_key_id: ak, access_key_secret: sk, ..req },
            source,
            target,
            recursive,
        ) == transfer_line(req, source, target, recursive),
{
}

/// No credentials stand on the command line of a listing: it is the same whatever the key and its
/// secret are.
pub proof fn lemma_listing_hides_credentials(req: RequestView, ak: Seq<char>, sk: Seq<char>)
    ensures
        list_line(RequestView { access_key_id: ak, access_key_secret: sk, ..req }) == list_line(
            req,
        ),
{
}

/// A file with credentials names a region exactly where the command line does not ask for version 1
/// signing: the file and the command agree.
pub proof fn lemma_file_and_command_agree(ak: Seq<char>, sk: Seq<char>, endpoint: Seq<char>)
    ensures
        region::region_of(endpoint) is None <==> auth_line(endpoint).contains(
            ArgView::Text("--sign-version"@),
        ),
        region::region_of(endpoint) matches Some(name) ==> ("region="@ + name
            + "\n"@).is_suffix_of(cred_text(ak, sk, endpoint)),
        region::region_of(endpoint) is None ==> cred_text(ak, sk, endpoint)
            == "[default]\nlanguage=CH\naccessKeyID="@ + text::trimmed(ak)
            + "\naccessKeySecret="@ + sk + "\n"@ + (if text::trimmed(endpoint).len() == 0 {
            seq![]
        } else {
            "endpoint="@ + text::trimmed(endpoint) + "\n"@
        }),
{
    let line = auth_line(endpoint);
    if region::region_of(endpoint) is None {
        assert(line[2] == ArgView::Text("--sign-version"@));
    } else {
        reveal_strlit("--config-file");
        reveal_strlit("--sign-version");
        assert("--config-file"@.len() != "--sign-version"@.len());
        let name = region::region_of(endpoint)->0;
        let tail = "region="@ + name + "\n"@;
        let body = cred_text(ak, sk, endpoint);
        assert(body.subrange(body.len() - tail.len(), body.len() as int) =~= tail);
    }
}

/// White space round an endpoint does not matter for what every command carries.
pub proof fn lemma_auth_ignores_margin(endpoint: Seq<char>)
    ensures
        auth_line(text::trimmed(endpoint)) == auth_line(endpoint),
{
    region::lemma_region_ignores_margin(endpoint);
}

/// No two files with credentials have the same name: another process or another count gives another
/// name.
pub proof fn lemma_cred_files_differ(pid1: nat, seq1: nat, pid2: nat, seq2: nat)
    requires
        cred_file_text(pid1, seq1) == cred_file_text(pid2, seq2),
    ensures
        pid1 == pid2,
        seq1 == seq2,
{
    reveal_strlit("session-");
    reveal_strlit(".ossutilconfig");
    let name1 = cred_file_text(pid1, seq1);
    let name2 = cred_file_text(pid2, seq2);
    let tag1 = tag_text(pid1, seq1);
    let tag2 = tag_text(pid2, seq2);
    assert(name1.subrange(8, name1.len() - 14) =~= tag1);
    assert(name2.subrange(8, name2.len() - 14) =~= tag2);
    lemma_tags_differ(pid1, seq1, pid2, seq2);
}

proof fn lemma_tags_differ(pid1: nat, seq1: nat, pid2: nat, seq2: nat)
    requires
        tag_text(pid1, seq1) == tag_text(pid2, seq2),
    ensures
        pid1 == pid2,
        seq1 == seq2,
{
    reveal_strlit("-");
    number::lemma_decimal_digits(pid1);
    number::lemma_decimal_digits(pid2);
    let tag = tag_text(pid1, seq1);
    let n1 = number::decimal(pid1).len() as int;
    let n2 = number::decimal(pid2).len() as int;
    assert(tag[n1] == '-');
    assert(tag_text(pid2, seq2)[n2] == '-');
    if n1 < n2 {
        assert(tag_text(pid2, seq2)[n1] == number::decimal(pid2)[n1]);
    } else if n2 < n1 {
        assert(tag[n2] == number::decimal(pid1)[n2]);
    }
    assert(tag.take(n1) =~= number::decimal(pid1));
    assert(tag_text(pid2, seq2).take(n2) =~= number::decimal(pid2));
    assert(tag.skip(n1 + 1) =~= number::decimal(seq1));
    assert(tag_text(pid2, seq2).skip(n2 + 1) =~= number::decimal(seq2));
    number::lemma_decimal_injective(pid1, pid2);
    number::lemma_decimal_injective(seq1, seq2);
}

/// Every command names the file with the credentials, and asks for version 1 signing where the
/// endpoint tells no region, and only there.
pub proof fn lemma_auth_names_the_file(endpoint: Seq<char>)
    ensures
        auth_line(endpoint)[0] == ArgView::Text("--config-file"@),
        auth_line(endpoint)[1] == ArgView::CredFile,
        region::region_of(endpoint) is Some ==> auth_line(endpoint).len() == 2,
        region::region_of(endpoint) is None ==> auth_line(endpoint).len() == 4
            && auth_line(endpoint)[2] == ArgView::Text("--sign-version"@) && auth_line(endpoint)[3]
            == ArgView::Text("v1"@),
{
}

/// On the command line of a call of the service, all arguments of the caller stand unchanged and in
/// their order, however many there are: behind `api`, the operation and what every command carries,
/// and before the two that ask for JSON. Nothing else stands there.
pub proof fn lemma_call_keeps_its_arguments(
    op: Seq<char>,
    args: Seq<Seq<char>>,
    endpoint: Seq<char>,
)
    ensures
        ({
            let line = api_line(op, args, endpoint);
            let at = 2 + auth_line(endpoint).len() as int;
            &&& line.len() == at + args.len() + 2
            &&& line[0] == ArgView::Text("api"@)
            &&& line[1] == ArgView::Text(op)
            &&& line.subrange(2, at) == auth_line(endpoint)
            &&& forall|i: int|
                0 <= i < args.len() ==> line[at + i] == ArgView::Text(#[trigger] args[i])
            &&& line[at + args.len()] == ArgView::Text("--output-format"@)
            &&& line[at + args.len() + 1] == ArgView::Text("json"@)
        }),
{
    let line = api_line(op, args, endpoint);
    let at = 2 + auth_line(endpoint).len() as int;
    assert(line.subrange(2, at) =~= auth_line(endpoint));
    assert forall|i: int| 0 <= i < args.len() implies line[at + i] == ArgView::Text(
        #[trigger] args[i],
    ) by {
        assert(text_args(args)[i] == ArgView::Text(args[i]));
    }
}

/// On the command line of a subcommand, its name comes first, then what every command carries, and
/// then all its other arguments, unchanged and in their order.
pub proof fn lemma_subcommand_keeps_its_arguments(args: Seq<Seq<char>>, endpoint: Seq<char>)
    requires
        args.len() > 0,
    ensures
        ({
            let line = run_line(args, endpoint);
            let n = auth_line(endpoint).len() as int;
            &&& line.len() == args.len() + n
            &&& line[0] == ArgView::Text(args[0])
            &&& line.subrange(1, 1 + n) == auth_line(endpoint)
            &&& forall|i: int|
                0 < i < args.len() ==> line[n + i] == ArgView::Text(#[trigger] args[i])
        }),
{
    let line = run_line(args, endpoint);
    let n = auth_line(endpoint).len() as int;
    assert(line.subrange(1, 1 + n) =~= auth_line(endpoint));
    assert forall|i: int| 0 < i < args.len() implies line[n + i] == ArgView::Text(
        #[trigger] args[i],
    ) by {
        assert(args.skip(1)[i - 1] == args[i]);
        assert(text_args(args.skip(1))[i - 1] == ArgView::Text(args[i]));
    }
}

/// A listing is asked for in short form, at the address of the request and nowhere else.
pub proof fn lemma_listing_names_the_address(req: RequestView)
    ensures
        ({
            let line = list_line(req);
            let n = auth_line(req.endpoint).len() as int;
            &&& line.len() == n + 3
            &&& line[0] == ArgView::Text("ls"@)
            &&& line[1] == ArgView::Text("--short-format"@)
            &&& line.subrange(2, 2 + n) == auth_line(req.endpoint)
            &&& line.last() == ArgView::Text(request::address(req.bucket, req.prefix))
        }),
{
    let line = list_line(req);
    let n = auth_line(req.endpoint).len() as int;
    assert(line.subrange(2, 2 + n) =~= auth_line(req.endpoint));
}

/// A transfer copies from the source to the target, and not the other way: on its command line the
/// source and then the target stand right behind the size of a part, whatever the request, and
/// nothing but credentials, where the user wants them there, comes after.
pub proof fn lemma_transfer_goes_from_source_to_target(
    req: RequestView,
    source: Seq<char>,
    target: Seq<char>,
    recursive: bool,
)
    ensures
        ({
            let line = transfer_line(req, source, target, recursive);
            let at = auth_line(req.endpoint).len() + if recursive {
                4int
            } else {
                3
            };
            &&& line[at + 8] == ArgView::Text("--part-size"@)
            &&& line[at + 10] == ArgView::Text(source)
            &&& line[at + 11] == ArgView::Text(target)
            &&& line.len() == at + 12 + if req.cli_creds {
                6int
            } else {
                0
            }
        }),
{
    let line = transfer_line(req, source, target, recursive);
    let front = copy_line(recursive) + auth_line(req.endpoint);
    let options = option_line(req, source, target);
    let at = auth_line(req.endpoint).len() + if recursive {
        4int
    } else {
        3
    };
    assert(front.len() == at);
    assert(options.len() == 12);
    assert forall|i: int| 0 <= i < 12 implies line[at + i] == #[trigger] options[i] by {
        assert((front + options)[at + i] == options[i]);
    }
    assert(line[at + 8] == options[8]);
    assert(line[at + 10] == options[10]);
    assert(line[at + 11] == options[11]);
}

/// To exchange the ends of a transfer exchanges the two last arguments of its command line, credentials
/// aside, and changes nothing else: a download is an upload with its ends exchanged.
pub proof fn lemma_download_is_upload_reversed(
    req: RequestView,
    source: Seq<char>,
    target: Seq<char>,
    recursive: bool,
)
    ensures
        ({
            let line = transfer_line(req, source, target, recursive);
            let at = auth_line(req.endpoint).len() + if recursive {
                4int
            } else {
                3
            };
            transfer_line(req, target, source, recursive) == line.update(at + 10, line[at + 11]).update(
                at + 11,
                line[at + 10],
            )
        }),
{
    let line = transfer_line(req, source, target, recursive);
    let back = transfer_line(req, target, source, recursive);
    let at = auth_line(req.endpoint).len() + if recursive {
        4int
    } else {
        3
    };
    lemma_transfer_goes_from_source_to_target(req, source, target, recursive);
    lemma_transfer_goes_from_source_to_target(req, target, source, recursive);
    let front = copy_line(recursive) + auth_line(req.endpoint);
    assert(front.len() == at);
    let want = line.update(at + 10, line[at + 11]).update(at + 11, line[at + 10]);
    assert(back.len() == want.len());
    assert forall|i: int| 0 <= i < back.len() implies back[i] == want[i] by {
        if i < at {
            assert(back[i] == front[i] && line[i] == front[i]);
        } else if i < at + 12 {
            assert(back[i] == option_line(req, target, source)[i - at]);
            assert(line[i] == option_line(req, source, target)[i - at]);
        } else {
            assert(back[i] == key_line(req)[i - at - 12]);
            assert(line[i] == key_line(req)[i - at - 12]);
        }
    }
    assert(back =~= want);
}

/// A transfer has the flags, directories and amounts that were asked for, each behind the name of its
/// option: amounts are written in digits, with 1 for zero, and the size of a part in bytes.
pub proof fn lemma_transfer_options(
    req: RequestView,
    source: Seq<char>,
    target: Seq<char>,
    recursive: bool,
)
    ensures
        ({
            let line = transfer_line(req, source, target, recursive);
            let at = auth_line(req.endpoint).len() + if recursive {
                4int
            } else {
                3
            };
            let n = auth_line(req.endpoint).len() as int;
            let amount = |i: int, asked: int, each: int|
                line[i] matches ArgView::Text(t) && number::is_digits(t) && number::decimal_value(t)
                    == (if asked == 0 {
                    1
                } else {
                    asked
                }) * each;
            &&& line[0] == ArgView::Text("cp"@)
            &&& recursive ==> line[1] == ArgView::Text("-r"@)
            &&& line[at - n - 2] == ArgView::Text("-u"@)
            &&& line[at - n - 1] == ArgView::Text("-f"@)
            &&& line.subrange(at - n, at) == auth_line(req.endpoint)
            &&& line[at] == ArgView::Text("--checkpoint-dir"@)
            &&& line[at + 1] == ArgView::CheckpointDir
            &&& line[at + 2] == ArgView::Text("--output-dir"@)
            &&& line[at + 3] == ArgView::OutputDir
            &&& line[at + 4] == ArgView::Text("-j"@)
            &&& amount(at + 5, req.jobs as int, 1)
            &&& line[at + 6] == ArgView::Text("--parallel"@)
            &&& amount(at + 7, req.parallel as int, 1)
            &&& line[at + 8] == ArgView::Text("--part-size"@)
            &&& amount(at + 9, req.part_size_mb as int, 0x10_0000)
        }),
{
    let line = transfer_line(req, source, target, recursive);
    let front = copy_line(recursive) + auth_line(req.endpoint);
    let options = option_line(req, source, target);
    let at = auth_line(req.endpoint).len() + if recursive {
        4int
    } else {
        3
    };
    let n = auth_line(req.endpoint).len() as int;
    assert(front.len() == at);
    assert(options.len() == 12);
    assert forall|i: int| 0 <= i < 12 implies line[at + i] == #[trigger] options[i] by {
        assert((front + options)[at + i] == options[i]);
    }
    assert(line.subrange(at - n, at) =~= auth_line(req.endpoint));
    assert(options[0] == line[at] && options[1] == line[at + 1] && options[2] == line[at + 2]);
    assert(options[3] == line[at + 3] && options[4] == line[at + 4] && options[5] == line[at + 5]);
    assert(options[6] == line[at + 6] && options[7] == line[at + 7] && options[8] == line[at + 8]);
    assert(options[9] == line[at + 9]);
    number::lemma_decimal_value(at_least_one(req.jobs as nat));
    number::lemma_decimal_value(at_least_one(req.parallel as nat));
    number::lemma_decimal_value(part_bytes(req.part_size_mb));
}

/// Where the user wants the credentials on the command line, they stand at its end: the key without
/// white space round it, the secret as it is, and the endpoint without white space round it.
pub proof fn lemma_keys_stand_at_the_end(
    req: RequestView,
    source: Seq<char>,
    target: Seq<char>,
    recursive: bool,
)
    requires
        req.cli_creds,
    ensures
        ({
            let line = transfer_line(req, source, target, recursive);
            let end = line.len() as int;
            &&& line[end - 6] == ArgView::Text("-i"@)
            &&& line[end - 5] == ArgView::Text(text::trimmed(req.access_key_id))
            &&& line[end - 4] == ArgView::Text("-k"@)
            &&& line[end - 3] == ArgView::Text(req.access_key_secret)
            &&& line[end - 2] == ArgView::Text("-e"@)
            &&& line[end - 1] == ArgView::Text(text::trimmed(req.endpoint))
        }),
{
}

/// A file with credentials holds the profile, the language, the key and the secret, each on a line of
/// its own, then the endpoint where there is one, and then the region where the endpoint tells it.
pub proof fn lemma_cred_file_lines(ak: Seq<char>, sk: Seq<char>, endpoint: Seq<char>)
    requires
        forall|i: int| 0 <= i < ak.len() ==> #[trigger] ak[i] != '\n',
        forall|i: int| 0 <= i < sk.len() ==> #[trigger] sk[i] != '\n' && sk[i] != '\r',
        forall|i: int| 0 <= i < endpoint.len() ==> #[trigger] endpoint[i] != '\n',
    ensures
        text::lines(cred_text(ak, sk, endpoint)) == seq![
            "[default]"@,
            "language=CH"@,
            "accessKeyID="@ + text::trimmed(ak),
            "accessKeySecret="@ + sk,
        ] + (if text::trimmed(endpoint).len() == 0 {
            seq![]
        } else {
            seq!["endpoint="@ + text::trimmed(endpoint)]
        }) + (match region::region_of(endpoint) {
            Some(name) => seq!["region="@ + name],
            None => seq![],
        }),
{
    reveal_strlit("[default]\nlanguage=CH\naccessKeyID=");
    reveal_strlit("[default]");
    reveal_strlit("language=CH");
    reveal_strlit("accessKeyID=");
    reveal_strlit("\naccessKeySecret=");
    reveal_strlit("accessKeySecret=");
    reveal_strlit("endpoint=");
    reveal_strlit("region=");
    reveal_strlit("\n");
    text::lemma_trimmed_part(ak);
    text::lemma_trimmed_part(endpoint);
    let feed = seq!['\n'];
    let key = "accessKeyID="@ + text::trimmed(ak);
    let secret = "accessKeySecret="@ + sk;
    let place = "endpoint="@ + text::trimmed(endpoint);
    let none = Seq::<char>::empty();
    let last = match region::region_of(endpoint) {
        Some(name) => "region="@ + name + feed + none,
        None => none,
    };
    let middle = if text::trimmed(endpoint).len() == 0 {
        last
    } else {
        place + feed + last
    };
    let from_secret = secret + feed + middle;
    let from_key = key + feed + from_secret;
    let from_language = "language=CH"@ + feed + from_key;
    let whole = "[default]"@ + feed + from_language;
    assert(cred_text(ak, sk, endpoint) =~= whole);
    assert forall|i: int| 0 <= i < key.len() implies #[trigger] key[i] != '\n' by {
        if i >= 12 {
            assert(key[i] == text::trimmed(ak)[i - 12]);
        }
    }
    assert forall|i: int| 0 <= i < secret.len() implies #[trigger] secret[i] != '\n' && secret[i]
        != '\r' by {
        if i >= 16 {
            assert(secret[i] == sk[i - 16]);
        }
    }
    assert forall|i: int| 0 <= i < place.len() implies #[trigger] place[i] != '\n' by {
        if i >= 9 {
            assert(place[i] == text::trimmed(endpoint)[i - 9]);
        }
    }
    text::lemma_lines_are_cut_at_line_feeds("[default]"@, from_language);
    text::lemma_lines_are_cut_at_line_feeds("language=CH"@, from_key);
    text::lemma_lines_are_cut_at_line_feeds(key, from_secret);
    text::lemma_lines_are_cut_at_line_feeds(secret, middle);
    assert(!text::is_white(key.last())) by {
        if text::trimmed(ak).len() > 0 {
            assert(key.last() == text::trimmed(ak).last());
        }
    }
    if text::trimmed(endpoint).len() > 0 {
        assert(place.last() == text::trimmed(endpoint).last());
        text::lemma_lines_are_cut_at_line_feeds(place, last);
    }
    if let Some(name) = region::region_of(endpoint) {
        region::lemma_region_is_plain(endpoint);
        let line = "region="@ + name;
        assert forall|i: int| 0 <= i < line.len() implies #[trigger] line[i] != '\n' && line[i]
            != '\r' by {
            if i >= 7 {
                assert(line[i] == name[i - 7]);
            }
        }
        text::lemma_lines_are_cut_at_line_feeds(line, none);
    }
    assert(text::lines(cred_text(ak, sk, endpoint)) =~= seq![
        "[default]"@,
        "language=CH"@,
        key,
        secret,
    ] + (if text::trimmed(endpoint).len() == 0 {
        seq![]
    } else {
        seq![place]
    }) + (match region::region_of(endpoint) {
        Some(name) => seq!["region="@ + name],
        None => seq![],
    }));
}

/// The name of a file with credentials holds the number of the process and that of the file, in digits
/// and in this order.
pub proof fn lemma_cred_file_is_numbered(pid: nat, seq: nat)
    ensures
        cred_file_text(pid, seq) == "session-"@ + number::decimal(pid) + "-"@ + number::decimal(seq)
            + ".ossutilconfig"@,
        tag_text(pid, seq) == number::decimal(pid) + "-"@ + number::decimal(seq),
{
    assert(cred_file_text(pid, seq) =~= "session-"@ + number::decimal(pid) + "-"@ + number::decimal(
        seq,
    ) + ".ossutilconfig"@);
}

/// Arguments keep their number and their order, and each says what it holds.
pub proof fn lemma_args_say_what_they_hold(args: Seq<Arg>, i: int)
    requires
        0 <= i < args.len(),
    ensures
        args_view(args).len() == args.len(),
        args[i] matches Arg::Text(text) ==> args_view(args)[i] == ArgView::Text(text@),
        args[i] is CredFile <==> args_view(args)[i] is CredFile,
        args[i] is CheckpointDir <==> args_view(args)[i] is CheckpointDir,
        args[i] is OutputDir <==> args_view(args)[i] is OutputDir,
{
}

/// The directories of a transfer have fixed names, so that a transfer that broke off finds what it
/// left.
pub proof fn lemma_directories_have_fixed_names()
    ensures
        CHECKPOINT_DIR@ == "checkpoints"@,
        OUTPUT_DIR@ == "output"@,
{
}

/// A file with credentials holds the key without white space round it and the secret as it is, whatever
/// stands in them.
pub proof fn lemma_cred_file_holds_the_credentials(ak: Seq<char>, sk: Seq<char>, endpoint: Seq<char>)
    ensures
        ({
            let head = "[default]\nlanguage=CH\naccessKeyID="@ + text::trimmed(ak)
                + "\naccessKeySecret="@ + sk + "\n"@;
            let place = if text::trimmed(endpoint).len() == 0 {
                seq![]
            } else {
                "endpoint="@ + text::trimmed(endpoint) + "\n"@
            };
            &&& region::region_of(endpoint) is None ==> cred_text(ak, sk, endpoint) == head + place
            &&& region::region_of(endpoint) matches Some(name) ==> cred_text(ak, sk, endpoint) == head
                + place + ("region="@ + name + "\n"@)
        }),
{
    let head = "[default]\nlanguage=CH\naccessKeyID="@ + text::trimmed(ak) + "\naccessKeySecret="@
        + sk + "\n"@;
    let place = if text::trimmed(endpoint).len() == 0 {
        seq![]
    } else {
        "endpoint="@ + text::trimmed(endpoint) + "\n"@
    };
    if region::region_of(endpoint) is None {
        assert(cred_text(ak, sk, endpoint) =~= head + place);
    } else {
        let name = region::region_of(endpoint)->0;
        assert(cred_text(ak, sk, endpoint) =~= head + place + ("region="@ + name + "\n"@));
    }
}

} // verus!
