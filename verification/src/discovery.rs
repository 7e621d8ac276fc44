//! Which `ossutil` is run, and what it says of itself.
use crate::outside;
use crate::reply::Output;
use crate::reply::OutputView;
use crate::text;
use vstd::prelude::*;
use vstd::string::*;

verus! {

/// The file name of `ossutil`.
pub fn binary_name(windows: bool) -> (name: &'static str)
    ensures
        windows ==> name@ == "ossutil.exe"@,
        !windows ==> name@ == "ossutil"@,
{
    if windows {
        "ossutil.exe"
    } else {
        "ossutil"
    }
}

/// What to do next to find `ossutil`.
#[derive(Debug)]
pub enum OssutilStep {
    /// Take the path that the user gave.
    UseCustom(String),
    /// See whether one came with the program.
    LookForBundled,
    /// Take the one that came with the program.
    UseBundled,
    /// Write out the one inside the program, if there is one.
    Extract,
    /// Take the one that was inside the program.
    UseEmbedded,
    /// Leave it to the system to find one by its name.
    UseSystem,
}

/// The next step to `ossutil`, from the path that the user gave and from what is known so far of one
/// that came with the program and of one inside it: the user goes first, then what came with the
/// program, then what is inside it, and the system last. Nothing is looked for that an earlier choice
/// makes needless.
pub fn resolve_ossutil(custom: &str, bundled: Option<bool>, embedded: Option<bool>) -> (step:
    OssutilStep)
    ensures
        text::trimmed(custom@).len() > 0 ==> step is UseCustom && step->UseCustom_0@
            == text::trimmed(custom@),
        text::trimmed(custom@).len() == 0 ==> step == (match (bundled, embedded) {
            (None, _) => OssutilStep::LookForBundled,
            (Some(true), _) => OssutilStep::UseBundled,
            (Some(false), None) => OssutilStep::Extract,
            (Some(false), Some(true)) => OssutilStep::UseEmbedded,
            (Some(false), Some(false)) => OssutilStep::UseSystem,
        }),
{
    let custom = text::trim(custom);
    if !custom.is_empty() {
        return OssutilStep::UseCustom(custom.to_owned());
    }
    match (bundled, embedded) {
        (None, _) => OssutilStep::LookForBundled,
        (Some(true), _) => OssutilStep::UseBundled,
        (Some(false), None) => OssutilStep::Extract,
        (Some(false), Some(true)) => OssutilStep::UseEmbedded,
        (Some(false), Some(false)) => OssutilStep::UseSystem,
    }
}

/// Tells whether the `ossutil` inside the program has to be written out: the file is missing, or its
/// length shows that it is of another version.
pub fn extract_embedded(written_len: Option<u64>, embedded_len: u64) -> (write: bool)
    ensures
        write == (written_len != Some(embedded_len)),
{
    match written_len {
        Some(len) => len != embedded_len,
        None => true,
    }
}

/// A way to ask `ossutil` for its version.
#[derive(Debug, Clone, Copy, PartialEq, Eq, Structural)]
pub enum VersionProbe {
    /// As version 2 understands it.
    Subcommand,
    /// As version 1 understands it.
    Flag,
}

impl VersionProbe {
    /// The argument that asks.
    pub fn arg(self) -> (arg: &'static str)
        ensures
            self is Subcommand ==> arg@ == "version"@,
            self is Flag ==> arg@ == "--version"@,
    {
        match self {
            VersionProbe::Subcommand => "version",
            VersionProbe::Flag => "--version",
        }
    }
}

/// The first line that is not blank, without white space round it; the name of the program where
/// there is none.
pub open spec fn first_line(lines: Seq<Seq<char>>) -> Seq<char>
    decreases lines.len(),
{
    if lines.len() == 0 {
        "ossutil"@
    } else if text::trimmed(lines[0]).len() > 0 {
        text::trimmed(lines[0])
    } else {
        first_line(lines.drop_first())
    }
}

/// Whether a line names the program, in whatever case.
pub open spec fn names_ossutil(line: Seq<char>) -> bool {
    text::occurs("ossutil"@, text::lowered(line))
}

/// What the interface shows of a version: the first line of the answer, with the name of the program
/// in front where the line does not name it.
pub open spec fn version_text(answer: Seq<char>) -> Seq<char> {
    let line = first_line(text::lines(answer));
    if names_ossutil(line) {
        line
    } else {
        "ossutil "@ + line
    }
}

/// What the interface shows of a version, once the answer is text.
pub fn version_label(answer: &str) -> (label: String)
    ensures
        label@ == version_text(answer@),
{
    let lines = text::lines_of(answer);
    let ghost all = text::lines(answer@);
    let mut line = "ossutil".to_owned();
    let mut i: usize = 0;
    let mut found: bool = false;
    assert(all.skip(0) =~= all);
    while i < lines.len() && !found
        invariant
            i <= lines.len(),
            text::texts(lines@) == all,
            !found ==> line@ == "ossutil"@ && first_line(all.skip(i as int)) == first_line(all),
            found ==> line@ == first_line(all),
        decreases lines.len() - i,
    {
        proof {
            assert(all.skip(i as int).drop_first() =~= all.skip(i + 1));
            assert(all.skip(i as int)[0] == lines@[i as int]@);
        }
        let trimmed = text::trim(lines[i].as_str());
        if !trimmed.is_empty() {
            line = trimmed.to_owned();
            found = true;
        }
        i = i + 1;
    }
    if text::contains(text::lowercase(line.as_str()).as_str(), "ossutil") {
        line
    } else {
        let mut label = String::new();
        label.append("ossutil ");
        label.append(line.as_str());
        assert(label@ =~= "ossutil "@ + line@);
        label
    }
}

/// What to do next to learn the version of `ossutil`.
#[derive(Debug)]
pub enum VersionStep {
    /// Ask this way.
    Ask(VersionProbe),
    /// Tell the interface: the version, or why it cannot be told.
    Tell(Result<String, String>),
}

/// What the interface is told of an answer.
pub open spec fn version_told(answer: Result<OutputView, Seq<char>>) -> Result<
    Seq<char>,
    Seq<char>,
> {
    match answer {
        Ok(output) => Ok(
            version_text(outside::utf8_lossy(output.stdout) + outside::utf8_lossy(output.stderr)),
        ),
        Err(reason) => Err("无法启动 ossutil: "@ + reason),
    }
}

/// Whether to ask another way: version 2 was asked for, ran, and did not answer.
pub open spec fn asks_again(probe: VersionProbe, answer: Result<OutputView, Seq<char>>) -> bool {
    probe is Subcommand && answer is Ok && !answer->Ok_0.success
}

/// What to do next, from the way in which `ossutil` was asked and from what it wrote, or why it could
/// not be run. Where version 2 does not answer, version 1 is asked, and its answer is taken as it is.
pub fn check_ossutil(probe: VersionProbe, answer: &Result<Output, String>) -> (step: VersionStep)
    ensures
        ({
            let answer = match answer {
                Ok(output) => Ok(output@),
                Err(reason) => Err(reason@),
            };
            match step {
                VersionStep::Ask(next) => asks_again(probe, answer) && next is Flag,
                VersionStep::Tell(told) => !asks_again(probe, answer) && version_told(answer)
                    == match told {
                    Ok(label) => Ok::<Seq<char>, Seq<char>>(label@),
                    Err(error) => Err(error@),
                },
            }
        }),
{
    match answer {
        Ok(output) => {
            match probe {
                VersionProbe::Subcommand if !output.success => {
                    return VersionStep::Ask(VersionProbe::Flag);
                },
                _ => {},
            }
            let mut answer = outside::lossy_text(output.stdout.as_slice());
            answer.append(outside::lossy_text(output.stderr.as_slice()).as_str());
            VersionStep::Tell(Ok(version_label(answer.as_str())))
        },
        Err(reason) => {
            let mut error = String::new();
            error.append("无法启动 ossutil: ");
            error.append(reason.as_str());
            assert(error@ =~= "无法启动 ossutil: "@ + reason@);
            VersionStep::Tell(Err(error))
        },
    }
}

/// What the interface shows of a version always names the program.
pub proof fn lemma_version_names_ossutil(answer: Seq<char>)
    ensures
        names_ossutil(version_text(answer)),
{
    let line = first_line(text::lines(answer));
    if !names_ossutil(line) {
        reveal_strlit("ossutil");
        reveal_strlit("ossutil ");
        let low = text::lowered("ossutil "@ + line);
        assert(low.subrange(0, 0int + 7) =~= "ossutil"@);
    }
}

/// The version is the first line that is not blank, however far down it stands, without white space
/// round it: as it is where it names `ossutil`, and with the name in front where it does not. Without
/// such a line it is the name alone.
pub proof fn lemma_version_is_the_first_line(line: Seq<char>, rest: Seq<char>)
    requires
        forall|i: int| 0 <= i < line.len() ==> #[trigger] line[i] != '\n',
    ensures
        ({
            let core = text::trimmed(line);
            let label = if text::occurs("ossutil"@, text::lowered(core)) {
                core
            } else {
                "ossutil "@ + core
            };
            &&& core.len() == 0 ==> version_text(line + seq!['\n'] + rest) == version_text(rest)
            &&& core.len() > 0 ==> version_text(line + seq!['\n'] + rest) == label
            &&& core.len() > 0 ==> version_text(line) == label
            &&& core.len() == 0 ==> version_text(line) == "ossutil"@
        }),
        version_text(Seq::<char>::empty()) == "ossutil"@,
{
    text::lemma_lines_are_cut_at_line_feeds(line, rest);
    text::lemma_return_is_stripped(line, text::Margin::White);
    let all = text::lines(line + seq!['\n'] + rest);
    assert(all.drop_first() =~= text::lines(rest));
    assert(all[0] == text::without_return(line));
    reveal_with_fuel(first_line, 2);
    assert(names_ossutil("ossutil"@)) by {
        reveal_strlit("ossutil");
        let low = text::lowered("ossutil"@);
        assert(low.subrange(0, 0int + 7) =~= "ossutil"@);
    }
    if line.len() > 0 {
        assert(text::lines(line) == seq![line]);
        assert(seq![line].drop_first() =~= seq![]);
    } else {
        assert(line =~= seq![]);
        assert(text::trimmed(line).len() == 0);
    }
}

/// `ossutil` is asked a second time exactly when it was asked as version 2 understands it, ran, and
/// did not succeed; and what it writes to either stream, output first, is what the version is taken
/// from.
pub proof fn lemma_version_is_asked_twice_at_most(
    probe: VersionProbe,
    output: OutputView,
    reason: Seq<char>,
)
    ensures
        asks_again(probe, Ok(output)) <==> probe is Subcommand && !output.success,
        !asks_again(probe, Err(reason)),
        version_told(Ok(output)) == Ok::<Seq<char>, Seq<char>>(
            version_text(outside::utf8_lossy(output.stdout) + outside::utf8_lossy(output.stderr)),
        ),
        version_told(Err(reason)) == Err::<Seq<char>, Seq<char>>("无法启动 ossutil: "@ + reason),
{
}

} // verus!
