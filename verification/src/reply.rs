//! What `ossutil` answers.
use crate::number;
use crate::outside;
use crate::text;
use vstd::prelude::*;
use vstd::string::*;

verus! {

/// What a command wrote, and whether it succeeded.
#[derive(Debug)]
pub struct Output {
    pub success: bool,
    pub stdout: Vec<u8>,
    pub stderr: Vec<u8>,
}

/// What an [`Output`] says.
#[verifier::ext_equal]
pub struct OutputView {
    pub success: bool,
    pub stdout: Seq<u8>,
    pub stderr: Seq<u8>,
}

impl View for Output {
    type V = OutputView;

    open spec fn view(&self) -> OutputView {
        OutputView { success: self.success, stdout: self.stdout@, stderr: self.stderr@ }
    }
}

/// Whether a text holds nothing but the white space of JSON.
pub open spec fn is_blank_json(s: Seq<char>) -> bool {
    forall|i: int| 0 <= i < s.len() ==> text::is_json_white(#[trigger] s[i])
}

/// Whether the first value of JSON in a text is one that ends by itself: an object, a list or a
/// string.
pub open spec fn ends_by_itself(s: Seq<char>) -> bool {
    exists|k: int|
        0 <= k < s.len() && is_blank_json(s.take(k)) && (#[trigger] s[k] == '{' || s[k] == '['
            || s[k] == '"')
}

/// Whether `rest` can be told apart from a value of JSON that `s` starts with: the value ends by
/// itself, or there is no `rest`, or white space comes first in it.
pub open spec fn may_follow(s: Seq<char>, rest: Seq<char>) -> bool {
    ends_by_itself(s) || rest.len() == 0 || text::is_json_white(rest[0])
}

/// Whether a number of `n` characters with a round bracket right behind it stands at `k` in a text,
/// with nothing but the white space of JSON before it.
pub open spec fn is_time_at(s: Seq<char>, k: int, n: int) -> bool {
    &&& 0 <= k && 0 < n && k + n < s.len()
    &&& is_blank_json(s.take(k))
    &&& number::is_decimal_number(s.subrange(k, k + n))
    &&& s[k + n] == '('
}

/// Whether a text starts as the line with the time that a command took does: with a number and a
/// round bracket.
pub open spec fn starts_with_time(s: Seq<char>) -> bool {
    exists|k: int, n: int| is_time_at(s, k, n)
}

/// Whether `line` tells the time that a command took: `0.147220(s) elapsed`.
pub open spec fn is_time(line: Seq<char>) -> bool {
    "(s) elapsed"@.is_suffix_of(line) && number::is_decimal_number(line.take(line.len() - 11))
}

/// Whether a line holds no part of an answer: it is blank, or tells the time that the command took.
pub open spec fn is_idle(line: Seq<char>) -> bool {
    text::stripped(line, text::Margin::Json).len() == 0 || is_time(
        text::stripped(line, text::Margin::Json),
    )
}

/// Whether no line of an output holds part of an answer.
pub open spec fn says_nothing(stdout: Seq<char>) -> bool {
    forall|i: int| 0 <= i < text::lines(stdout).len() ==> is_idle(#[trigger] text::lines(stdout)[i])
}

/// The value that an answer holds, once it was read: null where there was nothing to read, and an
/// error that quotes the answer where it could not be read.
pub open spec fn value_of(
    reading: Option<Result<serde_json::Value, Seq<char>>>,
    stdout: Seq<char>,
) -> Result<serde_json::Value, Seq<char>> {
    match reading {
        Some(Ok(value)) => Ok(value),
        Some(Err(error)) => Err("解析 ossutil 输出失败: "@ + error + "\n"@ + stdout),
        None => outside::first_json("null"@)->0,
    }
}

/// What an output answers: null where it says nothing, and else the first value in it.
pub open spec fn answer(stdout: Seq<char>) -> Result<serde_json::Value, Seq<char>> {
    if says_nothing(stdout) {
        outside::first_json("null"@)->0
    } else {
        value_of(outside::first_json(stdout), stdout)
    }
}

/// A result with the text of its error.
pub open spec fn result_view<T>(res: Result<T, String>) -> Result<T, Seq<char>> {
    match res {
        Ok(value) => Ok(value),
        Err(error) => Err(error@),
    }
}

/// Whether a result is the null of JSON.
pub open spec fn is_null(res: Result<serde_json::Value, String>) -> bool {
    res is Ok && outside::first_json("null"@) == Some(result_view(res))
}

/// The value that an answer holds, once it was read.
pub fn value_of_reading(
    reading: Option<Result<serde_json::Value, String>>,
    stdout: &str,
) -> (res: Result<serde_json::Value, String>)
    ensures
        result_view(res) == value_of(outside::json_reading(reading), stdout@),
        reading is None ==> is_null(res),
{
    match reading {
        Some(Ok(value)) => Ok(value),
        Some(Err(error)) => {
            let mut message = String::new();
            message.append("解析 ossutil 输出失败: ");
            message.append(error.as_str());
            message.append("\n");
            message.append(stdout);
            assert(message@ =~= "解析 ossutil 输出失败: "@ + error@ + "\n"@ + stdout@);
            Err(message)
        },
        None => Ok(outside::json_null()),
    }
}

/// Tells whether a line holds no part of an answer.
fn line_is_idle(line: &str) -> (res: bool)
    ensures
        res == is_idle(line@),
{
    let line = text::trim_json(line);
    if line.is_empty() {
        return true;
    }
    if !text::ends_with(line, "(s) elapsed") {
        return false;
    }
    proof {
        reveal_strlit("(s) elapsed");
    }
    let n: usize = text::chars_of(line).len() - 11;
    assert(line@.take(n as int) =~= line@.subrange(0, n as int));
    number::is_number(line.substring_char(0, n))
}

/// Tells whether no line of an output holds part of an answer.
pub fn is_silent(stdout: &str) -> (res: bool)
    ensures
        res == says_nothing(stdout@),
{
    let lines = text::lines_of(stdout);
    let ghost all = text::lines(stdout@);
    let mut i: usize = 0;
    while i < lines.len()
        invariant
            i <= lines.len(),
            text::texts(lines@) == all,
            all == text::lines(stdout@),
            forall|j: int| 0 <= j < i ==> is_idle(#[trigger] all[j]),
        decreases lines.len() - i,
    {
        assert(all[i as int] == lines@[i as int]@);
        if !line_is_idle(lines[i].as_str()) {
            return false;
        }
        i = i + 1;
    }
    true
}

/// Reads the answer of a call of the service.
///
/// `ossutil` writes a line with the time that it took behind the JSON, so only the first value is
/// read, and nothing behind it matters. A call that succeeds without an answer writes that line alone,
/// and answers null.
pub fn parse_api_output(stdout: &str) -> (res: Result<serde_json::Value, String>)
    ensures
        result_view(res) == answer(stdout@),
        says_nothing(stdout@) ==> is_null(res),
        !says_nothing(stdout@) ==> result_view(res) == value_of(
            outside::first_json(stdout@),
            stdout@,
        ),
        is_blank_json(stdout@) ==> is_null(res),
        res is Ok && !says_nothing(stdout@) ==> forall|rest: Seq<char>|
            #![trigger answer(stdout@ + rest)]
            may_follow(stdout@, rest) ==> answer(stdout@ + rest) == result_view(res),
{
    proof {
        if is_blank_json(stdout@) {
            lemma_blank_says_nothing(stdout@);
        }
    }
    if is_silent(stdout) {
        return Ok(outside::json_null());
    }
    let reading = outside::read_json(stdout);
    let ghost read = outside::json_reading(reading);
    let res = value_of_reading(reading, stdout);
    proof {
        if res is Ok {
            assert forall|rest: Seq<char>|
                #![trigger answer(stdout@ + rest)]
                may_follow(stdout@, rest) implies answer(stdout@ + rest) == result_view(res) by {
                assert(outside::first_json(stdout@ + rest) == read);
                if says_nothing(stdout@ + rest) {
                    lemma_time_comes_first(stdout@, rest);
                }
            }
        }
    }
    res
}

proof fn lemma_lines_unfold(s: Seq<char>)
    requires
        s.len() > 0,
    ensures
        ({
            let f = text::line_feed_at(s);
            let line = if f < s.len() {
                text::without_return(s.take(f))
            } else {
                s
            };
            &&& text::lines(s).len() > 0
            &&& text::lines(s)[0] == line
            &&& f < s.len() ==> text::lines(s) == seq![line] + text::lines(s.skip(f + 1))
            &&& f >= s.len() ==> text::lines(s) == seq![line]
        }),
{
}

/// A blank output says nothing.
pub proof fn lemma_blank_says_nothing(s: Seq<char>)
    requires
        is_blank_json(s),
    ensures
        says_nothing(s),
    decreases s.len(),
{
    if s.len() > 0 {
        lemma_lines_unfold(s);
        text::lemma_line_feed_in_range(s);
        let f = text::line_feed_at(s);
        let line = text::lines(s)[0];
        assert forall|i: int| 0 <= i < line.len() implies text::Margin::Json.drops(
            #[trigger] line[i],
        ) by {
            assert(line[i] == s[i]);
        }
        text::lemma_strip_start_at(line, text::Margin::Json, line.len() as int);
        assert(is_idle(line));
        if f < s.len() {
            let rest = s.skip(f + 1);
            assert forall|i: int| 0 <= i < rest.len() implies text::is_json_white(
                #[trigger] rest[i],
            ) by {
                assert(rest[i] == s[i + f + 1]);
            }
            lemma_blank_says_nothing(rest);
            assert forall|i: int| 0 <= i < text::lines(s).len() implies is_idle(
                #[trigger] text::lines(s)[i],
            ) by {
                if i > 0 {
                    assert(text::lines(s)[i] == text::lines(rest)[i - 1]);
                }
            }
        }
    }
}

/// An output that says nothing, and is not blank up to `k`, starts with the time at `k`.
proof fn lemma_nothing_but_time(s: Seq<char>, k: int)
    requires
        says_nothing(s),
        0 <= k < s.len(),
        is_blank_json(s.take(k)),
        !text::is_json_white(s[k]),
    ensures
        exists|n: int| is_time_at(s, k, n),
    decreases s.len(),
{
    lemma_lines_unfold(s);
    text::lemma_line_feed_in_range(s);
    let f = text::line_feed_at(s);
    let line = text::lines(s)[0];
    if f < k {
        let rest = s.skip(f + 1);
        let j = k - f - 1;
        assert(s[f] == '\n');
        assert forall|i: int| 0 <= i < text::lines(rest).len() implies is_idle(
            #[trigger] text::lines(rest)[i],
        ) by {
            assert(text::lines(rest)[i] == text::lines(s)[i + 1]);
        }
        assert forall|i: int| 0 <= i < j implies text::is_json_white(#[trigger] rest.take(j)[i]) by {
            assert(rest.take(j)[i] == s.take(k)[i + f + 1]);
        }
        lemma_nothing_but_time(rest, j);
        let n = choose|n: int| is_time_at(rest, j, n);
        assert(rest.subrange(j, j + n) =~= s.subrange(k, k + n));
        assert(is_time_at(s, k, n));
    } else {
        reveal_strlit("(s) elapsed");
        assert(k < line.len() && line[k] == s[k]);
        assert forall|i: int| 0 <= i < k implies text::Margin::Json.drops(#[trigger] line[i]) by {
            assert(line[i] == s.take(k)[i]);
        }
        text::lemma_strip_start_at(line, text::Margin::Json, k);
        let start = line.skip(k);
        text::lemma_strip_end_last(start, text::Margin::Json);
        let core = text::strip_end(start, text::Margin::Json);
        assert(is_idle(line));
        lemma_strip_end_keeps(start, text::Margin::Json);
        let n = core.len() - 11;
        let tail = core.subrange(n, core.len() as int);
        assert(tail[0] == '(');
        assert(core[n] == '(');
        assert(s.subrange(k, k + n) =~= core.take(n));
        assert(n > 0);
        assert(is_time_at(s, k, n));
    }
}

proof fn lemma_strip_end_keeps(s: Seq<char>, margin: text::Margin)
    requires
        s.len() > 0,
        !margin.drops(s[0]),
    ensures
        text::strip_end(s, margin).len() > 0,
    decreases s.len(),
{
    if margin.drops(s.last()) {
        lemma_strip_end_keeps(s.drop_last(), margin);
    }
}

/// Where an output says nothing, however it goes on, it starts with the time already, unless it is
/// blank.
proof fn lemma_time_comes_first(s: Seq<char>, rest: Seq<char>)
    requires
        says_nothing(s + rest),
        may_follow(s, rest),
        !is_blank_json(s),
    ensures
        starts_with_time(s),
{
    let k = first_mark(s);
    lemma_first_mark(s);
    let all = s + rest;
    assert(all.take(k) =~= s.take(k));
    lemma_nothing_but_time(all, k);
    let n = choose|n: int| is_time_at(all, k, n);
    let digits = all.subrange(k, k + n);
    assert(digits[0] == s[k]);
    if k + n >= s.len() {
        if ends_by_itself(s) {
            let m = choose|m: int|
                0 <= m < s.len() && is_blank_json(s.take(m)) && (#[trigger] s[m] == '{' || s[m]
                    == '[' || s[m] == '"');
            if m < k {
                assert(s.take(k)[m] == s[m]);
            } else if k < m {
                assert(s.take(m)[k] == s[k]);
            }
            assert(false);
        }
        let at = s.len() as int;
        assert(all[at] == rest[0]);
        if at < k + n {
            assert(digits[at - k] == all[at]);
        }
        assert(false);
    }
    assert(s.subrange(k, k + n) =~= digits);
    assert(is_time_at(s, k, n));
}

/// The position of the first character of `s` that is not white space of JSON, or its length.
spec fn first_mark(s: Seq<char>) -> int
    decreases s.len(),
{
    if s.len() == 0 || !text::is_json_white(s[0]) {
        0
    } else {
        1 + first_mark(s.drop_first())
    }
}

proof fn lemma_first_mark(s: Seq<char>)
    requires
        !is_blank_json(s),
    ensures
        0 <= first_mark(s) < s.len(),
        is_blank_json(s.take(first_mark(s))),
        !text::is_json_white(s[first_mark(s)]),
    decreases s.len(),
{
    if text::is_json_white(s[0]) {
        let rest = s.drop_first();
        let i = choose|i: int| 0 <= i < s.len() && !text::is_json_white(#[trigger] s[i]);
        assert(rest[i - 1] == s[i]);
        lemma_first_mark(rest);
        let k = first_mark(s);
        assert forall|j: int| 0 <= j < k implies text::is_json_white(#[trigger] s.take(k)[j]) by {
            if j > 0 {
                assert(rest.take(k - 1)[j - 1] == s.take(k)[j]);
            }
        }
    }
}

/// Whether a line of an error is worth telling: it says something, and is not the line with the time
/// that the command took.
pub open spec fn is_told(line: Seq<char>) -> bool {
    line.len() > 0 && !"(s) elapsed"@.is_suffix_of(line)
}

/// The lines of a text that are worth telling, without white space round them.
pub open spec fn told(s: Seq<char>) -> Seq<Seq<char>> {
    text::lines(s).map_values(|line: Seq<char>| text::trimmed(line)).filter(
        |line: Seq<char>| is_told(line),
    )
}

/// What is told of a command that failed: all that it wrote to either stream, because the line that
/// says most need not be the first; else that it failed.
pub open spec fn failure(name: Seq<char>, stdout: Seq<char>, stderr: Seq<char>) -> Seq<char> {
    let message = text::joined(told(stderr) + told(stdout), "\n"@);
    if message.len() == 0 {
        "ossutil "@ + name + " 执行失败"@
    } else {
        message
    }
}

fn push_told(list: &mut Vec<String>, s: &str)
    ensures
        text::texts(final(list)@) == text::texts(old(list)@) + told(s@),
{
    let lines = text::lines_of(s);
    let ghost before = text::texts(list@);
    let ghost all = text::lines(s@).map_values(|line: Seq<char>| text::trimmed(line));
    let ghost keep = |line: Seq<char>| is_told(line);
    let mut i: usize = 0;
    reveal(Seq::filter);
    assert(all.take(0) =~= seq![]);
    assert(before + all.take(0).filter(keep) =~= before);
    while i < lines.len()
        invariant
            i <= lines.len(),
            text::texts(lines@) == text::lines(s@),
            all == text::lines(s@).map_values(|line: Seq<char>| text::trimmed(line)),
            keep == (|line: Seq<char>| is_told(line)),
            text::texts(list@) == before + all.take(i as int).filter(keep),
        decreases lines.len() - i,
    {
        reveal(Seq::filter);
        let line = text::trim(lines[i].as_str());
        let ghost given = text::texts(list@);
        proof {
            assert(text::texts(lines@)[i as int] == lines@[i as int]@);
            assert(all.take(i + 1).drop_last() =~= all.take(i as int));
            assert(all.take(i + 1).last() == line@);
        }
        if !line.is_empty() && !text::ends_with(line, "(s) elapsed") {
            list.push(line.to_owned());
            assert(text::texts(list@) =~= given.push(line@));
            assert(given.push(line@) =~= before + all.take(i as int).filter(keep).push(line@));
        }
        i = i + 1;
    }
    assert(all.take(i as int) =~= all);
}

/// What is told of a command that failed.
pub fn failure_text(name: &str, stdout: &str, stderr: &str) -> (res: String)
    ensures
        res@ == failure(name@, stdout@, stderr@),
{
    let mut list: Vec<String> = Vec::new();
    push_told(&mut list, stderr);
    push_told(&mut list, stdout);
    assert(text::texts(list@) =~= told(stderr@) + told(stdout@));
    let message = text::join(&list, "\n");
    if message.as_str().is_empty() {
        let mut res = String::new();
        res.append("ossutil ");
        res.append(name);
        res.append(" 执行失败");
        assert(res@ =~= "ossutil "@ + name@ + " 执行失败"@);
        res
    } else {
        message
    }
}

/// What a call of the service comes to, once its output is text.
pub fn api_result(op: &str, success: bool, stdout: &str, stderr: &str) -> (res: Result<
    serde_json::Value,
    String,
>)
    ensures
        success ==> result_view(res) == answer(stdout@),
        success && says_nothing(stdout@) ==> is_null(res),
        !success ==> result_view(res) == Err::<serde_json::Value, _>(
            failure(op@, stdout@, stderr@),
        ),
{
    if success {
        parse_api_output(stdout)
    } else {
        Err(failure_text(op, stdout, stderr))
    }
}

/// What a call of the service comes to.
pub fn oss_api(op: &str, success: bool, stdout: &[u8], stderr: &[u8]) -> (res: Result<
    serde_json::Value,
    String,
>)
    ensures
        success ==> result_view(res) == answer(outside::utf8_lossy(stdout@)),
        success && says_nothing(outside::utf8_lossy(stdout@)) ==> is_null(res),
        !success ==> result_view(res) == Err::<serde_json::Value, _>(
            failure(op@, outside::utf8_lossy(stdout@), outside::utf8_lossy(stderr@)),
        ),
{
    let stdout = outside::lossy_text(stdout);
    let stderr = outside::lossy_text(stderr);
    api_result(op, success, stdout.as_str(), stderr.as_str())
}

/// What a subcommand comes to, once its output is text: what it wrote, without white space round it,
/// or what is told of its failure.
pub fn run_result(sub: &str, success: bool, stdout: &str, stderr: &str) -> (res: Result<
    String,
    String,
>)
    ensures
        res is Ok <==> success,
        res matches Ok(out) ==> out@ == text::trimmed(stdout@),
        res matches Err(e) ==> e@ == failure(sub@, stdout@, stderr@),
{
    if success {
        Ok(text::trim(stdout).to_owned())
    } else {
        Err(failure_text(sub, stdout, stderr))
    }
}

/// What a subcommand comes to.
pub fn oss_run(sub: &str, success: bool, stdout: &[u8], stderr: &[u8]) -> (res: Result<
    String,
    String,
>)
    ensures
        res is Ok <==> success,
        res matches Ok(out) ==> out@ == text::trimmed(outside::utf8_lossy(stdout@)),
        res matches Err(e) ==> e@ == failure(
            sub@,
            outside::utf8_lossy(stdout@),
            outside::utf8_lossy(stderr@),
        ),
{
    let stdout = outside::lossy_text(stdout);
    let stderr = outside::lossy_text(stderr);
    run_result(sub, success, stdout.as_str(), stderr.as_str())
}

/// A failure is always told in words.
pub proof fn lemma_failure_says_something(name: Seq<char>, stdout: Seq<char>, stderr: Seq<char>)
    ensures
        failure(name, stdout, stderr).len() > 0,
{
    reveal_strlit("ossutil ");
}

/// Of a command that failed, neither blank lines nor the line with the time that it took are told.
pub proof fn lemma_told_lines_are_told(s: Seq<char>)
    ensures
        forall|i: int| 0 <= i < told(s).len() ==> is_told(#[trigger] told(s)[i]),
{
    let all = text::lines(s).map_values(|line: Seq<char>| text::trimmed(line));
    let keep = |line: Seq<char>| is_told(line);
    assert forall|i: int| 0 <= i < told(s).len() implies is_told(#[trigger] told(s)[i]) by {
        all.lemma_filter_pred(keep, i);
    }
}

/// Of a command that failed, each line is told on its own: as it is, without white space round it,
/// unless it is blank or is the line with the time; nothing else is left out, and nothing is added.
pub proof fn lemma_failure_is_told_by_lines(line: Seq<char>, rest: Seq<char>)
    requires
        forall|i: int| 0 <= i < line.len() ==> #[trigger] line[i] != '\n',
    ensures
        ({
            let core = text::trimmed(line);
            let kept = if core.len() > 0 && !"(s) elapsed"@.is_suffix_of(core) {
                seq![core]
            } else {
                seq![]
            };
            &&& told(line + seq!['\n'] + rest) == kept + told(rest)
            &&& told(line) == kept
        }),
        told(Seq::<char>::empty()) == Seq::<Seq<char>>::empty(),
{
    let trim = |line: Seq<char>| text::trimmed(line);
    let keep = |line: Seq<char>| is_told(line);
    let core = text::trimmed(line);
    let cut = text::without_return(line);
    text::lemma_lines_are_cut_at_line_feeds(line, rest);
    text::lemma_return_is_stripped(line, text::Margin::White);
    let s = line + seq!['\n'] + rest;
    assert(text::lines(s).map_values(trim) =~= seq![core] + text::lines(rest).map_values(trim));
    Seq::filter_distributes_over_add(seq![core], text::lines(rest).map_values(trim), keep);
    reveal(Seq::filter);
    assert(seq![core].drop_last() =~= seq![]);
    assert(Seq::<Seq<char>>::empty().filter(keep) =~= seq![]);
    assert(Seq::<Seq<char>>::empty().map_values(trim) =~= seq![]);
    assert(told(seq![]) =~= seq![]);
    if line.len() > 0 {
        assert(text::lines(line).map_values(trim) =~= seq![core]);
    } else {
        assert(line =~= seq![]);
        assert(core.len() == 0);
    }
}

/// What is told of a failure is all that either stream tells, that of errors first, line by line; and
/// that the command of that name failed, where neither tells anything.
pub proof fn lemma_failure_tells_everything(name: Seq<char>, stdout: Seq<char>, stderr: Seq<char>)
    ensures
        ({
            let all = told(stderr) + told(stdout);
            &&& all.len() > 0 ==> failure(name, stdout, stderr) == text::joined(all, "\n"@)
            &&& all.len() == 0 ==> failure(name, stdout, stderr) == "ossutil "@ + name
                + " 执行失败"@
        }),
{
    let all = told(stderr) + told(stdout);
    lemma_told_lines_are_told(stderr);
    lemma_told_lines_are_told(stdout);
    if all.len() > 0 {
        if told(stdout).len() > 0 {
            assert(all.last() == told(stdout)[told(stdout).len() - 1]);
        } else {
            assert(all.last() == told(stderr)[told(stderr).len() - 1]);
        }
        assert(all.last().len() > 0);
    }
}

/// A value that was read is the answer, unchanged; what could not be read is an error that gives the
/// reason and quotes the output; and where there is nothing, the answer is null.
pub proof fn lemma_first_value_is_the_answer(
    value: serde_json::Value,
    reason: Seq<char>,
    stdout: Seq<char>,
)
    ensures
        value_of(Some(Ok(value)), stdout) == Ok::<serde_json::Value, Seq<char>>(value),
        value_of(Some(Err(reason)), stdout) == Err::<serde_json::Value, Seq<char>>(
            "解析 ossutil 输出失败: "@ + reason + "\n"@ + stdout,
        ),
        value_of(None, stdout) == outside::first_json("null"@)->0,
        says_nothing(stdout) ==> answer(stdout) == outside::first_json("null"@)->0,
        !says_nothing(stdout) ==> answer(stdout) == value_of(outside::first_json(stdout), stdout),
{
}

/// An output says nothing exactly when none of its lines does.
pub proof fn lemma_silence_goes_by_lines(line: Seq<char>, rest: Seq<char>)
    requires
        forall|i: int| 0 <= i < line.len() ==> #[trigger] line[i] != '\n',
    ensures
        says_nothing(line + seq!['\n'] + rest) <==> is_idle(line) && says_nothing(rest),
        line.len() > 0 ==> (says_nothing(line) <==> is_idle(line)),
        says_nothing(Seq::<char>::empty()),
{
    text::lemma_lines_are_cut_at_line_feeds(line, rest);
    text::lemma_return_is_stripped(line, text::Margin::Json);
    let cut = text::without_return(line);
    let all = text::lines(line + seq!['\n'] + rest);
    assert(all == seq![cut] + text::lines(rest));
    assert(all[0] == cut);
    assert(is_idle(cut) == is_idle(line));
    if says_nothing(line + seq!['\n'] + rest) {
        assert(is_idle(all[0]));
        assert forall|i: int| 0 <= i < text::lines(rest).len() implies is_idle(
            #[trigger] text::lines(rest)[i],
        ) by {
            assert(all[i + 1] == text::lines(rest)[i]);
        }
    }
    if is_idle(line) && says_nothing(rest) {
        assert forall|i: int| 0 <= i < all.len() implies is_idle(#[trigger] all[i]) by {
            if i > 0 {
                assert(all[i] == text::lines(rest)[i - 1]);
            }
        }
    }
    if line.len() > 0 {
        assert(text::lines(line)[0] == line);
    }
}

/// A line says nothing where it is white space, or a number and `(s) elapsed` with white space round
/// them; any other line says something.
pub proof fn lemma_lines_that_say_nothing(a: Seq<char>, core: Seq<char>, b: Seq<char>)
    requires
        forall|i: int|
            0 <= i < a.len() ==> #[trigger] a[i] == ' ' || a[i] == '\n' || a[i] == '\t' || a[i]
                == '\r',
        forall|i: int|
            0 <= i < b.len() ==> #[trigger] b[i] == ' ' || b[i] == '\n' || b[i] == '\t' || b[i]
                == '\r',
        core.len() > 0 ==> !(core[0] == ' ' || core[0] == '\n' || core[0] == '\t' || core[0] == '\r'),
        core.len() > 0 ==> !(core.last() == ' ' || core.last() == '\n' || core.last() == '\t'
            || core.last() == '\r'),
    ensures
        is_idle(a + core + b) <==> core.len() == 0 || exists|n: Seq<char>|
            number::is_decimal_number(n) && core == #[trigger] (n + "(s) elapsed"@),
{
    reveal_strlit("(s) elapsed");
    text::lemma_json_white_is_stripped(a, core, b);
    if core.len() > 0 && is_time(core) {
        let n = core.take(core.len() - 11);
        assert(core.subrange(core.len() - 11, core.len() as int) == "(s) elapsed"@);
        assert(core =~= n + core.subrange(core.len() - 11, core.len() as int));
    }
    if exists|n: Seq<char>|
        number::is_decimal_number(n) && core == #[trigger] (n + "(s) elapsed"@) {
        let n = choose|n: Seq<char>|
            number::is_decimal_number(n) && core == #[trigger] (n + "(s) elapsed"@);
        assert(core.subrange(core.len() - 11, core.len() as int) =~= "(s) elapsed"@);
        assert(core.take(core.len() - 11) =~= n);
    }
}

/// An output says what it holds, field by field.
pub proof fn lemma_output_says_what_it_holds(output: Output)
    ensures
        output@.success == output.success,
        output@.stdout == output.stdout@,
        output@.stderr == output.stderr@,
{
}

/// A result says what it holds: the value, or the text of the error, and null is the value that is
/// read from `null`.
pub proof fn lemma_results_say_what_they_hold(value: serde_json::Value, error: String)
    ensures
        result_view(Ok::<serde_json::Value, String>(value)) == Ok::<serde_json::Value, Seq<char>>(
            value,
        ),
        result_view(Err::<serde_json::Value, String>(error)) == Err::<serde_json::Value, Seq<char>>(
            error@,
        ),
        is_null(Ok(value)) <==> outside::first_json("null"@) == Some(
            Ok::<serde_json::Value, Seq<char>>(value),
        ),
        !is_null(Err(error)),
{
}

} // verus!
