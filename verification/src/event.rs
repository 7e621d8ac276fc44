//! The events that a transfer tells the interface of, and the lines of `ossutil` that they come
//! from.
use crate::number;
use crate::outside;
use crate::pattern;
use crate::request::UploadRequest;
use crate::text;
use vstd::prelude::*;
use vstd::string::*;

verus! {

/// The channel on which the interface is told.
pub const EVENT: &'static str = "upload://event";

/// How far a transfer is, in hundredths of the whole.
#[derive(Debug, Clone)]
pub enum Percent {
    /// The number that `ossutil` printed: digits, and perhaps a point with digits after it.
    Printed(String),
    /// The share of `ok` files among `total`, which is not zero.
    Counted { ok: u64, total: u64 },
}

/// What a [`Percent`] says.
#[verifier::ext_equal]
pub enum PercentView {
    Printed(Seq<char>),
    Counted { ok: u64, total: u64 },
}

impl View for Percent {
    type V = PercentView;

    open spec fn view(&self) -> PercentView {
        match *self {
            Percent::Printed(text) => PercentView::Printed(text@),
            Percent::Counted { ok, total } => PercentView::Counted { ok, total },
        }
    }
}

/// Something that the interface is told.
#[derive(Debug, Clone)]
pub struct UploadEvent {
    /// `log`, `progress` or `finished`.
    pub kind: &'static str,
    /// The task that it comes from.
    pub task_id: Option<String>,
    pub line: Option<String>,
    pub percent: Option<Percent>,
    pub speed: Option<String>,
    pub total_num: Option<u64>,
    pub ok_num: Option<u64>,
    pub code: Option<i32>,
}

/// What an [`UploadEvent`] says.
#[verifier::ext_equal]
pub struct EventView {
    pub kind: Seq<char>,
    pub task_id: Option<Seq<char>>,
    pub line: Option<Seq<char>>,
    pub percent: Option<PercentView>,
    pub speed: Option<Seq<char>>,
    pub total_num: Option<u64>,
    pub ok_num: Option<u64>,
    pub code: Option<i32>,
}

impl View for UploadEvent {
    type V = EventView;

    open spec fn view(&self) -> EventView {
        EventView {
            kind: self.kind@,
            task_id: outside::optional_text(self.task_id),
            line: outside::optional_text(self.line),
            percent: match self.percent {
                Some(p) => Some(p@),
                None => None,
            },
            speed: outside::optional_text(self.speed),
            total_num: self.total_num,
            ok_num: self.ok_num,
            code: self.code,
        }
    }
}

/// The event of a line that says nothing but itself.
pub open spec fn log_event(line: Seq<char>) -> EventView {
    EventView {
        kind: "log"@,
        task_id: None,
        line: Some(line),
        percent: None,
        speed: None,
        total_num: None,
        ok_num: None,
        code: None,
    }
}

/// The event of a task that ended with `code`.
pub open spec fn finished_event(task_id: Seq<char>, code: i32) -> EventView {
    EventView {
        kind: "finished"@,
        task_id: Some(task_id),
        line: Some("[exit] ossutil 退出码 "@ + number::signed_decimal(code as int)),
        percent: None,
        speed: None,
        total_num: None,
        ok_num: None,
        code: Some(code),
    }
}

/// The line that announces a transfer.
pub open spec fn start_line(
    source: Seq<char>,
    target: Seq<char>,
    jobs: u32,
    parallel: u32,
    part_size_mb: u64,
) -> Seq<char> {
    "[start] "@ + source + " -> "@ + target + "  (jobs="@ + number::decimal(jobs as nat)
        + ", parallel="@ + number::decimal(parallel as nat) + ", part-size="@ + number::decimal(
        part_size_mb as nat,
    ) + "MB)"@
}

impl UploadEvent {
    /// A line for the log.
    pub fn log(line: String) -> (res: Self)
        ensures
            res@ == log_event(line@),
    {
        UploadEvent {
            kind: "log",
            task_id: None,
            line: Some(line),
            percent: None,
            speed: None,
            total_num: None,
            ok_num: None,
            code: None,
        }
    }

    /// The same event, said to come from a task.
    pub fn for_task(self, task_id: &str) -> (res: Self)
        ensures
            res@ == (EventView { task_id: Some(task_id@), ..self@ }),
    {
        let mut res = self;
        res.task_id = Some(task_id.to_owned());
        res
    }

    /// What announces a transfer from `source` to `target`, before it is said which task it is.
    pub fn started(req: &UploadRequest, source: &str, target: &str) -> (res: Self)
        ensures
            res@ == log_event(
                start_line(source@, target@, req.jobs, req.parallel, req.part_size_mb),
            ),
    {
        let mut line = String::new();
        line.append("[start] ");
        line.append(source);
        line.append(" -> ");
        line.append(target);
        line.append("  (jobs=");
        number::push_decimal(&mut line, req.jobs as u64);
        line.append(", parallel=");
        number::push_decimal(&mut line, req.parallel as u64);
        line.append(", part-size=");
        number::push_decimal(&mut line, req.part_size_mb);
        line.append("MB)");
        assert(line@ =~= start_line(
            source@,
            target@,
            req.jobs,
            req.parallel,
            req.part_size_mb,
        ));
        UploadEvent::log(line)
    }

    /// What tells that a task ended.
    pub fn finished(task_id: &str, code: i32) -> (res: Self)
        ensures
            res@ == finished_event(task_id@, code),
    {
        let mut line = String::new();
        line.append("[exit] ossutil 退出码 ");
        number::push_signed(&mut line, code);
        assert(line@ =~= "[exit] ossutil 退出码 "@ + number::signed_decimal(code as int));
        UploadEvent {
            kind: "finished",
            task_id: Some(task_id.to_owned()),
            line: Some(line),
            percent: None,
            speed: None,
            total_num: None,
            ok_num: None,
            code: Some(code),
        }
    }
}

/// What the expressions of [`pattern`] find in a line, one field for each.
#[derive(Debug, Clone)]
pub struct LineGroups {
    pub percent: Option<String>,
    pub speed: Option<String>,
    pub total_1x: Option<String>,
    pub total_2x: Option<String>,
    pub ok_1x: Option<String>,
    pub ok_2x: Option<String>,
}

/// What [`LineGroups`] say.
#[verifier::ext_equal]
pub struct GroupsView {
    pub percent: Option<Seq<char>>,
    pub speed: Option<Seq<char>>,
    pub total_1x: Option<Seq<char>>,
    pub total_2x: Option<Seq<char>>,
    pub ok_1x: Option<Seq<char>>,
    pub ok_2x: Option<Seq<char>>,
}

impl View for LineGroups {
    type V = GroupsView;

    open spec fn view(&self) -> GroupsView {
        GroupsView {
            percent: outside::optional_text(self.percent),
            speed: outside::optional_text(self.speed),
            total_1x: outside::optional_text(self.total_1x),
            total_2x: outside::optional_text(self.total_2x),
            ok_1x: outside::optional_text(self.ok_1x),
            ok_2x: outside::optional_text(self.ok_2x),
        }
    }
}

/// The count in a group.
pub open spec fn group_count(group: Option<Seq<char>>) -> Option<u64> {
    match group {
        Some(g) => number::count_value(g),
        None => None,
    }
}

/// The number in a group.
pub open spec fn group_number(group: Option<Seq<char>>) -> Option<Seq<char>> {
    match group {
        Some(g) => number::number_value(g),
        None => None,
    }
}

/// The text in a group.
pub open spec fn group_text(group: Option<Seq<char>>) -> Option<Seq<char>> {
    match group {
        Some(g) => Some(text::trimmed(g)),
        None => None,
    }
}

/// The first of two counts that is there.
pub open spec fn first_count(a: Option<u64>, b: Option<u64>) -> Option<u64> {
    if a is Some {
        a
    } else {
        b
    }
}

/// How far a transfer is: what was printed, else the share of the files that are through.
pub open spec fn percent_of(
    printed: Option<Seq<char>>,
    ok_num: Option<u64>,
    total_num: Option<u64>,
) -> Option<PercentView> {
    match (printed, ok_num, total_num) {
        (Some(text), _, _) => Some(PercentView::Printed(text)),
        (None, Some(ok), Some(total)) => if total > 0 {
            Some(PercentView::Counted { ok, total })
        } else {
            None
        },
        _ => None,
    }
}

/// The event of a line in which `groups` were found. It is progress when it tells how far the
/// transfer is, how fast, or how many files there are.
pub open spec fn event_of(line: Seq<char>, groups: GroupsView) -> EventView {
    let speed = group_text(groups.speed);
    let total_num = first_count(group_count(groups.total_1x), group_count(groups.total_2x));
    let ok_num = first_count(group_count(groups.ok_1x), group_count(groups.ok_2x));
    let percent = percent_of(group_number(groups.percent), ok_num, total_num);
    EventView {
        kind: if percent is Some || speed is Some || total_num is Some {
            "progress"@
        } else {
            "log"@
        },
        task_id: None,
        line: Some(line),
        percent,
        speed,
        total_num,
        ok_num,
        code: None,
    }
}

/// Reads the number in a group.
pub fn cap_f64(group: &Option<String>) -> (res: Option<String>)
    ensures
        outside::optional_text(res) == group_number(outside::optional_text(*group)),
{
    match group {
        Some(g) => number::read_number(g.as_str()),
        None => None,
    }
}

/// Reads the count in a group.
pub fn cap_u64(group: &Option<String>) -> (res: Option<u64>)
    ensures
        res == group_count(outside::optional_text(*group)),
{
    match group {
        Some(g) => number::read_count(g.as_str()),
        None => None,
    }
}

/// Reads the text in a group.
pub fn cap_str(group: &Option<String>) -> (res: Option<String>)
    ensures
        outside::optional_text(res) == group_text(outside::optional_text(*group)),
{
    match group {
        Some(g) => Some(text::trim(g.as_str()).to_owned()),
        None => None,
    }
}

/// The event of a line, once it is known what was found in it.
pub fn event_of_groups(line: &str, groups: &LineGroups) -> (res: UploadEvent)
    ensures
        res@ == event_of(line@, groups@),
{
    let speed = cap_str(&groups.speed);
    let total_num = match cap_u64(&groups.total_1x) {
        Some(n) => Some(n),
        None => cap_u64(&groups.total_2x),
    };
    let ok_num = match cap_u64(&groups.ok_1x) {
        Some(n) => Some(n),
        None => cap_u64(&groups.ok_2x),
    };
    let percent = match cap_f64(&groups.percent) {
        Some(text) => Some(Percent::Printed(text)),
        None => match (ok_num, total_num) {
            (Some(ok), Some(total)) if total > 0 => Some(Percent::Counted { ok, total }),
            _ => None,
        },
    };
    let is_progress = percent.is_some() || speed.is_some() || total_num.is_some();
    UploadEvent {
        kind: if is_progress {
            "progress"
        } else {
            "log"
        },
        task_id: None,
        line: Some(line.to_owned()),
        percent,
        speed,
        total_num,
        ok_num,
        code: None,
    }
}

/// What the expressions find in a line.
pub open spec fn groups_of(line: Seq<char>) -> GroupsView {
    GroupsView {
        percent: outside::regex_group(pattern::PERCENT@, line),
        speed: outside::regex_group(pattern::SPEED@, line),
        total_1x: outside::regex_group(pattern::TOTAL_1X@, line),
        total_2x: outside::regex_group(pattern::TOTAL_2X@, line),
        ok_1x: outside::regex_group(pattern::OK_1X@, line),
        ok_2x: outside::regex_group(pattern::OK_2X@, line),
    }
}

/// The event of a line.
pub open spec fn line_event(line: Seq<char>) -> EventView {
    event_of(line, groups_of(line))
}

/// `s` without the comma that it may start with.
pub open spec fn without_comma(s: Seq<char>) -> Seq<char> {
    if s.len() > 0 && s[0] == ',' {
        s.drop_first()
    } else {
        s
    }
}

/// Whether `line` is one that version 1 of `ossutil` prints while it works, with `n` files in all, of
/// which `k` are through: `Total num: 12, size: ... OK num: 3 ...`.
pub open spec fn is_version_1(
    line: Seq<char>,
    n: u64,
    middle: Seq<char>,
    k: u64,
    rest: Seq<char>,
) -> bool {
    &&& line == "Total num: "@ + number::decimal(n as nat) + middle + "OK num: "@ + number::decimal(
        k as nat,
    ) + rest
    &&& n < 0x20_0000_0000_0000 && k < 0x20_0000_0000_0000
    &&& middle.len() > 0 && pattern::ends_count(without_comma(middle))
    &&& pattern::ends_count(rest)
    &&& !text::mentions(middle, "ok"@)
    &&& !text::mentions(middle, "dealt"@)
}

/// Whether `line` is one that version 2 of `ossutil` prints while it works, with `n` files in all, of
/// which `k` are through: `Total 2 files, 12 B, 1 dirs, Upload done:(1 objects) failed:(0 objects)`.
pub open spec fn is_version_2(
    line: Seq<char>,
    n: u64,
    middle: Seq<char>,
    k: u64,
    rest: Seq<char>,
) -> bool {
    &&& line == "Total "@ + number::decimal(n as nat) + " files"@ + middle + "done:("@
        + number::decimal(k as nat) + " objects"@ + rest
    &&& n < 0x20_0000_0000_0000 && k < 0x20_0000_0000_0000
    &&& middle.len() > 0 && pattern::is_gap(middle[0]) && pattern::is_gap(middle.last())
    &&& !text::mentions(middle, "done:("@)
    &&& !text::mentions(line, "num:"@)
    &&& !text::mentions(line, "%"@)
}

/// The event of a line that `ossutil` printed.
///
/// Versions 1 and 2 print different lines, so each field is looked for on its own and may be
/// missing. Version 1 prints `Total num: 12, size: ... OK num: 3 ... speed: 1.2 MB/s`, version 2
/// `Total 2 files, 12 B, 1 dirs, Upload done:(1 objects) failed:(0 objects)`, and no percentage: it
/// is counted in files.
pub fn parse_line(line: &str) -> (res: UploadEvent)
    ensures
        res@ == line_event(line@),
        !text::mentions(line@, "%"@) ==> res@.percent == percent_of(
            None,
            res@.ok_num,
            res@.total_num,
        ),
        !text::mentions(line@, "b/s"@) ==> res@.speed is None,
        !text::mentions(line@, "total"@) ==> res@.total_num is None,
        !text::mentions(line@, "%"@) && !text::mentions(line@, "b/s"@) && !text::mentions(
            line@,
            "total"@,
        ) ==> res@.kind == "log"@,
        !text::mentions(line@, "done:("@) && !text::mentions(line@, "num:"@) ==> res@.ok_num is None,
        forall|before: Seq<char>, n: Seq<char>, gap: Seq<char>, after: Seq<char>| #[trigger]
            pattern::has_percent(line@, before, n, gap, after) ==> res@.percent == Some(
                PercentView::Printed(n),
            ),
        forall|
            before: Seq<char>,
            n: Seq<char>,
            gap: Seq<char>,
            unit: Seq<char>,
            after: Seq<char>,
        | #[trigger]
            pattern::has_speed(line@, before, n, gap, unit, after) ==> res@.speed == Some(
                n + gap + unit,
            ),
        forall|before: Seq<char>, n: Seq<char>, after: Seq<char>| #[trigger]
            pattern::has_total_1x(line@, before, n, after) && number::count_value(n) is Some
                ==> res@.total_num == number::count_value(n),
        forall|before: Seq<char>, n: Seq<char>, after: Seq<char>| #[trigger]
            pattern::has_total_2x(line@, before, n, after) && number::count_value(n) is Some
                && !text::mentions(line@, "num:"@) ==> res@.total_num == number::count_value(n),
        forall|before: Seq<char>, n: Seq<char>, after: Seq<char>| #[trigger]
            pattern::has_ok_1x(line@, before, n, after) && number::count_value(n) is Some
                ==> res@.ok_num == number::count_value(n),
        forall|before: Seq<char>, n: Seq<char>, after: Seq<char>| #[trigger]
            pattern::has_ok_2x(line@, before, n, after) && number::count_value(n) is Some
                && !text::mentions(line@, "num:"@) ==> res@.ok_num == number::count_value(n),
        forall|n: u64, middle: Seq<char>, k: u64, rest: Seq<char>| #[trigger]
            is_version_1(line@, n, middle, k, rest) ==> res@.kind == "progress"@ && res@.total_num
                == Some(n) && res@.ok_num == Some(k),
        forall|n: u64, middle: Seq<char>, k: u64, rest: Seq<char>| #[trigger]
            is_version_2(line@, n, middle, k, rest) ==> res@.kind == "progress"@ && res@.total_num
                == Some(n) && res@.ok_num == Some(k) && res@.percent == if n > 0 {
                Some(PercentView::Counted { ok: k, total: n })
            } else {
                None
            },
{
    let groups = LineGroups {
        percent: outside::first_group(pattern::PERCENT, line),
        speed: outside::first_group(pattern::SPEED, line),
        total_1x: outside::first_group(pattern::TOTAL_1X, line),
        total_2x: outside::first_group(pattern::TOTAL_2X, line),
        ok_1x: outside::first_group(pattern::OK_1X, line),
        ok_2x: outside::first_group(pattern::OK_2X, line),
    };
    let res = event_of_groups(line, &groups);
    proof {
        assert forall|before: Seq<char>, n: Seq<char>, gap: Seq<char>, after: Seq<char>| #[trigger]
            pattern::has_percent(line@, before, n, gap, after) implies res@.percent == Some(
            PercentView::Printed(n),
        ) by {
            number::lemma_no_commas(n);
        }
        assert forall|
            before: Seq<char>,
            n: Seq<char>,
            gap: Seq<char>,
            unit: Seq<char>,
            after: Seq<char>,
        | #[trigger]
            pattern::has_speed(line@, before, n, gap, unit, after) implies res@.speed == Some(
            n + gap + unit,
        ) by {
            lemma_speed_alone(n, gap, unit);
        }
        assert forall|n: u64, middle: Seq<char>, k: u64, rest: Seq<char>| #[trigger]
            is_version_1(line@, n, middle, k, rest) implies res@.kind == "progress"@
            && res@.total_num == Some(n) && res@.ok_num == Some(k) by {
            lemma_version_1(line@, n, middle, k, rest);
        }
        assert forall|n: u64, middle: Seq<char>, k: u64, rest: Seq<char>| #[trigger]
            is_version_2(line@, n, middle, k, rest) implies res@.kind == "progress"@
            && res@.total_num == Some(n) && res@.ok_num == Some(k) && res@.percent == if n > 0 {
            Some(PercentView::Counted { ok: k, total: n })
        } else {
            None
        } by {
            lemma_version_2(line@, n, middle, k, rest);
        }
    }
    res
}

proof fn lemma_speed_alone(n: Seq<char>, gap: Seq<char>, unit: Seq<char>)
    requires
        number::is_decimal_number(n),
        pattern::is_speed_unit(unit),
    ensures
        text::trimmed(n + gap + unit) == n + gap + unit,
{
    reveal_strlit("B/s");
    reveal_strlit("KB/s");
    reveal_strlit("MB/s");
    reveal_strlit("GB/s");
    reveal_strlit("TB/s");
    reveal_strlit("KiB/s");
    reveal_strlit("MiB/s");
    reveal_strlit("GiB/s");
    reveal_strlit("TiB/s");
    assert(unit.last() == 's');
    assert((n + gap + unit).last() == 's');
    assert((n + gap + unit)[0] == n[0]);
    text::lemma_stripped_alone(n + gap + unit, text::Margin::White);
}

proof fn lemma_decimal_is_count(n: u64)
    requires
        n < 0x20_0000_0000_0000,
    ensures
        pattern::is_count(number::decimal(n as nat)),
        number::count_value(number::decimal(n as nat)) == Some(n),
{
    number::lemma_decimal_digits(n as nat);
    number::lemma_count_reads_decimal(n);
}

/// A word that does not start in `front` stands in `front + s` only where it stands in `s`.
proof fn lemma_mentioned_behind(front: Seq<char>, s: Seq<char>, word: Seq<char>)
    requires
        word.len() >= 2,
        forall|i: int|
            0 <= i < front.len() && text::fold(#[trigger] front[i]) == word[0] ==> i + 1 < front.len()
                && text::fold(front[i + 1]) != word[1],
        text::mentions(front + s, word),
    ensures
        text::mentions(s, word),
{
    let all = text::folded(front + s);
    let i = choose|i: int|
        0 <= i <= all.len() - word.len() && #[trigger] all.subrange(i, i + word.len()) == word;
    let found = all.subrange(i, i + word.len());
    assert(found[0] == text::fold((front + s)[i]));
    assert(found[1] == text::fold((front + s)[i + 1]));
    if i < front.len() {
        assert(text::fold(front[i]) == word[0]);
        assert(text::fold(front[i + 1]) == word[1]);
    }
    let j = i - front.len();
    assert(text::folded(s).subrange(j, j + word.len()) =~= word) by {
        assert forall|k: int| 0 <= k < word.len() implies text::folded(s)[j + k] == word[k] by {
            assert(found[k] == text::fold((front + s)[i + k]));
        }
    }
}

proof fn lemma_version_1(line: Seq<char>, n: u64, middle: Seq<char>, k: u64, rest: Seq<char>)
    requires
        is_version_1(line, n, middle, k, rest),
    ensures
        exists|run: Seq<char>, after: Seq<char>|
            number::count_value(run) == Some(n) && #[trigger] pattern::has_total_1x(
                line,
                seq![],
                run,
                after,
            ),
        exists|before: Seq<char>|
            #[trigger] pattern::has_ok_1x(line, before, number::decimal(k as nat), rest),
        number::count_value(number::decimal(k as nat)) == Some(k),
{
    reveal_strlit("Total num: ");
    reveal_strlit("OK num: ");
    reveal_strlit("num:");
    reveal_strlit("ok");
    reveal_strlit("dealt");
    lemma_decimal_is_count(n);
    lemma_decimal_is_count(k);
    number::lemma_decimal_digits(n as nat);
    let digits = number::decimal(n as nat);
    let tail = "OK num: "@ + number::decimal(k as nat) + rest;
    let run = if middle[0] == ',' {
        digits.push(',')
    } else {
        digits
    };
    let after = without_comma(middle) + tail;
    assert(line =~= seq![] + "Total num: "@ + run + after);
    assert(number::count_value(run) == Some(n)) by {
        number::lemma_commas_do_not_matter(digits, seq![]);
        assert(digits + seq![','] + seq![] =~= digits.push(','));
        assert(digits + seq![] =~= digits);
    }
    assert(pattern::is_count(run));
    assert(tail[0] == 'O');
    assert(pattern::ends_count(after));
    assert(pattern::has_total_1x(line, seq![], run, after));
    let front = "Total num: "@ + digits;
    let before = front + middle;
    assert(line =~= before + "OK num: "@ + number::decimal(k as nat) + rest);
    assert forall|i: int| 0 <= i < front.len() implies text::fold(#[trigger] front[i]) != 'd' && (
    text::fold(front[i]) == 'o' ==> i == 1) by {
        if i >= 11 {
            assert(front[i] == digits[i - 11]);
        }
    }
    assert(front[2] == 't');
    if text::mentions(before, "ok"@) {
        lemma_mentioned_behind(front, middle, "ok"@);
    }
    if text::mentions(before, "dealt"@) {
        lemma_mentioned_behind(front, middle, "dealt"@);
    }
    assert(pattern::has_ok_1x(line, before, number::decimal(k as nat), rest));
}

proof fn lemma_version_2(line: Seq<char>, n: u64, middle: Seq<char>, k: u64, rest: Seq<char>)
    requires
        is_version_2(line, n, middle, k, rest),
    ensures
        exists|after: Seq<char>|
            #[trigger] pattern::has_total_2x(line, seq![], number::decimal(n as nat), after),
        exists|before: Seq<char>|
            #[trigger] pattern::has_ok_2x(line, before, number::decimal(k as nat), rest),
        number::count_value(number::decimal(n as nat)) == Some(n),
        number::count_value(number::decimal(k as nat)) == Some(k),
{
    reveal_strlit("Total ");
    reveal_strlit(" files");
    reveal_strlit("done:(");
    reveal_strlit(" objects");
    reveal_strlit("total");
    lemma_decimal_is_count(n);
    lemma_decimal_is_count(k);
    number::lemma_decimal_digits(n as nat);
    let digits = number::decimal(n as nat);
    let after = middle + "done:("@ + number::decimal(k as nat) + " objects"@ + rest;
    assert(line =~= seq![] + "Total "@ + digits + " files"@ + after);
    assert(after[0] == middle[0]);
    assert(pattern::has_total_2x(line, seq![], digits, after));
    let front = "Total "@ + digits + " files"@;
    let before = front + middle;
    assert(line =~= before + "done:("@ + number::decimal(k as nat) + " objects"@ + rest);
    assert(before.last() == middle.last());
    assert forall|i: int| 0 <= i < front.len() implies text::fold(#[trigger] front[i]) != 'd' by {
        if 6 <= i < 6 + digits.len() {
            assert(front[i] == digits[i - 6]);
        } else if i >= 6 {
            assert(front[i] == " files"@[i - 6 - digits.len()]);
        }
    }
    if text::mentions(before, "done:("@) {
        lemma_mentioned_behind(front, middle, "done:("@);
    }
    assert(pattern::has_ok_2x(line, before, number::decimal(k as nat), rest));
}

/// A line of which nothing was found is for the log.
pub proof fn lemma_plain_line_is_log(line: Seq<char>)
    ensures
        event_of(
            line,
            GroupsView {
                percent: None,
                speed: None,
                total_1x: None,
                total_2x: None,
                ok_1x: None,
                ok_2x: None,
            },
        ) == log_event(line),
{
}

/// A percentage makes sense: what was printed is a number, and what is counted is counted among at
/// least one file, by the counts of the same event.
pub proof fn lemma_percent_makes_sense(line: Seq<char>, groups: GroupsView)
    ensures
        event_of(line, groups).percent matches Some(PercentView::Printed(text))
            ==> number::is_decimal_number(text),
        event_of(line, groups).percent matches Some(PercentView::Counted { ok, total }) ==> total > 0
            && event_of(line, groups).ok_num == Some(ok) && event_of(line, groups).total_num == Some(
            total,
        ),
{
}

/// The event that tells the end of a task carries the exit code of the task, whatever it is, and says
/// it in its line; it names the task, and nothing of progress is in it.
pub proof fn lemma_end_carries_its_code(task_id: Seq<char>, code: i32)
    ensures
        ({
            let e = finished_event(task_id, code);
            &&& e.code == Some(code)
            &&& e.kind == "finished"@
            &&& e.task_id == Some(task_id)
            &&& e.line == Some("[exit] ossutil 退出码 "@ + number::signed_decimal(code as int))
            &&& e.percent is None && e.speed is None && e.total_num is None && e.ok_num is None
        }),
{
}

/// Tasks that end differently are told differently: two ends that are told alike are ends of the same
/// task with the same code.
pub proof fn lemma_ends_differ(id1: Seq<char>, code1: i32, id2: Seq<char>, code2: i32)
    requires
        finished_event(id1, code1).code == finished_event(id2, code2).code,
        finished_event(id1, code1).task_id == finished_event(id2, code2).task_id,
    ensures
        id1 == id2,
        code1 == code2,
{
}

/// A line for the log says the line, and nothing else.
pub proof fn lemma_log_says_its_line(line: Seq<char>)
    ensures
        ({
            let e = log_event(line);
            &&& e.kind == "log"@
            &&& e.line == Some(line)
            &&& e.task_id is None && e.code is None
            &&& e.percent is None && e.speed is None && e.total_num is None && e.ok_num is None
        }),
{
}

/// The announcement of a transfer says from where to where it goes, and the numbers that were asked
/// for, as they were asked for.
pub proof fn lemma_start_says_what_was_asked(
    source: Seq<char>,
    target: Seq<char>,
    jobs: u32,
    parallel: u32,
    mb: u64,
)
    ensures
        start_line(source, target, jobs, parallel, mb) == "[start] "@ + source + " -> "@ + target
            + "  (jobs="@ + number::decimal(jobs as nat) + ", parallel="@ + number::decimal(
            parallel as nat,
        ) + ", part-size="@ + number::decimal(mb as nat) + "MB)"@,
{
}

/// What was found in a line is told as it was found, each thing on its own: the number of files in
/// all and of those that are through in the form of version 1 where that can be read, else in the form
/// of version 2; the speed without white space round it; and the percentage that was printed, else the
/// share of the files. It is progress when a percentage, a speed or a number of files in all was found.
pub proof fn lemma_each_field_is_told(line: Seq<char>, groups: GroupsView)
    ensures
        ({
            let e = event_of(line, groups);
            let read = |group: Option<Seq<char>>|
                group is Some && number::count_value(group->0) is Some;
            &&& e.line == Some(line)
            &&& e.task_id is None && e.code is None
            &&& read(groups.total_1x) ==> e.total_num == number::count_value(groups.total_1x->0)
            &&& !read(groups.total_1x) && read(groups.total_2x) ==> e.total_num
                == number::count_value(groups.total_2x->0)
            &&& !read(groups.total_1x) && !read(groups.total_2x) ==> e.total_num is None
            &&& read(groups.ok_1x) ==> e.ok_num == number::count_value(groups.ok_1x->0)
            &&& !read(groups.ok_1x) && read(groups.ok_2x) ==> e.ok_num == number::count_value(
                groups.ok_2x->0,
            )
            &&& !read(groups.ok_1x) && !read(groups.ok_2x) ==> e.ok_num is None
            &&& groups.speed matches Some(s) ==> e.speed == Some(text::trimmed(s))
            &&& groups.speed is None ==> e.speed is None
            &&& groups.percent matches Some(p) ==> (number::number_value(p) matches Some(n)
                ==> e.percent == Some(PercentView::Printed(n)))
            &&& !(groups.percent is Some && number::number_value(groups.percent->0) is Some) ==> {
                if e.ok_num is Some && e.total_num is Some && e.total_num->0 > 0 {
                    e.percent == Some(
                        PercentView::Counted { ok: e.ok_num->0, total: e.total_num->0 },
                    )
                } else {
                    e.percent is None
                }
            }
            &&& e.percent is Some || e.speed is Some || e.total_num is Some ==> e.kind
                == "progress"@
            &&& e.percent is None && e.speed is None && e.total_num is None ==> e.kind == "log"@
        }),
{
}

/// Each thing is looked for in the whole line, with the expression that is meant for it.
pub proof fn lemma_each_field_has_its_expression(line: Seq<char>)
    ensures
        line_event(line) == event_of(line, groups_of(line)),
        groups_of(line).percent == outside::regex_group(r"(\d+(?:\.\d+)?)\s*%"@, line),
        groups_of(line).speed == outside::regex_group(r"(?i)([\d.]+\s*[KMGT]?i?B/s)"@, line),
        groups_of(line).total_1x == outside::regex_group(r"(?i)total\s+num:\s*([\d,]+)"@, line),
        groups_of(line).total_2x == outside::regex_group(
            r"(?i)total\s+([\d,]+)\s+files?\b"@,
            line,
        ),
        groups_of(line).ok_1x == outside::regex_group(
            r"(?i)(?:ok|dealt)\s+num:\s*([\d,]+)"@,
            line,
        ),
        groups_of(line).ok_2x == outside::regex_group(
            r"(?i)\bdone:\(\s*([\d,]+)\s+objects?"@,
            line,
        ),
{
}

/// An event says what it holds, field by field.
pub proof fn lemma_event_says_what_it_holds(e: UploadEvent)
    ensures
        e@.kind == e.kind@,
        e.task_id matches Some(s) ==> e@.task_id == Some(s@),
        e.task_id is None ==> e@.task_id is None,
        e.line matches Some(s) ==> e@.line == Some(s@),
        e.line is None ==> e@.line is None,
        e.speed matches Some(s) ==> e@.speed == Some(s@),
        e.speed is None ==> e@.speed is None,
        e@.total_num == e.total_num,
        e@.ok_num == e.ok_num,
        e@.code == e.code,
        e.percent is None ==> e@.percent is None,
        e.percent matches Some(Percent::Printed(s)) ==> e@.percent == Some(
            PercentView::Printed(s@),
        ),
        e.percent matches Some(Percent::Counted { ok, total }) ==> e@.percent == Some(
            PercentView::Counted { ok, total },
        ),
{
}

/// What was found in a line says what it holds, field by field.
pub proof fn lemma_groups_say_what_they_hold(g: LineGroups)
    ensures
        g.percent matches Some(s) ==> g@.percent == Some(s@),
        g.percent is None ==> g@.percent is None,
        g.speed matches Some(s) ==> g@.speed == Some(s@),
        g.speed is None ==> g@.speed is None,
        g.total_1x matches Some(s) ==> g@.total_1x == Some(s@),
        g.total_1x is None ==> g@.total_1x is None,
        g.total_2x matches Some(s) ==> g@.total_2x == Some(s@),
        g.total_2x is None ==> g@.total_2x is None,
        g.ok_1x matches Some(s) ==> g@.ok_1x == Some(s@),
        g.ok_1x is None ==> g@.ok_1x is None,
        g.ok_2x matches Some(s) ==> g@.ok_2x == Some(s@),
        g.ok_2x is None ==> g@.ok_2x is None,
{
}

} // verus!
