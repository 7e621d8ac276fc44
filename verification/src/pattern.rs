//! The regular expressions that the program reads `ossutil` with, and the texts that they are meant
//! for.
use crate::number;
use crate::text;
use vstd::prelude::*;

verus! {

/// A percentage.
pub const PERCENT: &'static str = r"(\d+(?:\.\d+)?)\s*%";

/// A speed: `1.2 MB/s` in version 1 of `ossutil`, `1.2 MiB/s` in version 2.
pub const SPEED: &'static str = r"(?i)([\d.]+\s*[KMGT]?i?B/s)";

/// The number of files in all, as version 1 prints it.
pub const TOTAL_1X: &'static str = r"(?i)total\s+num:\s*([\d,]+)";

/// The number of files in all, as version 2 prints it.
pub const TOTAL_2X: &'static str = r"(?i)total\s+([\d,]+)\s+files?\b";

/// The number of files that are through, as version 1 prints it.
pub const OK_1X: &'static str = r"(?i)(?:ok|dealt)\s+num:\s*([\d,]+)";

/// The number of files that are through, as version 2 prints it: `done:(3 objects`, and not
/// `failed:(3 objects`.
pub const OK_2X: &'static str = r"(?i)\bdone:\(\s*([\d,]+)\s+objects?";

/// The number of objects that a listing ends with.
pub const OBJECTS: &'static str = r"(?i)object\s+number\s+is:\s*([\d,]+)";

/// The region in the name of an endpoint.
pub const REGION: &'static str = r"(?i)^oss-([a-z]{2}-[a-z0-9-]+?)(?:-internal)?\.aliyuncs\.com$";

/// Whether `pattern` is one of the expressions above.
pub open spec fn is_pattern(pattern: Seq<char>) -> bool {
    ||| pattern == PERCENT@
    ||| pattern == SPEED@
    ||| pattern == TOTAL_1X@
    ||| pattern == TOTAL_2X@
    ||| pattern == OK_1X@
    ||| pattern == OK_2X@
    ||| pattern == OBJECTS@
    ||| pattern == REGION@
}

/// Whether `c` is an ASCII character that is no part of a word: no letter, no digit, no underscore.
pub open spec fn is_gap(c: char) -> bool {
    &&& c <= '\u{7f}'
    &&& !('a' <= c && c <= 'z')
    &&& !('A' <= c && c <= 'Z')
    &&& !number::is_digit(c)
    &&& c != '_'
}

/// Whether `s` is made of digits and commas only, and has at least one of them.
pub open spec fn is_count(s: Seq<char>) -> bool {
    s.len() > 0 && forall|i: int|
        0 <= i < s.len() ==> number::is_digit(#[trigger] s[i]) || s[i] == ','
}

/// Whether a count ends where `rest` begins: there is no more, or an ASCII character that is neither
/// a digit nor a comma.
pub open spec fn ends_count(rest: Seq<char>) -> bool {
    rest.len() > 0 ==> rest[0] <= '\u{7f}' && !number::is_digit(rest[0]) && rest[0] != ','
}

/// Whether a number begins where `before` ends: there is nothing before it, or an ASCII character
/// that is neither a digit nor a point.
pub open spec fn begins_number(before: Seq<char>) -> bool {
    before.len() > 0 ==> before.last() <= '\u{7f}' && !number::is_digit(before.last())
        && before.last() != '.'
}

/// Whether `s` is made of white space only.
pub open spec fn is_all_white(s: Seq<char>) -> bool {
    forall|i: int| 0 <= i < s.len() ==> text::is_white(#[trigger] s[i])
}

/// Whether `s` is `before`, a percentage with `gap` in front of its sign, and `after`.
pub open spec fn has_percent(
    s: Seq<char>,
    before: Seq<char>,
    n: Seq<char>,
    gap: Seq<char>,
    after: Seq<char>,
) -> bool {
    &&& s == before + n + gap + "%"@ + after
    &&& number::is_decimal_number(n)
    &&& is_all_white(gap)
    &&& begins_number(before)
    &&& !text::mentions(before, "%"@)
}

/// Whether `unit` is a unit of speed.
pub open spec fn is_speed_unit(unit: Seq<char>) -> bool {
    ||| unit == "B/s"@
    ||| unit == "KB/s"@
    ||| unit == "MB/s"@
    ||| unit == "GB/s"@
    ||| unit == "TB/s"@
    ||| unit == "KiB/s"@
    ||| unit == "MiB/s"@
    ||| unit == "GiB/s"@
    ||| unit == "TiB/s"@
}

/// Whether `s` is `before`, a speed with `gap` in front of its unit, and `after`.
pub open spec fn has_speed(
    s: Seq<char>,
    before: Seq<char>,
    n: Seq<char>,
    gap: Seq<char>,
    unit: Seq<char>,
    after: Seq<char>,
) -> bool {
    &&& s == before + n + gap + unit + after
    &&& number::is_decimal_number(n)
    &&& is_all_white(gap)
    &&& is_speed_unit(unit)
    &&& begins_number(before)
    &&& !text::mentions(before, "b/s"@)
}

/// Whether `s` is `before`, the number of files in all as version 1 prints it, and `after`.
pub open spec fn has_total_1x(s: Seq<char>, before: Seq<char>, n: Seq<char>, after: Seq<char>) -> bool {
    &&& s == before + "Total num: "@ + n + after
    &&& is_count(n)
    &&& ends_count(after)
    &&& !text::mentions(before, "num:"@)
}

/// Whether `s` is `before`, the number of files in all as version 2 prints it, and `after`.
pub open spec fn has_total_2x(s: Seq<char>, before: Seq<char>, n: Seq<char>, after: Seq<char>) -> bool {
    &&& s == before + "Total "@ + n + " files"@ + after
    &&& is_count(n)
    &&& after.len() > 0 ==> is_gap(after[0])
    &&& !text::mentions(before, "total"@)
}

/// Whether `s` is `before`, the number of files that are through as version 1 prints it, and
/// `after`.
pub open spec fn has_ok_1x(s: Seq<char>, before: Seq<char>, n: Seq<char>, after: Seq<char>) -> bool {
    &&& s == before + "OK num: "@ + n + after
    &&& is_count(n)
    &&& ends_count(after)
    &&& !text::mentions(before, "ok"@)
    &&& !text::mentions(before, "dealt"@)
}

/// Whether `s` is `before`, the number of files that are through as version 2 prints it, and
/// `after`.
pub open spec fn has_ok_2x(s: Seq<char>, before: Seq<char>, n: Seq<char>, after: Seq<char>) -> bool {
    &&& s == before + "done:("@ + n + " objects"@ + after
    &&& is_count(n)
    &&& before.len() > 0 ==> is_gap(before.last())
    &&& !text::mentions(before, "done:("@)
}

/// Whether `s` is `before`, the number of objects that a listing ends with, and `after`.
pub open spec fn has_objects(s: Seq<char>, before: Seq<char>, n: Seq<char>, after: Seq<char>) -> bool {
    &&& s == before + "Object Number is: "@ + n + after
    &&& is_count(n)
    &&& ends_count(after)
    &&& !text::mentions(before, "number"@)
}

/// The expressions for the objects of a listing and for the region of an endpoint.
pub proof fn lemma_other_expressions()
    ensures
        OBJECTS@ == r"(?i)object\s+number\s+is:\s*([\d,]+)"@,
        REGION@ == r"(?i)^oss-([a-z]{2}-[a-z0-9-]+?)(?:-internal)?\.aliyuncs\.com$"@,
{
}

} // verus!
