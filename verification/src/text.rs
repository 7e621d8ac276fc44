//! Text primitives: white space, trimming, line splitting, searching and joining.
//!
//! Every function works on the sequence of characters that a string views as.
use vstd::prelude::*;
use vstd::string::*;

verus! {

/// The Unicode `White_Space` property.
pub open spec fn is_white(c: char) -> bool {
    ||| '\u{9}' <= c && c <= '\u{d}'
    ||| c == ' '
    ||| c == '\u{85}'
    ||| c == '\u{a0}'
    ||| c == '\u{1680}'
    ||| '\u{2000}' <= c && c <= '\u{200a}'
    ||| c == '\u{2028}'
    ||| c == '\u{2029}'
    ||| c == '\u{202f}'
    ||| c == '\u{205f}'
    ||| c == '\u{3000}'
}

/// The white space of JSON.
pub open spec fn is_json_white(c: char) -> bool {
    c == ' ' || c == '\n' || c == '\t' || c == '\r'
}

/// Tells whether `c` is white space.
pub fn is_whitespace(c: char) -> (white: bool)
    ensures
        white == is_white(c),
{
    ('\u{9}' <= c && c <= '\u{d}') || c == ' ' || c == '\u{85}' || c == '\u{a0}' || c == '\u{1680}'
        || ('\u{2000}' <= c && c <= '\u{200a}') || c == '\u{2028}' || c == '\u{2029}' || c
        == '\u{202f}' || c == '\u{205f}' || c == '\u{3000}'
}

/// What trimming takes away from the ends of a text.
#[derive(Clone, Copy)]
pub enum Margin {
    /// White space.
    White,
    /// The slash.
    Slash,
    /// The white space of JSON.
    Json,
}

impl Margin {
    /// Whether this margin takes `c` away.
    pub open spec fn drops(self, c: char) -> bool {
        match self {
            Margin::White => is_white(c),
            Margin::Slash => c == '/',
            Margin::Json => is_json_white(c),
        }
    }

    fn takes(self, c: char) -> (taken: bool)
        ensures
            taken == self.drops(c),
    {
        match self {
            Margin::White => is_whitespace(c),
            Margin::Slash => c == '/',
            Margin::Json => c == ' ' || c == '\n' || c == '\t' || c == '\r',
        }
    }
}

/// `s` without the margin at its start.
pub open spec fn strip_start(s: Seq<char>, margin: Margin) -> Seq<char>
    decreases s.len(),
{
    if s.len() > 0 && margin.drops(s[0]) {
        strip_start(s.drop_first(), margin)
    } else {
        s
    }
}

/// `s` without the margin at its end.
pub open spec fn strip_end(s: Seq<char>, margin: Margin) -> Seq<char>
    decreases s.len(),
{
    if s.len() > 0 && margin.drops(s.last()) {
        strip_end(s.drop_last(), margin)
    } else {
        s
    }
}

/// `s` without the margin at both ends.
pub open spec fn stripped(s: Seq<char>, margin: Margin) -> Seq<char> {
    strip_end(strip_start(s, margin), margin)
}

/// `s` without surrounding white space.
pub open spec fn trimmed(s: Seq<char>) -> Seq<char> {
    stripped(s, Margin::White)
}

/// Stripping the start of a text leaves what follows the margin.
pub proof fn lemma_strip_start_at(s: Seq<char>, margin: Margin, k: int)
    requires
        0 <= k <= s.len(),
        forall|i: int| 0 <= i < k ==> margin.drops(#[trigger] s[i]),
        k == s.len() || !margin.drops(s[k]),
    ensures
        strip_start(s, margin) == s.skip(k),
    decreases k,
{
    if k > 0 {
        let rest = s.drop_first();
        assert forall|i: int| 0 <= i < k - 1 implies margin.drops(#[trigger] rest[i]) by {
            assert(rest[i] == s[i + 1]);
        }
        lemma_strip_start_at(rest, margin, k - 1);
        assert(rest.skip(k - 1) =~= s.skip(k));
    } else {
        assert(s.skip(0) =~= s);
    }
}

proof fn lemma_strip_end_at(s: Seq<char>, margin: Margin, k: int)
    requires
        0 <= k <= s.len(),
        forall|i: int| k <= i < s.len() ==> margin.drops(#[trigger] s[i]),
        k == 0 || !margin.drops(s[k - 1]),
    ensures
        strip_end(s, margin) == s.take(k),
    decreases s.len(),
{
    if k < s.len() {
        lemma_strip_end_at(s.drop_last(), margin, k);
        assert(s.drop_last().take(k) =~= s.take(k));
    } else {
        assert(s.take(k) =~= s);
    }
}

/// The ends of a stripped text are not margin, and stripping leaves a text of that kind alone.
pub proof fn lemma_stripped_ends(s: Seq<char>, margin: Margin)
    ensures
        stripped(s, margin).len() > 0 ==> !margin.drops(stripped(s, margin)[0]) && !margin.drops(
            stripped(s, margin).last(),
        ),
        stripped(stripped(s, margin), margin) == stripped(s, margin),
{
    lemma_strip_start_first(s, margin);
    let t = strip_start(s, margin);
    lemma_strip_end_last(t, margin);
    let u = strip_end(t, margin);
    if u.len() > 0 {
        assert(u[0] == t[0]);
    }
}

/// A stripped start does not begin with margin.
pub proof fn lemma_strip_start_first(s: Seq<char>, margin: Margin)
    ensures
        strip_start(s, margin).len() > 0 ==> !margin.drops(strip_start(s, margin)[0]),
    decreases s.len(),
{
    if s.len() > 0 && margin.drops(s[0]) {
        lemma_strip_start_first(s.drop_first(), margin);
    }
}

/// A stripped end is a prefix that does not end with margin.
pub proof fn lemma_strip_end_last(s: Seq<char>, margin: Margin)
    ensures
        strip_end(s, margin).len() <= s.len(),
        strip_end(s, margin) == s.take(strip_end(s, margin).len() as int),
        strip_end(s, margin).len() > 0 ==> !margin.drops(strip_end(s, margin).last()),
    decreases s.len(),
{
    if s.len() > 0 && margin.drops(s.last()) {
        lemma_strip_end_last(s.drop_last(), margin);
        let n = strip_end(s, margin).len() as int;
        assert(s.drop_last().take(n) =~= s.take(n));
    } else {
        assert(s.take(s.len() as int) =~= s);
    }
}

/// Stripping the start of a text with one more character of margin behind it: where something else
/// is left, the character stays behind it, and where nothing is, it goes too.
pub proof fn lemma_strip_start_push(s: Seq<char>, margin: Margin, c: char)
    requires
        margin.drops(c),
    ensures
        strip_start(s.push(c), margin) == if strip_start(s, margin).len() > 0 {
            strip_start(s, margin).push(c)
        } else {
            seq![]
        },
    decreases s.len(),
{
    if s.len() == 0 {
        reveal_with_fuel(strip_start, 2);
        assert(s.push(c).drop_first() =~= seq![]);
    } else {
        assert(s.push(c).drop_first() =~= s.drop_first().push(c));
        if margin.drops(s[0]) {
            lemma_strip_start_push(s.drop_first(), margin, c);
        }
    }
}

/// A text whose ends are not margin is left alone.
pub proof fn lemma_stripped_alone(s: Seq<char>, margin: Margin)
    requires
        s.len() > 0,
        !margin.drops(s[0]),
        !margin.drops(s.last()),
    ensures
        stripped(s, margin) == s,
{
}

/// The characters of `s`.
pub fn chars_of(s: &str) -> (chars: Vec<char>)
    ensures
        chars@ == s@,
{
    let mut chars: Vec<char> = Vec::new();
    for c in it: s.chars()
        invariant
            it.seq() == s@,
            chars@ == s@.take(it.index()),
    {
        chars.push(c);
    }
    chars
}

fn strip(s: &str, margin: Margin) -> (res: &str)
    ensures
        res@ == stripped(s@, margin),
{
    let chars = chars_of(s);
    let n: usize = chars.len();
    let mut from: usize = 0;
    while from < n && margin.takes(chars[from])
        invariant
            n == chars.len(),
            0 <= from <= n,
            forall|i: int| 0 <= i < from ==> margin.drops(#[trigger] chars@[i]),
        ensures
            0 <= from <= n,
            from == n || !margin.drops(chars@[from as int]),
            forall|i: int| 0 <= i < from ==> margin.drops(#[trigger] chars@[i]),
        decreases n - from,
    {
        from = from + 1;
    }
    let mut to: usize = n;
    while to > from && margin.takes(chars[to - 1])
        invariant
            n == chars.len(),
            from <= to <= n,
            forall|i: int| to <= i < n ==> margin.drops(#[trigger] chars@[i]),
        ensures
            from <= to <= n,
            to == from || !margin.drops(chars@[to - 1]),
            forall|i: int| to <= i < n ==> margin.drops(#[trigger] chars@[i]),
        decreases to - from,
    {
        to = to - 1;
    }
    proof {
        lemma_strip_start_at(s@, margin, from as int);
        let rest = s@.skip(from as int);
        assert forall|i: int| to - from <= i < rest.len() implies margin.drops(
            #[trigger] rest[i],
        ) by {
            assert(rest[i] == chars@[i + from]);
        }
        lemma_strip_end_at(rest, margin, to - from);
        assert(rest.take(to - from) =~= s@.subrange(from as int, to as int));
    }
    s.substring_char(from, to)
}

/// `s` without surrounding white space.
pub fn trim(s: &str) -> (res: &str)
    ensures
        res@ == trimmed(s@),
{
    strip(s, Margin::White)
}

/// `s` without the white space of JSON round it.
pub fn trim_json(s: &str) -> (res: &str)
    ensures
        res@ == stripped(s@, Margin::Json),
{
    strip(s, Margin::Json)
}

/// `s` without surrounding slashes.
pub fn trim_slashes(s: &str) -> (res: &str)
    ensures
        res@ == stripped(s@, Margin::Slash),
{
    strip(s, Margin::Slash)
}

/// `s` without white space at its end.
pub fn trim_end(s: &str) -> (res: &str)
    ensures
        res@ == strip_end(s@, Margin::White),
{
    let chars = chars_of(s);
    let n: usize = chars.len();
    let mut to: usize = n;
    while to > 0 && is_whitespace(chars[to - 1])
        invariant
            n == chars.len(),
            to <= n,
            forall|i: int| to <= i < n ==> Margin::White.drops(#[trigger] chars@[i]),
        ensures
            to <= n,
            to == 0 || !is_white(chars@[to - 1]),
            forall|i: int| to <= i < n ==> Margin::White.drops(#[trigger] chars@[i]),
        decreases to,
    {
        to = to - 1;
    }
    proof {
        lemma_strip_end_at(s@, Margin::White, to as int);
        assert(s@.take(to as int) =~= s@.subrange(0, to as int));
    }
    s.substring_char(0, to)
}

/// The texts that a list of strings holds.
pub open spec fn texts(list: Seq<String>) -> Seq<Seq<char>> {
    list.map_values(|s: String| s@)
}

/// The string of the characters from `from` up to `to`.
fn text_between(chars: &Vec<char>, from: usize, to: usize) -> (res: String)
    requires
        from <= to <= chars.len(),
    ensures
        res@ == chars@.subrange(from as int, to as int),
{
    let mut res = String::new();
    let mut i: usize = from;
    while i < to
        invariant
            from <= i <= to <= chars.len(),
            res@ == chars@.subrange(from as int, i as int),
        decreases to - i,
    {
        res.push(chars[i]);
        i = i + 1;
        assert(res@ =~= chars@.subrange(from as int, i as int));
    }
    res
}

/// The position of the first line feed of `s`, or its length when it has none.
pub open spec fn line_feed_at(s: Seq<char>) -> int
    decreases s.len(),
{
    if s.len() == 0 || s[0] == '\n' {
        0
    } else {
        1 + line_feed_at(s.drop_first())
    }
}

/// `s` without the carriage return that it may end with.
pub open spec fn without_return(s: Seq<char>) -> Seq<char> {
    if s.len() > 0 && s.last() == '\r' {
        s.drop_last()
    } else {
        s
    }
}

/// The lines of `s`. A line ends with a line feed, or with a carriage return and a line feed; what
/// follows the last line feed is a line when it is not empty, and keeps its carriage return.
pub open spec fn lines(s: Seq<char>) -> Seq<Seq<char>>
    decreases s.len(),
    via lines_decreases
{
    if s.len() == 0 {
        seq![]
    } else if line_feed_at(s) >= s.len() {
        seq![s]
    } else {
        seq![without_return(s.take(line_feed_at(s)))] + lines(s.skip(line_feed_at(s) + 1))
    }
}

#[via_fn]
proof fn lines_decreases(s: Seq<char>) {
    lemma_line_feed_in_range(s);
}

/// The first line feed lies in the text, or at its end where there is none, and no line feed lies
/// before it.
pub proof fn lemma_line_feed_in_range(s: Seq<char>)
    ensures
        0 <= line_feed_at(s) <= s.len(),
        line_feed_at(s) < s.len() ==> s[line_feed_at(s)] == '\n',
        forall|i: int| 0 <= i < line_feed_at(s) ==> #[trigger] s[i] != '\n',
    decreases s.len(),
{
    if s.len() > 0 && s[0] != '\n' {
        lemma_line_feed_in_range(s.drop_first());
        assert forall|i: int| 0 <= i < line_feed_at(s) implies #[trigger] s[i] != '\n' by {
            if i > 0 {
                assert(s.drop_first()[i - 1] == s[i]);
            }
        }
    }
}

proof fn lemma_line_feed_at(s: Seq<char>, k: int)
    requires
        0 <= k <= s.len(),
        forall|i: int| 0 <= i < k ==> #[trigger] s[i] != '\n',
        k == s.len() || s[k] == '\n',
    ensures
        line_feed_at(s) == k,
    decreases k,
{
    if k > 0 {
        let rest = s.drop_first();
        assert forall|i: int| 0 <= i < k - 1 implies #[trigger] rest[i] != '\n' by {
            assert(rest[i] == s[i + 1]);
        }
        lemma_line_feed_at(rest, k - 1);
    }
}

/// The lines of `s`.
pub fn lines_of(s: &str) -> (res: Vec<String>)
    ensures
        texts(res@) == lines(s@),
{
    let chars = chars_of(s);
    let n: usize = chars.len();
    let mut res: Vec<String> = Vec::new();
    let mut start: usize = 0;
    let mut i: usize = 0;
    assert(s@.skip(0) =~= s@);
    assert(texts(res@) + lines(s@) =~= lines(s@));
    while i < n
        invariant
            n == chars.len(),
            chars@ == s@,
            start <= i <= n,
            forall|j: int| start <= j < i ==> #[trigger] chars@[j] != '\n',
            texts(res@) + lines(s@.skip(start as int)) == lines(s@),
        decreases n - i,
    {
        if chars[i] == '\n' {
            let end: usize = if i > start && chars[i - 1] == '\r' {
                i - 1
            } else {
                i
            };
            let line = text_between(&chars, start, end);
            let ghost before = texts(res@);
            let ghost rest = s@.skip(start as int);
            proof {
                assert forall|j: int| 0 <= j < i - start implies #[trigger] rest[j] != '\n' by {
                    assert(rest[j] == chars@[j + start]);
                }
                lemma_line_feed_at(rest, i - start);
                assert(rest.take(i - start) =~= s@.subrange(start as int, i as int));
                assert(without_return(rest.take(i - start)) =~= line@);
                assert(rest.skip(i - start + 1) =~= s@.skip(i + 1));
            }
            res.push(line);
            start = i + 1;
            proof {
                assert(texts(res@) =~= before.push(line@));
                assert(lines(rest) == seq![line@] + lines(s@.skip(start as int)));
                assert(before.push(line@) + lines(s@.skip(start as int)) =~= before + lines(rest));
            }
        }
        i = i + 1;
    }
    let ghost rest = s@.skip(start as int);
    let ghost before = texts(res@);
    if start < n {
        let line = text_between(&chars, start, n);
        proof {
            assert forall|j: int| 0 <= j < rest.len() implies #[trigger] rest[j] != '\n' by {
                assert(rest[j] == chars@[j + start]);
            }
            lemma_line_feed_at(rest, rest.len() as int);
            assert(line@ =~= rest);
        }
        res.push(line);
        proof {
            assert(texts(res@) =~= before.push(line@));
            assert(before.push(line@) =~= before + lines(rest));
        }
    } else {
        assert(before + lines(rest) =~= before);
    }
    res
}

/// Tells whether `s` starts with `prefix`.
pub fn starts_with(s: &str, prefix: &str) -> (res: bool)
    ensures
        res == prefix@.is_prefix_of(s@),
{
    let a = chars_of(s);
    let b = chars_of(prefix);
    if b.len() > a.len() {
        return false;
    }
    let mut i: usize = 0;
    while i < b.len()
        invariant
            i <= b.len() <= a.len(),
            a@ == s@,
            b@ == prefix@,
            a@.take(i as int) == b@.take(i as int),
        decreases b.len() - i,
    {
        if a[i] != b[i] {
            assert(s@.subrange(0, prefix@.len() as int)[i as int] == s@[i as int]);
            return false;
        }
        i = i + 1;
        assert(a@.take(i as int) =~= b@.take(i as int)) by {
            assert(a@.take(i as int) =~= a@.take(i - 1).push(a@[i - 1]));
            assert(b@.take(i as int) =~= b@.take(i - 1).push(b@[i - 1]));
        }
    }
    assert(b@.take(i as int) =~= prefix@);
    assert(s@.subrange(0, prefix@.len() as int) =~= a@.take(i as int));
    true
}

/// Tells whether `s` ends with `suffix`.
pub fn ends_with(s: &str, suffix: &str) -> (res: bool)
    ensures
        res == suffix@.is_suffix_of(s@),
{
    let a = chars_of(s);
    let b = chars_of(suffix);
    if b.len() > a.len() {
        return false;
    }
    let shift: usize = a.len() - b.len();
    let mut i: usize = 0;
    while i < b.len()
        invariant
            i <= b.len() <= a.len(),
            shift == a.len() - b.len(),
            a@ == s@,
            b@ == suffix@,
            forall|j: int| 0 <= j < i ==> #[trigger] a@[j + shift] == b@[j],
        decreases b.len() - i,
    {
        if a[shift + i] != b[i] {
            assert(s@.subrange(shift as int, s@.len() as int)[i as int] == s@[i + shift]);
            return false;
        }
        i = i + 1;
    }
    assert(s@.subrange(shift as int, s@.len() as int) =~= suffix@) by {
        assert forall|j: int| 0 <= j < suffix@.len() implies s@.subrange(
            shift as int,
            s@.len() as int,
        )[j] == suffix@[j] by {
            assert(a@[j + shift] == b@[j]);
        }
    }
    true
}

/// The texts of `parts`, in order, with `separator` between each two of them.
pub open spec fn joined(parts: Seq<Seq<char>>, separator: Seq<char>) -> Seq<char>
    decreases parts.len(),
{
    if parts.len() == 0 {
        seq![]
    } else if parts.len() == 1 {
        parts[0]
    } else {
        joined(parts.drop_last(), separator) + separator + parts.last()
    }
}

/// Joins `parts` with `separator`.
pub fn join(parts: &Vec<String>, separator: &str) -> (res: String)
    ensures
        res@ == joined(texts(parts@), separator@),
{
    let mut res = String::new();
    let mut i: usize = 0;
    while i < parts.len()
        invariant
            i <= parts.len(),
            res@ == joined(texts(parts@).take(i as int), separator@),
        decreases parts.len() - i,
    {
        let ghost before = texts(parts@).take(i as int);
        let ghost after = texts(parts@).take(i + 1);
        assert(after.drop_last() =~= before);
        if i > 0 {
            res.append(separator);
        }
        res.append(parts[i].as_str());
        proof {
            assert(after.last() == parts@[i as int]@);
            if i == 0 {
                assert(before =~= seq![]);
                assert(res@ =~= parts@[0]@);
            }
        }
        i = i + 1;
    }
    assert(texts(parts@).take(i as int) =~= texts(parts@));
    res
}

/// Whether `word` stands somewhere in `s`.
pub open spec fn occurs(word: Seq<char>, s: Seq<char>) -> bool {
    exists|i: int|
        0 <= i <= s.len() - word.len() && #[trigger] s.subrange(i, i + word.len()) == word
}

/// The lower case of `c`, for the letters `A` to `Z` and the Kelvin sign: the characters whose
/// lower case is one of the letters `a` to `z`.
pub open spec fn lower(c: char) -> char {
    if 'A' <= c && c <= 'Z' {
        (c as u32 + 32) as char
    } else if c == '\u{212a}' {
        'k'
    } else {
        c
    }
}

/// `s` with each character replaced by its lower case.
pub open spec fn lowered(s: Seq<char>) -> Seq<char> {
    s.map_values(|c: char| lower(c))
}

/// What case-insensitive matching takes `c` for, where it looks for one of the letters `a` to `z`:
/// the lower case, and `s` for the long s.
pub open spec fn fold(c: char) -> char {
    if c == '\u{17f}' {
        's'
    } else {
        lower(c)
    }
}

/// `s` with each character replaced by what case-insensitive matching takes it for.
pub open spec fn folded(s: Seq<char>) -> Seq<char> {
    s.map_values(|c: char| fold(c))
}

/// Whether `word`, in lower case, stands somewhere in `s`, in whatever case.
pub open spec fn mentions(s: Seq<char>, word: Seq<char>) -> bool {
    occurs(word, folded(s))
}

fn lower_of(c: char) -> (res: char)
    ensures
        res == lower(c),
{
    if 'A' <= c && c <= 'Z' {
        (c as u8 + 32) as char
    } else if c == '\u{212a}' {
        'k'
    } else {
        c
    }
}

/// `s` with the letters `A` to `Z` and the Kelvin sign in lower case.
pub fn lowercase(s: &str) -> (res: String)
    ensures
        res@ == lowered(s@),
{
    let mut res = String::new();
    for c in it: s.chars()
        invariant
            it.seq() == s@,
            res@ == lowered(s@.take(it.index())),
    {
        res.push(lower_of(c));
        assert(res@ =~= lowered(s@.take(it.index() + 1)));
    }
    assert(s@.take(s@.len() as int) =~= s@);
    res
}

/// Tells whether `word` stands somewhere in `s`.
pub fn contains(s: &str, word: &str) -> (res: bool)
    ensures
        res == occurs(word@, s@),
{
    let a = chars_of(s);
    let b = chars_of(word);
    if b.len() > a.len() {
        return false;
    }
    let last: usize = a.len() - b.len();
    let mut i: usize = 0;
    loop
        invariant
            a@ == s@,
            b@ == word@,
            last == a.len() - b.len(),
            i <= last,
            forall|k: int| 0 <= k < i ==> #[trigger] s@.subrange(k, k + word@.len()) != word@,
        decreases last - i,
    {
        let mut j: usize = 0;
        let ghost window = s@.subrange(i as int, i + word@.len());
        while j < b.len() && a[i + j] == b[j]
            invariant
                a@ == s@,
                b@ == word@,
                last == a.len() - b.len(),
                i <= last,
                j <= b.len(),
                window == s@.subrange(i as int, i + word@.len()),
                forall|k: int| 0 <= k < j ==> #[trigger] window[k] == word@[k],
            ensures
                j <= b.len(),
                j < b.len() ==> window[j as int] != word@[j as int],
                forall|k: int| 0 <= k < j ==> #[trigger] window[k] == word@[k],
            decreases b.len() - j,
        {
            j = j + 1;
        }
        if j == b.len() {
            assert(window =~= word@);
            return true;
        }
        assert(window != word@);
        if i == last {
            return false;
        }
        i = i + 1;
    }
}

proof fn lemma_stripped_core(a: Seq<char>, core: Seq<char>, b: Seq<char>, margin: Margin)
    requires
        forall|i: int| 0 <= i < a.len() ==> margin.drops(#[trigger] a[i]),
        forall|i: int| 0 <= i < b.len() ==> margin.drops(#[trigger] b[i]),
        core.len() > 0 ==> !margin.drops(core[0]) && !margin.drops(core.last()),
    ensures
        stripped(a + core + b, margin) == core,
        strip_end(core + b, margin) == core,
{
    let s = a + core + b;
    let rest = core + b;
    assert forall|i: int| core.len() <= i < rest.len() implies margin.drops(#[trigger] rest[i]) by {
        assert(rest[i] == b[i - core.len()]);
    }
    lemma_strip_end_at(rest, margin, core.len() as int);
    assert(rest.take(core.len() as int) =~= core);
    if core.len() == 0 {
        assert forall|i: int| 0 <= i < s.len() implies margin.drops(#[trigger] s[i]) by {
            if i < a.len() {
                assert(s[i] == a[i]);
            } else {
                assert(s[i] == b[i - a.len()]);
            }
        }
        lemma_strip_start_at(s, margin, s.len() as int);
        assert(s.skip(s.len() as int) =~= core);
        assert(strip_end(core, margin) == core);
    } else {
        assert forall|i: int| 0 <= i < a.len() implies margin.drops(#[trigger] s[i]) by {
            assert(s[i] == a[i]);
        }
        assert(s[a.len() as int] == core[0]);
        lemma_strip_start_at(s, margin, a.len() as int);
        assert(s.skip(a.len() as int) =~= rest);
    }
}

/// Trimming takes all white space away from both ends of a text, and nothing else: what stands
/// between is given back as it is, however long. At its end alone, likewise.
pub proof fn lemma_trimmed_is_core(a: Seq<char>, core: Seq<char>, b: Seq<char>)
    requires
        forall|i: int| 0 <= i < a.len() ==> is_white(#[trigger] a[i]),
        forall|i: int| 0 <= i < b.len() ==> is_white(#[trigger] b[i]),
        core.len() > 0 ==> !is_white(core[0]) && !is_white(core.last()),
    ensures
        trimmed(a + core + b) == core,
        strip_end(core + b, Margin::White) == core,
{
    lemma_stripped_core(a, core, b, Margin::White);
}

/// Trimming slashes takes all slashes away from both ends of a text, and nothing else.
pub proof fn lemma_slashes_are_stripped(a: Seq<char>, core: Seq<char>, b: Seq<char>)
    requires
        forall|i: int| 0 <= i < a.len() ==> #[trigger] a[i] == '/',
        forall|i: int| 0 <= i < b.len() ==> #[trigger] b[i] == '/',
        core.len() > 0 ==> core[0] != '/' && core.last() != '/',
    ensures
        stripped(a + core + b, Margin::Slash) == core,
{
    lemma_stripped_core(a, core, b, Margin::Slash);
}

/// Trimming the white space of JSON takes all spaces, line feeds, tabs and carriage returns away from
/// both ends of a text, and nothing else.
pub proof fn lemma_json_white_is_stripped(a: Seq<char>, core: Seq<char>, b: Seq<char>)
    requires
        forall|i: int|
            0 <= i < a.len() ==> #[trigger] a[i] == ' ' || a[i] == '\n' || a[i] == '\t' || a[i]
                == '\r',
        forall|i: int|
            0 <= i < b.len() ==> #[trigger] b[i] == ' ' || b[i] == '\n' || b[i] == '\t' || b[i]
                == '\r',
        core.len() > 0 ==> !(core[0] == ' ' || core[0] == '\n' || core[0] == '\t' || core[0] == '\r'),
        core.len() > 0 ==> !(core.last() == ' ' || core.last() == '\n' || core.last() == '\t'
            || core.last() == '\r'),
    ensures
        stripped(a + core + b, Margin::Json) == core,
{
    assert forall|i: int| 0 <= i < a.len() implies Margin::Json.drops(#[trigger] a[i]) by {
    }
    assert forall|i: int| 0 <= i < b.len() implies Margin::Json.drops(#[trigger] b[i]) by {
    }
    lemma_stripped_core(a, core, b, Margin::Json);
}

/// What stands before a line feed is a line, without the carriage return that it may end with, and
/// the other lines are those of what follows. What has no line feed is one line, unless it is empty.
pub proof fn lemma_lines_are_cut_at_line_feeds(line: Seq<char>, rest: Seq<char>)
    requires
        forall|i: int| 0 <= i < line.len() ==> #[trigger] line[i] != '\n',
    ensures
        lines(line + seq!['\n'] + rest) == seq![
            if line.len() > 0 && line.last() == '\r' {
                line.drop_last()
            } else {
                line
            },
        ] + lines(rest),
        line.len() > 0 ==> lines(line) == seq![line],
        lines(Seq::<char>::empty()) == Seq::<Seq<char>>::empty(),
{
    let s = line + seq!['\n'] + rest;
    let n = line.len() as int;
    assert forall|i: int| 0 <= i < n implies #[trigger] s[i] != '\n' by {
        assert(s[i] == line[i]);
    }
    assert(s[n] == '\n');
    lemma_line_feed_at(s, n);
    assert(s.take(n) =~= line);
    assert(s.skip(n + 1) =~= rest);
    lemma_line_feed_at(line, n);
}

/// Parts are joined one after the other, each with the separator before it but for the first.
pub proof fn lemma_joined_one_by_one(parts: Seq<Seq<char>>, part: Seq<char>, separator: Seq<char>)
    ensures
        joined(Seq::<Seq<char>>::empty(), separator) == Seq::<char>::empty(),
        joined(seq![part], separator) == part,
        parts.len() > 0 ==> joined(parts.push(part), separator) == joined(parts, separator)
            + separator + part,
{
    assert(parts.push(part).drop_last() =~= parts);
}

/// A word stands in a text exactly where the text is something, the word, and something.
pub proof fn lemma_occurs_between(word: Seq<char>, a: Seq<char>, b: Seq<char>)
    ensures
        occurs(word, a + word + b),
{
    let s = a + word + b;
    let i = a.len() as int;
    assert(s.subrange(i, i + word.len()) =~= word);
}

/// A word that stands in a text has something before it and something behind it that make up the
/// text.
pub proof fn lemma_occurs_splits(word: Seq<char>, s: Seq<char>) -> (sides: (Seq<char>, Seq<char>))
    requires
        occurs(word, s),
    ensures
        s == sides.0 + word + sides.1,
{
    let i = choose|i: int|
        0 <= i <= s.len() - word.len() && #[trigger] s.subrange(i, i + word.len()) == word;
    let a = s.take(i);
    let b = s.skip(i + word.len());
    assert forall|k: int| 0 <= k < word.len() implies #[trigger] word[k] == s[i + k] by {
        assert(s.subrange(i, i + word.len())[k] == s[i + k]);
    }
    assert(s =~= a + word + b);
    (a, b)
}

/// Lower case goes character by character: a letter from `A` to `Z` becomes the one 32 places on, the
/// Kelvin sign becomes `k`, and every other character stays. To fold a text does the same, and makes
/// the long s an `s`.
pub proof fn lemma_case_is_changed_one_by_one(s: Seq<char>, i: int)
    requires
        0 <= i < s.len(),
    ensures
        lowered(s).len() == s.len(),
        folded(s).len() == s.len(),
        'A' <= s[i] && s[i] <= 'Z' ==> lowered(s)[i] as int == s[i] as int + 32,
        s[i] == '\u{212a}' ==> lowered(s)[i] == 'k',
        !('A' <= s[i] && s[i] <= 'Z') && s[i] != '\u{212a}' ==> lowered(s)[i] == s[i],
        folded(s)[i] == if s[i] == '\u{17f}' {
            's'
        } else {
            lowered(s)[i]
        },
{
}

/// Texts keep their number and their order.
pub proof fn lemma_texts_one_by_one(list: Seq<String>, i: int)
    requires
        0 <= i < list.len(),
    ensures
        texts(list).len() == list.len(),
        texts(list)[i] == list[i]@,
{
}

/// A trimmed text is a part of the text, without white space at its ends.
pub proof fn lemma_trimmed_part(s: Seq<char>)
    ensures
        forall|i: int| 0 <= i < trimmed(s).len() ==> s.contains(#[trigger] trimmed(s)[i]),
        trimmed(s).len() > 0 ==> !is_white(trimmed(s)[0]) && !is_white(trimmed(s).last()),
{
    lemma_stripped_ends(s, Margin::White);
    lemma_strip_start_part(s, Margin::White);
    let t = strip_start(s, Margin::White);
    lemma_strip_end_last(t, Margin::White);
    assert forall|i: int| 0 <= i < trimmed(s).len() implies s.contains(#[trigger] trimmed(s)[i]) by {
        assert(trimmed(s)[i] == t[i]);
        assert(t[i] == s[i + s.len() - t.len()]);
    }
}

proof fn lemma_strip_start_part(s: Seq<char>, margin: Margin)
    ensures
        strip_start(s, margin).len() <= s.len(),
        strip_start(s, margin) == s.skip(s.len() - strip_start(s, margin).len()),
    decreases s.len(),
{
    if s.len() > 0 && margin.drops(s[0]) {
        lemma_strip_start_part(s.drop_first(), margin);
        let n = strip_start(s, margin).len();
        assert(s.drop_first().skip(s.len() - 1 - n) =~= s.skip(s.len() - n));
    } else {
        assert(s.skip(0) =~= s);
    }
}

/// Stripping the end of a text leaves its start up to the last character that is not white space; all
/// that is taken away is white space.
pub proof fn lemma_end_is_stripped(s: Seq<char>)
    ensures
        ({
            let n = strip_end(s, Margin::White).len() as int;
            &&& n <= s.len()
            &&& strip_end(s, Margin::White) == s.take(n)
            &&& n > 0 ==> !is_white(s[n - 1])
            &&& forall|i: int| n <= i < s.len() ==> is_white(#[trigger] s[i])
        }),
    decreases s.len(),
{
    lemma_strip_end_last(s, Margin::White);
    let n = strip_end(s, Margin::White).len() as int;
    if n > 0 {
        assert(strip_end(s, Margin::White).last() == s[n - 1]);
    }
    if s.len() > 0 && is_white(s.last()) {
        lemma_end_is_stripped(s.drop_last());
        assert forall|i: int| n <= i < s.len() implies is_white(#[trigger] s[i]) by {
            if i < s.len() - 1 {
                assert(s.drop_last()[i] == s[i]);
            }
        }
    }
}

proof fn lemma_stripped_splits(s: Seq<char>, margin: Margin) -> (sides: (Seq<char>, Seq<char>))
    ensures
        s == sides.0 + stripped(s, margin) + sides.1,
        forall|i: int| 0 <= i < sides.0.len() ==> margin.drops(#[trigger] sides.0[i]),
        forall|i: int| 0 <= i < sides.1.len() ==> margin.drops(#[trigger] sides.1[i]),
    decreases s.len(),
{
    lemma_stripped_ends(s, margin);
    if s.len() > 0 && margin.drops(s[0]) {
        let rest = s.drop_first();
        let (a, b) = lemma_stripped_splits(rest, margin);
        let front = seq![s[0]] + a;
        let core = stripped(rest, margin);
        assert(s =~= seq![s[0]] + rest);
        assert(seq![s[0]] + (a + core + b) =~= front + core + b);
        assert forall|i: int| 0 <= i < front.len() implies margin.drops(#[trigger] front[i]) by {
            if i > 0 {
                assert(front[i] == a[i - 1]);
            }
        }
        (front, b)
    } else if s.len() > 0 && margin.drops(s.last()) {
        let rest = s.drop_last();
        assert(rest.len() > 0 ==> rest[0] == s[0]);
        assert(strip_start(rest, margin) == rest);
        let (a, b) = lemma_stripped_splits(rest, margin);
        let back = b.push(s.last());
        assert(stripped(s, margin) == stripped(rest, margin));
        let core = stripped(rest, margin);
        assert(s =~= rest.push(s.last()));
        assert((a + core + b).push(s.last()) =~= a + core + back);
        assert forall|i: int| 0 <= i < back.len() implies margin.drops(#[trigger] back[i]) by {
            if i < b.len() {
                assert(back[i] == b[i]);
            }
        }
        (a, back)
    } else {
        assert(s =~= Seq::<char>::empty() + s + Seq::<char>::empty());
        (seq![], seq![])
    }
}

/// A text is white space, the trimmed text, and white space.
pub proof fn lemma_trimmed_splits(s: Seq<char>) -> (sides: (Seq<char>, Seq<char>))
    ensures
        s == sides.0 + trimmed(s) + sides.1,
        forall|i: int| 0 <= i < sides.0.len() ==> is_white(#[trigger] sides.0[i]),
        forall|i: int| 0 <= i < sides.1.len() ==> is_white(#[trigger] sides.1[i]),
{
    let sides = lemma_stripped_splits(s, Margin::White);
    assert forall|i: int| 0 <= i < sides.0.len() implies is_white(#[trigger] sides.0[i]) by {
        assert(Margin::White.drops(sides.0[i]));
    }
    assert forall|i: int| 0 <= i < sides.1.len() implies is_white(#[trigger] sides.1[i]) by {
        assert(Margin::White.drops(sides.1[i]));
    }
    sides
}

/// A carriage return at the end of a line does not matter once white space is stripped.
pub proof fn lemma_return_is_stripped(s: Seq<char>, margin: Margin)
    requires
        margin is White || margin is Json,
    ensures
        stripped(without_return(s), margin) == stripped(s, margin),
{
    if s.len() > 0 && s.last() == '\r' {
        let rest = s.drop_last();
        let (a, b) = lemma_stripped_splits(rest, margin);
        let core = stripped(rest, margin);
        let back = b.push('\r');
        assert(s =~= rest.push('\r'));
        assert((a + core + b).push('\r') =~= a + core + back);
        assert forall|i: int| 0 <= i < back.len() implies margin.drops(#[trigger] back[i]) by {
            if i < b.len() {
                assert(back[i] == b[i]);
            }
        }
        lemma_stripped_ends(rest, margin);
        lemma_stripped_core(a, core, back, margin);
    }
}

} // verus!
