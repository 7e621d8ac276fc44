//! Numbers as text, and the whole numbers that a double-precision value can hold.
use vstd::prelude::*;
use vstd::string::*;

verus! {

/// The digit `d` as a character.
pub open spec fn digit(d: nat) -> char {
    (48 + d) as char
}

/// `n` in decimal, without leading zeros.
pub open spec fn decimal(n: nat) -> Seq<char>
    decreases n,
{
    if n < 10 {
        seq![digit(n)]
    } else {
        decimal(n / 10).push(digit(n % 10))
    }
}

/// `n` in decimal, with a minus sign when it is negative.
pub open spec fn signed_decimal(n: int) -> Seq<char> {
    if n < 0 {
        seq!['-'] + decimal((-n) as nat)
    } else {
        decimal(n as nat)
    }
}

/// `decimal` writes digits only, and at least one.
pub proof fn lemma_decimal_digits(n: nat)
    ensures
        decimal(n).len() > 0,
        forall|i: int| 0 <= i < decimal(n).len() ==> '0' <= #[trigger] decimal(n)[i] && decimal(n)[i]
            <= '9',
    decreases n,
{
    if n >= 10 {
        lemma_decimal_digits(n / 10);
    }
}

/// Two numbers with the same decimal text are equal.
pub proof fn lemma_decimal_injective(a: nat, b: nat)
    requires
        decimal(a) == decimal(b),
    ensures
        a == b,
    decreases a,
{
    lemma_decimal_digits(a / 10);
    lemma_decimal_digits(b / 10);
    if a >= 10 && b >= 10 {
        assert(decimal(a).drop_last() =~= decimal(a / 10));
        assert(decimal(b).drop_last() =~= decimal(b / 10));
        lemma_decimal_injective(a / 10, b / 10);
        assert(decimal(a).last() == digit(a % 10));
        assert(decimal(b).last() == digit(b % 10));
    } else {
        assert(decimal(a).len() == 1 <==> a < 10);
        assert(decimal(b).len() == 1 <==> b < 10);
        assert(decimal(a)[0] == digit(a));
        assert(decimal(b)[0] == digit(b));
    }
}

/// Appends `n` in decimal to `out`.
pub fn push_decimal(out: &mut String, n: u64)
    ensures
        final(out)@ == old(out)@ + decimal(n as nat),
    decreases n,
{
    if n >= 10 {
        push_decimal(out, n / 10);
    }
    out.push((48u8 + (n % 10) as u8) as char);
    assert(out@ =~= old(out)@ + decimal(n as nat));
}

/// Appends `n` in decimal to `out`, with a minus sign when it is negative.
pub fn push_signed(out: &mut String, n: i32)
    ensures
        final(out)@ == old(out)@ + signed_decimal(n as int),
{
    if n < 0 {
        out.push('-');
        push_decimal(out, (-(n as i64)) as u64);
        assert(out@ =~= old(out)@ + signed_decimal(n as int));
    } else {
        push_decimal(out, n as u64);
    }
}

/// `n` in decimal.
pub fn decimal_text(n: u64) -> (res: String)
    ensures
        res@ == decimal(n as nat),
{
    let mut res = String::new();
    push_decimal(&mut res, n);
    assert(res@ =~= decimal(n as nat));
    res
}

/// The quotient of `n` by `d`, rounded to the nearest whole number; of two that are equally near,
/// the even one.
pub open spec fn round_quotient(n: nat, d: nat) -> nat {
    let q = n / d;
    let r = n % d;
    if 2 * r < d || (2 * r == d && q % 2 == 0) {
        q
    } else {
        q + 1
    }
}

/// The distance between neighbouring doubles at `n`, for a whole number `n`: the least power of two
/// that leaves fewer than 2^53 steps below `n`.
pub open spec fn double_step(n: nat) -> nat
    decreases n,
{
    if n < 0x20_0000_0000_0000 {
        1
    } else {
        2 * double_step(n / 2)
    }
}

/// The double nearest to the whole number `n`; of two that are equally near, the one with the even
/// significand.
pub open spec fn nearest_double(n: nat) -> nat {
    round_quotient(n, double_step(n)) * double_step(n)
}

proof fn lemma_double_step(n: nat)
    requires
        n <= u64::MAX,
    ensures
        1 <= double_step(n) <= 2048,
        n / double_step(n) < 0x20_0000_0000_0000,
    decreases n,
{
    reveal_with_fuel(double_step, 12);
    lemma_double_step_bound(n);
}

proof fn lemma_double_step_bound(n: nat)
    ensures
        double_step(n) >= 1,
        n / double_step(n) < 0x20_0000_0000_0000,
    decreases n,
{
    if n >= 0x20_0000_0000_0000 {
        lemma_double_step_bound(n / 2);
        let s = double_step(n / 2);
        vstd::arithmetic::div_mod::lemma_div_denominator(n as int, 2, s as int);
    }
}

/// A whole number below 2^53 is a double.
pub proof fn lemma_small_is_double(n: nat)
    requires
        n < 0x20_0000_0000_0000,
    ensures
        nearest_double(n) == n,
{
    assert(double_step(n) == 1);
    assert(round_quotient(n, 1) == n);
}

fn round_div(n: u128, d: u128) -> (res: u128)
    requires
        0 < d,
        n < u128::MAX,
    ensures
        res == round_quotient(n as nat, d as nat),
        res <= n + 1,
{
    let q: u128 = n / d;
    let r: u128 = n % d;
    proof {
        assert(q <= n) by (nonlinear_arith)
            requires
                q == n / d,
                d > 0,
        ;
    }
    if r < d - r || (r == d - r && q % 2 == 0) {
        q
    } else {
        q + 1
    }
}

/// The double nearest to `n`.
pub fn to_double(n: u64) -> (res: u128)
    ensures
        res == nearest_double(n as nat),
        res <= 0x1_0000_0000_0000_0000,
{
    let mut step: u128 = 1;
    let mut m: u64 = n;
    proof {
        lemma_double_step(n as nat);
    }
    while m >= 0x20_0000_0000_0000
        invariant
            1 <= step,
            step * double_step(m as nat) == double_step(n as nat),
            double_step(n as nat) <= 2048,
        decreases m,
    {
        proof {
            lemma_double_step((m / 2) as nat);
            assert(step * (2 * double_step((m / 2) as nat)) == (step * 2) * double_step(
                (m / 2) as nat,
            )) by (nonlinear_arith);
            assert(step <= 2048) by (nonlinear_arith)
                requires
                    step * (2 * double_step((m / 2) as nat)) <= 2048,
                    double_step((m / 2) as nat) >= 1,
                    step >= 1,
            ;
        }
        m = m / 2;
        step = step * 2;
    }
    assert(step == double_step(n as nat)) by {
        assert(step * 1 == step);
    }
    let q: u128 = round_div(n as u128, step);
    proof {
        assert(q <= 0x20_0000_0000_0000);
        assert(q * step <= 0x20_0000_0000_0000 * 2048) by (nonlinear_arith)
            requires
                q <= 0x20_0000_0000_0000,
                step <= 2048,
        ;
    }
    q * step
}

/// From 2^64 on, no double near a whole number lies below 2^64.
proof fn lemma_large_double(n: nat)
    requires
        n > u64::MAX,
    ensures
        nearest_double(n) > u64::MAX,
{
    lemma_double_step_bound(n);
    lemma_double_step_full(n);
    let s = double_step(n);
    let q = n / s;
    assert(s >= 4096) by {
        reveal_with_fuel(double_step, 13);
        lemma_double_step_bound(n / 2 / 2 / 2 / 2 / 2 / 2 / 2 / 2 / 2 / 2 / 2 / 2);
    }
    assert(round_quotient(n, s) >= q);
    let r = round_quotient(n, s);
    assert(r * s >= 0x10_0000_0000_0000 * 4096) by (nonlinear_arith)
        requires
            r >= 0x10_0000_0000_0000,
            s >= 4096,
    ;
}

proof fn lemma_double_step_full(n: nat)
    requires
        n >= 0x10_0000_0000_0000,
    ensures
        n / double_step(n) >= 0x10_0000_0000_0000,
    decreases n,
{
    if n >= 0x20_0000_0000_0000 {
        lemma_double_step_bound(n / 2);
        lemma_double_step_full(n / 2);
        let s = double_step(n / 2);
        vstd::arithmetic::div_mod::lemma_div_denominator(n as int, 2, s as int);
    } else {
        assert(double_step(n) == 1);
    }
}

/// Whether `c` is one of the digits `0` to `9`.
pub open spec fn is_digit(c: char) -> bool {
    '0' <= c && c <= '9'
}

/// Whether `s` is made of digits only, and has at least one.
pub open spec fn is_digits(s: Seq<char>) -> bool {
    s.len() > 0 && forall|i: int| 0 <= i < s.len() ==> is_digit(#[trigger] s[i])
}

/// The number that the digits `s` write.
pub open spec fn decimal_value(s: Seq<char>) -> nat
    decreases s.len(),
{
    if s.len() == 0 {
        0
    } else {
        decimal_value(s.drop_last()) * 10 + (s.last() as int - 48) as nat
    }
}

/// Reading a decimal text gives back the number that it was written from.
pub proof fn lemma_decimal_value(n: nat)
    ensures
        is_digits(decimal(n)),
        decimal_value(decimal(n)) == n,
    decreases n,
{
    lemma_decimal_digits(n);
    if n < 10 {
        assert(decimal(n).drop_last() =~= seq![]);
        assert(decimal_value(decimal(n).drop_last()) == 0);
        assert(decimal(n).last() == digit(n));
    } else {
        lemma_decimal_value(n / 10);
        assert(decimal(n).drop_last() =~= decimal(n / 10));
        assert(decimal(n).last() == digit(n % 10));
    }
}

/// `s` without its commas.
pub open spec fn without_commas(s: Seq<char>) -> Seq<char> {
    s.filter(|c: char| c != ',')
}

/// The count that `s` writes: digits with commas anywhere between them, read as a double and cut to
/// 64 bits. `None` when there is no digit, or anything but digits and commas.
pub open spec fn count_value(s: Seq<char>) -> Option<u64> {
    let digits = without_commas(s);
    if !is_digits(digits) {
        None
    } else if nearest_double(decimal_value(digits)) > u64::MAX {
        Some(u64::MAX)
    } else {
        Some(nearest_double(decimal_value(digits)) as u64)
    }
}

/// `s` without its commas.
fn drop_commas(s: &str) -> (res: String)
    ensures
        res@ == without_commas(s@),
{
    let mut res = String::new();
    let ghost keep = |c: char| c != ',';
    reveal(Seq::filter);
    for c in it: s.chars()
        invariant
            it.seq() == s@,
            keep == (|c: char| c != ','),
            res@ == s@.take(it.index()).filter(keep),
    {
        reveal(Seq::filter);
        let ghost next = s@.take(it.index() + 1);
        assert(next.drop_last() =~= s@.take(it.index()));
        assert(next.last() == c);
        if c != ',' {
            res.push(c);
        }
    }
    assert(s@.take(s@.len() as int) =~= s@);
    res
}

/// Reads a count: digits, with or without commas between them.
///
/// The digits stand for the double nearest to what they write. A count too large for 64 bits is
/// `u64::MAX`.
pub fn read_count(s: &str) -> (res: Option<u64>)
    ensures
        res == count_value(s@),
{
    let digits = drop_commas(s);
    let chars = crate::text::chars_of(digits.as_str());
    let n: usize = chars.len();
    if n == 0 {
        return None;
    }
    let mut value: u64 = 0;
    let mut large: bool = false;
    let mut i: usize = 0;
    while i < n
        invariant
            n == chars.len(),
            chars@ == without_commas(s@),
            i <= n,
            forall|j: int| 0 <= j < i ==> is_digit(#[trigger] chars@[j]),
            large ==> decimal_value(chars@.take(i as int)) > u64::MAX,
            !large ==> decimal_value(chars@.take(i as int)) == value,
        decreases n - i,
    {
        let c = chars[i];
        if c < '0' || '9' < c {
            assert(!is_digit(chars@[i as int]));
            return None;
        }
        let d: u64 = (c as u8 - 48) as u64;
        let ghost before = chars@.take(i as int);
        assert(chars@.take(i + 1).drop_last() =~= before);
        if !large {
            if value > (u64::MAX - d) / 10 {
                large = true;
            } else {
                value = value * 10 + d;
            }
        }
        i = i + 1;
    }
    assert(chars@.take(n as int) =~= chars@);
    if large {
        proof {
            lemma_large_double(decimal_value(chars@));
        }
        return Some(u64::MAX);
    }
    let rounded: u128 = to_double(value);
    if rounded > u64::MAX as u128 {
        Some(u64::MAX)
    } else {
        Some(rounded as u64)
    }
}

/// A text without commas is left alone.
pub proof fn lemma_no_commas(s: Seq<char>)
    requires
        forall|i: int| 0 <= i < s.len() ==> #[trigger] s[i] != ',',
    ensures
        without_commas(s) == s,
    decreases s.len(),
{
    reveal(Seq::filter);
    if s.len() > 0 {
        lemma_no_commas(s.drop_last());
        assert(s.drop_last().push(s.last()) =~= s);
    }
}

/// A count below 2^53 is read as it was written.
pub proof fn lemma_count_reads_decimal(n: u64)
    requires
        n < 0x20_0000_0000_0000,
    ensures
        count_value(decimal(n as nat)) == Some(n),
{
    lemma_decimal_value(n as nat);
    lemma_small_is_double(n as nat);
    assert forall|i: int| 0 <= i < decimal(n as nat).len() implies #[trigger] decimal(
        n as nat,
    )[i] != ',' by {
        assert(is_digit(decimal(n as nat)[i]));
    }
    lemma_no_commas(decimal(n as nat));
}

/// Commas do not matter in a count.
pub proof fn lemma_commas_do_not_matter(a: Seq<char>, b: Seq<char>)
    ensures
        count_value(a + seq![','] + b) == count_value(a + b),
{
    lemma_commas_are_dropped(a, b);
}

/// Whether `s` is a plain decimal number: digits, and perhaps a point with digits after it.
pub open spec fn is_decimal_number(s: Seq<char>) -> bool {
    &&& s.len() > 0
    &&& is_digit(s[0])
    &&& is_digit(s.last())
    &&& forall|i: int| 0 <= i < s.len() ==> is_digit(#[trigger] s[i]) || s[i] == '.'
    &&& forall|i: int, j: int|
        0 <= i < j < s.len() && #[trigger] s[i] == '.' ==> #[trigger] s[j] != '.'
}

/// The plain decimal number that `s` writes, commas aside.
pub open spec fn number_value(s: Seq<char>) -> Option<Seq<char>> {
    if is_decimal_number(without_commas(s)) {
        Some(without_commas(s))
    } else {
        None
    }
}

/// Tells whether `s` is a plain decimal number.
pub fn is_number(s: &str) -> (res: bool)
    ensures
        res == is_decimal_number(s@),
{
    let chars = crate::text::chars_of(s);
    let n: usize = chars.len();
    if n == 0 {
        return false;
    }
    let mut point: bool = false;
    let mut i: usize = 0;
    while i < n
        invariant
            n == chars.len(),
            chars@ == s@,
            i <= n,
            forall|j: int| 0 <= j < i ==> is_digit(#[trigger] chars@[j]) || chars@[j] == '.',
            point ==> exists|j: int| 0 <= j < i && #[trigger] chars@[j] == '.',
            !point ==> forall|j: int| 0 <= j < i ==> #[trigger] chars@[j] != '.',
            forall|j: int, k: int|
                0 <= j < k < i && #[trigger] chars@[j] == '.' ==> #[trigger] chars@[k] != '.',
        decreases n - i,
    {
        let c = chars[i];
        if c == '.' {
            if point {
                assert(chars@[i as int] == '.');
                return false;
            }
            point = true;
        } else if c < '0' || '9' < c {
            assert(!is_digit(chars@[i as int]) && chars@[i as int] != '.');
            return false;
        }
        i = i + 1;
    }
    if chars[0] == '.' || chars[n - 1] == '.' {
        assert(!is_digit('.'));
        return false;
    }
    assert(is_digit(chars@[0]));
    assert(is_digit(chars@[n - 1]));
    true
}

/// Reads a plain decimal number, and gives its text without commas.
pub fn read_number(s: &str) -> (res: Option<String>)
    ensures
        res is Some <==> number_value(s@) is Some,
        res matches Some(text) ==> Some(text@) == number_value(s@),
{
    let text = drop_commas(s);
    if is_number(text.as_str()) {
        Some(text)
    } else {
        None
    }
}

/// The size that a unit of [`human_size`] stands for, and its name.
pub open spec fn size_unit(bytes: nat) -> (nat, Seq<char>) {
    if bytes < 0x10_0000 {
        (0x400, "KB"@)
    } else if bytes < 0x4000_0000 {
        (0x10_0000, "MB"@)
    } else if bytes < 0x100_0000_0000 {
        (0x4000_0000, "GB"@)
    } else {
        (0x100_0000_0000, "TB"@)
    }
}

/// The text of a size: the bytes themselves below 1024, else the size in the largest unit that it
/// reaches, as a double rounded to two decimals.
pub open spec fn size_text(bytes: nat) -> Seq<char> {
    if bytes < 0x400 {
        decimal(bytes) + " B"@
    } else {
        let (scale, unit) = size_unit(bytes);
        let hundredths = round_quotient(nearest_double(bytes) * 100, scale);
        decimal(hundredths / 100) + seq![
            '.',
            digit(hundredths / 10 % 10),
            digit(hundredths % 10),
            ' ',
        ] + unit
    }
}

/// A size of 1024 bytes or more is shown in the largest unit that it reaches: as at least 1.00 of it,
/// and, but for the largest, as no more than 1024.00.
pub proof fn lemma_size_unit_is_reached(bytes: u64)
    requires
        bytes >= 0x400,
    ensures
        ({
            let (scale, unit) = size_unit(bytes as nat);
            let hundredths = round_quotient(nearest_double(bytes as nat) * 100, scale);
            &&& hundredths >= 100
            &&& bytes < 0x100_0000_0000 ==> hundredths <= 102400
        }),
{
    let n = bytes as nat;
    let (scale, unit) = size_unit(n);
    if n < 0x20_0000_0000_0000 {
        lemma_small_is_double(n);
    } else {
        lemma_double_step_bound(n);
        lemma_double_step_full(n);
        let s = double_step(n);
        let r = round_quotient(n, s);
        assert(r * s >= 0x10_0000_0000_0000) by (nonlinear_arith)
            requires
                r >= 0x10_0000_0000_0000,
                s >= 1,
        ;
    }
}

/// A size for people to read: `512 B`, `1.50 KB`, `2.00 TB`.
pub fn human_size(bytes: u64) -> (res: String)
    ensures
        res@ == size_text(bytes as nat),
{
    let mut res = String::new();
    if bytes < 0x400 {
        push_decimal(&mut res, bytes);
        res.append(" B");
        assert(res@ =~= decimal(bytes as nat) + " B"@);
        return res;
    }
    let (scale, unit): (u128, &str) = if bytes < 0x10_0000 {
        (0x400, "KB")
    } else if bytes < 0x4000_0000 {
        (0x10_0000, "MB")
    } else if bytes < 0x100_0000_0000 {
        (0x4000_0000, "GB")
    } else {
        (0x100_0000_0000, "TB")
    };
    let value: u128 = to_double(bytes);
    let hundredths: u128 = round_div(value * 100, scale);
    proof {
        let n = value * 100;
        assert(n / scale as int <= 0x1_0000_0000_0000_0000 * 100 / 0x400) by (nonlinear_arith)
            requires
                0 <= n <= 0x1_0000_0000_0000_0000 * 100,
                scale >= 0x400,
        ;
    }
    let hundredths: u64 = hundredths as u64;
    push_decimal(&mut res, hundredths / 100);
    res.push('.');
    res.push((48u8 + (hundredths / 10 % 10) as u8) as char);
    res.push((48u8 + (hundredths % 10) as u8) as char);
    res.push(' ');
    res.append(unit);
    assert(res@ =~= size_text(bytes as nat));
    res
}

/// A number is written with its last digit last: one digit stands alone, and a further digit stands
/// behind what was written before.
pub proof fn lemma_decimal_grows(n: nat, d: nat)
    requires
        d < 10,
    ensures
        decimal(d) == seq![(48 + d) as char],
        n > 0 ==> decimal(10 * n + d) == decimal(n).push((48 + d) as char),
{
    if n > 0 {
        assert((10 * n + d) / 10 == n);
        assert((10 * n + d) % 10 == d);
    }
}

/// A number is read digit by digit: a further digit makes it ten times as large, and adds its own
/// value.
pub proof fn lemma_value_grows(s: Seq<char>, d: nat)
    requires
        d < 10,
    ensures
        decimal_value(Seq::<char>::empty()) == 0,
        decimal_value(s.push((48 + d) as char)) == decimal_value(s) * 10 + d,
{
    let c = (48 + d) as char;
    assert(s.push(c).drop_last() =~= s);
    assert(s.push(c).last() == c);
    assert(c as int == 48 + d);
}

/// A negative number is written as its amount with a minus sign in front, any other as it is.
pub proof fn lemma_sign_stands_in_front(n: nat)
    ensures
        signed_decimal(n as int) == decimal(n),
        n > 0 ==> signed_decimal(-(n as int)) == seq!['-'] + decimal(n),
{
}

proof fn lemma_digits_are_read(a: Seq<char>)
    requires
        a.len() > 0,
        forall|i: int| 0 <= i < a.len() ==> '0' <= #[trigger] a[i] && a[i] <= '9',
    ensures
        number_value(a) == Some(a),
{
    lemma_no_commas(a);
    assert forall|i: int| 0 <= i < a.len() implies is_digit(#[trigger] a[i]) by {
    }
    assert(is_decimal_number(a));
}

proof fn lemma_point_is_read(a: Seq<char>, b: Seq<char>, s: Seq<char>)
    requires
        a.len() > 0,
        b.len() > 0,
        s.len() == a.len() + 1 + b.len(),
        forall|i: int| 0 <= i < s.len() && i != a.len() ==> is_digit(#[trigger] s[i]),
        s[a.len() as int] == '.',
    ensures
        number_value(s) == Some(s),
{
    assert forall|i: int| 0 <= i < s.len() implies #[trigger] s[i] != ',' by {
        if i != a.len() {
            assert(is_digit(s[i]));
        }
    }
    lemma_no_commas(s);
    assert forall|i: int, j: int|
        0 <= i < j < s.len() && #[trigger] s[i] == '.' implies #[trigger] s[j] != '.' by {
        if i != a.len() {
            assert(is_digit(s[i]));
        }
        assert(is_digit(s[j]));
    }
    assert(is_digit(s[0]));
    assert(is_digit(s[s.len() - 1]));
    assert(is_decimal_number(s));
}

/// Digits are a number, and so are digits with a point and more digits behind; they are read as they
/// stand.
pub proof fn lemma_numbers_are_read(a: Seq<char>, b: Seq<char>)
    requires
        a.len() > 0,
        forall|i: int| 0 <= i < a.len() ==> '0' <= #[trigger] a[i] && a[i] <= '9',
        b.len() > 0,
        forall|i: int| 0 <= i < b.len() ==> '0' <= #[trigger] b[i] && b[i] <= '9',
    ensures
        number_value(a) == Some(a),
        number_value(a + seq!['.'] + b) == Some(a + seq!['.'] + b),
{
    lemma_digits_are_read(a);
    let s = a + seq!['.'] + b;
    let n = a.len() as int;
    assert forall|i: int| 0 <= i < s.len() && i != n implies is_digit(#[trigger] s[i]) by {
        if i < n {
            assert(s[i] == a[i]);
        } else {
            assert(s[i] == b[i - n - 1]);
        }
    }
    lemma_point_is_read(a, b, s);
}

/// Digits are read as the count that they write, up to 2^53: however long the text, it is `None` only
/// where something else than digits and commas stands in it, or nothing.
pub proof fn lemma_counts_are_read(s: Seq<char>)
    requires
        s.len() > 0,
        forall|i: int| 0 <= i < s.len() ==> '0' <= #[trigger] s[i] && s[i] <= '9',
    ensures
        count_value(s) is Some,
        decimal_value(s) < 0x20_0000_0000_0000 ==> count_value(s) == Some(decimal_value(s) as u64),
{
    lemma_no_commas(s);
    if decimal_value(s) < 0x20_0000_0000_0000 {
        lemma_small_is_double(decimal_value(s));
    }
}

/// What a size shows is as near to the size as two decimals of its unit can be: no more than half of
/// a hundredth away, up to 2^53 bytes. Below 1024 the bytes themselves are shown.
pub proof fn lemma_size_is_near(bytes: nat) -> (h: nat)
    requires
        bytes < 0x20_0000_0000_0000,
    ensures
        ({
            let tail = seq!['.', (48 + h / 10 % 10) as char, (48 + h % 10) as char, ' '];
            let near = |scale: int|
                2 * h * scale <= 200 * bytes + scale && 200 * bytes <= 2 * h * scale + scale;
            &&& bytes < 0x400 ==> size_text(bytes) == decimal(bytes) + " B"@
            &&& 0x400 <= bytes < 0x10_0000 ==> near(0x400) && size_text(bytes) == decimal(h / 100)
                + tail + "KB"@
            &&& 0x10_0000 <= bytes < 0x4000_0000 ==> near(0x10_0000) && size_text(bytes)
                == decimal(h / 100) + tail + "MB"@
            &&& 0x4000_0000 <= bytes < 0x100_0000_0000 ==> near(0x4000_0000)
                && size_text(bytes) == decimal(h / 100) + tail + "GB"@
            &&& 0x100_0000_0000 <= bytes ==> near(0x100_0000_0000) && size_text(
                bytes,
            ) == decimal(h / 100) + tail + "TB"@
        }),
{
    lemma_small_is_double(bytes);
    let scale: nat = if bytes < 0x10_0000 {
        0x400
    } else if bytes < 0x4000_0000 {
        0x10_0000
    } else if bytes < 0x100_0000_0000 {
        0x4000_0000
    } else {
        0x100_0000_0000
    };
    let h = round_quotient(bytes * 100, scale);
    h
}

/// A whole number of 64 bits is no more than 1024 away from its double, and not at all below 2^53.
pub proof fn lemma_double_is_near(n: nat)
    requires
        n <= u64::MAX,
    ensures
        n < 0x20_0000_0000_0000 ==> nearest_double(n) == n,
        nearest_double(n) <= n + 1024,
        n <= nearest_double(n) + 1024,
{
    if n < 0x20_0000_0000_0000 {
        lemma_small_is_double(n);
    } else {
        lemma_double_step(n);
        let s = double_step(n);
        let q = n / s;
        let r = n % s;
        vstd::arithmetic::div_mod::lemma_fundamental_div_mod(n as int, s as int);
        assert(s * q == q * s) by (nonlinear_arith);
        assert((q + 1) * s == q * s + s) by (nonlinear_arith);
    }
}

/// A count is no more than 1024 away from what its digits write, and the largest of 64 bits where they
/// write more than that.
pub proof fn lemma_counts_are_near(s: Seq<char>)
    requires
        s.len() > 0,
        forall|i: int| 0 <= i < s.len() ==> '0' <= #[trigger] s[i] && s[i] <= '9',
    ensures
        decimal_value(s) > u64::MAX ==> count_value(s) == Some(u64::MAX),
        decimal_value(s) <= u64::MAX ==> count_value(s) is Some && count_value(s)->0
            <= decimal_value(s) + 1024 && decimal_value(s) <= count_value(s)->0 + 1024,
{
    lemma_no_commas(s);
    if decimal_value(s) > u64::MAX {
        lemma_large_double(decimal_value(s));
    } else {
        lemma_double_is_near(decimal_value(s));
    }
}

/// What a size of 2^53 bytes or more shows is as near to the size as two decimals of a terabyte can be,
/// give or take 1024 bytes.
pub proof fn lemma_large_size_is_near(bytes: nat) -> (h: nat)
    requires
        0x20_0000_0000_0000 <= bytes <= u64::MAX,
    ensures
        size_text(bytes) == decimal(h / 100) + seq![
            '.',
            (48 + h / 10 % 10) as char,
            (48 + h % 10) as char,
            ' ',
        ] + "TB"@,
        2 * h * 0x100_0000_0000 <= 200 * (bytes + 1024) + 0x100_0000_0000,
        200 * bytes <= 2 * h * 0x100_0000_0000 + 0x100_0000_0000 + 200 * 1024,
{
    lemma_double_is_near(bytes);
    round_quotient(nearest_double(bytes) * 100, 0x100_0000_0000)
}

proof fn lemma_commas_are_dropped(a: Seq<char>, b: Seq<char>)
    ensures
        without_commas(a + seq![','] + b) == without_commas(a + b),
{
    let keep = |c: char| c != ',';
    Seq::filter_distributes_over_add(a + seq![','], b, keep);
    Seq::filter_distributes_over_add(a, seq![','], keep);
    Seq::filter_distributes_over_add(a, b, keep);
    assert(seq![','].filter(keep) =~= seq![]) by {
        reveal_with_fuel(Seq::filter, 2);
        assert(seq![','].drop_last() =~= Seq::<char>::empty());
    }
    assert(without_commas(a + seq![','] + b) =~= without_commas(a + b));
}

/// Commas do not matter in a number either.
pub proof fn lemma_commas_do_not_matter_in_numbers(a: Seq<char>, b: Seq<char>)
    ensures
        number_value(a + seq![','] + b) == number_value(a + b),
{
    lemma_commas_are_dropped(a, b);
}

proof fn lemma_others_are_kept(s: Seq<char>, i: int)
    requires
        0 <= i < s.len(),
        s[i] != ',',
    ensures
        without_commas(s).contains(s[i]),
    decreases s.len(),
{
    reveal(Seq::filter);
    let kept = without_commas(s);
    let front = without_commas(s.drop_last());
    if i == s.len() - 1 {
        assert(kept == front.push(s[i]));
        assert(kept[kept.len() - 1] == s[i]);
    } else {
        lemma_others_are_kept(s.drop_last(), i);
        let j = choose|j: int| 0 <= j < front.len() && front[j] == s[i];
        assert(kept[j] == s[i]);
    }
}

/// Only digits and commas are read as a count, and only those and points as a number: any other
/// character makes it none.
pub proof fn lemma_nothing_else_is_read(s: Seq<char>, i: int)
    requires
        0 <= i < s.len(),
        s[i] != ',',
        !('0' <= s[i] && s[i] <= '9'),
    ensures
        count_value(s) is None,
        s[i] != '.' ==> number_value(s) is None,
{
    lemma_others_are_kept(s, i);
    let kept = without_commas(s);
    let j = choose|j: int| 0 <= j < kept.len() && kept[j] == s[i];
    assert(!is_digit(kept[j]));
}

/// There is no count and no number without a digit.
pub proof fn lemma_nothing_is_read_from_commas(s: Seq<char>)
    requires
        forall|i: int| 0 <= i < s.len() ==> #[trigger] s[i] == ',',
    ensures
        count_value(s) is None,
        number_value(s) is None,
    decreases s.len(),
{
    reveal(Seq::filter);
    if s.len() > 0 {
        assert(s.last() == ',');
        let front = s.drop_last();
        assert forall|i: int| 0 <= i < front.len() implies #[trigger] front[i] == ',' by {
            assert(front[i] == s[i]);
        }
        lemma_nothing_is_read_from_commas(front);
        assert(without_commas(s) == without_commas(front));
    }
}

} // verus!
