//! Decimal numbers as text: reading counts and second offsets, writing integers.
//!
//! Times are kept as whole milliseconds, so that offsets such as `5.5` seconds are
//! exact and can be ordered and compared as integers.

use vstd::prelude::*;

use crate::text::{find_char, position_of, to_chars};

verus! {

/// `c` is one of `0` to `9`.
pub open spec fn is_digit(c: char) -> bool {
    '0' <= c && c <= '9'
}

/// The number that the digit `c` stands for.
pub open spec fn digit_value(c: char) -> nat {
    (c as int - 48) as nat
}

/// The digit that stands for `d`, for `d` below ten.
pub open spec fn digit_char(d: nat) -> char {
    (d + 48) as u8 as char
}

/// Every character of `s` is a digit.
pub open spec fn all_digits(s: Seq<char>) -> bool {
    forall|i: int| 0 <= i < s.len() ==> is_digit(#[trigger] s[i])
}

/// The number written by the digits `s`, most significant first; zero for no digits.
pub open spec fn decimal_value(s: Seq<char>) -> nat
    decreases s.len(),
{
    if s.len() == 0 {
        0
    } else {
        decimal_value(s.drop_last()) * 10 + digit_value(s.last())
    }
}

/// The digits that write `n`, without leading zeros (`0` is written `0`).
pub open spec fn decimal_digits(n: nat) -> Seq<char>
    decreases n,
{
    if n < 10 {
        seq![digit_char(n)]
    } else {
        decimal_digits(n / 10).push(digit_char(n % 10))
    }
}

/// The value of a run of digits, where it fits in 64 bits.
pub open spec fn bounded_value(s: Seq<char>) -> Option<u64> {
    if all_digits(s) && decimal_value(s) <= u64::MAX {
        Some(decimal_value(s) as u64)
    } else {
        None
    }
}

/// What a signed count reads as: an optional `+` or `-`, then at least one digit,
/// the whole within the range of `i64`.
pub open spec fn signed_value(s: Seq<char>) -> Option<i64> {
    let negative = s.len() > 0 && s[0] == '-';
    let signed = s.len() > 0 && (s[0] == '-' || s[0] == '+');
    let digits = if signed { s.drop_first() } else { s };
    if digits.len() == 0 || !all_digits(digits) {
        None
    } else if negative {
        if decimal_value(digits) <= 0x8000_0000_0000_0000 {
            Some((-(decimal_value(digits) as int)) as i64)
        } else {
            None
        }
    } else {
        if decimal_value(digits) <= i64::MAX {
            Some(decimal_value(digits) as i64)
        } else {
            None
        }
    }
}

/// Ten to the power `n`.
pub open spec fn pow10(n: nat) -> nat
    decreases n,
{
    if n == 0 {
        1
    } else {
        10 * pow10((n - 1) as nat)
    }
}

/// The place of the exponent mark in `s`: of its first `e` or `E`, or the length of
/// `s` where it has none.
pub open spec fn exponent_mark(s: Seq<char>) -> int
    decreases s.len(),
{
    if s.len() == 0 || s[0] == 'e' || s[0] == 'E' {
        0
    } else {
        1 + exponent_mark(s.drop_first())
    }
}

/// The number that `digits` write once the point behind them is moved `shift` places
/// to the right (to the left, for a negative `shift`), without the digits that then
/// stand behind the point.
pub open spec fn moved(digits: Seq<char>, shift: int) -> nat {
    if shift >= 0 {
        decimal_value(digits) * pow10(shift as nat)
    } else if digits.len() + shift > 0 {
        decimal_value(digits.take(digits.len() + shift))
    } else {
        0
    }
}

/// The exponent that the text behind an exponent mark states: an optional sign and at
/// least one digit. `None` where the text has another form, or the digits are worth
/// more than 64 bits hold.
pub open spec fn exponent_value(power: Seq<char>) -> Option<int> {
    let falling = power.len() > 0 && power[0] == '-';
    let signed = power.len() > 0 && (power[0] == '-' || power[0] == '+');
    let digits = if signed {
        power.drop_first()
    } else {
        power
    };
    if digits.len() > 0 && all_digits(digits) && decimal_value(digits) <= u64::MAX {
        if falling {
            Some(-(decimal_value(digits) as int))
        } else {
            Some(decimal_value(digits) as int)
        }
    } else {
        None
    }
}

/// The milliseconds of a number of seconds without sign and exponent mark, times ten
/// to the power `exponent`: a run of digits, optionally followed by `.` and a second
/// run, at least one of the two runs not empty. The value is cut off behind the third
/// place after the point.
pub open spec fn mantissa_millis(mantissa: Seq<char>, exponent: int) -> Option<u64> {
    let point = position_of(mantissa, '.');
    let whole = mantissa.take(point);
    let fraction = if point < mantissa.len() {
        mantissa.skip(point + 1)
    } else {
        Seq::<char>::empty()
    };
    let total = moved(whole + fraction, 3 + exponent - fraction.len());
    if all_digits(whole) && all_digits(fraction) && whole.len() + fraction.len() > 0 && total
        <= u64::MAX {
        Some(total as u64)
    } else {
        None
    }
}

/// What a number of seconds reads as, in whole milliseconds.
///
/// The text has the form of a decimal floating-point literal without a minus sign: an
/// optional `+`; a run of digits, optionally followed by `.` and a second run, at
/// least one of the two runs not empty; and optionally an exponent, `e` or `E` with
/// an optional sign and at least one digit. The value is cut off behind the third
/// place after the point. The result is absent where the text has another form (a
/// minus sign before the number, `inf` and `nan` among them), where the exponent is
/// beyond 64 bits, or where the milliseconds do not fit in 64 bits.
pub open spec fn millis_value(s: Seq<char>) -> Option<u64> {
    let body = if s.len() > 0 && s[0] == '+' {
        s.drop_first()
    } else {
        s
    };
    let mark = exponent_mark(body);
    let exponent = if mark < body.len() {
        exponent_value(body.skip(mark + 1))
    } else {
        Some(0int)
    };
    match exponent {
        Some(e) => mantissa_millis(body.take(mark), e),
        None => None,
    }
}

/// A whole number of seconds for a time in milliseconds: the nearest one, and the even
/// one where two are equally near.
pub open spec fn nearest_second(millis: nat) -> nat {
    let whole = millis / 1000;
    let rest = millis % 1000;
    if rest > 500 || (rest == 500 && whole % 2 == 1) {
        whole + 1
    } else {
        whole
    }
}

/// Appending one digit to a run multiplies its value by ten and adds the digit.
pub proof fn lemma_value_push(s: Seq<char>, c: char)
    ensures
        decimal_value(s.push(c)) == decimal_value(s) * 10 + digit_value(c),
{
    assert(s.push(c).drop_last() == s);
    assert(s.push(c).last() == c);
}

/// A run of digits is worth at least as much as any of its prefixes.
pub proof fn lemma_value_prefix(s: Seq<char>, n: int)
    requires
        0 <= n <= s.len(),
    ensures
        decimal_value(s.take(n)) <= decimal_value(s),
    decreases s.len() - n,
{
    if n == s.len() {
        assert(s.take(n) == s);
    } else {
        lemma_value_prefix(s, n + 1);
        assert(s.take(n + 1) == s.take(n).push(s[n]));
        lemma_value_push(s.take(n), s[n]);
    }
}

/// Reading back the digits written for `n` gives `n`: the written form is not empty,
/// holds digits only and has the value `n`.
pub proof fn lemma_digits_round_trip(n: nat)
    ensures
        decimal_digits(n).len() > 0,
        all_digits(decimal_digits(n)),
        decimal_value(decimal_digits(n)) == n,
    decreases n,
{
    if n < 10 {
        let s = decimal_digits(n);
        assert(s.len() == 1);
        assert(s[0] == digit_char(n));
        assert(s.drop_last().len() == 0);
        assert(decimal_value(s.drop_last()) == 0);
        assert(s.last() == digit_char(n));
    } else {
        lemma_digits_round_trip(n / 10);
        lemma_value_push(decimal_digits(n / 10), digit_char(n % 10));
        assert(digit_value(digit_char(n % 10)) == n % 10);
        assert(is_digit(digit_char(n % 10)));
    }
}

/// `exponent_mark` is the one place that no `e` or `E` precedes and that is the end of
/// the text or holds one of the two.
pub proof fn lemma_exponent_mark_is(s: Seq<char>, n: int)
    requires
        0 <= n <= s.len(),
        forall|i: int| 0 <= i < n ==> s[i] != 'e' && s[i] != 'E',
        n < s.len() ==> s[n] == 'e' || s[n] == 'E',
    ensures
        exponent_mark(s) == n,
    decreases s.len(),
{
    if n > 0 {
        let rest = s.drop_first();
        assert forall|i: int| 0 <= i < n - 1 implies rest[i] != 'e' && rest[i] != 'E' by {
            assert(rest[i] == s[i + 1]);
        }
        if n < s.len() {
            assert(rest[n - 1] == s[n]);
        }
        lemma_exponent_mark_is(rest, n - 1);
    }
}

/// Ten to any power is at least one.
pub proof fn lemma_pow10_positive(n: nat)
    ensures
        pow10(n) >= 1,
    decreases n,
{
    if n > 0 {
        lemma_pow10_positive((n - 1) as nat);
    }
}

/// Whether `c` is a digit.
pub fn check_digit(c: char) -> (r: bool)
    ensures
        r == is_digit(c),
{
    c >= '0' && c <= '9'
}

/// The value of the digits of `chars` from `from` up to `to`, where they are all
/// digits and the value fits.
pub(crate) fn digits_value(chars: &Vec<char>, from: usize, to: usize) -> (r: Option<u64>)
    requires
        from <= to <= chars.len(),
    ensures
        r == bounded_value(chars@.subrange(from as int, to as int)),
{
    let ghost run = chars@.subrange(from as int, to as int);
    let mut value: u64 = 0;
    let mut i: usize = from;
    while i < to
        invariant
            from <= i <= to <= chars.len(),
            run == chars@.subrange(from as int, to as int),
            all_digits(run.take(i - from)),
            value == decimal_value(run.take(i - from)),
        decreases to - i,
    {
        let c = chars[i];
        proof {
            assert(run[i - from] == c);
            assert(run.take(i - from + 1) == run.take(i - from).push(c));
            lemma_value_push(run.take(i - from), c);
            lemma_value_prefix(run, i - from + 1);
        }
        if !check_digit(c) {
            return None;
        }
        let d: u64 = (c as u32 - 48) as u64;
        let next = match value.checked_mul(10) {
            Some(v) => v.checked_add(d),
            None => None,
        };
        match next {
            Some(v) => {
                value = v;
            },
            None => {
                return None;
            },
        }
        i += 1;
    }
    assert(run.take(to - from) == run);
    Some(value)
}

/// Reads a signed count, as `signed_value` says.
pub fn parse_i64(text: &str) -> (r: Option<i64>)
    ensures
        r == signed_value(text@),
{
    let chars = to_chars(text);
    let n = chars.len();
    let negative = n > 0 && chars[0] == '-';
    let signed = n > 0 && (chars[0] == '-' || chars[0] == '+');
    let start: usize = if signed { 1 } else { 0 };
    assert(chars@.subrange(start as int, n as int) == if signed {
        chars@.drop_first()
    } else {
        chars@
    });
    if start == n {
        return None;
    }
    match digits_value(&chars, start, n) {
        None => None,
        Some(magnitude) => {
            if negative {
                if magnitude <= 0x7fff_ffff_ffff_ffff {
                    Some(-(magnitude as i64))
                } else if magnitude == 0x8000_0000_0000_0000 {
                    Some(i64::MIN)
                } else {
                    None
                }
            } else if magnitude <= 0x7fff_ffff_ffff_ffff {
                Some(magnitude as i64)
            } else {
                None
            }
        },
    }
}

/// Whether the characters of `chars` from `from` up to `to` are all digits.
fn digits_only(chars: &Vec<char>, from: usize, to: usize) -> (r: bool)
    requires
        from <= to <= chars.len(),
    ensures
        r == all_digits(chars@.subrange(from as int, to as int)),
{
    let ghost run = chars@.subrange(from as int, to as int);
    let mut i: usize = from;
    while i < to
        invariant
            from <= i <= to <= chars.len(),
            run == chars@.subrange(from as int, to as int),
            forall|j: int| 0 <= j < i - from ==> is_digit(#[trigger] run[j]),
        decreases to - i,
    {
        if !check_digit(chars[i]) {
            assert(!is_digit(run[i - from]));
            return false;
        }
        i += 1;
    }
    true
}

/// `value` times ten to the power `power`, where it fits in 64 bits.
fn times_pow10(value: u64, power: u128) -> (r: Option<u64>)
    ensures
        r == if value * pow10(power as nat) <= u64::MAX {
            Some((value * pow10(power as nat)) as u64)
        } else {
            None
        },
{
    let mut scaled: u64 = value;
    let mut left: u128 = power;
    while left > 0
        invariant
            scaled * pow10(left as nat) == value * pow10(power as nat),
        decreases left,
    {
        if scaled == 0 {
            assert(0 * pow10(left as nat) == 0);
            return Some(0);
        }
        proof {
            lemma_pow10_positive((left - 1) as nat);
            let rest = pow10((left - 1) as nat);
            assert(scaled * (10 * rest) == (scaled * 10) * rest) by (nonlinear_arith);
            assert((scaled * 10) * rest >= scaled * 10) by (nonlinear_arith)
                requires
                    rest >= 1,
                    scaled >= 0,
            ;
        }
        match scaled.checked_mul(10) {
            None => {
                return None;
            },
            Some(next) => {
                scaled = next;
            },
        }
        left -= 1;
    }
    proof {
        let one = pow10(left as nat);
        assert(one == 1);
        assert(scaled * one == scaled) by (nonlinear_arith)
            requires
                one == 1,
        ;
    }
    Some(scaled)
}

/// The exponent that the characters of `chars` from `from` on state, as
/// `exponent_value` says: whether it is negative, and its size.
fn read_exponent(chars: &Vec<char>, from: usize) -> (r: Option<(bool, u64)>)
    requires
        from <= chars.len(),
    ensures
        match exponent_value(chars@.subrange(from as int, chars@.len() as int)) {
            Some(e) => r matches Some(found) && e == if found.0 {
                -(found.1 as int)
            } else {
                found.1 as int
            },
            None => r is None,
        },
{
    let n = chars.len();
    let ghost power = chars@.subrange(from as int, n as int);
    let falling = from < n && chars[from] == '-';
    let signed = from < n && (chars[from] == '-' || chars[from] == '+');
    let first: usize = if signed { from + 1 } else { from };
    assert(chars@.subrange(first as int, n as int) == if signed {
        power.drop_first()
    } else {
        power
    });
    if first == n || !digits_only(chars, first, n) {
        return None;
    }
    match digits_value(chars, first, n) {
        None => None,
        Some(size) => Some((falling, size)),
    }
}

/// The digits of `chars` from `start` up to `point` and from `first` up to `mark`, in
/// one run.
fn collect_digits(
    chars: &Vec<char>,
    start: usize,
    point: usize,
    first: usize,
    mark: usize,
) -> (digits: Vec<char>)
    requires
        start <= point <= first <= mark <= chars.len(),
    ensures
        digits@ == chars@.subrange(start as int, point as int) + chars@.subrange(
            first as int,
            mark as int,
        ),
{
    let ghost whole = chars@.subrange(start as int, point as int);
    let mut digits: Vec<char> = Vec::new();
    let mut i: usize = start;
    while i < point
        invariant
            start <= i <= point <= chars.len(),
            digits@ == chars@.subrange(start as int, i as int),
        decreases point - i,
    {
        digits.push(chars[i]);
        assert(chars@.subrange(start as int, i as int).push(chars@[i as int]) == chars@.subrange(
            start as int,
            i + 1,
        ));
        i += 1;
    }
    let mut k: usize = first;
    assert(whole + chars@.subrange(first as int, first as int) == whole);
    while k < mark
        invariant
            first <= k <= mark <= chars.len(),
            whole == chars@.subrange(start as int, point as int),
            digits@ == whole + chars@.subrange(first as int, k as int),
        decreases mark - k,
    {
        digits.push(chars[k]);
        assert((whole + chars@.subrange(first as int, k as int)).push(chars@[k as int]) == whole
            + chars@.subrange(first as int, k + 1));
        k += 1;
    }
    digits
}

/// The number that `digits` write once the point behind them is moved, as `moved`
/// says, by `3 + exponent - places` places, where it fits in 64 bits. The exponent
/// is `size`, negative where `falling`.
fn move_point(digits: &Vec<char>, places: usize, falling: bool, size: u64) -> (r: Option<u64>)
    requires
        all_digits(digits@),
    ensures
        ({
            let exponent = if falling {
                -(size as int)
            } else {
                size as int
            };
            let total = moved(digits@, 3 + exponent - places);
            r == if total <= u64::MAX {
                Some(total as u64)
            } else {
                None
            }
        }),
{
    let count = digits.len();
    assert(digits@.subrange(0, count as int) == digits@);
    let right: u128 = if falling { 3 } else { 3 + size as u128 };
    let left: u128 = if falling { places as u128 + size as u128 } else { places as u128 };
    if right >= left {
        proof {
            lemma_pow10_positive((right - left) as nat);
            let scale = pow10((right - left) as nat);
            let value = decimal_value(digits@);
            assert(value * scale >= value) by (nonlinear_arith)
                requires
                    scale >= 1,
                    value >= 0,
            ;
        }
        match digits_value(digits, 0, count) {
            None => None,
            Some(value) => times_pow10(value, right - left),
        }
    } else if left - right >= count as u128 {
        Some(0)
    } else {
        let keep: usize = count - (left - right) as usize;
        assert(digits@.subrange(0, keep as int) == digits@.take(keep as int));
        digits_value(digits, 0, keep)
    }
}

/// The milliseconds of the number without sign and exponent mark that stands in
/// `chars` from `start` up to `mark`, as `mantissa_millis` says.
fn read_mantissa(chars: &Vec<char>, start: usize, mark: usize, falling: bool, size: u64) -> (r:
    Option<u64>)
    requires
        start <= mark <= chars.len(),
    ensures
        r == mantissa_millis(
            chars@.subrange(start as int, mark as int),
            if falling {
                -(size as int)
            } else {
                size as int
            },
        ),
{
    let ghost mantissa = chars@.subrange(start as int, mark as int);
    let point = find_char(chars, '.', start, mark);
    let first: usize = if point < mark { point + 1 } else { mark };
    let ghost whole = chars@.subrange(start as int, point as int);
    let ghost fraction = chars@.subrange(first as int, mark as int);
    proof {
        assert(mantissa.take(point - start) == whole);
        if point < mark {
            assert(mantissa.skip(point - start + 1) == fraction);
        } else {
            assert(fraction == Seq::<char>::empty());
        }
    }
    if !digits_only(chars, start, point) || !digits_only(chars, first, mark) {
        return None;
    }
    if point - start + (mark - first) == 0 {
        return None;
    }
    let digits = collect_digits(chars, start, point, first, mark);
    move_point(&digits, mark - first, falling, size)
}

/// Reads a number of seconds into whole milliseconds, as `millis_value` says.
pub fn parse_millis(text: &str) -> (r: Option<u64>)
    ensures
        r == millis_value(text@),
{
    let chars = to_chars(text);
    let n = chars.len();
    let start: usize = if n > 0 && chars[0] == '+' { 1 } else { 0 };
    let ghost body = chars@.subrange(start as int, n as int);
    assert(body == if start == 1 {
        chars@.drop_first()
    } else {
        chars@
    });
    let mut mark: usize = start;
    while mark < n && chars[mark] != 'e' && chars[mark] != 'E'
        invariant
            start <= mark <= n == chars.len(),
            forall|i: int| start <= i < mark ==> chars@[i] != 'e' && chars@[i] != 'E',
        decreases n - mark,
    {
        mark += 1;
    }
    proof {
        lemma_exponent_mark_is(body, mark - start);
        assert(body.take(mark - start) == chars@.subrange(start as int, mark as int));
    }
    if mark < n {
        assert(body.skip(mark - start + 1) == chars@.subrange(mark + 1, n as int));
        match read_exponent(&chars, mark + 1) {
            None => None,
            Some(exponent) => read_mantissa(&chars, start, mark, exponent.0, exponent.1),
        }
    } else {
        read_mantissa(&chars, start, mark, false, 0)
    }
}

/// Appends the decimal digits of `n` to `out`.
pub fn push_decimal(out: &mut String, n: u64)
    ensures
        final(out)@ == old(out)@ + decimal_digits(n as nat),
    decreases n,
{
    if n >= 10 {
        push_decimal(out, n / 10);
    }
    let d: u8 = (n % 10) as u8;
    out.push((d + 48) as char);
    proof {
        let digit = digit_char((n % 10) as nat);
        if n >= 10 {
            assert(old(out)@ + decimal_digits((n / 10) as nat).push(digit) == (old(out)@
                + decimal_digits((n / 10) as nat)).push(digit));
        } else {
            assert(old(out)@ + seq![digit] == old(out)@.push(digit));
        }
    }
}

/// The whole second nearest to a time in milliseconds, as `nearest_second` says.
pub fn round_to_seconds(millis: u64) -> (seconds: u64)
    ensures
        seconds == nearest_second(millis as nat),
{
    let whole = millis / 1000;
    let rest = millis % 1000;
    if rest > 500 || (rest == 500 && whole % 2 == 1) {
        whole + 1
    } else {
        whole
    }
}

} // verus!
