use crate::text::chars_of;
use vstd::prelude::*;
use vstd::string::*;

verus! {

/// The number of minor units in one unit of currency, and in a rate of one.
/// Amounts and rates are held as whole numbers of millionths.
pub const SCALE: u64 = 1_000_000;

/// Whether `c` is one of the ten decimal digits.
pub open spec fn is_digit(c: char) -> bool {
    0x30 <= c as u32 <= 0x39
}

/// The number that the digit `c` stands for.
pub open spec fn digit_value(c: char) -> nat {
    (c as u32 - 0x30) as nat
}

/// Whether `s` holds decimal digits only.
pub open spec fn all_digits(s: Seq<char>) -> bool {
    forall|i: int| 0 <= i < s.len() ==> is_digit(#[trigger] s[i])
}

/// The number that the digits of `s` write down; 0 for no digits.
pub open spec fn digits_value(s: Seq<char>) -> nat
    decreases s.len(),
{
    if s.len() == 0 {
        0
    } else {
        digits_value(s.drop_last()) * 10 + digit_value(s.last())
    }
}

/// The place of the first `.` in `s`, or the length of `s` if it has none.
pub open spec fn first_dot(s: Seq<char>) -> int
    decreases s.len(),
{
    if s.len() == 0 || s[0] == '.' {
        0
    } else {
        1 + first_dot(s.drop_first())
    }
}

/// The first six digits of a fraction, with zeros where it has fewer.
pub open spec fn micro_digits(fraction: Seq<char>) -> Seq<char> {
    Seq::new(
        6,
        |i: int|
            if i < fraction.len() {
                fraction[i]
            } else {
                '0'
            },
    )
}

/// The digits of `s` that follow its first `.`; none if it has no `.`.
pub open spec fn fraction_of(s: Seq<char>) -> Seq<char> {
    if first_dot(s) < s.len() {
        s.skip(first_dot(s) + 1)
    } else {
        Seq::empty()
    }
}

/// The value of a plain decimal numeral in millionths, rounded down.
///
/// A numeral is a run of digits, then optionally a `.` and another run of
/// digits; one of the two runs may be empty, not both. Anything else,
/// a sign and an exponent included, is no numeral.
pub open spec fn decimal_value(s: Seq<char>) -> Option<nat> {
    let whole = s.take(first_dot(s));
    let fraction = fraction_of(s);
    if all_digits(whole) && all_digits(fraction) && whole.len() + fraction.len() > 0 {
        Some(digits_value(whole) * SCALE as nat + digits_value(micro_digits(fraction)))
    } else {
        None
    }
}

/// The value of a decimal numeral that may start with a sign, in millionths.
pub open spec fn signed_decimal_value(s: Seq<char>) -> Option<int> {
    if s.len() > 0 && s[0] == '-' {
        match decimal_value(s.skip(1)) {
            Some(v) => Some(-(v as int)),
            None => None,
        }
    } else if s.len() > 0 && s[0] == '+' {
        match decimal_value(s.skip(1)) {
            Some(v) => Some(v as int),
            None => None,
        }
    } else {
        match decimal_value(s) {
            Some(v) => Some(v as int),
            None => None,
        }
    }
}

/// Ten to the power `k`.
pub open spec fn pow10(k: nat) -> nat
    decreases k,
{
    if k == 0 {
        1
    } else {
        10 * pow10((k - 1) as nat)
    }
}

/// Where no `.` stands before place `k`, the first `.` is at `k` or later,
/// and at `k` exactly if `s` ends there or has a `.` there.
pub proof fn lemma_first_dot(s: Seq<char>, k: int)
    requires
        0 <= k <= s.len(),
        forall|j: int| 0 <= j < k ==> #[trigger] s[j] != '.',
    ensures
        k <= first_dot(s) <= s.len(),
        (k == s.len() || s[k] == '.') ==> first_dot(s) == k,
    decreases k,
{
    if k == 0 {
        lemma_first_dot_in_range(s);
    } else {
        let rest = s.drop_first();
        assert forall|j: int| 0 <= j < k - 1 implies #[trigger] rest[j] != '.' by {
            assert(rest[j] == s[j + 1]);
        }
        lemma_first_dot(rest, k - 1);
        assert(s[0] != '.');
        if k < s.len() {
            assert(rest[k - 1] == s[k]);
        }
    }
}

/// The first `.` lies within `s` or at its end.
pub proof fn lemma_first_dot_in_range(s: Seq<char>)
    ensures
        0 <= first_dot(s) <= s.len(),
    decreases s.len(),
{
    if s.len() == 0 || s[0] == '.' {
    } else {
        lemma_first_dot_in_range(s.drop_first());
    }
}

/// A longer run of the same digits writes down no smaller number.
pub proof fn lemma_digits_value_grows(s: Seq<char>, i: int, j: int)
    requires
        0 <= i <= j <= s.len(),
    ensures
        digits_value(s.take(i)) <= digits_value(s.take(j)),
    decreases j - i,
{
    if i < j {
        lemma_digits_value_grows(s, i, j - 1);
        assert(s.take(j).drop_last() =~= s.take(j - 1));
    }
}

/// Decides whether `c` is a decimal digit.
pub fn digit(c: char) -> (r: bool)
    ensures
        r == is_digit(c),
{
    let n: u32 = c as u32;
    0x30 <= n && n <= 0x39
}

/// The number that the digit `c` stands for.
fn digit_number(c: char) -> (r: u64)
    requires
        is_digit(c),
    ensures
        r == digit_value(c),
        r <= 9,
{
    let n: u32 = c as u32;
    (n - 0x30) as u64
}

/// A number as a `u64`, where it fits.
pub open spec fn as_u64(value: Option<nat>) -> Option<u64> {
    match value {
        Some(v) => if v <= u64::MAX {
            Some(v as u64)
        } else {
            None
        },
        None => None,
    }
}

/// A number as an `i64`, where it fits.
pub open spec fn as_i64(value: Option<int>) -> Option<i64> {
    match value {
        Some(v) => if i64::MIN <= v <= i64::MAX {
            Some(v as i64)
        } else {
            None
        },
        None => None,
    }
}

/// Reads a plain decimal numeral as a number of millionths. `None` where
/// the text is no numeral or the number does not fit.
pub fn parse_decimal(text: &str) -> (r: Option<u64>)
    ensures
        r == as_u64(decimal_value(text@)),
{
    let v = chars_of(text);
    let n: usize = v.len();
    let ghost s = v@;
    let mut i: usize = 0;
    let mut whole: u64 = 0;
    while i < n && v[i] != '.'
        invariant
            i <= n == v.len(),
            s == v@,
            s == text@,
            forall|j: int| 0 <= j < i ==> #[trigger] s[j] != '.' && is_digit(s[j]),
            whole == digits_value(s.take(i as int)),
        decreases n - i,
    {
        let c = v[i];
        proof {
            lemma_first_dot(s, i as int + 1);
        }
        if !digit(c) {
            assert(s.take(first_dot(s))[i as int] == s[i as int]);
            return None;
        }
        let d = digit_number(c);
        assert(s.take(i as int + 1).drop_last() =~= s.take(i as int));
        if whole > (u64::MAX - d) / 10 {
            proof {
                lemma_digits_value_grows(s, i as int + 1, first_dot(s));
                assert(digits_value(s.take(first_dot(s))) * SCALE as nat >= digits_value(
                    s.take(first_dot(s)),
                )) by (nonlinear_arith);
            }
            return None;
        }
        whole = whole * 10 + d;
        i += 1;
    }
    proof {
        lemma_first_dot(s, i as int);
        assert(all_digits(s.take(i as int)));
    }
    let start: usize = if i < n {
        i + 1
    } else {
        n
    };
    let ghost f = fraction_of(s);
    assert(f =~= s.skip(start as int));
    let mut p: usize = start;
    let mut k: usize = 0;
    let mut frac: u64 = 0;
    while p < n
        invariant
            start <= p <= n == v.len(),
            s == v@,
            s == text@,
            f == s.skip(start as int),
            f == fraction_of(s),
            forall|j: int| 0 <= j < p - start ==> is_digit(#[trigger] f[j]),
            k <= 6,
            k == if p - start < 6 {
                p - start
            } else {
                6
            },
            frac == digits_value(micro_digits(f).take(k as int)),
            frac < pow10(k as nat),
        decreases n - p,
    {
        let c = v[p];
        assert(f[p - start] == s[p as int]);
        if !digit(c) {
            return None;
        }
        if k < 6 {
            let d = digit_number(c);
            proof {
                reveal_with_fuel(pow10, 8);
                assert(micro_digits(f).take(k as int + 1).drop_last() =~= micro_digits(f).take(
                    k as int,
                ));
                assert(micro_digits(f)[k as int] == c);
            }
            frac = frac * 10 + d;
            k += 1;
        }
        p += 1;
    }
    assert(all_digits(f));
    while k < 6
        invariant
            k <= 6,
            k >= if f.len() < 6 {
                f.len()
            } else {
                6
            },
            frac == digits_value(micro_digits(f).take(k as int)),
            frac < pow10(k as nat),
        decreases 6 - k,
    {
        proof {
            reveal_with_fuel(pow10, 8);
            assert(micro_digits(f).take(k as int + 1).drop_last() =~= micro_digits(f).take(
                k as int,
            ));
            assert(micro_digits(f)[k as int] == '0');
        }
        frac = frac * 10;
        k += 1;
    }
    proof {
        reveal_with_fuel(pow10, 8);
        assert(micro_digits(f).take(6) =~= micro_digits(f));
    }
    if i == 0 && n == start {
        return None;
    }
    if whole > (u64::MAX - frac) / SCALE {
        assert(whole * SCALE + frac > u64::MAX) by (nonlinear_arith)
            requires
                whole > (u64::MAX - frac) / (SCALE as int),
                SCALE == 1_000_000,
                frac < 1_000_000,
        ;
        return None;
    }
    assert(whole * SCALE + frac <= u64::MAX) by (nonlinear_arith)
        requires
            whole <= (u64::MAX - frac) / (SCALE as int),
            SCALE == 1_000_000,
            frac < 1_000_000,
    ;
    Some(whole * SCALE + frac)
}

/// Reads a decimal numeral that may start with `+` or `-` as a number of
/// millionths. `None` where the text is no such numeral or the number does
/// not fit.
pub fn parse_signed_decimal(text: &str) -> (r: Option<i64>)
    ensures
        r == as_i64(signed_decimal_value(text@)),
{
    let n = text.unicode_len();
    if n > 0 && text.get_char(0) == '-' {
        let rest = text.substring_char(1, n);
        assert(rest@ =~= text@.skip(1));
        match parse_decimal(rest) {
            Some(v) => if v <= 0x8000_0000_0000_0000 {
                if v == 0x8000_0000_0000_0000 {
                    Some(i64::MIN)
                } else {
                    Some(-(v as i64))
                }
            } else {
                None
            },
            None => None,
        }
    } else if n > 0 && text.get_char(0) == '+' {
        let rest = text.substring_char(1, n);
        assert(rest@ =~= text@.skip(1));
        match parse_decimal(rest) {
            Some(v) => if v <= 0x7fff_ffff_ffff_ffff {
                Some(v as i64)
            } else {
                None
            },
            None => None,
        }
    } else {
        match parse_decimal(text) {
            Some(v) => if v <= 0x7fff_ffff_ffff_ffff {
                Some(v as i64)
            } else {
                None
            },
            None => None,
        }
    }
}

/// The character that writes the digit `d`.
pub open spec fn digit_char(d: nat) -> char
    recommends
        d < 10,
{
    (d + 0x30) as char
}

/// The decimal numeral of `n`, without leading zeros.
pub open spec fn decimal_digits(n: nat) -> Seq<char>
    decreases n,
{
    if n < 10 {
        seq![digit_char(n)]
    } else {
        decimal_digits(n / 10).push(digit_char(n % 10))
    }
}

/// The last `width` digits of `n`, with leading zeros where it has fewer.
pub open spec fn fixed_digits(n: nat, width: nat) -> Seq<char>
    decreases width,
{
    if width == 0 {
        Seq::empty()
    } else {
        fixed_digits(n / 10, (width - 1) as nat).push(digit_char(n % 10))
    }
}

/// `s` without the zeros at its end.
pub open spec fn strip_trailing_zeros(s: Seq<char>) -> Seq<char>
    decreases s.len(),
{
    if s.len() > 0 && s.last() == '0' {
        strip_trailing_zeros(s.drop_last())
    } else {
        s
    }
}

/// The magnitude of `value`.
pub open spec fn magnitude(value: int) -> nat {
    if value < 0 {
        (-value) as nat
    } else {
        value as nat
    }
}

/// The decimal numeral of a whole number, with `-` before a negative one.
pub open spec fn integer_text(value: int) -> Seq<char> {
    if value < 0 {
        seq!['-'] + decimal_digits(magnitude(value))
    } else {
        decimal_digits(magnitude(value))
    }
}

/// A number of millionths written out in full: the whole units, then,
/// where there is a fraction, a `.` and its digits up to the last one that
/// is not zero.
pub open spec fn magnitude_text(size: nat) -> Seq<char> {
    let whole = size / (SCALE as nat);
    let fraction = size % (SCALE as nat);
    if fraction == 0 {
        decimal_digits(whole)
    } else {
        decimal_digits(whole) + seq!['.'] + strip_trailing_zeros(fixed_digits(fraction, 6))
    }
}

/// An amount of millionths written out in full, with `-` before a negative
/// amount.
pub open spec fn amount_text(amount: int) -> Seq<char> {
    if amount < 0 {
        seq!['-'] + magnitude_text(magnitude(amount))
    } else {
        magnitude_text(magnitude(amount))
    }
}

/// The number of hundredths nearest to an amount of millionths, without
/// its sign; a half is rounded away from zero.
pub open spec fn hundredths(amount: int) -> nat {
    (magnitude(amount) + 5_000) / 10_000
}

/// An amount of millionths written with two decimals: the whole units, a
/// `.` and two digits; `-` before a negative amount that does not round to
/// zero.
pub open spec fn amount_text_2dp(amount: int) -> Seq<char> {
    let sign = if amount < 0 && hundredths(amount) > 0 {
        seq!['-']
    } else {
        Seq::empty()
    };
    sign + decimal_digits(hundredths(amount) / 100) + seq!['.'] + fixed_digits(
        hundredths(amount) % 100,
        2,
    )
}

/// The text of one digit.
fn digit_text(d: u8) -> (r: &'static str)
    requires
        d < 10,
    ensures
        r@ == seq![digit_char(d as nat)],
{
    proof {
        reveal_strlit("0");
        reveal_strlit("1");
        reveal_strlit("2");
        reveal_strlit("3");
        reveal_strlit("4");
        reveal_strlit("5");
        reveal_strlit("6");
        reveal_strlit("7");
        reveal_strlit("8");
        reveal_strlit("9");
    }
    let r = match d {
        0 => "0",
        1 => "1",
        2 => "2",
        3 => "3",
        4 => "4",
        5 => "5",
        6 => "6",
        7 => "7",
        8 => "8",
        _ => "9",
    };
    assert(r@ =~= seq![digit_char(d as nat)]);
    r
}

/// Writes the decimal numeral of `n` at the end of `text`.
pub fn push_decimal(text: &mut String, n: u128)
    ensures
        final(text)@ == old(text)@ + decimal_digits(n as nat),
    decreases n,
{
    if n >= 10 {
        push_decimal(text, n / 10);
    }
    text.append(digit_text((n % 10) as u8));
    assert(text@ =~= old(text)@ + decimal_digits(n as nat));
}

/// Writes the last `width` digits of `n` at the end of `text`.
pub fn push_fixed(text: &mut String, n: u128, width: u8)
    ensures
        final(text)@ == old(text)@ + fixed_digits(n as nat, width as nat),
    decreases width,
{
    if width > 0 {
        push_fixed(text, n / 10, width - 1);
        text.append(digit_text((n % 10) as u8));
    }
    assert(text@ =~= old(text)@ + fixed_digits(n as nat, width as nat));
}

/// The magnitude of `value`.
pub fn magnitude_of(value: i128) -> (r: u128)
    ensures
        r == magnitude(value as int),
{
    if value >= 0 {
        value as u128
    } else {
        (-(value + 1)) as u128 + 1
    }
}

/// Writes a whole number, with `-` before a negative one.
pub fn integer_to_text(value: i128) -> (r: String)
    ensures
        r@ == integer_text(value as int),
{
    let mut text = String::from_str("");
    proof {
        reveal_strlit("");
        reveal_strlit("-");
    }
    if value < 0 {
        text.append("-");
    }
    push_decimal(&mut text, magnitude_of(value));
    assert(text@ =~= integer_text(value as int));
    text
}

/// Stripping the zeros at the end of a fraction is dropping its last digit
/// where that is zero, and stripping what is left.
proof fn lemma_strip_fixed(n: nat, width: nat)
    requires
        width > 0,
    ensures
        n % 10 == 0 ==> strip_trailing_zeros(fixed_digits(n, width)) == strip_trailing_zeros(
            fixed_digits(n / 10, (width - 1) as nat),
        ),
        n % 10 != 0 ==> strip_trailing_zeros(fixed_digits(n, width)) == fixed_digits(n, width),
{
    let digits = fixed_digits(n, width);
    assert(digits.last() == digit_char(n % 10));
    assert(digits.drop_last() =~= fixed_digits(n / 10, (width - 1) as nat));
}

/// Writes an amount of millionths out in full.
pub fn amount_to_text(amount: i128) -> (r: String)
    ensures
        r@ == amount_text(amount as int),
{
    let mut text = String::from_str("");
    proof {
        reveal_strlit("");
        reveal_strlit("-");
        reveal_strlit(".");
    }
    if amount < 0 {
        text.append("-");
    }
    let size = magnitude_of(amount);
    let whole: u128 = size / 1_000_000;
    let fraction: u128 = size % 1_000_000;
    push_decimal(&mut text, whole);
    if fraction != 0 {
        text.append(".");
        let ghost head = text@;
        let mut rest: u128 = fraction;
        let mut width: u8 = 6;
        while rest % 10 == 0 && width > 0
            invariant
                width <= 6,
                strip_trailing_zeros(fixed_digits(fraction as nat, 6)) == strip_trailing_zeros(
                    fixed_digits(rest as nat, width as nat),
                ),
            decreases width,
        {
            proof {
                lemma_strip_fixed(rest as nat, width as nat);
            }
            rest = rest / 10;
            width = width - 1;
        }
        proof {
            if width > 0 {
                lemma_strip_fixed(rest as nat, width as nat);
            }
        }
        push_fixed(&mut text, rest, width);
    }
    assert(text@ =~= amount_text(amount as int));
    text
}

/// Writes an amount of millionths with two decimals, rounded to the
/// nearest hundredth.
pub fn amount_to_text_2dp(amount: i128) -> (r: String)
    ensures
        r@ == amount_text_2dp(amount as int),
{
    let mut text = String::from_str("");
    proof {
        reveal_strlit("");
        reveal_strlit("-");
        reveal_strlit(".");
    }
    let size = magnitude_of(amount);
    let cents: u128 = (size + 5_000) / 10_000;
    if amount < 0 && cents > 0 {
        text.append("-");
    }
    push_decimal(&mut text, cents / 100);
    text.append(".");
    push_fixed(&mut text, cents % 100, 2);
    assert(text@ =~= amount_text_2dp(amount as int));
    text
}

/// The numeral of a number holds digits only, at least one, and writes
/// down that number.
pub proof fn lemma_decimal_digits(n: nat)
    ensures
        all_digits(decimal_digits(n)),
        decimal_digits(n).len() >= 1,
        digits_value(decimal_digits(n)) == n,
    decreases n,
{
    reveal_with_fuel(digits_value, 2);
    if n < 10 {
        assert(decimal_digits(n).drop_last() =~= Seq::<char>::empty());
    } else {
        lemma_decimal_digits(n / 10);
        assert(decimal_digits(n).drop_last() =~= decimal_digits(n / 10));
    }
}

/// The `width` digits of a number below ten to the power `width` hold
/// digits only and write down that number.
pub proof fn lemma_fixed_digits(n: nat, width: nat)
    requires
        n < pow10(width),
    ensures
        all_digits(fixed_digits(n, width)),
        fixed_digits(n, width).len() == width,
        digits_value(fixed_digits(n, width)) == n,
    decreases width,
{
    if width > 0 {
        lemma_fixed_digits(n / 10, (width - 1) as nat);
        assert(fixed_digits(n, width).drop_last() =~= fixed_digits(n / 10, (width - 1) as nat));
    }
}

/// Stripping the zeros at the end of at most six digits leaves digits, and
/// filling them up to six digits with zeros gives the same six digits as
/// before.
pub proof fn lemma_stripped_zeros_come_back(s: Seq<char>)
    requires
        s.len() <= 6,
        all_digits(s),
    ensures
        all_digits(strip_trailing_zeros(s)),
        micro_digits(strip_trailing_zeros(s)) == micro_digits(s),
    decreases s.len(),
{
    if s.len() > 0 && s.last() == '0' {
        let rest = s.drop_last();
        assert forall|i: int| 0 <= i < rest.len() implies is_digit(#[trigger] rest[i]) by {
            assert(rest[i] == s[i]);
        }
        lemma_stripped_zeros_come_back(rest);
        assert(micro_digits(rest) =~= micro_digits(s));
    }
}

/// An amount written out in full is read back as the same amount.
pub proof fn lemma_amount_text_reads_back(amount: int)
    ensures
        signed_decimal_value(amount_text(amount)) == Some(amount),
{
    let size = magnitude(amount);
    lemma_magnitude_text_reads_back(size);
    let text = magnitude_text(size);
    lemma_decimal_digits(size / (SCALE as nat));
    assert(text[0] == decimal_digits(size / (SCALE as nat))[0]);
    assert(is_digit(text[0]));
    if amount < 0 {
        assert(amount_text(amount).skip(1) =~= text);
    }
}

/// A number of millionths written out in full is read back as the same
/// number.
pub proof fn lemma_magnitude_text_reads_back(size: nat)
    ensures
        decimal_value(magnitude_text(size)) == Some(size),
        magnitude_text(size).len() > 0,
{
    let whole = size / (SCALE as nat);
    let fraction = size % (SCALE as nat);
    let digits = decimal_digits(whole);
    let text = magnitude_text(size);
    reveal_with_fuel(pow10, 8);
    lemma_decimal_digits(whole);
    assert(size == whole * SCALE + fraction) by (nonlinear_arith)
        requires
            whole == size / (SCALE as nat),
            fraction == size % (SCALE as nat),
            SCALE == 1_000_000,
    ;
    assert forall|j: int| 0 <= j < digits.len() implies #[trigger] text[j] != '.' by {
        assert(text[j] == digits[j]);
        assert(is_digit(digits[j]));
    }
    lemma_first_dot(text, digits.len() as int);
    if fraction == 0 {
        assert(text.take(digits.len() as int) =~= digits);
        assert(fraction_of(text) =~= Seq::<char>::empty());
        lemma_fixed_digits(0, 6);
        reveal_with_fuel(fixed_digits, 7);
        assert(micro_digits(Seq::<char>::empty()) =~= fixed_digits(0, 6));
    } else {
        let six = fixed_digits(fraction, 6);
        let kept = strip_trailing_zeros(six);
        lemma_fixed_digits(fraction, 6);
        lemma_stripped_zeros_come_back(six);
        assert(micro_digits(six) =~= six);
        assert(text[digits.len() as int] == '.');
        assert(text.take(digits.len() as int) =~= digits);
        assert(fraction_of(text) =~= kept);
    }
}

} // verus!
