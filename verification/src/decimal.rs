//! Decimal text of fixed-point scalars and of ratios of two of them.

use crate::geom::UNIT;
use vstd::prelude::*;
use vstd::string::*;

verus! {

/// The most fractional digits that can be asked for.
pub const MAX_PLACES: u8 = 18;

/// The character of a single decimal digit.
pub open spec fn digit_char(d: int) -> char {
    if d == 0 {
        '0'
    } else if d == 1 {
        '1'
    } else if d == 2 {
        '2'
    } else if d == 3 {
        '3'
    } else if d == 4 {
        '4'
    } else if d == 5 {
        '5'
    } else if d == 6 {
        '6'
    } else if d == 7 {
        '7'
    } else if d == 8 {
        '8'
    } else {
        '9'
    }
}

/// Ten to the power `e`.
pub open spec fn pow10(e: nat) -> nat
    decreases e,
{
    if e == 0 {
        1
    } else {
        10 * pow10((e - 1) as nat)
    }
}

/// The decimal digits of `n`, most significant first, without leading zeros.
pub open spec fn digits(n: nat) -> Seq<char>
    decreases n,
{
    if n < 10 {
        seq![digit_char(n as int)]
    } else {
        digits(n / 10).push(digit_char((n % 10) as int))
    }
}

/// The last `width` decimal digits of `n`, zeros filling the front.
pub open spec fn padded_digits(n: nat, width: nat) -> Seq<char>
    decreases width,
{
    if width == 0 {
        Seq::empty()
    } else {
        padded_digits(n / 10, (width - 1) as nat).push(digit_char((n % 10) as int))
    }
}

/// The distance of `x` from zero.
pub open spec fn magnitude(x: int) -> nat {
    if x < 0 {
        (-x) as nat
    } else {
        x as nat
    }
}

/// The integer nearest to `num / den`; of two equally near, the even one.
pub open spec fn round_half_even(num: nat, den: nat) -> nat {
    let q = num / den;
    let r = num % den;
    if 2 * r < den {
        q
    } else if 2 * r > den {
        q + 1
    } else if q % 2 == 0 {
        q
    } else {
        q + 1
    }
}

/// The text of `m / 10^places` with exactly `places` fractional digits.
pub open spec fn magnitude_text(m: nat, places: nat) -> Seq<char> {
    if places == 0 {
        digits(m)
    } else {
        digits(m / pow10(places)) + seq!['.'] + padded_digits(m % pow10(places), places)
    }
}

/// Whether the quotient `num / den` is below zero.
pub open spec fn is_negative(num: int, den: int) -> bool {
    num != 0 && ((num < 0) != (den < 0))
}

/// The text of the quotient `num / den`, rounded to `places` fractional
/// digits, ties to even.
///
/// A quotient below zero keeps its minus sign even where it rounds to zero.
/// Division by zero yields `NaN` for `0 / 0` and an infinity of the
/// numerator's sign otherwise.
pub open spec fn ratio_text(num: int, den: int, places: nat) -> Seq<char> {
    if den == 0 {
        if num == 0 {
            "NaN"@
        } else if num > 0 {
            "inf"@
        } else {
            "-inf"@
        }
    } else {
        let m = round_half_even(magnitude(num) * pow10(places), magnitude(den));
        if is_negative(num, den) {
            seq!['-'] + magnitude_text(m, places)
        } else {
            magnitude_text(m, places)
        }
    }
}

/// The text of the fixed-point scalar `value` with `places` fractional digits.
pub open spec fn scalar_text(value: int, places: nat) -> Seq<char> {
    ratio_text(value, UNIT as int, places)
}

fn digit_str(d: u8) -> (s: &'static str)
    requires
        d < 10,
    ensures
        s@ == seq![digit_char(d as int)],
{
    proof {
        reveal_strlit("0");
        reveal_strlit("1");
        reveal_strlit("2");
        reveal_strlit("3");
        reveal_strlit("4");
        reveal_strlit("5");
        reveal_strlit("6");
        reveal_strlit("7");
        reveal_strlit("8");
        reveal_strlit("9");
    }
    let s = match d {
        0 => "0",
        1 => "1",
        2 => "2",
        3 => "3",
        4 => "4",
        5 => "5",
        6 => "6",
        7 => "7",
        8 => "8",
        _ => "9",
    };
    assert(s@ =~= seq![digit_char(d as int)]);
    s
}

fn push_digits(text: &mut String, n: u128)
    ensures
        final(text)@ == old(text)@ + digits(n as nat),
    decreases n,
{
    if n >= 10 {
        push_digits(text, n / 10);
    }
    text.append(digit_str((n % 10) as u8));
    assert(text@ =~= old(text)@ + digits(n as nat));
}

fn push_padded_digits(text: &mut String, n: u128, width: u8)
    ensures
        final(text)@ == old(text)@ + padded_digits(n as nat, width as nat),
    decreases width,
{
    if width > 0 {
        push_padded_digits(text, n / 10, width - 1);
        text.append(digit_str((n % 10) as u8));
    }
    assert(text@ =~= old(text)@ + padded_digits(n as nat, width as nat));
}

fn power_of_ten(e: u8) -> (p: u128)
    requires
        e <= MAX_PLACES,
    ensures
        p == pow10(e as nat),
        1 <= p <= 1_000_000_000_000_000_000,
{
    let mut p: u128 = 1;
    let mut i: u8 = 0;
    proof {
        reveal_with_fuel(pow10, 20);
    }
    while i < e
        invariant
            i <= e <= MAX_PLACES,
            p == pow10(i as nat),
            1 <= p,
            p * pow10((MAX_PLACES - i) as nat) == pow10(MAX_PLACES as nat),
            pow10(MAX_PLACES as nat) == 1_000_000_000_000_000_000,
        decreases e - i,
    {
        proof {
            lemma_pow10_positive((MAX_PLACES - i - 1) as nat);
            assert(p * (10 * pow10((MAX_PLACES - i - 1) as nat)) == (p * 10) * pow10(
                (MAX_PLACES - i - 1) as nat,
            )) by (nonlinear_arith);
            assert((p * 10) * pow10((MAX_PLACES - i - 1) as nat) >= p * 10) by (nonlinear_arith)
                requires
                    pow10((MAX_PLACES - i - 1) as nat) >= 1,
                    p >= 1,
            ;
        }
        p = p * 10;
        i = i + 1;
    }
    proof {
        lemma_pow10_positive((MAX_PLACES - i) as nat);
        assert(p * pow10((MAX_PLACES - i) as nat) >= p) by (nonlinear_arith)
            requires
                pow10((MAX_PLACES - i) as nat) >= 1,
                p >= 1,
        ;
    }
    p
}

/// Every power of ten is at least one.
pub proof fn lemma_pow10_positive(e: nat)
    ensures
        pow10(e) >= 1,
    decreases e,
{
    if e > 0 {
        lemma_pow10_positive((e - 1) as nat);
    }
}

fn magnitude_of(x: i64) -> (m: u128)
    ensures
        m == magnitude(x as int),
        m <= 0x8000_0000_0000_0000,
{
    if x >= 0 {
        x as u128
    } else {
        let wide: i128 = x as i128;
        (-wide) as u128
    }
}

/// The text of `num / den` with `places` fractional digits.
pub fn format_ratio(num: i64, den: i64, places: u8) -> (text: String)
    requires
        places <= MAX_PLACES,
    ensures
        text@ == ratio_text(num as int, den as int, places as nat),
{
    if den == 0 {
        if num == 0 {
            return String::from_str("NaN");
        } else if num > 0 {
            return String::from_str("inf");
        } else {
            return String::from_str("-inf");
        }
    }
    let n: u128 = magnitude_of(num);
    let d: u128 = magnitude_of(den);
    let p: u128 = power_of_ten(places);
    assert(n * p <= 0x8000_0000_0000_0000 * 1_000_000_000_000_000_000) by (nonlinear_arith)
        requires
            n <= 0x8000_0000_0000_0000,
            p <= 1_000_000_000_000_000_000,
    ;
    let scaled: u128 = n * p;
    let q: u128 = scaled / d;
    let r: u128 = scaled % d;
    assert(q <= scaled) by (nonlinear_arith)
        requires
            q == scaled / d,
            d >= 1,
    ;
    let twice: u128 = 2 * r;
    let m: u128 = if twice < d {
        q
    } else if twice > d {
        q + 1
    } else if q % 2 == 0 {
        q
    } else {
        q + 1
    };
    assert(m == round_half_even(magnitude(num as int) * pow10(places as nat), magnitude(den as int)));
    let mut text = String::new();
    if num != 0 && ((num < 0) != (den < 0)) {
        proof {
            reveal_strlit("-");
        }
        text.append("-");
        assert(text@ =~= seq!['-']);
    }
    let ghost sign = text@;
    if places == 0 {
        push_digits(&mut text, m);
    } else {
        push_digits(&mut text, m / p);
        proof {
            reveal_strlit(".");
        }
        text.append(".");
        push_padded_digits(&mut text, m % p, places);
        assert(text@ =~= sign + magnitude_text(m as nat, places as nat));
    }
    assert(text@ =~= ratio_text(num as int, den as int, places as nat));
    text
}

/// The text of the fixed-point scalar `value` with `places` fractional digits.
pub fn format_scalar(value: i64, places: u8) -> (text: String)
    requires
        places <= MAX_PLACES,
    ensures
        text@ == scalar_text(value as int, places as nat),
{
    format_ratio(value, UNIT, places)
}

/// The number that a decimal digit character stands for.
pub open spec fn digit_value(c: char) -> nat {
    if c == '1' {
        1
    } else if c == '2' {
        2
    } else if c == '3' {
        3
    } else if c == '4' {
        4
    } else if c == '5' {
        5
    } else if c == '6' {
        6
    } else if c == '7' {
        7
    } else if c == '8' {
        8
    } else if c == '9' {
        9
    } else {
        0
    }
}

/// Whether `c` is one of the ten decimal digit characters.
pub open spec fn is_digit(c: char) -> bool {
    exists|d: int| 0 <= d < 10 && c == #[trigger] digit_char(d)
}

/// The number that a sequence of decimal digits spells, most significant
/// digit first.
pub open spec fn digits_value(s: Seq<char>) -> nat
    decreases s.len(),
{
    if s.len() == 0 {
        0
    } else {
        10 * digits_value(s.drop_last()) + digit_value(s.last())
    }
}

/// The digits of a number spell that number, and all of them are digits.
pub proof fn lemma_digits_spell_the_number(n: nat)
    ensures
        digits_value(digits(n)) == n,
        digits(n).len() >= 1,
        forall|i: int| 0 <= i < digits(n).len() ==> is_digit(#[trigger] digits(n)[i]),
    decreases n,
{
    let d = digit_char((n % 10) as int);
    assert(is_digit(d));
    assert(digit_value(d) == n % 10);
    if n < 10 {
        assert(digits(n).drop_last() =~= Seq::<char>::empty());
        assert(digits_value(digits(n).drop_last()) == 0);
    } else {
        lemma_digits_spell_the_number(n / 10);
        assert(digits(n).drop_last() =~= digits(n / 10));
    }
}

/// The zero-filled digits of a number are as many as asked for, all of them
/// are digits, and they spell the number's remainder by that power of ten.
pub proof fn lemma_padded_digits_spell_the_remainder(n: nat, width: nat)
    ensures
        padded_digits(n, width).len() == width,
        digits_value(padded_digits(n, width)) == n % pow10(width),
        forall|i: int| 0 <= i < width ==> is_digit(#[trigger] padded_digits(n, width)[i]),
    decreases width,
{
    if width > 0 {
        let rest = (width - 1) as nat;
        let d = digit_char((n % 10) as int);
        assert(is_digit(d));
        assert(digit_value(d) == n % 10);
        lemma_padded_digits_spell_the_remainder(n / 10, rest);
        lemma_pow10_positive(rest);
        assert(padded_digits(n, width).drop_last() =~= padded_digits(n / 10, rest));
        let p = pow10(rest);
        assert(10 * ((n / 10) % p) + n % 10 == n % (10 * p)) by (nonlinear_arith)
            requires
                p >= 1,
        ;
    }
}

/// Rounding to the nearest integer misses the quotient by half a unit at
/// most: twice the distance between `num` and the result times `den` is no
/// more than `den`.
pub proof fn lemma_round_half_even_is_nearest(num: nat, den: nat)
    requires
        den > 0,
    ensures
        2 * (round_half_even(num, den) * den - num) <= den,
        2 * (num - round_half_even(num, den) * den) <= den,
{
    let q = num / den;
    let r = num % den;
    assert(num == q * den + r && 0 <= r < den) by (nonlinear_arith)
        requires
            q == num / den,
            r == num % den,
            den > 0,
    ;
    assert((q + 1) * den == q * den + den) by (nonlinear_arith);
}

/// A text with fractional digits is the digits of the whole part, a point,
/// and exactly `places` digits; a text without is the digits of the number
/// and holds no point.
pub proof fn lemma_magnitude_text_shape(m: nat, places: nat)
    ensures
        places == 0 ==> magnitude_text(m, places) == digits(m),
        places > 0 ==> {
            let text = magnitude_text(m, places);
            let whole = digits(m / pow10(places));
            &&& text.len() == whole.len() + 1 + places
            &&& text.subrange(0, whole.len() as int) == whole
            &&& text[whole.len() as int] == '.'
            &&& text.subrange(whole.len() as int + 1, text.len() as int) == padded_digits(
                m % pow10(places),
                places,
            )
        },
        forall|i: int|
            0 <= i < magnitude_text(m, places).len() ==> {
                let c = #[trigger] magnitude_text(m, places)[i];
                is_digit(c) || (c == '.' && places > 0 && i == magnitude_text(m, places).len()
                    - places - 1)
            },
{
    if places == 0 {
        lemma_digits_spell_the_number(m);
    } else {
        let text = magnitude_text(m, places);
        let whole = digits(m / pow10(places));
        let part = padded_digits(m % pow10(places), places);
        lemma_digits_spell_the_number(m / pow10(places));
        lemma_padded_digits_spell_the_remainder(m % pow10(places), places);
        assert(text.subrange(0, whole.len() as int) =~= whole);
        assert(text.subrange(whole.len() as int + 1, text.len() as int) =~= part);
        assert forall|i: int| 0 <= i < text.len() implies {
            let c = #[trigger] text[i];
            is_digit(c) || (c == '.' && i == text.len() - places - 1)
        } by {
            if i < whole.len() {
                assert(text[i] == whole[i]);
            } else if i > whole.len() {
                assert(text[i] == part[i - whole.len() - 1]);
            }
        }
    }
}

} // verus!
