//! Decimal numerals: printing integers and reading unsigned ones.

use vstd::prelude::*;
use vstd::string::*;

use crate::text::chars_of;

verus! {

/// The character of a decimal digit.
pub open spec fn digit(d: nat) -> char {
    ('0' as u32 + d) as char
}

/// The decimal numeral of a natural number.
pub open spec fn decimal(n: nat) -> Seq<char>
    decreases n,
{
    if n < 10 {
        seq![digit(n)]
    } else {
        decimal(n / 10).push(digit(n % 10))
    }
}

/// The decimal numeral of an integer, with a minus sign where it is negative.
pub open spec fn signed_decimal(n: int) -> Seq<char> {
    if n < 0 {
        seq!['-'] + decimal((-n) as nat)
    } else {
        decimal(n as nat)
    }
}

/// The decimal numeral of a natural number, filled up with zeros to three digits.
pub open spec fn three_digits(n: nat) -> Seq<char> {
    if n < 10 {
        seq!['0', '0'] + decimal(n)
    } else if n < 100 {
        seq!['0'] + decimal(n)
    } else {
        decimal(n)
    }
}

/// The character of a digit.
pub fn digit_char(d: u8) -> (r: char)
    requires
        d < 10,
    ensures
        r == digit(d as nat),
{
    if d == 0 {
        '0'
    } else if d == 1 {
        '1'
    } else if d == 2 {
        '2'
    } else if d == 3 {
        '3'
    } else if d == 4 {
        '4'
    } else if d == 5 {
        '5'
    } else if d == 6 {
        '6'
    } else if d == 7 {
        '7'
    } else if d == 8 {
        '8'
    } else {
        '9'
    }
}

/// Prints a number in decimal.
pub fn decimal_text(n: u64) -> (r: String)
    ensures
        r@ == decimal(n as nat),
    decreases n,
{
    if n < 10 {
        let mut r = String::new();
        r.push(digit_char(n as u8));
        r
    } else {
        let mut r = decimal_text(n / 10);
        r.push(digit_char((n % 10) as u8));
        r
    }
}

/// Prints an integer in decimal.
pub fn signed_decimal_text(n: i64) -> (r: String)
    ensures
        r@ == signed_decimal(n as int),
{
    if n < 0 {
        let size: u64 = if n == i64::MIN {
            9223372036854775808u64
        } else {
            (-n) as u64
        };
        let mut r = String::new();
        r.push('-');
        let digits = decimal_text(size);
        r.append(digits.as_str());
        r
    } else {
        decimal_text(n as u64)
    }
}

/// Prints a number in decimal, with at least three digits.
pub fn three_digit_text(n: u64) -> (r: String)
    ensures
        r@ == three_digits(n as nat),
{
    let mut r = String::new();
    if n < 100 {
        r.push('0');
    }
    if n < 10 {
        r.push('0');
    }
    let digits = decimal_text(n);
    r.append(digits.as_str());
    r
}

// ---------------------------------------------------------------------------
// Reading
// ---------------------------------------------------------------------------

/// Whether a character is a decimal digit.
pub open spec fn is_digit(c: char) -> bool {
    '0' <= c <= '9'
}

/// The number that a run of decimal digits stands for.
pub open spec fn digits_value(s: Seq<char>) -> nat
    decreases s.len(),
{
    if s.len() == 0 {
        0
    } else {
        10 * digits_value(s.drop_last()) + (s.last() as u32 - '0' as u32) as nat
    }
}

/// The part of a numeral behind its optional plus sign.
pub open spec fn behind_plus(s: Seq<char>) -> Seq<char> {
    if s.len() > 0 && s[0] == '+' {
        s.skip(1)
    } else {
        s
    }
}

/// The number that a text stands for: at least one decimal digit, after an optional
/// plus sign, and no more than `max`.
pub open spec fn parsed_number(s: Seq<char>, max: nat) -> Option<nat> {
    let digits = behind_plus(s);
    if digits.len() > 0 && (forall|i: int| 0 <= i < digits.len() ==> is_digit(#[trigger] digits[i]))
        && digits_value(digits) <= max {
        Some(digits_value(digits))
    } else {
        None
    }
}

proof fn lemma_value_grows(s: Seq<char>, n: int)
    requires
        0 <= n <= s.len(),
    ensures
        digits_value(s.take(n)) <= digits_value(s),
    decreases s.len(),
{
    if n < s.len() {
        assert(s.drop_last().take(n) =~= s.take(n));
        lemma_value_grows(s.drop_last(), n);
    } else {
        assert(s.take(n) =~= s);
    }
}

/// Reads an unsigned number of at most `max`.
pub fn parse_number(s: &str, max: u64) -> (r: Option<u64>)
    ensures
        match r {
            Some(n) => parsed_number(s@, max as nat) == Some(n as nat),
            None => parsed_number(s@, max as nat) is None,
        },
{
    let c = chars_of(s);
    let mut start: usize = 0;
    if c.len() > 0 && c[0] == '+' {
        start = 1;
    }
    let ghost digits = c@.skip(start as int);
    proof {
        assert(c@.skip(0) =~= c@);
    }
    if start == c.len() {
        return None;
    }
    let mut value: u64 = 0;
    let mut i: usize = start;
    while i < c.len()
        invariant
            start <= i <= c@.len(),
            digits == c@.skip(start as int),
            digits == behind_plus(s@),
            forall|k: int| 0 <= k < i - start ==> is_digit(#[trigger] digits[k]),
            value == digits_value(digits.take(i - start)),
            value <= max,
        decreases c@.len() - i,
    {
        let d = c[i];
        assert(d == digits[i - start]);
        if !('0' <= d && d <= '9') {
            assert(!is_digit(digits[i - start]));
            return None;
        }
        let unit: u64 = (d as u32 - '0' as u32) as u64;
        let wide: u128 = value as u128 * 10 + unit as u128;
        proof {
            let longer = digits.take(i - start + 1);
            assert(longer.drop_last() =~= digits.take(i - start));
            assert(wide == digits_value(longer));
        }
        if wide > max as u128 {
            proof {
                lemma_value_grows(digits, i - start + 1);
            }
            return None;
        }
        value = wide as u64;
        i += 1;
    }
    proof {
        assert(digits.take(i - start) =~= digits);
    }
    Some(value)
}

// ---------------------------------------------------------------------------
// Laws
// ---------------------------------------------------------------------------

/// A number that is printed is read back: its numeral has digits only, no zero in front but
/// that of the number zero, and stands for the number.
pub proof fn law_decimal(n: nat)
    ensures
        decimal(n).len() > 0,
        forall|i: int| 0 <= i < decimal(n).len() ==> '0' <= #[trigger] decimal(n)[i] <= '9',
        n > 0 ==> decimal(n)[0] != '0',
        digits_value(decimal(n)) == n,
        forall|max: nat|
            n <= max ==> #[trigger] parsed_number(decimal(n), max) == Some(n),
    decreases n,
{
    if n >= 10 {
        law_decimal(n / 10);
        let front = decimal(n / 10);
        let all = decimal(n);
        assert(all.drop_last() =~= front);
        assert(all[0] == front[0]);
        assert forall|i: int| 0 <= i < all.len() implies '0' <= #[trigger] all[i] <= '9' by {
            if i < front.len() {
                assert(all[i] == front[i]);
            }
        }
    } else {
        assert(decimal(n).drop_last() =~= Seq::empty());
        assert(digits_value(decimal(n).drop_last()) == 0);
    }
    assert(behind_plus(decimal(n)) == decimal(n));
}

/// Numbers with one numeral are one, with their signs too.
pub proof fn law_numerals_differ(a: int, b: int)
    ensures
        signed_decimal(a) == signed_decimal(b) <==> a == b,
        a < 0 ==> signed_decimal(a) == seq!['-'] + decimal((-a) as nat),
{
    let x = if a < 0 {
        (-a) as nat
    } else {
        a as nat
    };
    let y = if b < 0 {
        (-b) as nat
    } else {
        b as nat
    };
    law_decimal(x);
    law_decimal(y);
    if signed_decimal(a) == signed_decimal(b) {
        if a < 0 && b < 0 {
            assert(signed_decimal(a).skip(1) =~= decimal(x));
            assert(signed_decimal(b).skip(1) =~= decimal(y));
        } else if a < 0 {
            assert(signed_decimal(a)[0] == '-');
        } else if b < 0 {
            assert(signed_decimal(b)[0] == '-');
        }
    }
}

/// Zeros in front make three digits, and do not change the number.
pub proof fn law_three_digits(n: nat)
    ensures
        n < 1000 ==> three_digits(n).len() == 3,
        n >= 1000 ==> three_digits(n) == decimal(n),
        digits_value(three_digits(n)) == n,
{
    law_decimal(n);
    reveal_with_fuel(decimal, 4);
    reveal_with_fuel(digits_value, 4);
    if n < 10 {
        assert(three_digits(n) =~= seq!['0', '0', digit(n)]);
        assert(three_digits(n).drop_last() =~= seq!['0', '0']);
        assert(seq!['0', '0'].drop_last() =~= seq!['0']);
        assert(seq!['0'].drop_last() =~= Seq::empty());
    } else if n < 100 {
        assert(three_digits(n) =~= seq!['0', digit(n / 10), digit(n % 10)]);
        assert(three_digits(n).drop_last() =~= seq!['0', digit(n / 10)]);
        assert(seq!['0', digit(n / 10)].drop_last() =~= seq!['0']);
        assert(seq!['0'].drop_last() =~= Seq::empty());
    }
}

proof fn lemma_zero_in_front(digits: Seq<char>)
    ensures
        digits_value(seq!['0'] + digits) == digits_value(digits),
    decreases digits.len(),
{
    let all = seq!['0'] + digits;
    if digits.len() > 0 {
        lemma_zero_in_front(digits.drop_last());
        assert(all.drop_last() =~= seq!['0'] + digits.drop_last());
        assert(all.last() == digits.last());
    } else {
        assert(all.drop_last() =~= Seq::empty());
        assert(digits_value(all.drop_last()) == 0);
    }
}

/// A plus sign in front of a numeral, or zeros, do not change the number. A text without a
/// digit, or with a character that is none, stands for no number, and neither does a numeral
/// above the bound.
pub proof fn law_numerals_read(n: nat, max: nat, s: Seq<char>, i: int)
    ensures
        n <= max ==> parsed_number(seq!['+'] + decimal(n), max) == Some(n),
        n <= max ==> parsed_number(seq!['0'] + decimal(n), max) == Some(n),
        n > max ==> parsed_number(decimal(n), max) is None,
        s.len() == 0 ==> parsed_number(s, max) is None,
        s == seq!['+'] ==> parsed_number(s, max) is None,
        0 <= i < s.len() && !('0' <= s[i] <= '9') && (i > 0 || s[0] != '+') ==> parsed_number(
            s,
            max,
        ) is None,
{
    law_decimal(n);
    let plain = decimal(n);
    let signed = seq!['+'] + plain;
    let padded = seq!['0'] + plain;
    assert(signed.skip(1) =~= plain);
    lemma_zero_in_front(plain);
    assert forall|k: int| 0 <= k < padded.len() implies is_digit(#[trigger] padded[k]) by {
        if k > 0 {
            assert(padded[k] == plain[k - 1]);
        }
    }
    assert(behind_plus(padded) == padded);
    if 0 <= i < s.len() && !('0' <= s[i] <= '9') && (i > 0 || s[0] != '+') {
        let digits = behind_plus(s);
        let k = if s[0] == '+' {
            i - 1
        } else {
            i
        };
        assert(!is_digit(digits[k]));
    }
}

} // verus!
