//! Similarity scores.
//!
//! A score is a binary64 floating-point number (IEEE 754), held as its 64 bits. The
//! library orders scores and prints them with two decimals; it does so with integer
//! arithmetic on the bits, and computes with no floating-point number.

use vstd::arithmetic::power2::{lemma2_to64, lemma2_to64_rest, lemma_pow2_strictly_increases, lemma_pow2_unfold, pow2};
use vstd::prelude::*;
use vstd::string::*;

use crate::number::{
    decimal, decimal_text, digit, digit_char, digits_value, law_decimal,
};

verus! {

/// The weight of the sign bit.
pub const SIGN_BIT: u64 = 0x8000_0000_0000_0000;

/// The magnitude bits of infinity; those of a number that is not one are larger.
pub const INFINITY: u64 = 0x7ff0_0000_0000_0000;

/// The weight of the lowest exponent bit.
pub const FRACTION_LIMIT: u64 = 0x10_0000_0000_0000;

/// A score, as the bits of a binary64 number.
#[derive(Debug, Clone, Copy, PartialEq, Eq, Structural)]
pub struct Score {
    pub bits: u64,
}

impl Score {
    /// The sign bit is set.
    pub open spec fn negative(self) -> bool {
        self.bits >= SIGN_BIT
    }

    /// The bits without the sign.
    pub open spec fn magnitude(self) -> nat {
        (self.bits % SIGN_BIT) as nat
    }

    /// The bits stand for no number.
    pub open spec fn is_nan(self) -> bool {
        self.magnitude() > INFINITY
    }

    /// An integer that grows with the number, equal for both zeros.
    pub open spec fn rank(self) -> int {
        if self.negative() {
            -self.magnitude()
        } else {
            self.magnitude() as int
        }
    }

    /// The number is below the other. A score that is no number is below none and above none.
    pub open spec fn below(self, other: Score) -> bool {
        !self.is_nan() && !other.is_nan() && self.rank() < other.rank()
    }

    /// The significand: a finite number is this times two to the power of `exponent`.
    pub open spec fn significand(self) -> nat {
        if self.magnitude() < FRACTION_LIMIT {
            self.magnitude()
        } else {
            self.magnitude() % (FRACTION_LIMIT as nat) + FRACTION_LIMIT as nat
        }
    }

    /// The exponent that goes with `significand`.
    pub open spec fn exponent(self) -> int {
        if self.magnitude() < FRACTION_LIMIT {
            -1074
        } else {
            self.magnitude() / (FRACTION_LIMIT as nat) - 1075
        }
    }

    /// A finite number without its sign, in hundredths, rounded to the nearest
    /// integer, and to the even one of two that are equally near.
    pub open spec fn hundredths(self) -> nat {
        if self.exponent() >= 0 {
            100 * self.significand() * pow2(self.exponent() as nat)
        } else {
            rounded_quotient(100 * self.significand(), pow2((-self.exponent()) as nat))
        }
    }

    /// The number with two decimals.
    pub open spec fn shown(self) -> Seq<char> {
        if self.is_nan() {
            "NaN"@
        } else {
            let size = if self.magnitude() == INFINITY {
                "inf"@
            } else {
                with_point(self.hundredths())
            };
            if self.negative() {
                seq!['-'] + size
            } else {
                size
            }
        }
    }
}

/// The integer nearest to `n / d`, the even one of two that are equally near.
pub open spec fn rounded_quotient(n: nat, d: nat) -> nat {
    let q = n / d;
    let r = n % d;
    if 2 * r > d || (2 * r == d && q % 2 == 1) {
        q + 1
    } else {
        q
    }
}

/// A number of hundredths, written with a point before the last two digits.
pub open spec fn with_point(n: nat) -> Seq<char> {
    decimal(n / 100) + seq!['.', digit((n / 10) % 10), digit(n % 10)]
}

// ---------------------------------------------------------------------------
// Digits of large numbers
// ---------------------------------------------------------------------------

/// The number that decimal digits stand for, the lowest first.
spec fn value(digits: Seq<u8>) -> nat
    decreases digits.len(),
{
    if digits.len() == 0 {
        0
    } else {
        digits[0] as nat + 10 * value(digits.skip(1))
    }
}

/// Decimal digits, lowest first, without a zero on top (but for the number zero).
spec fn well_formed(digits: Seq<u8>) -> bool {
    &&& digits.len() > 0
    &&& forall|i: int| 0 <= i < digits.len() ==> #[trigger] digits[i] < 10
    &&& digits.len() > 1 ==> digits.last() != 0
}

/// The digits of twice a number plus a carry.
spec fn doubled(digits: Seq<u8>, carry: nat) -> Seq<u8>
    decreases digits.len(),
{
    if digits.len() == 0 {
        if carry > 0 {
            seq![carry as u8]
        } else {
            Seq::empty()
        }
    } else {
        let t = 2 * digits[0] as nat + carry;
        seq![(t % 10) as u8] + doubled(digits.skip(1), t / 10)
    }
}

proof fn lemma_doubled(digits: Seq<u8>, carry: nat)
    requires
        forall|i: int| 0 <= i < digits.len() ==> #[trigger] digits[i] < 10,
        carry <= 1,
        digits.len() > 0 ==> digits.last() != 0 || (digits.len() == 1 && carry == 0),
    ensures
        value(doubled(digits, carry)) == 2 * value(digits) + carry,
        forall|i: int|
            0 <= i < doubled(digits, carry).len() ==> #[trigger] doubled(digits, carry)[i] < 10,
        digits.len() > 0 ==> doubled(digits, carry).len() > 0,
        doubled(digits, carry).len() > 1 ==> doubled(digits, carry).last() != 0,
        digits.len() == 0 ==> doubled(digits, carry).len() == carry,
        digits.len() > 0 && digits.last() != 0 ==> doubled(digits, carry).last() != 0,
    decreases digits.len(),
{
    let out = doubled(digits, carry);
    if digits.len() == 0 {
        if carry > 0 {
            assert(out.skip(1) =~= Seq::<u8>::empty());
            assert(value(out.skip(1)) == 0);
        }
    } else {
        let rest = digits.skip(1);
        let t = 2 * digits[0] as nat + carry;
        if rest.len() > 0 {
            assert(rest.last() == digits.last());
        }
        lemma_doubled(rest, t / 10);
        let tail = doubled(rest, t / 10);
        assert(out.skip(1) =~= tail);
        assert(value(out) == (t % 10) + 10 * value(tail));
        assert forall|i: int| 0 <= i < out.len() implies #[trigger] out[i] < 10 by {
            if i > 0 {
                assert(out[i] == tail[i - 1]);
            }
        }
        if tail.len() > 0 {
            assert(out.last() == tail.last());
        }
        if rest.len() == 0 {
            assert(value(rest) == 0);
            if tail.len() > 0 {
                assert(tail[0] == 1);
            }
        }
    }
}

proof fn lemma_value_positive(digits: Seq<u8>)
    requires
        digits.len() > 0,
        digits.last() != 0,
    ensures
        value(digits) > 0,
    decreases digits.len(),
{
    if digits.len() > 1 {
        assert(digits.skip(1).last() == digits.last());
        lemma_value_positive(digits.skip(1));
    }
}

/// The characters of digits, the highest first.
spec fn printed(digits: Seq<u8>) -> Seq<char>
    decreases digits.len(),
{
    if digits.len() == 0 {
        Seq::empty()
    } else {
        printed(digits.skip(1)).push(digit(digits[0] as nat))
    }
}

proof fn lemma_printed(digits: Seq<u8>)
    requires
        well_formed(digits),
    ensures
        printed(digits) == decimal(value(digits)),
    decreases digits.len(),
{
    let rest = digits.skip(1);
    if digits.len() == 1 {
        assert(rest =~= Seq::<u8>::empty());
        assert(value(rest) == 0);
        assert(printed(rest) =~= Seq::<char>::empty());
        assert(printed(digits) =~= seq![digit(digits[0] as nat)]);
    } else {
        assert(rest.last() == digits.last());
        lemma_value_positive(rest);
        lemma_printed(rest);
        let n = value(digits);
        assert(n / 10 == value(rest) && n % 10 == digits[0]);
    }
}

fn double(digits: &Vec<u8>) -> (r: Vec<u8>)
    requires
        well_formed(digits@),
    ensures
        well_formed(r@),
        value(r@) == 2 * value(digits@),
{
    let mut out: Vec<u8> = Vec::new();
    let mut carry: u8 = 0;
    let mut i: usize = 0;
    proof {
        assert(digits@.skip(0) =~= digits@);
        assert(out@ + doubled(digits@, 0) =~= doubled(digits@, 0));
    }
    while i < digits.len()
        invariant
            i <= digits@.len(),
            carry <= 1,
            well_formed(digits@),
            out@ + doubled(digits@.skip(i as int), carry as nat) == doubled(digits@, 0),
        decreases digits@.len() - i,
    {
        let ghost rest = digits@.skip(i as int);
        let ghost before = out@;
        let ghost carried = carry as nat;
        let t: u8 = 2 * digits[i] + carry;
        assert(rest[0] == digits@[i as int]);
        out.push(t % 10);
        carry = t / 10;
        i += 1;
        proof {
            assert(rest.skip(1) =~= digits@.skip(i as int));
            assert(out@ + doubled(digits@.skip(i as int), carry as nat) =~= before + doubled(
                rest,
                carried,
            ));
        }
    }
    let ghost before = out@;
    if carry > 0 {
        out.push(carry);
    }
    proof {
        assert(digits@.skip(i as int) =~= Seq::<u8>::empty());
        assert(out@ =~= before + doubled(digits@.skip(i as int), carry as nat));
        lemma_doubled(digits@, 0);
    }
    out
}

fn low_digits(n: u64) -> (r: Vec<u8>)
    ensures
        well_formed(r@),
        value(r@) == n,
{
    let mut out: Vec<u8> = Vec::new();
    let mut rest: u64 = n;
    let ghost mut scale: nat = 1;
    while rest >= 10
        invariant
            scale > 0,
            forall|i: int| 0 <= i < out@.len() ==> #[trigger] out@[i] < 10,
            rest > 0 || (n == 0 && out@.len() == 0),
            forall|top: Seq<u8>| #[trigger] value(out@ + top) == value(out@) + scale * value(top),
            value(out@) + scale * rest == n,
        decreases rest,
    {
        let ghost before = out@;
        let low: u8 = (rest % 10) as u8;
        out.push(low);
        proof {
            let one = seq![low];
            assert(before.push(low) =~= before + one);
            assert(one.skip(1) =~= Seq::<u8>::empty());
            assert(value(one.skip(1)) == 0);
            assert(value(one) == low);
            assert(value(before + one) == value(before) + scale * value(one));
            assert forall|top: Seq<u8>| #[trigger] value(out@ + top) == value(out@) + (10 * scale) * value(
                top,
            ) by {
                let longer = one + top;
                assert(out@ + top =~= before + longer);
                assert(longer.skip(1) =~= top);
                assert(value(longer) == low + 10 * value(top));
                assert(value(before + longer) == value(before) + scale * value(longer));
                assert(scale * (low + 10 * value(top)) == scale * low + (10 * scale) * value(top))
                    by (nonlinear_arith);
            }
            let q = rest / 10;
            assert(rest == 10 * q + low);
            assert(scale * rest == scale * low + (10 * scale) * q) by (nonlinear_arith)
                requires
                    rest == 10 * q + low,
            ;
            scale = 10 * scale;
        }
        rest = rest / 10;
    }
    let ghost before = out@;
    let top: u8 = rest as u8;
    out.push(top);
    proof {
        let one = seq![top];
        assert(before.push(top) =~= before + one);
        assert(one.skip(1) =~= Seq::<u8>::empty());
        assert(value(one.skip(1)) == 0);
        assert(value(one) == top);
        assert(value(before + one) == value(before) + scale * value(one));
    }
    out
}

fn print_digits(digits: &Vec<u8>) -> (r: String)
    requires
        well_formed(digits@),
    ensures
        r@ == decimal(value(digits@)),
{
    let mut r = String::new();
    let mut i: usize = digits.len();
    assert(digits@.skip(i as int) =~= Seq::<u8>::empty());
    while i > 0
        invariant
            i <= digits@.len(),
            well_formed(digits@),
            r@ == printed(digits@.skip(i as int)),
        decreases i,
    {
        i -= 1;
        r.push(digit_char(digits[i]));
        assert(digits@.skip(i as int).skip(1) =~= digits@.skip(i + 1));
        assert(digits@.skip(i as int)[0] == digits@[i as int]);
    }
    proof {
        assert(digits@.skip(0) =~= digits@);
        lemma_printed(digits@);
    }
    r
}

/// Prints `m` times two to the power of `e`.
fn shifted_text(m: u64, e: u64) -> (r: String)
    ensures
        r@ == decimal(m as nat * pow2(e as nat)),
{
    let mut digits = low_digits(m);
    let mut i: u64 = 0;
    proof {
        lemma2_to64();
    }
    while i < e
        invariant
            i <= e,
            well_formed(digits@),
            value(digits@) == m as nat * pow2(i as nat),
        decreases e - i,
    {
        digits = double(&digits);
        proof {
            lemma_pow2_unfold((i + 1) as nat);
            assert(2 * (m as nat * pow2(i as nat)) == m as nat * (2 * pow2(i as nat))) by (nonlinear_arith);
        }
        i += 1;
    }
    print_digits(&digits)
}

// ---------------------------------------------------------------------------
// Executable operations
// ---------------------------------------------------------------------------

/// Rounds `n / 2^k` to the nearest integer, and to the even one of two.
fn round_shift(n: u64, k: u64) -> (r: u64)
    requires
        n < 0x1000_0000_0000_0000,
        k >= 1,
    ensures
        r == rounded_quotient(n as nat, pow2(k as nat)),
        r <= n,
{
    if k >= 62 {
        proof {
            lemma2_to64();
            lemma2_to64_rest();
            if k > 62 {
                lemma_pow2_strictly_increases(62, k as nat);
            }
            let d = pow2(k as nat);
            assert(n as nat / d == 0 && n as nat % d == n) by {
                vstd::arithmetic::div_mod::lemma_basic_div(n as int, d as int);
                vstd::arithmetic::div_mod::lemma_small_mod(n as nat, d);
            }
        }
        return 0;
    }
    let mut d: u64 = 1;
    let mut i: u64 = 0;
    proof {
        lemma2_to64();
    }
    while i < k
        invariant
            i <= k < 62,
            d == pow2(i as nat),
            d <= 0x2000_0000_0000_0000,
        decreases k - i,
    {
        proof {
            lemma2_to64_rest();
            lemma_pow2_unfold((i + 1) as nat);
            if i + 1 < 61 {
                lemma_pow2_strictly_increases((i + 1) as nat, 61);
            }
        }
        d = 2 * d;
        i += 1;
    }
    proof {
        lemma2_to64();
        if k > 1 {
            lemma_pow2_strictly_increases(1, k as nat);
        }
    }
    let q: u64 = n / d;
    let r: u64 = n % d;
    proof {
        assert(q <= n / 2) by (nonlinear_arith)
            requires
                q == n / d,
                d >= 2,
        ;
    }
    if 2 * r > d || (2 * r == d && q % 2 == 1) {
        proof {
            if n == 0 {
                assert(r == 0) by (nonlinear_arith)
                    requires
                        r == n % d,
                        n == 0,
                        d >= 2,
                ;
            }
        }
        q + 1
    } else {
        q
    }
}

impl Score {
    /// Whether the bits stand for no number.
    pub fn not_a_number(&self) -> (r: bool)
        ensures
            r == self.is_nan(),
    {
        self.bits % SIGN_BIT > INFINITY
    }

    /// Whether the number is below the other.
    pub fn less_than(&self, other: &Score) -> (r: bool)
        ensures
            r == self.below(*other),
    {
        let a: u64 = self.bits % SIGN_BIT;
        let b: u64 = other.bits % SIGN_BIT;
        if a > INFINITY || b > INFINITY {
            false
        } else if self.bits >= SIGN_BIT {
            if other.bits >= SIGN_BIT {
                b < a
            } else {
                a > 0 || b > 0
            }
        } else if other.bits >= SIGN_BIT {
            false
        } else {
            a < b
        }
    }

    /// Prints the number with two decimals.
    pub fn two_decimals(&self) -> (r: String)
        ensures
            r@ == self.shown(),
    {
        let size: u64 = self.bits % SIGN_BIT;
        if size > INFINITY {
            return "NaN".to_owned();
        }
        let mut r = String::new();
        if self.bits >= SIGN_BIT {
            r.push('-');
        }
        if size == INFINITY {
            r.append("inf");
            return r;
        }
        let field: u64 = size / FRACTION_LIMIT;
        let m: u64 = if field == 0 {
            size
        } else {
            size % FRACTION_LIMIT + FRACTION_LIMIT
        };
        if field >= 1075 {
            let whole = shifted_text(m, field - 1075);
            r.append(whole.as_str());
            r.append(".00");
            proof {
                let n = m as nat * pow2((field - 1075) as nat);
                let h = self.hundredths();
                assert(h == 100 * n) by (nonlinear_arith)
                    requires
                        h == 100 * (m as nat) * pow2((field - 1075) as nat),
                        n == m as nat * pow2((field - 1075) as nat),
                ;
                assert(h / 100 == n && (h / 10) % 10 == 0 && h % 10 == 0);
                reveal_strlit(".00");
                assert(".00"@ =~= seq!['.', digit(0), digit(0)]);
            }
        } else {
            let k: u64 = if field == 0 {
                1074
            } else {
                1075 - field
            };
            let h: u64 = round_shift(100 * m, k);
            let whole = decimal_text(h / 100);
            r.append(whole.as_str());
            r.push('.');
            r.push(digit_char(((h / 10) % 10) as u8));
            r.push(digit_char((h % 10) as u8));
        }
        proof {
            let point = with_point(self.hundredths());
            assert(r@ =~= (if self.negative() {
                seq!['-'] + point
            } else {
                point
            }));
        }
        r
    }
}

/// The order of scores is irreflexive, asymmetric and transitive, and two numbers
/// that are not below one another rank equal.
pub proof fn law_score_order(a: Score, b: Score, c: Score)
    ensures
        !a.below(a),
        a.below(b) ==> !b.below(a),
        a.below(b) && b.below(c) ==> a.below(c),
        !a.is_nan() && !b.is_nan() && !a.below(b) && !b.below(a) ==> a.rank() == b.rank(),
{
}

/// Rounding goes to the nearest integer: the remainder is no more than one half, and where it
/// is one half the integer is even.
pub proof fn law_rounding(n: nat, d: nat)
    requires
        d > 0,
    ensures
        ({
            let q = rounded_quotient(n, d);
            &&& 2 * (q * d - n) <= d
            &&& 2 * (n - q * d) <= d
            &&& 2 * (q * d - n) == d || 2 * (n - q * d) == d ==> q % 2 == 0
        }),
{
    let q = n / d;
    let r = n % d;
    vstd::arithmetic::div_mod::lemma_fundamental_div_mod(n as int, d as int);
    vstd::arithmetic::div_mod::lemma_mod_bound(n as int, d as int);
    vstd::arithmetic::mul::lemma_mul_is_commutative(q as int, d as int);
    vstd::arithmetic::mul::lemma_mul_is_distributive_add_other_way(d as int, q as int, 1);
}

/// A number of hundredths is written whole: what stands before the point are the hundreds, and
/// the two digits behind it are the rest.
pub proof fn law_point(n: nat)
    ensures
        ({
            let text = with_point(n);
            let at = text.len() - 3;
            &&& at >= 1
            &&& text[at] == '.'
            &&& digits_value(text.take(at)) == n / 100
            &&& digits_value(text.skip(at + 1)) == n % 100
        }),
{
    let text = with_point(n);
    let at = text.len() - 3;
    law_decimal(n / 100);
    assert(text.take(at) =~= decimal(n / 100));
    let tens = (n / 10) % 10;
    let ones = n % 10;
    let last = text.skip(at + 1);
    assert(last =~= seq![digit(tens), digit(ones)]);
    assert(last.drop_last() =~= seq![digit(tens)]);
    assert(seq![digit(tens)].drop_last() =~= Seq::empty());
    reveal_with_fuel(digits_value, 3);
    assert(digits_value(last) == 10 * tens + ones);
}

/// A finite score is shown by its size in hundredths, with a sign where it is negative.
pub proof fn law_sign(score: Score)
    requires
        !score.is_nan(),
        score.magnitude() < INFINITY,
    ensures
        score.bits < SIGN_BIT ==> score.shown() == with_point(score.hundredths()),
        score.bits >= SIGN_BIT ==> score.shown() == seq!['-'] + with_point(score.hundredths()),
{
}

/// Scores that are not negative go by their bits, those that are negative the other way round,
/// and a score that is no number is neither above nor below any.
pub proof fn law_below(a: Score, b: Score)
    ensures
        a.bits <= INFINITY && b.bits <= INFINITY ==> (a.below(b) <==> a.bits < b.bits),
        SIGN_BIT <= a.bits <= SIGN_BIT + INFINITY && SIGN_BIT <= b.bits <= SIGN_BIT + INFINITY ==> (
        a.below(b) <==> b.bits < a.bits),
        SIGN_BIT < a.bits <= SIGN_BIT + INFINITY && b.bits <= INFINITY ==> a.below(b) && !b.below(a),
        INFINITY < a.bits < SIGN_BIT || a.bits > SIGN_BIT + INFINITY ==> !a.below(b) && !b.below(a),
{
}

/// The hundredths of a finite score are as near to it as an integer can be: exactly a hundred
/// times an integer score, and for any other no more than one half away.
pub proof fn law_hundredths(score: Score)
    ensures
        score.exponent() >= 0 ==> score.hundredths() == 100 * score.significand() * pow2(
            score.exponent() as nat,
        ),
        score.exponent() < 0 ==> {
            let unit = pow2((-score.exponent()) as nat);
            let size = score.hundredths() * unit;
            &&& 2 * (size - 100 * score.significand()) <= unit
            &&& 2 * (100 * score.significand() - size) <= unit
        },
{
    if score.exponent() < 0 {
        let k = (-score.exponent()) as nat;
        vstd::arithmetic::power2::lemma_pow2_pos(k);
        law_rounding(100 * score.significand(), pow2(k));
    }
}

/// A score that is no number is told so, and so is one that is not finite, with its sign.
pub proof fn law_not_finite(score: Score)
    ensures
        INFINITY < score.bits < SIGN_BIT || score.bits > SIGN_BIT + INFINITY ==> score.shown()
            == "NaN"@,
        score.bits == INFINITY ==> score.shown() == "inf"@,
        score.bits == SIGN_BIT + INFINITY ==> score.shown() == seq!['-'] + "inf"@,
{
}

} // verus!
