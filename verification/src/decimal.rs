//! Exact decimal numbers for the fractional suffixes of G-code words.
//!
//! A G-code word such as `X-12.500` carries a decimal literal. The library keeps
//! such values exactly, as `±mantissa · 10^exponent` in a canonical form, so that
//! two literals with the same value (`0.0`, `.0`, `0.`) give equal [`Decimal`]s.
use vstd::prelude::*;
use crate::text::{digit_value, is_ascii_digit};

verus! {

/// Largest number of significant digits a [`Decimal`] keeps.
pub const MAX_DIGITS: usize = 38;

/// `10^n`.
pub open spec fn pow10(n: nat) -> nat
    decreases n,
{
    if n == 0 {
        1
    } else {
        10 * pow10((n - 1) as nat)
    }
}

/// Value of a string of ASCII digits, read as a base-10 natural number.
pub open spec fn digits_value(s: Seq<char>) -> nat
    decreases s.len(),
{
    if s.len() == 0 {
        0
    } else {
        digits_value(s.drop_last()) * 10 + digit_value(s.last())
    }
}

pub open spec fn all_digits(s: Seq<char>) -> bool {
    forall|i: int| 0 <= i < s.len() ==> is_ascii_digit(#[trigger] s[i])
}

/// Drops the leading `'0'` characters.
pub open spec fn strip_leading_zeros(s: Seq<char>) -> Seq<char>
    decreases s.len(),
{
    if s.len() > 0 && s[0] == '0' {
        strip_leading_zeros(s.drop_first())
    } else {
        s
    }
}

/// Number of trailing `'0'` characters.
pub open spec fn trailing_zeros(s: Seq<char>) -> nat
    decreases s.len(),
{
    if s.len() > 0 && s.last() == '0' {
        1 + trailing_zeros(s.drop_last())
    } else {
        0
    }
}

/// The significant digits of a digit string: from the first to the last non-zero digit.
pub open spec fn significant(s: Seq<char>) -> Seq<char> {
    let l = strip_leading_zeros(s);
    l.take(l.len() - trailing_zeros(l))
}

/// The canonical decimal with the value `±m · 10^e`: trailing zeros of `m` move into the
/// exponent, and zero is unsigned.
pub open spec fn canonical(negative: bool, m: nat, e: int) -> Decimal
    decreases m,
{
    if m == 0 {
        zero_decimal()
    } else if m % 10 == 0 {
        canonical(negative, m / 10, e + 1)
    } else {
        Decimal { negative, mantissa: m as u128, exponent: e as i128 }
    }
}

/// A decimal number `±mantissa · 10^exponent`.
#[derive(Clone, Copy, Debug, PartialEq, Eq, Structural)]
pub struct Decimal {
    /// Sign of the number; never set for zero.
    pub negative: bool,
    /// Magnitude without trailing zeros.
    pub mantissa: u128,
    /// Power of ten applied to the mantissa.
    pub exponent: i128,
}

pub open spec fn zero_decimal() -> Decimal {
    Decimal { negative: false, mantissa: 0, exponent: 0 }
}

/// Whether significant digits cut after their first [`MAX_DIGITS`] round up: the first cut
/// digit is above `5`, or is `5` and either more follows or the kept digits are odd (half to
/// even).
pub open spec fn rounds_up(kept: Seq<char>, rest: Seq<char>) -> bool {
    ||| rest[0] > '5'
    ||| (rest[0] == '5' && (rest.len() > 1 || digits_value(kept) % 2 == 1))
}

/// Decimal value of a literal whose digits (integer and fractional parts concatenated)
/// are `digits`, of which the last `frac_len` are fractional.
///
/// A literal with more than [`MAX_DIGITS`] significant digits is rounded to that many, to
/// the nearest, ties to even.
pub open spec fn decimal_from_digits(negative: bool, digits: Seq<char>, frac_len: nat) -> Decimal {
    let l = strip_leading_zeros(digits);
    let sig = significant(digits);
    let e = trailing_zeros(l) - frac_len;
    if sig.len() == 0 {
        zero_decimal()
    } else if sig.len() <= MAX_DIGITS {
        Decimal { negative, mantissa: digits_value(sig) as u128, exponent: e as i128 }
    } else {
        let kept = sig.take(MAX_DIGITS as int);
        let rest = sig.skip(MAX_DIGITS as int);
        canonical(
            negative,
            digits_value(kept) + if rounds_up(kept, rest) {
                1nat
            } else {
                0nat
            },
            e + (sig.len() - MAX_DIGITS),
        )
    }
}

impl Decimal {
    /// Canonical form: no trailing zeros in the mantissa, and zero is `+0 · 10^0`.
    pub open spec fn wf(self) -> bool {
        &&& self.mantissa == 0 ==> (!self.negative && self.exponent == 0)
        &&& self.mantissa != 0 ==> self.mantissa % 10 != 0
    }

    pub open spec fn signed_mantissa(self) -> int {
        if self.negative {
            -(self.mantissa as int)
        } else {
            self.mantissa as int
        }
    }

    /// `self` has the value `n · 10^e`.
    pub open spec fn represents(self, n: int, e: int) -> bool {
        if self.exponent >= e {
            self.signed_mantissa() * pow10((self.exponent - e) as nat) == n
        } else {
            self.signed_mantissa() == n * pow10((e - self.exponent) as nat)
        }
    }

    /// `|self| < 10^-k`.
    pub open spec fn abs_below_pow10_neg(self, k: nat) -> bool {
        if self.exponent + k >= 0 {
            self.mantissa == 0
        } else {
            (self.mantissa as nat) < pow10((-(self.exponent + k)) as nat)
        }
    }

    /// The number zero.
    pub fn zero() -> (r: Decimal)
        ensures
            r == zero_decimal(),
            r.wf(),
    {
        Decimal { negative: false, mantissa: 0, exponent: 0 }
    }

    /// Builds the canonical decimal with the value `±mantissa · 10^exponent`.
    pub fn new(negative: bool, mantissa: u128, exponent: i128) -> (r: Decimal)
        requires
            exponent <= i128::MAX - 40,
        ensures
            r == canonical(negative, mantissa as nat, exponent as int),
            r.wf(),
            r.represents(if negative { -(mantissa as int) } else { mantissa as int }, exponent as int),
    {
        if mantissa == 0 {
            return Decimal::zero();
        }
        let mut m = mantissa;
        let mut e = exponent;
        let ghost mut k: nat = 0;
        assert(pow10(0) == 1);
        while m % 10 == 0
            invariant
                m != 0,
                exponent <= i128::MAX - 40,
                mantissa == m * pow10(k),
                e == exponent + k,
                k <= 39,
                pow10(k) <= mantissa,
                canonical(negative, mantissa as nat, exponent as int) == canonical(negative, m as nat, e as int),
            decreases m,
        {
            proof {
                lemma_pow10_pos(k);
                assert(mantissa == (m / 10) * pow10(k + 1)) by (nonlinear_arith)
                    requires
                        m % 10 == 0,
                        mantissa == m * pow10(k),
                        pow10(k + 1) == 10 * pow10(k),
                ;
                assert(m / 10 >= 1);
                assert(pow10(k + 1) <= mantissa) by (nonlinear_arith)
                    requires
                        mantissa == (m / 10) * pow10(k + 1),
                        m / 10 >= 1,
                ;
                lemma_pow10_39();
                if k + 1 > 39 {
                    lemma_pow10_monotone(39, k + 1);
                }
            }
            m = m / 10;
            e = e + 1;
            proof {
                k = k + 1;
            }
        }
        let r = Decimal { negative, mantissa: m, exponent: e };
        proof {
            lemma_pow10_pos(k);
            assert(r.signed_mantissa() * pow10(k) == (if negative {
                -(mantissa as int)
            } else {
                mantissa as int
            })) by (nonlinear_arith)
                requires
                    mantissa == m * pow10(k),
                    r.signed_mantissa() == (if negative {
                        -(m as int)
                    } else {
                        m as int
                    }),
            ;
            assert((r.exponent - exponent) as nat == k);
        }
        r
    }

    /// `|self| < 10^-k`.
    pub fn abs_below_pow10_neg_exec(&self, k: u32) -> (r: bool)
        ensures
            r == self.abs_below_pow10_neg(k as nat),
    {
        if self.exponent >= -(k as i128) {
            return self.mantissa == 0;
        }
        let s = self.exponent + k as i128;
        if s <= -39 {
            proof {
                lemma_pow10_39();
                lemma_pow10_monotone(39, (-s) as nat);
            }
            return true;
        }
        let n = -s;
        let p = pow10_exec(n as u32);
        self.mantissa < p
    }
}

pub proof fn lemma_pow10_pos(n: nat)
    ensures
        pow10(n) >= 1,
    decreases n,
{
    if n > 0 {
        lemma_pow10_pos((n - 1) as nat);
    }
}

pub proof fn lemma_pow10_add(a: nat, b: nat)
    ensures
        pow10(a + b) == pow10(a) * pow10(b),
    decreases b,
{
    if b > 0 {
        lemma_pow10_add(a, (b - 1) as nat);
        let x = pow10(a);
        let y = pow10((b - 1) as nat);
        assert((a + b - 1) as nat == a + (b - 1) as nat);
        assert(pow10(a + b) == 10 * pow10((a + b - 1) as nat));
        assert(pow10(a + (b - 1) as nat) == x * y);
        assert(pow10(b) == 10 * y);
        assert(x * (10 * y) == 10 * (x * y)) by (nonlinear_arith);
        assert(x * pow10(b) == x * (10 * y));
        assert(pow10(a + b) == x * pow10(b));
    } else {
        assert(pow10(0) == 1);
        assert(a + b == a);
        assert(pow10(a) * 1 == pow10(a));
    }
}

pub proof fn lemma_pow10_monotone(a: nat, b: nat)
    requires
        a <= b,
    ensures
        pow10(a) <= pow10(b),
    decreases b,
{
    if a < b {
        lemma_pow10_monotone(a, (b - 1) as nat);
        lemma_pow10_pos((b - 1) as nat);
    }
}

pub proof fn lemma_pow10_39()
    ensures
        pow10(38) == 100000000000000000000000000000000000000nat,
        pow10(39) == 1000000000000000000000000000000000000000nat,
        pow10(38) < u128::MAX,
        u128::MAX < pow10(39),
{
    reveal_with_fuel(pow10, 40);
}

/// `10^n` for `n <= 38`.
pub fn pow10_exec(n: u32) -> (r: u128)
    requires
        n <= 38,
    ensures
        r == pow10(n as nat),
{
    let mut r: u128 = 1;
    let mut i: u32 = 0;
    while i < n
        invariant
            i <= n <= 38,
            r == pow10(i as nat),
        decreases n - i,
    {
        proof {
            lemma_pow10_39();
            lemma_pow10_monotone((i + 1) as nat, 38);
        }
        r = r * 10;
        i = i + 1;
    }
    r
}

/// `m · 10^k`.
pub fn mul_pow10(m: u128, k: usize) -> (r: u128)
    requires
        m * pow10(k as nat) <= u128::MAX,
    ensures
        r == m * pow10(k as nat),
{
    let mut r = m;
    let mut j: usize = 0;
    assert(pow10(0) == 1);
    while j < k
        invariant
            j <= k,
            r == m * pow10(j as nat),
            m * pow10(k as nat) <= u128::MAX,
        decreases k - j,
    {
        proof {
            lemma_pow10_monotone((j + 1) as nat, k as nat);
            assert(m * pow10((j + 1) as nat) <= m * pow10(k as nat)) by (nonlinear_arith)
                requires
                    pow10((j + 1) as nat) <= pow10(k as nat),
            ;
            assert(pow10((j + 1) as nat) == 10 * pow10(j as nat));
            assert(m * (10 * pow10(j as nat)) == (m * pow10(j as nat)) * 10) by (nonlinear_arith);
        }
        r = r * 10;
        j = j + 1;
    }
    r
}

pub proof fn lemma_trailing_zeros_le(s: Seq<char>)
    ensures
        trailing_zeros(s) <= s.len(),
        trailing_zeros(s) < s.len() ==> s[s.len() - 1 - trailing_zeros(s)] != '0',
        forall|k: int| s.len() - trailing_zeros(s) <= k < s.len() ==> s[k] == '0',
    decreases s.len(),
{
    if s.len() > 0 && s.last() == '0' {
        let t = s.drop_last();
        lemma_trailing_zeros_le(t);
        assert forall|k: int| s.len() - trailing_zeros(s) <= k < s.len() implies s[k] == '0' by {
            if k < s.len() - 1 {
                assert(s[k] == t[k]);
            }
        }
        if trailing_zeros(s) < s.len() {
            assert(s[s.len() - 1 - trailing_zeros(s)] == t[t.len() - 1 - trailing_zeros(t)]);
        }
    }
}

pub proof fn lemma_strip_leading_shape(s: Seq<char>)
    ensures
        strip_leading_zeros(s).len() <= s.len(),
        strip_leading_zeros(s) == s.skip(s.len() - strip_leading_zeros(s).len()),
        strip_leading_zeros(s).len() > 0 ==> strip_leading_zeros(s)[0] != '0',
        forall|k: int| 0 <= k < s.len() - strip_leading_zeros(s).len() ==> s[k] == '0',
    decreases s.len(),
{
    if s.len() > 0 && s[0] == '0' {
        let t = s.drop_first();
        lemma_strip_leading_shape(t);
        assert(t.skip(t.len() - strip_leading_zeros(t).len()) =~= s.skip(
            s.len() - strip_leading_zeros(s).len(),
        ));
        assert forall|k: int| 0 <= k < s.len() - strip_leading_zeros(s).len() implies s[k]
            == '0' by {
            if k > 0 {
                assert(s[k] == t[k - 1]);
            }
        }
    } else {
        assert(s.skip(0) =~= s);
    }
}

pub proof fn lemma_strip_leading_push(p: Seq<char>, c: char)
    ensures
        strip_leading_zeros(p.push(c)) == (if strip_leading_zeros(p).len() == 0 {
            if c == '0' {
                Seq::<char>::empty()
            } else {
                seq![c]
            }
        } else {
            strip_leading_zeros(p).push(c)
        }),
    decreases p.len(),
{
    if p.len() == 0 {
        assert(p.push(c) =~= seq![c]);
        if c == '0' {
            assert(seq![c].drop_first() =~= Seq::<char>::empty());
            assert(strip_leading_zeros(Seq::<char>::empty()) =~= Seq::<char>::empty());
        }
    } else if p[0] == '0' {
        lemma_strip_leading_push(p.drop_first(), c);
        assert(p.push(c).drop_first() =~= p.drop_first().push(c));
    } else {
        assert(p.push(c)[0] == p[0]);
    }
}

pub proof fn lemma_trailing_zeros_push(l: Seq<char>, c: char)
    ensures
        trailing_zeros(l.push(c)) == (if c == '0' {
            1 + trailing_zeros(l)
        } else {
            0
        }),
{
    assert(l.push(c).drop_last() =~= l);
    assert(l.push(c).last() == c);
}

pub proof fn lemma_digits_value_push(s: Seq<char>, c: char)
    ensures
        digits_value(s.push(c)) == digits_value(s) * 10 + digit_value(c),
{
    assert(s.push(c).drop_last() =~= s);
}

/// A string of `k` digits has a value below `10^k`.
pub proof fn lemma_digits_value_bound(s: Seq<char>)
    requires
        all_digits(s),
    ensures
        digits_value(s) < pow10(s.len()),
    decreases s.len(),
{
    if s.len() > 0 {
        let t = s.drop_last();
        assert(all_digits(t)) by {
            assert forall|i: int| 0 <= i < t.len() implies is_ascii_digit(#[trigger] t[i]) by {
                assert(t[i] == s[i]);
            }
        }
        lemma_digits_value_bound(t);
        assert(is_ascii_digit(s[s.len() - 1]));
        assert(digit_value(s.last()) <= 9);
        assert(pow10(s.len()) == 10 * pow10(t.len()));
    } else {
        assert(pow10(0) == 1);
    }
}

/// Trailing zeros multiply the value of the digits before them.
pub proof fn lemma_digits_value_trailing(s: Seq<char>)
    ensures
        digits_value(s) == digits_value(s.take(s.len() - trailing_zeros(s))) * pow10(
            trailing_zeros(s),
        ),
    decreases s.len(),
{
    if s.len() > 0 && s.last() == '0' {
        let t = s.drop_last();
        lemma_digits_value_trailing(t);
        lemma_trailing_zeros_le(t);
        let ts = trailing_zeros(s);
        let tt = trailing_zeros(t);
        assert(ts == 1 + tt);
        assert(s.take(s.len() - ts) =~= t.take(t.len() - tt));
        let a = digits_value(t.take(t.len() - tt));
        assert(digit_value('0') == 0);
        assert(digits_value(s) == digits_value(t) * 10 + digit_value(s.last()));
        assert(digits_value(s) == digits_value(t) * 10);
        assert(digits_value(t) == a * pow10(tt));
        assert(pow10(ts) == 10 * pow10(tt));
        assert(a * pow10(tt) * 10 == a * (10 * pow10(tt))) by (nonlinear_arith);
        assert(digits_value(s) == a * pow10(ts));
    } else {
        assert(trailing_zeros(s) == 0);
        assert(s.take(s.len() as int) =~= s);
        assert(pow10(0) == 1);
        assert(digits_value(s) * 1 == digits_value(s));
    }
}

/// Leading zeros do not change the value of a digit string.
pub proof fn lemma_digits_value_leading(s: Seq<char>)
    ensures
        digits_value(s) == digits_value(strip_leading_zeros(s)),
    decreases s.len(),
{
    if s.len() > 0 && s[0] == '0' {
        lemma_digits_value_drop_zero(s.drop_first());
        assert(seq!['0'] + s.drop_first() =~= s);
        lemma_digits_value_leading(s.drop_first());
    }
}

proof fn lemma_digits_value_drop_zero(s: Seq<char>)
    ensures
        digits_value(seq!['0'] + s) == digits_value(s),
    decreases s.len(),
{
    let z = seq!['0'] + s;
    assert(digit_value('0') == 0);
    if s.len() == 0 {
        assert(z.drop_last() =~= Seq::<char>::empty());
        assert(digits_value(Seq::<char>::empty()) == 0);
        assert(z.last() == '0');
        assert(digits_value(z) == digits_value(z.drop_last()) * 10 + digit_value(z.last()));
        assert(s =~= Seq::<char>::empty());
    } else {
        let s2 = s.drop_last();
        lemma_digits_value_drop_zero(s2);
        assert(z.drop_last() =~= seq!['0'] + s2);
        assert(z.last() == s.last());
        assert(digits_value(z) == digits_value(z.drop_last()) * 10 + digit_value(z.last()));
        assert(digits_value(s) == digits_value(s2) * 10 + digit_value(s.last()));
    }
}

/// The value of a parsed literal of at most [`MAX_DIGITS`] significant digits: its
/// mantissa, shifted back by its exponent and by the length of its fractional part, is the
/// value of all its digits; the result is canonical.
pub proof fn lemma_decimal_from_digits_value(negative: bool, digits: Seq<char>, frac_len: nat)
    requires
        all_digits(digits),
        digits.len() <= u64::MAX,
        frac_len <= digits.len(),
        significant(digits).len() <= MAX_DIGITS,
    ensures
        ({
            let d = decimal_from_digits(negative, digits, frac_len);
            &&& d.wf()
            &&& d.exponent + frac_len >= 0
            &&& digits_value(digits) == d.mantissa * pow10((d.exponent + frac_len) as nat)
            &&& d.negative == (negative && digits_value(digits) != 0)
        }),
{
    let l = strip_leading_zeros(digits);
    let t = trailing_zeros(l);
    let sig = significant(digits);
    lemma_strip_leading_shape(digits);
    lemma_trailing_zeros_le(l);
    lemma_digits_value_leading(digits);
    lemma_digits_value_trailing(l);
    let d = decimal_from_digits(negative, digits, frac_len);
    if sig.len() == 0 {
        assert(l.len() == 0);
        assert(l =~= Seq::<char>::empty());
        assert(digits_value(l) == 0);
        assert(d == zero_decimal());
        assert(digits_value(digits) == 0);
        assert(0 * pow10(frac_len) == 0);
        assert(d.exponent + frac_len == frac_len);
    } else {
        assert(all_digits(sig)) by {
            assert forall|i: int| 0 <= i < sig.len() implies is_ascii_digit(#[trigger] sig[i]) by {
                assert(sig[i] == digits[i + digits.len() - l.len()]);
            }
        }
        lemma_digits_value_bound(sig);
        lemma_pow10_39();
        lemma_pow10_monotone(sig.len(), 38);
        let last = sig[sig.len() - 1];
        assert(last == l[l.len() - 1 - t]);
        assert(last != '0');
        assert(sig.drop_last().push(last) =~= sig);
        lemma_digits_value_push(sig.drop_last(), last);
        assert(1 <= digit_value(last) <= 9);
        assert(digits_value(sig) % 10 == digit_value(last)) by (nonlinear_arith)
            requires
                digits_value(sig) == digits_value(sig.drop_last()) * 10 + digit_value(last),
                1 <= digit_value(last) <= 9,
        ;
        assert(d.mantissa == digits_value(sig));
        assert(d.exponent == t - frac_len);
        assert(d.exponent + frac_len == t);
        assert(d.wf());
        assert(digits_value(digits) == d.mantissa * pow10((d.exponent + frac_len) as nat));
        assert(digits_value(digits) != 0) by {
            lemma_pow10_pos(t);
            assert(digits_value(sig) * pow10(t) >= 1) by (nonlinear_arith)
                requires digits_value(sig) >= 1, pow10(t) >= 1;
        }
    }
}

/// A canonical decimal is in canonical form.
pub proof fn lemma_canonical_wf(negative: bool, m: nat, e: int)
    requires
        m <= u128::MAX,
    ensures
        canonical(negative, m, e).wf(),
    decreases m,
{
    if m != 0 && m % 10 == 0 {
        lemma_canonical_wf(negative, m / 10, e + 1);
    }
}

/// The decimal read from a literal's digits is in canonical form.
pub proof fn lemma_decimal_from_digits_wf(negative: bool, digits: Seq<char>, frac_len: nat)
    requires
        all_digits(digits),
        digits.len() <= u64::MAX,
        frac_len <= digits.len(),
    ensures
        decimal_from_digits(negative, digits, frac_len).wf(),
{
    let sig = significant(digits);
    if sig.len() <= MAX_DIGITS {
        lemma_decimal_from_digits_value(negative, digits, frac_len);
    } else {
        let l = strip_leading_zeros(digits);
        lemma_strip_leading_shape(digits);
        lemma_trailing_zeros_le(l);
        let kept = sig.take(MAX_DIGITS as int);
        assert(all_digits(kept)) by {
            assert forall|i: int| 0 <= i < kept.len() implies is_ascii_digit(#[trigger] kept[i]) by {
                assert(kept[i] == digits[i + digits.len() - l.len()]);
            }
        }
        lemma_digits_value_bound(kept);
        lemma_pow10_39();
        let up: nat = if rounds_up(kept, sig.skip(MAX_DIGITS as int)) {
            1
        } else {
            0
        };
        lemma_canonical_wf(
            negative,
            digits_value(kept) + up,
            trailing_zeros(l) - frac_len + (sig.len() - MAX_DIGITS),
        );
    }
}

/// The decimal value of a literal's digits, as [`decimal_from_digits`] defines it.
pub fn decimal_from_digits_exec(negative: bool, digits: &Vec<char>, frac_len: usize) -> (r:
    Decimal)
    requires
        all_digits(digits@),
        frac_len <= digits.len(),
    ensures
        r == decimal_from_digits(negative, digits@, frac_len as nat),
{
    let mut m: u128 = 0;
    let mut count: usize = 0;
    let mut pend: usize = 0;
    let mut i: usize = 0;
    assert(digits@.take(0) =~= Seq::<char>::empty());
    while i < digits.len()
        invariant
            i <= digits.len(),
            all_digits(digits@),
            frac_len <= digits.len(),
            ({
                let l = strip_leading_zeros(digits@.take(i as int));
                &&& count == l.len() - trailing_zeros(l)
                &&& pend == trailing_zeros(l)
                &&& l.len() <= i
                &&& (count <= MAX_DIGITS ==> m == digits_value(significant(digits@.take(i as int))))
            }),
        decreases digits.len() - i,
    {
        let c = digits[i];
        let ghost p = digits@.take(i as int);
        let ghost l = strip_leading_zeros(p);
        proof {
            assert(digits@.take(i + 1) =~= p.push(c));
            lemma_strip_leading_push(p, c);
            lemma_strip_leading_shape(p);
            lemma_trailing_zeros_le(l);
            assert(is_ascii_digit(digits@[i as int]));
            if l.len() > 0 {
                assert(l[0] != '0');
            }
        }
        if c == '0' {
            if count > 0 {
                proof {
                    lemma_trailing_zeros_push(l, c);
                    assert(l.push(c).take(l.push(c).len() - trailing_zeros(l.push(c))) =~= l.take(
                        l.len() - trailing_zeros(l),
                    ));
                }
                pend = pend + 1;
            } else {
                proof {
                    assert(l.len() == 0);
                }
            }
        } else {
            let d = ((c as u32) - ('0' as u32)) as u128;
            if count == 0 {
                proof {
                    assert(l.len() == 0);
                    lemma_trailing_zeros_push(Seq::<char>::empty(), c);
                    assert(seq![c] =~= Seq::<char>::empty().push(c));
                    assert(seq![c].take(1) =~= seq![c]);
                    lemma_digits_value_push(Seq::<char>::empty(), c);
                }
                count = 1;
                m = d;
            } else {
                let newc = count + pend + 1;
                proof {
                    lemma_trailing_zeros_push(l, c);
                    let sig = l.take(l.len() - trailing_zeros(l));
                    let l2 = l.push(c);
                    assert(l2.take(l2.len() as int) =~= l2);
                    lemma_digits_value_trailing(l);
                    lemma_digits_value_push(l, c);
                }
                if newc <= MAX_DIGITS {
                    proof {
                        let l2 = l.push(c);
                        let sig = l.take(l.len() - trailing_zeros(l));
                        assert(all_digits(l2)) by {
                            assert forall|k: int| 0 <= k < l2.len() implies is_ascii_digit(
                                #[trigger] l2[k],
                            ) by {
                                if k < l.len() {
                                    assert(l2[k] == digits@[k + i - l.len()]);
                                }
                            }
                        }
                        lemma_digits_value_bound(l2);
                        lemma_pow10_39();
                        lemma_pow10_monotone(l2.len(), 38);
                        assert(pow10((pend + 1) as nat) == 10 * pow10(pend as nat));
                        assert(digits_value(l2) == m * pow10((pend + 1) as nat) + d)
                            by (nonlinear_arith)
                            requires
                                digits_value(l2) == digits_value(l) * 10 + d,
                                digits_value(l) == m * pow10(pend as nat),
                                pow10((pend + 1) as nat) == 10 * pow10(pend as nat),
                        ;
                    }
                    let shifted = mul_pow10(m, pend + 1);
                    m = shifted + d;
                }
                count = newc;
            }
            pend = 0;
        }
        i = i + 1;
    }
    proof {
        assert(digits@.take(digits.len() as int) =~= digits@);
    }
    if count == 0 {
        Decimal::zero()
    } else if count > MAX_DIGITS {
        let ghost l = strip_leading_zeros(digits@);
        proof {
            lemma_strip_leading_shape(digits@);
            lemma_trailing_zeros_le(l);
            assert(significant(digits@) =~= digits@.subrange(
                (digits.len() - count - pend) as int,
                (digits.len() - pend) as int,
            ));
        }
        let start = digits.len() - count - pend;
        let e = pend as i128 - frac_len as i128 + (count - MAX_DIGITS) as i128;
        round_significant(negative, digits, start, count, e)
    } else {
        Decimal { negative, mantissa: m, exponent: pend as i128 - frac_len as i128 }
    }
}

/// The canonical decimal `±k · 10^e`, where `k` is the first [`MAX_DIGITS`] of the `count`
/// digits from `start` on, rounded to the nearest, ties to even, by the digits after them.
fn round_significant(negative: bool, digits: &Vec<char>, start: usize, count: usize, e: i128) -> (r:
    Decimal)
    requires
        all_digits(digits@),
        MAX_DIGITS < count,
        start + count <= digits.len(),
        e <= i128::MAX - 40,
    ensures
        ({
            let sig = digits@.subrange(start as int, start + count);
            let kept = sig.take(MAX_DIGITS as int);
            let rest = sig.skip(MAX_DIGITS as int);
            r == canonical(
                negative,
                digits_value(kept) + if rounds_up(kept, rest) {
                    1nat
                } else {
                    0nat
                },
                e as int,
            )
        }),
{
    let ghost sig = digits@.subrange(start as int, start + count);
    let mut m: u128 = 0;
    let mut k: usize = 0;
    proof {
        lemma_pow10_39();
        assert(sig.take(0) =~= Seq::<char>::empty());
    }
    while k < MAX_DIGITS
        invariant
            k <= MAX_DIGITS < count,
            start + count <= digits.len(),
            all_digits(digits@),
            sig == digits@.subrange(start as int, start + count),
            m == digits_value(sig.take(k as int)),
            m < pow10(k as nat),
            pow10(38) < u128::MAX,
        decreases MAX_DIGITS - k,
    {
        let c = digits[start + k];
        proof {
            assert(is_ascii_digit(digits@[start + k]));
            assert(sig.take(k + 1) =~= sig.take(k as int).push(c));
            lemma_digits_value_push(sig.take(k as int), c);
            lemma_pow10_monotone((k + 1) as nat, 38);
            assert(pow10((k + 1) as nat) == 10 * pow10(k as nat));
        }
        let d = ((c as u32) - ('0' as u32)) as u128;
        m = m * 10 + d;
        k = k + 1;
    }
    let c = digits[start + MAX_DIGITS];
    let ghost kept = sig.take(MAX_DIGITS as int);
    let ghost rest = sig.skip(MAX_DIGITS as int);
    assert(rest[0] == c);
    assert(rest.len() == count - MAX_DIGITS);
    let up = c > '5' || (c == '5' && (count > MAX_DIGITS + 1 || m % 2 == 1));
    assert(up == rounds_up(kept, rest));
    if up {
        Decimal::new(negative, m + 1, e)
    } else {
        Decimal::new(negative, m, e)
    }
}

} // verus!
