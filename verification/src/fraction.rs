//! The `Fraction` type: a rational number held as non-negative
//! numerator/denominator magnitudes plus a separate sign, kept in lowest
//! terms by greatest-common-divisor division.

use crate::gcd::{
    gcd_i64, lemma_div_exact, lemma_divides_le, lemma_gcd_divide_coprime, lemma_gcd_divides,
    lemma_gcd_pos, lemma_gcd_zero, spec_gcd,
};
use crate::text::{dec_of, u64_to_string};
use vstd::arithmetic::div_mod::lemma_div_basics;
use vstd::prelude::*;
use vstd::string::StringExecFns;

verus! {

#[derive(Debug, PartialEq, Eq, Structural)]
pub struct Fraction {
    /// Magnitude of the numerator; never negative.
    pub numerator: i64,
    /// Magnitude of the denominator; never negative.
    pub denominator: i64,
    /// The overall sign of the fraction: `1` or `-1`.
    pub sign: i8,
}

/// The magnitude of an integer.
pub open spec fn spec_abs(x: int) -> nat {
    if x < 0 {
        (-x) as nat
    } else {
        x as nat
    }
}

/// The sign a fraction built from `n / d` carries: `-1` when exactly one of
/// the two is negative, otherwise `1`.
pub open spec fn spec_sign(n: int, d: int) -> i8 {
    if (n < 0) != (d < 0) {
        -1i8
    } else {
        1i8
    }
}

/// Both magnitudes divided by their greatest common divisor.
pub open spec fn spec_reduce(n: nat, d: nat) -> (nat, nat) {
    let g = spec_gcd(n, d);
    (n / g, d / g)
}

/// The fraction that construction from `n / d` yields: the two magnitudes in
/// lowest terms, with the combined sign held separately.
pub open spec fn spec_construct(n: int, d: int) -> Fraction {
    let r = spec_reduce(spec_abs(n), spec_abs(d));
    Fraction { numerator: r.0 as i64, denominator: r.1 as i64, sign: spec_sign(n, d) }
}

impl Fraction {
    /// A well-formed fraction: non-negative magnitudes in lowest terms, a
    /// positive denominator, and a sign of `1` or `-1`.
    pub open spec fn wf(self) -> bool {
        &&& 0 <= self.numerator
        &&& 1 <= self.denominator
        &&& spec_gcd(self.numerator as nat, self.denominator as nat) == 1
        &&& (self.sign == 1i8 || self.sign == -1i8)
    }

    /// Builds the fraction `numerator / denominator`: the combined sign is
    /// negative when exactly one input is negative, the magnitudes are stored
    /// and at once reduced to lowest terms.
    ///
    /// A zero denominator is ruled out, as is `i64::MIN` for either input
    /// (its magnitude has no `i64` representation).
    pub fn new(numerator: i64, denominator: i64) -> (r: Fraction)
        requires
            numerator > i64::MIN,
            denominator > i64::MIN,
            denominator != 0,
        ensures
            r == spec_construct(numerator as int, denominator as int),
            r.wf(),
    {
        let sign: i8 = if (numerator < 0) != (denominator < 0) {
            -1
        } else {
            1
        };
        let na: i64 = if numerator < 0 {
            -numerator
        } else {
            numerator
        };
        let da: i64 = if denominator < 0 {
            -denominator
        } else {
            denominator
        };
        let div = gcd_i64(na, da);
        proof {
            lemma_gcd_pos(na as nat, da as nat);
            lemma_gcd_divides(na as nat, da as nat);
            lemma_div_exact(div as nat, na as nat);
            lemma_div_exact(div as nat, da as nat);
            lemma_divides_le(div as nat, da as nat);
            assert(da as nat / div as nat >= 1) by (nonlinear_arith)
                requires
                    da as nat == div as nat * (da as nat / div as nat),
                    da > 0,
            ;
            lemma_gcd_divide_coprime(na as nat, da as nat);
        }
        Fraction { numerator: na / div, denominator: da / div, sign }
    }

    /// Divides the stored numerator and denominator magnitudes by their
    /// greatest common divisor, in place; the sign is untouched.
    pub fn reduce(&mut self)
        requires
            0 <= old(self).numerator,
            0 <= old(self).denominator,
            old(self).numerator > 0 || old(self).denominator > 0,
        ensures
            0 <= final(self).numerator,
            0 <= final(self).denominator,
            (final(self).numerator as nat, final(self).denominator as nat) == spec_reduce(
                old(self).numerator as nat,
                old(self).denominator as nat,
            ),
            final(self).sign == old(self).sign,
            spec_gcd(final(self).numerator as nat, final(self).denominator as nat) == 1,
    {
        let div = gcd_i64(self.numerator, self.denominator);
        proof {
            lemma_gcd_pos(self.numerator as nat, self.denominator as nat);
            lemma_gcd_divides(self.numerator as nat, self.denominator as nat);
            lemma_div_exact(div as nat, self.numerator as nat);
            lemma_div_exact(div as nat, self.denominator as nat);
            lemma_gcd_divide_coprime(self.numerator as nat, self.denominator as nat);
        }
        self.numerator = self.numerator / div;
        self.denominator = self.denominator / div;
    }

    /// Adds two fractions by cross-multiplication and hands the two values to
    /// `new`, the product of the denominators as `new`'s first (numerator)
    /// argument and the cross-multiplied sum as its second (denominator)
    /// argument; the operands' signs do not enter the result. Both
    /// peculiarities are kept deliberately: callers rely on this exact shape.
    pub fn add(self, rhs: Fraction) -> (r: Fraction)
        requires
            0 <= self.numerator,
            0 <= rhs.numerator,
            1 <= self.denominator,
            1 <= rhs.denominator,
            self.numerator != 0 || rhs.numerator != 0,
            self.denominator * rhs.denominator <= i64::MAX,
            self.numerator * rhs.denominator + rhs.numerator * self.denominator <= i64::MAX,
        ensures
            r == spec_construct(
                self.denominator * rhs.denominator,
                self.numerator * rhs.denominator + rhs.numerator * self.denominator,
            ),
            r.wf(),
    {
        proof {
            assert(self.denominator * rhs.denominator >= 1) by (nonlinear_arith)
                requires
                    self.denominator >= 1,
                    rhs.denominator >= 1,
            ;
            assert(self.numerator * rhs.denominator >= self.numerator
                && rhs.numerator * self.denominator >= rhs.numerator) by (nonlinear_arith)
                requires
                    self.numerator >= 0,
                    rhs.numerator >= 0,
                    self.denominator >= 1,
                    rhs.denominator >= 1,
            ;
        }
        let d = self.denominator * rhs.denominator;
        let n = self.numerator * rhs.denominator + rhs.numerator * self.denominator;
        Fraction::new(d, n)
    }

    /// The text this fraction displays as: the two magnitudes in decimal,
    /// separated by a slash. The sign does not appear in the text.
    pub open spec fn spec_display(self) -> Seq<char> {
        dec_of(self.numerator as nat) + seq!['/'] + dec_of(self.denominator as nat)
    }

    /// Formats the fraction as `"<numerator>/<denominator>"`; the sign is
    /// left out of the text.
    pub fn display(&self) -> (s: String)
        requires
            0 <= self.numerator,
            0 <= self.denominator,
        ensures
            s@ == self.spec_display(),
    {
        let mut s = u64_to_string(self.numerator as u64);
        s.append("/");
        let den = u64_to_string(self.denominator as u64);
        s.append(den.as_str());
        proof {
            reveal_strlit("/");
            assert(s@ =~= self.spec_display());
        }
        s
    }
}

impl Default for Fraction {
    /// The fraction equal to one: numerator 1, denominator 1, positive sign.
    fn default() -> (r: Fraction)
        ensures
            r == (Fraction { numerator: 1i64, denominator: 1i64, sign: 1i8 }),
            r.wf(),
    {
        proof {
            lemma_gcd_zero(1);
            assert(spec_gcd(1, 1) == spec_gcd(1, 1nat % 1));
        }
        Fraction { numerator: 1, denominator: 1, sign: 1 }
    }
}

/// Construction leaves the magnitudes in lowest terms: for every admissible
/// pair of inputs, the gcd of the stored numerator and denominator is 1.
pub proof fn lemma_construct_coprime(n: int, d: int)
    requires
        i64::MIN < n <= i64::MAX,
        i64::MIN < d <= i64::MAX,
        d != 0,
    ensures
        spec_gcd(
            spec_construct(n, d).numerator as nat,
            spec_construct(n, d).denominator as nat,
        ) == 1,
{
    let na = spec_abs(n);
    let da = spec_abs(d);
    lemma_gcd_pos(na, da);
    lemma_gcd_divides(na, da);
    let g = spec_gcd(na, da);
    lemma_div_exact(g, na);
    lemma_div_exact(g, da);
    assert(na / g <= na && da / g <= da) by (nonlinear_arith)
        requires
            na == g * (na / g),
            da == g * (da / g),
            g >= 1,
    ;
    lemma_gcd_divide_coprime(na, da);
}

/// Reduction is idempotent: dividing an already-reduced magnitude pair by its
/// gcd (which is then 1) leaves the pair unchanged.
pub proof fn lemma_reduce_idempotent(n: nat, d: nat)
    requires
        n > 0 || d > 0,
    ensures
        spec_reduce(spec_reduce(n, d).0, spec_reduce(n, d).1) == spec_reduce(n, d),
{
    lemma_gcd_pos(n, d);
    lemma_gcd_divides(n, d);
    let g = spec_gcd(n, d);
    lemma_div_exact(g, n);
    lemma_div_exact(g, d);
    lemma_gcd_divide_coprime(n, d);
    let n1 = spec_reduce(n, d).0;
    let d1 = spec_reduce(n, d).1;
    assert(spec_gcd(n1, d1) == 1);
    lemma_div_basics(n1 as int);
    lemma_div_basics(d1 as int);
}

/// A zero numerator with any nonzero denominator constructs the canonical
/// zero: numerator 0, denominator 1.
pub proof fn lemma_construct_zero(d: int)
    requires
        d != 0,
    ensures
        spec_construct(0, d).numerator == 0,
        spec_construct(0, d).denominator == 1,
{
    let da = spec_abs(d);
    lemma_gcd_zero(da);
    lemma_div_basics(da as int);
    vstd::arithmetic::div_mod::lemma_div_of0(da as int);
}

} // verus!
