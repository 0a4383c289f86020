//! The greatest common divisor: a specification by Euclid's recursion,
//! divisibility lemmas about it, and the trusted bridge to the executable
//! implementation from the `num` crate.

use vstd::arithmetic::div_mod::{
    lemma_div_basics, lemma_div_multiples_vanish, lemma_fundamental_div_mod, lemma_small_mod,
};
use vstd::prelude::*;

verus! {

/// The greatest common divisor of two natural numbers, by Euclid's recursion.
/// `spec_gcd(0, 0) == 0`; otherwise the result is the largest common divisor.
pub open spec fn spec_gcd(a: nat, b: nat) -> nat
    decreases b,
{
    if b == 0 {
        a
    } else {
        spec_gcd(b, a % b)
    }
}

/// `d` divides `n` exactly.
pub open spec fn divides(d: nat, n: nat) -> bool {
    exists|k: nat| n == #[trigger] (d * k)
}

/// The gcd is at least 1 whenever either argument is positive.
pub proof fn lemma_gcd_pos(a: nat, b: nat)
    requires
        a > 0 || b > 0,
    ensures
        spec_gcd(a, b) >= 1,
    decreases b,
{
    if b != 0 {
        lemma_gcd_pos(b, a % b);
    }
}

/// A divisor of two numbers divides their sum.
pub proof fn lemma_divides_add(d: nat, x: nat, y: nat)
    requires
        divides(d, x),
        divides(d, y),
    ensures
        divides(d, x + y),
{
    let k1 = choose|k: nat| x == #[trigger] (d * k);
    let k2 = choose|k: nat| y == #[trigger] (d * k);
    assert(x + y == d * (k1 + k2)) by (nonlinear_arith)
        requires
            x == d * k1,
            y == d * k2,
    ;
}

/// A divisor of two numbers divides their difference.
pub proof fn lemma_divides_sub(d: nat, x: nat, y: nat)
    requires
        divides(d, x),
        divides(d, y),
        y <= x,
    ensures
        divides(d, (x - y) as nat),
{
    let k1 = choose|k: nat| x == #[trigger] (d * k);
    let k2 = choose|k: nat| y == #[trigger] (d * k);
    if d == 0 {
        assert(x == 0) by (nonlinear_arith)
            requires
                x == d * k1,
                d == 0,
        ;
        assert((x - y) as nat == d * 0);
    } else {
        assert(k2 <= k1) by (nonlinear_arith)
            requires
                x == d * k1,
                y == d * k2,
                y <= x,
                d > 0,
        ;
        assert((x - y) as nat == d * ((k1 - k2) as nat)) by (nonlinear_arith)
            requires
                x == d * k1,
                y == d * k2,
                k2 <= k1,
        ;
    }
}

/// A divisor of a number divides every multiple of it.
pub proof fn lemma_divides_mul(d: nat, n: nat, m: nat)
    requires
        divides(d, n),
    ensures
        divides(d, m * n),
{
    let k = choose|k: nat| n == #[trigger] (d * k);
    assert(m * n == d * (m * k)) by (nonlinear_arith)
        requires
            n == d * k,
    ;
}

/// The gcd divides both of its arguments.
pub proof fn lemma_gcd_divides(a: nat, b: nat)
    ensures
        divides(spec_gcd(a, b), a),
        divides(spec_gcd(a, b), b),
    decreases b,
{
    let g = spec_gcd(a, b);
    if b == 0 {
        assert(a == g * 1);
        assert(b == g * 0);
    } else {
        lemma_gcd_divides(b, a % b);
        lemma_divides_mul(g, b as nat, (a / b) as nat);
        lemma_fundamental_div_mod(a as int, b as int);
        assert(a == (a / b) * b + a % b);
        lemma_divides_add(g, ((a / b) * b) as nat, (a % b) as nat);
    }
}

/// Every common divisor of two numbers divides their gcd.
pub proof fn lemma_divides_gcd(a: nat, b: nat, c: nat)
    requires
        divides(c, a),
        divides(c, b),
    ensures
        divides(c, spec_gcd(a, b)),
    decreases b,
{
    if b != 0 {
        lemma_divides_mul(c, b as nat, (a / b) as nat);
        lemma_fundamental_div_mod(a as int, b as int);
        assert(a == (a / b) * b + a % b);
        lemma_divides_sub(c, a, ((a / b) * b) as nat);
        lemma_divides_gcd(b, a % b, c);
    }
}

/// A divisor of a positive number lies between 1 and that number.
pub proof fn lemma_divides_le(d: nat, n: nat)
    requires
        divides(d, n),
        n > 0,
    ensures
        1 <= d <= n,
{
    let k = choose|k: nat| n == #[trigger] (d * k);
    assert(d >= 1 && k >= 1) by (nonlinear_arith)
        requires
            n == d * k,
            n > 0,
    ;
    assert(d <= d * k) by (nonlinear_arith)
        requires
            k >= 1,
    ;
}

/// Dividing a number by one of its divisors is exact.
pub proof fn lemma_div_exact(d: nat, n: nat)
    requires
        divides(d, n),
        d > 0,
    ensures
        n == d * (n / d),
{
    let k = choose|k: nat| n == #[trigger] (d * k);
    lemma_div_multiples_vanish(k as int, d as int);
}

/// Dividing two numbers by their gcd leaves a coprime pair.
pub proof fn lemma_gcd_divide_coprime(a: nat, b: nat)
    requires
        spec_gcd(a, b) >= 1,
    ensures
        spec_gcd(a / spec_gcd(a, b), b / spec_gcd(a, b)) == 1,
{
    let g = spec_gcd(a, b);
    lemma_gcd_divides(a, b);
    lemma_div_exact(g, a);
    lemma_div_exact(g, b);
    let a1 = a / g;
    let b1 = b / g;
    if a == 0 && b == 0 {
        assert(spec_gcd(0, 0) == 0);
    }
    if a > 0 {
        assert(g * 0 == 0);
        assert(a1 > 0);
    } else {
        assert(g * 0 == 0);
        assert(b1 > 0);
    }
    lemma_gcd_pos(a1, b1);
    let g2 = spec_gcd(a1, b1);
    lemma_gcd_divides(a1, b1);
    let k1 = choose|k: nat| a1 == #[trigger] (g2 * k);
    let k2 = choose|k: nat| b1 == #[trigger] (g2 * k);
    assert(a == (g * g2) * k1) by (nonlinear_arith)
        requires
            a == g * a1,
            a1 == g2 * k1,
    ;
    assert(b == (g * g2) * k2) by (nonlinear_arith)
        requires
            b == g * b1,
            b1 == g2 * k2,
    ;
    lemma_divides_gcd(a, b, g * g2);
    lemma_divides_le(g * g2, g);
    assert(g2 <= 1) by (nonlinear_arith)
        requires
            g * g2 <= g,
            g >= 1,
            g2 >= 0,
    ;
}

/// The gcd of 0 and a positive number is that number.
pub proof fn lemma_gcd_zero(b: nat)
    requires
        b > 0,
    ensures
        spec_gcd(0, b) == b,
{
    lemma_small_mod(0, b);
    assert(spec_gcd(0, b) == spec_gcd(b, 0nat % b));
    assert(spec_gcd(b, 0) == b);
}

/// Relies on `num::integer::gcd` on `i64` (Stein's algorithm, documented to
/// return a non-negative result): for non-negative arguments it returns the
/// greatest common divisor, the value Euclid's recursion computes.
#[verifier::external_body]
pub(crate) fn gcd_i64(a: i64, b: i64) -> (g: i64)
    requires
        a >= 0,
        b >= 0,
    ensures
        g == spec_gcd(a as nat, b as nat),
{
    num::integer::gcd(a, b)
}

} // verus!
