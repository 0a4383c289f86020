//! A small rational-number library: fractions held as non-negative
//! numerator/denominator magnitudes with a separate sign, reduced to lowest
//! terms by greatest-common-divisor division.

pub mod fraction;
pub mod gcd;
pub mod text;
