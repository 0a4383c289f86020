use fractions::fraction::Fraction;

#[test]
fn test_fraction_reduce() {
    let mut f1 = Fraction::new(2, 4);

    f1.reduce();
    assert_eq!(f1.numerator, 1);
    assert_eq!(f1.denominator, 2);
}

#[test]
fn test_fraction_add() {
    let f1 = Fraction::new(1, 3);
    let f2 = Fraction::new(2, 3);
    let f3 = f1.add(f2);

    assert_eq!(f3.numerator, 1);
    assert_eq!(f3.denominator, 1);
}

#[test]
fn test_construct_reduces_to_lowest_terms() {
    let f = Fraction::new(6, 4);
    assert_eq!(f.numerator, 3);
    assert_eq!(f.denominator, 2);
    assert_eq!(f.sign, 1);
}

#[test]
fn test_construct_signs() {
    assert_eq!(Fraction::new(1, 2).sign, 1);
    assert_eq!(Fraction::new(-1, 2).sign, -1);
    assert_eq!(Fraction::new(1, -2).sign, -1);
    assert_eq!(Fraction::new(-1, -2).sign, 1);

    let f = Fraction::new(-3, 6);
    assert_eq!(f.numerator, 1);
    assert_eq!(f.denominator, 2);
    assert_eq!(f.sign, -1);
}

#[test]
fn test_construct_zero_numerator() {
    let f = Fraction::new(0, 5);
    assert_eq!(f.numerator, 0);
    assert_eq!(f.denominator, 1);
    assert_eq!(f.sign, 1);

    let g = Fraction::new(0, -7);
    assert_eq!(g.numerator, 0);
    assert_eq!(g.denominator, 1);
    assert_eq!(g.sign, -1);
}

#[test]
fn test_reduce_is_idempotent() {
    let mut f = Fraction::new(2, 4);
    f.reduce();
    assert_eq!((f.numerator, f.denominator), (1, 2));
    f.reduce();
    assert_eq!((f.numerator, f.denominator), (1, 2));
}

#[test]
fn test_default_is_one() {
    let f = Fraction::default();
    assert_eq!(f.numerator, 1);
    assert_eq!(f.denominator, 1);
    assert_eq!(f.sign, 1);
}

#[test]
fn test_add_passes_cross_sum_as_denominator() {
    let f1 = Fraction::new(1, 2);
    let f2 = Fraction::new(1, 3);
    let f3 = f1.add(f2);

    assert_eq!(f3.numerator, 6);
    assert_eq!(f3.denominator, 5);
}

#[test]
fn test_display() {
    assert_eq!(Fraction::new(1, 2).display(), "1/2");
    assert_eq!(Fraction::default().display(), "1/1");
    assert_eq!(Fraction::new(10, 123).display(), "10/123");
    assert_eq!(Fraction::new(1000, 3).display(), "1000/3");
}

#[test]
fn test_equality() {
    assert_eq!(Fraction::new(2, 4), Fraction::new(1, 2));
    assert_ne!(Fraction::new(1, 2), Fraction::new(-1, 2));
}
