//! Exact rational comparisons.

use crater_terrain::rat::Rat;

#[test]
fn ordering_by_cross_multiplication() {
    let half = Rat::new(1, 2);
    let two_thirds = Rat::new(2, 3);
    assert!(half.le(&two_thirds));
    assert!(!two_thirds.le(&half));
    assert!(half.le(&half));
    let minus = Rat::new(-7, 10);
    assert!(minus.le(&half));
    assert!(!half.le(&minus));
}

#[test]
fn value_equality_across_terms() {
    // The same value in different terms compares equal by value while
    // the representations differ.
    let a = Rat::new(2, 4);
    let b = Rat::new(1, 2);
    assert!(a.eq_val(&b));
    assert!(b.eq_val(&a));
    assert_ne!(a, b);
    assert!(!a.eq_val(&Rat::new(3, 4)));
    assert!(Rat::new(0, 1).eq_val(&Rat::new(0, 1000)));
}

#[test]
fn from_milli_counts_thousandths() {
    let r = Rat::from_milli(1250);
    assert_eq!((r.num, r.den), (1250, 1000));
    assert!(r.eq_val(&Rat::new(5, 4)));
    assert!(Rat::from_milli(-225).eq_val(&Rat::new(-9, 40)));
}

#[test]
fn comparisons_handle_extreme_operands() {
    // Cross-multiplication runs in 128 bits: the largest and smallest
    // possible operands still compare correctly.
    let big = Rat::new(i64::MAX, 1);
    let small = Rat::new(i64::MIN, 1);
    let one = Rat::new(1, i64::MAX);
    assert!(small.le(&one));
    assert!(one.le(&big));
    assert!(!big.le(&one));
    assert!(small.le(&big));
}
