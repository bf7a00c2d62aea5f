use zkproofs::field::{Felt, MODULUS};

#[test]
fn new_reduces_modulo_the_order() {
    assert_eq!(Felt::new(5).value(), 5);
    assert_eq!(Felt::new(MODULUS).value(), 0);
    assert_eq!(Felt::new(MODULUS + 7).value(), 7);
    assert_eq!(Felt::new(u128::MAX).value(), u128::MAX - MODULUS);
}

#[test]
fn units() {
    assert_eq!(Felt::zero().value(), 0);
    assert_eq!(Felt::one().value(), 1);
}

#[test]
fn addition_wraps_at_the_modulus() {
    assert_eq!(Felt::new(3).add(Felt::new(4)).value(), 7);
    assert_eq!(Felt::new(MODULUS - 1).add(Felt::new(2)).value(), 1);
    assert_eq!(Felt::new(MODULUS - 1).add(Felt::new(1)).value(), 0);
}

#[test]
fn subtraction_wraps_below_zero() {
    assert_eq!(Felt::new(9).sub(Felt::new(4)).value(), 5);
    assert_eq!(Felt::new(3).sub(Felt::new(5)).value(), MODULUS - 2);
    assert_eq!(Felt::new(0).sub(Felt::new(1)).value(), MODULUS - 1);
}

#[test]
fn multiplication_small_values() {
    assert_eq!(Felt::new(3).mul(Felt::new(5)).value(), 15);
    assert_eq!(Felt::new(0).mul(Felt::new(12345)).value(), 0);
    assert_eq!(Felt::new(1).mul(Felt::new(12345)).value(), 12345);
}

#[test]
fn multiplication_large_values() {
    // (p - 1)^2 = 1
    assert_eq!(Felt::new(MODULUS - 1).mul(Felt::new(MODULUS - 1)).value(), 1);
    // 2^127 * (2^127 + 5) mod p
    let a = Felt::new(1u128 << 127);
    let b = Felt::new((1u128 << 127) + 5);
    assert_eq!(a.mul(b).value(), 85070591730846634562023644464177741822u128);
}
