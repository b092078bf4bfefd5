use eleel::uint256::Uint256;

#[test]
fn uint256_small_values() {
    assert_eq!(Uint256::zero(), Uint256 { limbs: [0, 0, 0, 0] });
    assert_eq!(Uint256::one(), Uint256 { limbs: [1, 0, 0, 0] });
    assert_eq!(Uint256::from_u64(42), Uint256 { limbs: [42, 0, 0, 0] });
    assert!(Uint256::zero().is_zero());
    assert!(!Uint256 { limbs: [0, 0, 1, 0] }.is_zero());
    assert!(Uint256::one().same(&Uint256::from_u64(1)));
    assert!(!Uint256::one().same(&Uint256 { limbs: [1, 1, 0, 0] }));
}

#[test]
fn uint256_addition_carries_and_overflows() {
    let a = Uint256 { limbs: [u64::MAX, 0, 0, 0] };
    assert_eq!(a.checked_add(Uint256::one()), Some(Uint256 { limbs: [0, 1, 0, 0] }));
    let max = Uint256 { limbs: [u64::MAX; 4] };
    assert_eq!(max.checked_add(Uint256::one()), None);
    assert_eq!(max.checked_add(Uint256::zero()), Some(max));
}

#[test]
fn uint256_multiplication_carries_and_overflows() {
    let a = Uint256 { limbs: [1 << 63, 0, 0, 0] };
    assert_eq!(a.checked_mul(Uint256::from_u64(4)), Some(Uint256 { limbs: [0, 2, 0, 0] }));
    let high = Uint256 { limbs: [0, 0, 0, 1] };
    assert_eq!(high.checked_mul(Uint256 { limbs: [0, 1, 0, 0] }), None);
    assert_eq!(high.checked_mul(Uint256::zero()), Some(Uint256::zero()));
}

#[test]
fn uint256_division_with_remainder() {
    let a = Uint256 { limbs: [5, 1, 0, 0] };
    // 2^64 + 5 = 2 * 2^63 + 5
    assert_eq!(
        a.checked_div_rem(Uint256::from_u64(1 << 63)),
        Some((Uint256::from_u64(2), Uint256::from_u64(5)))
    );
    assert_eq!(a.checked_div_rem(Uint256::zero()), None);
}

#[test]
fn uint256_subtraction_saturates() {
    assert_eq!(Uint256::from_u64(5).saturating_sub(Uint256::from_u64(7)), Uint256::zero());
    assert_eq!(Uint256::from_u64(7).saturating_sub(Uint256::from_u64(5)), Uint256::from_u64(2));
    let a = Uint256 { limbs: [0, 1, 0, 0] };
    assert_eq!(a.saturating_sub(Uint256::one()), Uint256 { limbs: [u64::MAX, 0, 0, 0] });
}
