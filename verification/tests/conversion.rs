use crowdfunding::{u128_to_i128, ContractError};

#[test]
fn small_amounts_convert_to_themselves() {
    assert_eq!(u128_to_i128(0), Ok(0));
    assert_eq!(u128_to_i128(42), Ok(42));
    assert_eq!(u128_to_i128(110), Ok(110));
}

#[test]
fn the_largest_signed_amount_converts() {
    assert_eq!(u128_to_i128(i128::MAX as u128), Ok(i128::MAX));
}

#[test]
fn amounts_beyond_the_signed_range_overflow() {
    assert_eq!(u128_to_i128(i128::MAX as u128 + 1), Err(ContractError::AmountOverflow));
    assert_eq!(u128_to_i128(u128::MAX), Err(ContractError::AmountOverflow));
}
