use distaff::math::field128::F128;
use distaff::math::field64::{F64, G};

const M128: u128 = 340282366920938463463374557953744961537;
const M64: u64 = 18446743880436023297;

#[test]
fn f128_constants() {
    assert_eq!(M128, F128::MODULUS);
    assert_eq!(2 * ((1u128 << 127) - 45 * (1u128 << 39)) + 1, F128::MODULUS);
    assert_eq!(0, F128::ZERO);
    assert_eq!(1, F128::ONE);
    assert_eq!((M128 + 1) / 2, F128::HALF);
}

#[test]
fn f128_add_wraps_at_the_modulus() {
    assert_eq!(5, F128::add(2, 3));
    assert_eq!(0, F128::add(M128 - 1, 1));
    assert_eq!(1, F128::add(M128 - 1, 2));
    assert_eq!(M128 - 2, F128::add(M128 - 1, M128 - 1));
    // values at or above the modulus stand for their remainders
    assert_eq!(3, F128::add(M128 + 1, 2));
    assert_eq!(u128::MAX % M128, F128::add(u128::MAX, 0));
    assert_eq!((2 * (u128::MAX % M128)) % M128, F128::add(u128::MAX, u128::MAX));
}

#[test]
fn f128_sub_wraps_below_zero() {
    assert_eq!(1, F128::sub(3, 2));
    assert_eq!(M128 - 3, F128::sub(1, 4));
    assert_eq!(0, F128::sub(7, 7));
    assert_eq!(M128 - 1, F128::sub(0, 1));
    assert_eq!(1, F128::sub(M128 + 3, 2));
}

#[test]
fn f128_mul_reduces_the_wide_product() {
    assert_eq!(6, F128::mul(2, 3));
    assert_eq!(0, F128::mul(0, 12345));
    assert_eq!(1, F128::mul(M128 - 1, M128 - 1));
    assert_eq!(M128 - 2, F128::mul(M128 - 1, 2));
    // 2^64 * 2^64 = 2^128 = 45 * 2^40 - 1 (mod M)
    assert_eq!(45 * (1u128 << 40) - 1, F128::mul(1u128 << 64, 1u128 << 64));
    assert_eq!(1, F128::mul(2, F128::HALF));
}

#[test]
fn f128_exp_is_repeated_multiplication() {
    assert_eq!(1, F128::exp(5, 0));
    assert_eq!(5, F128::exp(5, 1));
    assert_eq!(1u128 << 127, F128::exp(2, 127));
    assert_eq!(45 * (1u128 << 40) - 1, F128::exp(2, 128));
    assert_eq!(0, F128::exp(0, 3));
    assert_eq!(1, F128::exp(0, 0));
    let x = 987654321987654321987654321u128;
    assert_eq!(F128::mul(F128::mul(x, x), x), F128::exp(x, 3));
    // the multiplicative group has order M - 1
    assert_eq!(1, F128::exp(x, M128 - 1));
}

#[test]
fn f128_inv_inverts_what_has_an_inverse() {
    assert_eq!(0, F128::inv(0));
    assert_eq!(0, F128::inv(M128));
    assert_eq!(1, F128::inv(1));
    assert_eq!(F128::HALF, F128::inv(2));
    assert_eq!(M128 - 1, F128::inv(M128 - 1));
    for x in [3u128, 4, 1 << 100, M128 - 3, 340282366920938463463374557953744961u128] {
        let y = F128::inv(x);
        assert!(y < M128);
        assert_eq!(1, F128::mul(x, y));
        assert_eq!(F128::exp(x, M128 - 2), y);
    }
}

#[test]
fn f128_reduce_gives_the_remainder() {
    assert_eq!(0, F128::reduce(M128));
    assert_eq!(M128 - 1, F128::reduce(M128 - 1));
    assert_eq!(u128::MAX - M128, F128::reduce(u128::MAX));
}

#[test]
fn f64_arithmetic() {
    assert_eq!(M64, F64::MODULUS);
    assert_eq!(5, F64::add(2, 3));
    assert_eq!(0, F64::add(M64 - 1, 1));
    assert_eq!(u64::MAX % M64, F64::add(u64::MAX, 0));
    assert_eq!(M64 - 3, F64::sub(1, 4));
    assert_eq!(6, F64::mul(2, 3));
    assert_eq!(1, F64::mul(M64 - 1, M64 - 1));
    // 2^32 * 2^32 = 2^64 = 45 * 2^32 - 1 (mod M)
    assert_eq!(45 * (1u64 << 32) - 1, F64::mul(1 << 32, 1 << 32));
    assert_eq!(1u64 << 63, F64::exp(2, 63));
    assert_eq!(1, F64::exp(7, 0));
    assert_eq!(1, F64::exp(123456789, M64 - 1));
    assert_eq!(1, F64::mul(2, F64::HALF));
}

#[test]
fn f64_inv_inverts_what_has_an_inverse() {
    assert_eq!(0, F64::inv(0));
    assert_eq!(1, F64::inv(1));
    assert_eq!(F64::HALF, F64::inv(2));
    for x in [3u64, 1 << 40, M64 - 2, 1234567890123456789] {
        let y = F64::inv(x);
        assert!(y < M64);
        assert_eq!(1, F64::mul(x, y));
        assert_eq!(F64::exp(x, M64 - 2), y);
    }
}

#[test]
fn f64_roots_of_unity() {
    assert_eq!(1, F64::exp(G, 1 << 32));
    assert_eq!(M64 - 1, F64::exp(G, 1 << 31));
    assert_eq!(1, F64::get_root_of_unity(1));
    assert_eq!(M64 - 1, F64::get_root_of_unity(2));
    let root = F64::get_root_of_unity(16);
    assert_eq!(F64::exp(G, 1 << 28), root);
    assert_eq!(1, F64::exp(root, 16));
    assert_eq!(M64 - 1, F64::exp(root, 8));
    // the root of a larger domain is a root of the root of a smaller one
    let large = F64::get_root_of_unity(128);
    assert_eq!(root, F64::exp(large, 8));
}

#[test]
fn f64_supported_orders_are_the_powers_of_two() {
    assert!(F64::supports_order(1));
    assert!(F64::supports_order(2));
    assert!(F64::supports_order(16));
    assert!(F64::supports_order(1 << 31));
    assert!(!F64::supports_order(0));
    assert!(!F64::supports_order(3));
    assert!(!F64::supports_order(24));
    assert!(!F64::supports_order((1 << 20) + 1));
}
