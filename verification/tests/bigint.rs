use ecdsa_mpc::bigint::BigInt;

fn big(x: i64) -> BigInt {
    let magnitude = BigInt::from_u64(x.unsigned_abs());
    if x < 0 {
        magnitude.neg()
    } else {
        magnitude
    }
}

fn same(a: &BigInt, b: i64) -> bool {
    a.eq(&big(b))
}

#[test]
fn from_u64_spells_big_endian() {
    assert_eq!(BigInt::from_u64(1_000_000).to_bytes(), vec![15, 66, 64]);
    assert_eq!(BigInt::from_u64(31).to_bytes(), vec![31]);
    assert_eq!(BigInt::from_u64(0).to_bytes(), Vec::<u8>::new());
    assert_eq!(
        BigInt::from_u64(u64::MAX).to_bytes(),
        vec![255, 255, 255, 255, 255, 255, 255, 255]
    );
}

#[test]
fn from_bytes_ignores_leading_zeros() {
    let a = BigInt::from_bytes(&[0, 0, 15, 66, 64]);
    assert!(a.eq(&BigInt::from_u64(1_000_000)));
    assert_eq!(a.to_bytes(), vec![15, 66, 64]);
    assert!(BigInt::from_bytes(&[0, 0]).is_zero());
    assert!(BigInt::from_bytes(&[]).is_zero());
}

#[test]
fn signed_addition_and_subtraction() {
    assert!(same(&big(5).add(&big(7)), 12));
    assert!(same(&big(5).add(&big(-7)), -2));
    assert!(same(&big(-5).add(&big(7)), 2));
    assert!(same(&big(-5).add(&big(-7)), -12));
    assert!(same(&big(5).sub(&big(7)), -2));
    assert!(same(&big(5).sub(&big(-7)), 12));
    assert!(same(&big(7).sub(&big(7)), 0));
    assert!(!big(7).sub(&big(7)).is_negative());
    assert!(big(5).sub(&big(7)).is_negative());
}

#[test]
fn signed_multiplication() {
    assert!(same(&big(6).mul(&big(7)), 42));
    assert!(same(&big(-6).mul(&big(7)), -42));
    assert!(same(&big(-6).mul(&big(-7)), 42));
    assert!(same(&big(0).mul(&big(-7)), 0));
}

#[test]
fn division_rounds_towards_zero() {
    assert!(same(&big(7).div(&big(2)), 3));
    assert!(same(&big(-7).div(&big(2)), -3));
    assert!(same(&big(7).div(&big(-2)), -3));
    assert!(same(&big(-7).div(&big(-2)), 3));
    assert!(same(&big(7).rem(&big(2)), 1));
    assert!(same(&big(-7).rem(&big(2)), -1));
    assert!(same(&big(7).rem(&big(-2)), 1));
    assert!(same(&big(-6).rem(&big(3)), 0));
}

#[test]
fn modulus_is_never_negative() {
    assert!(same(&big(7).modulus(&big(5)), 2));
    assert!(same(&big(-7).modulus(&big(5)), 3));
    assert!(same(&big(-10).modulus(&big(5)), 0));
    assert!(same(&big(-7).modulus(&big(-5)), 3));
}

#[test]
fn divides_follows_divisibility() {
    assert!(big(3).divides(&big(12)));
    assert!(!big(5).divides(&big(12)));
    assert!(big(-3).divides(&big(12)));
    assert!(big(0).divides(&big(0)));
    assert!(!big(0).divides(&big(4)));
    assert!(big(4).divides(&big(0)));
}

#[test]
fn powers() {
    assert!(same(&big(2).pow(10), 1024));
    assert!(same(&big(7).pow(0), 1));
    assert!(same(&big(-2).pow(3), -8));
    assert!(same(&big(-2).pow(4), 16));
    assert!(same(&big(-2).pow(0), 1));
    assert!(same(&big(0).pow(0), 1));
    assert!(same(&BigInt::mod_pow(&big(4), &big(13), &big(497)), 445));
    assert!(same(&BigInt::mod_pow(&big(-2), &big(3), &big(5)), 2));
    assert!(same(&BigInt::mod_pow(&big(9), &big(0), &big(1)), 0));
    let big = big(2).pow(200);
    assert_eq!(big.to_bytes().len(), 26);
    assert_eq!(big.to_bytes()[0], 1);
}

#[test]
fn modular_inverse() {
    let inv = BigInt::mod_inv(&big(3), &big(11)).expect("3 and 11 are coprime");
    assert!(same(&inv, 4));
    let inv = BigInt::mod_inv(&big(-3), &big(11)).expect("8 and 11 are coprime");
    assert!(same(&inv, 7));
    assert!(BigInt::mod_inv(&big(6), &big(9)).is_none());
    assert!(BigInt::mod_inv(&big(0), &big(9)).is_none());
    let inv = BigInt::mod_inv(&big(5), &big(1)).expect("everything is invertible modulo 1");
    assert!(same(&inv, 0));
    assert!(BigInt::is_invertible(&big(3), &big(11)));
    assert!(BigInt::is_invertible(&big(3), &big(-11)));
    assert!(!BigInt::is_invertible(&big(6), &big(9)));
    assert!(!BigInt::is_invertible(&big(22), &big(11)));
}

#[test]
fn ordering() {
    assert!(big(-5).lt(&big(3)));
    assert!(!big(3).lt(&big(-5)));
    assert!(big(-5).lt(&big(-3)));
    assert!(!big(-3).lt(&big(-5)));
    assert!(big(3).lt(&big(5)));
    assert!(!big(5).lt(&big(5)));
    assert!(big(0).eq(&big(0).neg()));
    assert!(!big(1).eq(&big(-1)));
}

#[test]
fn samples_stay_in_range() {
    let upper = big(1000);
    for _ in 0..200 {
        let x = BigInt::sample_below(&upper);
        assert!(x.lt(&upper));
        assert!(!x.is_negative());
        let y = BigInt::sample(9);
        assert!(y.lt(&big(512)));
    }
    assert!(BigInt::sample(0).is_zero());
}

#[test]
fn zeroize_leaves_zero() {
    let mut x = big(-123456789);
    x.zeroize();
    assert!(x.is_zero());
    assert!(!x.is_negative());
    assert!(x.magnitude.is_empty());
}

#[test]
fn clone_keeps_the_value() {
    let x = big(-99);
    let y = x.clone();
    assert!(x.eq(&y));
    assert!(same(&x.abs(), 99));
}
