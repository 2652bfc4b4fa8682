use ecdsa_mpc::bigint::BigInt;
use ecdsa_mpc::curve::Scalar;
use ecdsa_mpc::types::Signature;

fn hex(s: &str) -> Vec<u8> {
    (0..s.len()).step_by(2).map(|i| u8::from_str_radix(&s[i..i + 2], 16).unwrap()).collect()
}

#[test]
fn scalar_is_written_in_32_bytes() {
    let mut expected = vec![0u8; 32];
    expected[31] = 7;
    assert_eq!(Scalar::from_u16(7).to_bytes(), expected);
    assert_eq!(Scalar::zero().to_bytes(), vec![0u8; 32]);
    let minus_one = Scalar::from_bigint(&BigInt::one().neg());
    assert_eq!(
        minus_one.to_bytes(),
        hex("fffffffffffffffffffffffffffffffebaaedce6af48a03bbfd25e8cd0364140")
    );
    expected[31] = 0;
    expected[30] = 1;
    assert_eq!(Scalar::from_u16(256).to_bytes(), expected);
}

#[test]
fn scalar_is_read_from_32_bytes_below_the_order() {
    let mut bytes = vec![0u8; 32];
    bytes[31] = 7;
    assert!(Scalar::from_bytes(&bytes).expect("7 is a scalar").eq(&Scalar::from_u16(7)));
    assert!(Scalar::from_bytes(&[0u8; 32]).expect("0 is a scalar").is_zero());
    assert!(Scalar::from_bytes(&[7u8]).is_none());
    assert!(Scalar::from_bytes(&[0u8; 33]).is_none());
    assert!(Scalar::from_bytes(&[]).is_none());
    let order = hex("fffffffffffffffffffffffffffffffebaaedce6af48a03bbfd25e8cd0364141");
    assert!(Scalar::from_bytes(&order).is_none());
    assert!(Scalar::from_bytes(&[0xffu8; 32]).is_none());
    let below = hex("fffffffffffffffffffffffffffffffebaaedce6af48a03bbfd25e8cd0364140");
    assert!(Scalar::from_bytes(&below).is_some());
}

#[test]
fn scalar_round_trip() {
    for _ in 0..50 {
        let s = Scalar::random();
        let bytes = s.to_bytes();
        assert_eq!(bytes.len(), 32);
        let back = Scalar::from_bytes(&bytes).expect("what was written is read");
        assert!(back.eq(&s));
        assert_eq!(back.to_bytes(), bytes);
    }
}

#[test]
fn signature_is_written_as_r_then_s() {
    let signature = Signature { r: Scalar::from_u16(1), s: Scalar::from_u16(2) };
    let bytes = signature.to_bytes();
    assert_eq!(bytes.len(), 64);
    let mut expected = vec![0u8; 64];
    expected[31] = 1;
    expected[63] = 2;
    assert_eq!(bytes, expected);
}

#[test]
fn signature_round_trip() {
    for _ in 0..20 {
        let signature = Signature { r: Scalar::random(), s: Scalar::random() };
        let bytes = signature.to_bytes();
        let back = Signature::from_bytes(&bytes).expect("what was written is read");
        assert!(back.r.eq(&signature.r) && back.s.eq(&signature.s));
        assert_eq!(back.to_bytes(), bytes);
    }
}

#[test]
fn signature_is_read_from_64_bytes_of_two_scalars() {
    assert!(Signature::from_bytes(&[0u8; 63]).is_none());
    assert!(Signature::from_bytes(&[0u8; 65]).is_none());
    assert!(Signature::from_bytes(&[]).is_none());
    assert!(Signature::from_bytes(&[0u8; 64]).is_some());
    let mut bytes = vec![0u8; 64];
    for b in bytes.iter_mut().take(32) {
        *b = 0xff;
    }
    assert!(Signature::from_bytes(&bytes).is_none());
    let mut bytes = vec![0u8; 64];
    for b in bytes.iter_mut().skip(32) {
        *b = 0xff;
    }
    assert!(Signature::from_bytes(&bytes).is_none());
    let known = hex(
        "d47ce4c025c35ec440bc81d99834a624875161a26bf56ef7fdc0f5d52f843ad12f63f503d5211df7e94438993c8d9334450fa7951c7a1e89456107bb89cc0e7f",
    );
    let signature = Signature::from_bytes(&known).expect("two scalars");
    assert_eq!(signature.r.to_bytes(), known[..32].to_vec());
    assert_eq!(signature.s.to_bytes(), known[32..].to_vec());
}
