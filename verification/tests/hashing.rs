use ecdsa_mpc::bigint::BigInt;
use ecdsa_mpc::hashing::HSha512Trunc256;

fn hex(s: &str) -> Vec<u8> {
    (0..s.len()).step_by(2).map(|i| u8::from_str_radix(&s[i..i + 2], 16).unwrap()).collect()
}

#[test]
fn digest_length_is_256_bits() {
    assert_eq!(HSha512Trunc256::DIGEST_BIT_LENGTH, 256);
}

#[test]
fn hash_of_nothing_is_the_digest_of_the_empty_string() {
    let h = HSha512Trunc256::create_hash(&[]);
    assert_eq!(
        h.to_bytes(),
        hex("c672b8d1ef56ed28ab87c3622c5114069bdd3ad7b8f9737498d0c01ecef0967a")
    );
}

#[test]
fn hash_of_one_prefixes_the_length() {
    // The transcript is 00 00 00 00 00 00 00 01 01.
    let one = BigInt::from_u64(1);
    let h = HSha512Trunc256::create_hash(&[&one]);
    assert_eq!(
        h.to_bytes(),
        hex("f6d98483528e6838dace951e0fb8c3aa113f8bf4c760435022620b1ba027782f")
    );
}

#[test]
fn hash_of_several_inputs() {
    // Zero has the empty encoding, 256 is 01 00, 1000000 is 0f 42 40.
    let (a, b, c) = (BigInt::from_u64(0), BigInt::from_u64(256), BigInt::from_u64(1_000_000));
    let h = HSha512Trunc256::create_hash(&[&a, &b, &c]);
    assert_eq!(
        h.to_bytes(),
        hex("9caed0289372b9c3a513db2934608d8498ddd2f36198dd74813e7727dfad9eeb")
    );
}

#[test]
fn hash_ignores_leading_zeros_and_the_sign() {
    let plain = BigInt::from_u64(256);
    let padded = BigInt::from_bytes(&[0, 0, 1, 0]);
    let negative = plain.neg();
    let h = HSha512Trunc256::create_hash(&[&plain]);
    assert!(h.eq(&HSha512Trunc256::create_hash(&[&padded])));
    assert!(h.eq(&HSha512Trunc256::create_hash(&[&negative])));
}

#[test]
fn hash_tells_the_inputs_apart() {
    // Without the lengths, (1, 0x0101) and (0x0101, 1) would read the same.
    let (a, b) = (BigInt::from_u64(1), BigInt::from_u64(0x0101));
    let h1 = HSha512Trunc256::create_hash(&[&a, &b]);
    let h2 = HSha512Trunc256::create_hash(&[&b, &a]);
    assert!(!h1.eq(&h2));
    assert!(!h1.is_negative());
}
