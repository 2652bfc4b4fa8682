use curv::arithmetic::Converter;
use ecdsa_mpc::bigint::BigInt;
use ecdsa_mpc::paillier::{
    DecryptionKey, EncryptionKey, ManagedPaillierDecryptionKey, PaillierKeys,
    DEFAULT_GROUP_ORDER_BIT_LENGTH, DEFAULT_SAFE_PRIME_BIT_LENGTH,
    PRIME_BIT_LENGTH_IN_PAILLIER_SCHEMA,
};
use kzen_paillier::{Encrypt, Paillier, RawPlaintext};

fn hex(s: &str) -> Vec<u8> {
    (0..s.len()).step_by(2).map(|i| u8::from_str_radix(&s[i..i + 2], 16).unwrap()).collect()
}

/// Two primes of 1024 bits whose product has 2048 bits.
fn full_primes() -> (BigInt, BigInt) {
    (
        BigInt::from_bytes(&hex(
            "d7571f1b6ff5976c1e2bf28bac1b8800470bc87ff452afed1639129e89c7ff64a8875cf190a5891813abab49a3f05941822e06825d56bf9fc892499b5a75aaa8dabf757b448b6797f0b233aae8f561c7afb28699ca3c651a8e6b6d060158394d49b1a24d9692d3ae902d3138bdc50b372cf9978a9965ea96198ce236d73327e1",
        )),
        BigInt::from_bytes(&hex(
            "dd7aae8d35a2ed9d7618c9f234d4d3c53e5158efe2ff17613d1ab97cb7261e5c58df5d0f3e86b7ca7d2891de7df1ebdf3ab3a4eb36a6ef17d65c6ea3df4feeb9eb5031721668d7eeb3f342b2c7029e9c87161c0973fd96122df17bd8543217b7d70d5156c08d23b56692136677e1fdd5f3a4e381f06359db7d2181cc56ec2003",
        )),
    )
}

/// Two primes of 1024 bits whose product has 2047 bits only.
fn low_primes() -> (BigInt, BigInt) {
    (
        BigInt::from_bytes(&hex(
            "894aba59ddf370a94e70d85d8fa2f46911a045e1c0102e4b1110f8c9de0f17aab727e3c28ebc363159a70b0c823b140bab65c27ea3ec1684b0ad2fea32999def8e8be0674068980759d07aab2d58e21f23bbdd5954ddaad0511d9aa8ee1a66f59806094074d0cbcb88d73fcbdaf86cb6b1b17b2b13343512b419e3c5bfd993bf",
        )),
        BigInt::from_bytes(&hex(
            "9b036f8e92ac0570fce0cb22ec95d30a999e54a0af5788ab0e7ae80eb498817706e4116b09e9e4bb88e190961ee38d41f000af73aec24b48ff82cd623c46ec3fe94f28f4ebc77961194a6ecc398329f4781db2530331fa272dbb08074710c0077f0ddfe054288cf766fe02b428139f67dc0c95f778afffb265d40b46d68e10d5",
        )),
    )
}

/// The Mersenne primes 2^61 - 1 and 2^89 - 1.
fn mersenne_primes() -> (BigInt, BigInt) {
    let one = BigInt::one();
    (BigInt::from_u64(2).pow(61).sub(&one), BigInt::from_u64(2).pow(89).sub(&one))
}

fn to_curv(x: &BigInt) -> curv::BigInt {
    curv::BigInt::from_bytes(&x.to_bytes())
}

#[test]
fn paillier_constants() {
    assert_eq!(PRIME_BIT_LENGTH_IN_PAILLIER_SCHEMA, 1024);
    assert_eq!(DEFAULT_GROUP_ORDER_BIT_LENGTH, 2048);
    assert_eq!(DEFAULT_SAFE_PRIME_BIT_LENGTH, 1024);
}

#[test]
fn zero_keys_are_all_zero() {
    let keys = PaillierKeys::zero();
    assert!(keys.dk.p.is_zero() && keys.dk.q.is_zero());
    assert!(keys.ek.n.is_zero() && keys.ek.nn.is_zero());
    assert!(!PaillierKeys::is_valid(&keys.ek, &keys.dk));
}

#[test]
fn keys_from_primes_fit() {
    let keys = PaillierKeys::from_primes(BigInt::from_u64(11), BigInt::from_u64(13));
    assert!(keys.ek.n.eq(&BigInt::from_u64(143)));
    assert!(keys.ek.nn.eq(&BigInt::from_u64(20449)));
    assert!(keys.dk.p.eq(&BigInt::from_u64(11)));
    assert!(keys.dk.q.eq(&BigInt::from_u64(13)));
}

#[test]
fn validity_once_the_primes_are_tested() {
    let (p, q) = full_primes();
    let keys = PaillierKeys::from_primes(p, q);
    assert!(PaillierKeys::is_valid_with(&keys.ek, &keys.dk, true, true));
    assert!(!PaillierKeys::is_valid_with(&keys.ek, &keys.dk, false, true));
    assert!(!PaillierKeys::is_valid_with(&keys.ek, &keys.dk, true, false));
    let wrong_n = EncryptionKey { n: keys.ek.n.add(&BigInt::one()), nn: keys.ek.nn.clone() };
    assert!(!PaillierKeys::is_valid_with(&wrong_n, &keys.dk, true, true));
    let wrong_nn = EncryptionKey { n: keys.ek.n.clone(), nn: keys.ek.nn.add(&BigInt::one()) };
    assert!(!PaillierKeys::is_valid_with(&wrong_nn, &keys.dk, true, true));
    // Short keys fit, and are not valid.
    let short = PaillierKeys::from_primes(BigInt::from_u64(11), BigInt::from_u64(13));
    assert!(!PaillierKeys::is_valid_with(&short.ek, &short.dk, true, true));
}

#[test]
fn keys_of_full_size_are_valid() {
    let (p, q) = full_primes();
    let keys = PaillierKeys::from_primes(p, q);
    assert!(PaillierKeys::has_full_size(&keys.ek, &keys.dk));
    assert_eq!(keys.ek.n.to_bytes().len(), 256);
    assert!(keys.ek.n.to_bytes()[0] >= 0x80);
    assert!(PaillierKeys::is_valid(&keys.ek, &keys.dk));
}

#[test]
fn short_keys_are_invalid() {
    let (p, q) = mersenne_primes();
    let keys = PaillierKeys::from_primes(p, q);
    assert!(!PaillierKeys::has_full_size(&keys.ek, &keys.dk));
    assert!(!PaillierKeys::is_valid(&keys.ek, &keys.dk));
    // One short prime is enough.
    let (p, _) = full_primes();
    let (_, short) = mersenne_primes();
    let keys = PaillierKeys::from_primes(p, short);
    assert!(!PaillierKeys::is_valid(&keys.ek, &keys.dk));
}

#[test]
fn keys_with_a_modulus_of_2047_bits_are_invalid() {
    let (p, q) = low_primes();
    assert_eq!(p.to_bytes().len(), 128);
    assert_eq!(q.to_bytes().len(), 128);
    let keys = PaillierKeys::from_primes(p, q);
    assert!(keys.ek.n.to_bytes()[0] < 0x80);
    assert!(!PaillierKeys::has_full_size(&keys.ek, &keys.dk));
    assert!(!PaillierKeys::is_valid(&keys.ek, &keys.dk));
    assert!(PaillierKeys::from_drawn(keys.dk.p.clone(), keys.dk.q.clone()).is_none());
}

#[test]
fn keys_that_do_not_fit_are_invalid() {
    let (p, q) = full_primes();
    let keys = PaillierKeys::from_primes(p, q);
    let wrong = EncryptionKey { n: keys.ek.n.add(&BigInt::one()), nn: keys.ek.nn.clone() };
    assert!(!PaillierKeys::is_valid(&wrong, &keys.dk));
    let wrong = EncryptionKey { n: keys.ek.n.clone(), nn: keys.ek.nn.add(&BigInt::one()) };
    assert!(!PaillierKeys::is_valid(&wrong, &keys.dk));
}

#[test]
fn keys_of_composites_are_invalid() {
    let (p, q) = full_primes();
    let composite = p.mul(&BigInt::from_u64(3));
    let keys = PaillierKeys::from_primes(composite.clone(), q.clone());
    assert!(!PaillierKeys::is_valid(&keys.ek, &keys.dk));
    let keys = PaillierKeys::from_primes(q, composite);
    assert!(!PaillierKeys::is_valid(&keys.ek, &keys.dk));
}

#[test]
fn keys_with_primes_below_two_are_invalid() {
    let (p, _) = full_primes();
    for small in [BigInt::zero(), BigInt::one(), BigInt::from_u64(5).neg()] {
        let keys = PaillierKeys::from_primes(small, p.clone());
        assert!(!PaillierKeys::is_valid(&keys.ek, &keys.dk));
    }
}

#[test]
fn drawn_primes_are_taken_when_they_make_a_full_key() {
    let (p, q) = full_primes();
    let keys = PaillierKeys::from_drawn(p.clone(), q.clone()).expect("a full key");
    assert!(keys.dk.p.eq(&p) && keys.dk.q.eq(&q));
    assert!(keys.ek.n.eq(&p.mul(&q)));
    assert!(keys.ek.nn.eq(&keys.ek.n.mul(&keys.ek.n)));
    assert!(keys.has_usable_primes());
    // The same prime twice: decryption is not defined.
    assert!(PaillierKeys::from_drawn(p.clone(), p.clone()).is_none());
    // Short primes.
    assert!(PaillierKeys::from_drawn(BigInt::from_u64(11), BigInt::from_u64(13)).is_none());
    // Composite numbers of full size: the pair is taken exactly if the modulus has an inverse
    // modulo (p - 1)(q - 1), the other two tests being passed.
    let three_p = p.mul(&BigInt::from_u64(3));
    let seven_q = q.mul(&BigInt::from_u64(7));
    let taken = PaillierKeys::from_drawn(three_p.clone(), seven_q.clone()).is_some();
    let n = three_p.mul(&seven_q);
    let totient = three_p.sub(&BigInt::one()).mul(&seven_q.sub(&BigInt::one()));
    assert_eq!(taken, BigInt::is_invertible(&n, &totient));
}

#[test]
fn decrypt_inverts_encryption() {
    let (p, q) = mersenne_primes();
    let keys = PaillierKeys::from_primes(p, q);
    let ek = kzen_paillier::EncryptionKey { n: to_curv(&keys.ek.n), nn: to_curv(&keys.ek.nn) };
    for m in [0u64, 1, 42, 1_000_000_007] {
        let c = Paillier::encrypt(&ek, RawPlaintext::from(curv::BigInt::from(m)));
        let c = BigInt::from_bytes(&c.0.to_bytes());
        assert!(keys.decrypt(c).eq(&BigInt::from_u64(m)));
    }
}

#[test]
fn decrypt_of_a_product_is_the_sum() {
    let (p, q) = mersenne_primes();
    let keys = PaillierKeys::from_primes(p, q);
    let ek = kzen_paillier::EncryptionKey { n: to_curv(&keys.ek.n), nn: to_curv(&keys.ek.nn) };
    let c1 = Paillier::encrypt(&ek, RawPlaintext::from(curv::BigInt::from(20u64)));
    let c2 = Paillier::encrypt(&ek, RawPlaintext::from(curv::BigInt::from(22u64)));
    let c1 = BigInt::from_bytes(&c1.0.to_bytes());
    let c2 = BigInt::from_bytes(&c2.0.to_bytes());
    let product = c1.mul(&c2).modulus(&keys.ek.nn);
    assert!(keys.decrypt(product).eq(&BigInt::from_u64(42)));
}

#[test]
fn random_keys_are_valid_and_of_full_size() {
    let keys = PaillierKeys::random().expect("a key is drawn within the retries");
    assert!(keys.ek.n.eq(&keys.dk.p.mul(&keys.dk.q)));
    assert!(keys.ek.nn.eq(&keys.ek.n.mul(&keys.ek.n)));
    assert_eq!(keys.dk.p.to_bytes().len(), 128);
    assert_eq!(keys.dk.q.to_bytes().len(), 128);
    assert!(keys.dk.p.to_bytes()[0] >= 0x80);
    assert_eq!(keys.ek.n.to_bytes().len(), 256);
    assert!(keys.ek.n.to_bytes()[0] >= 0x80);
    assert!(keys.has_usable_primes());
    assert!(PaillierKeys::has_full_size(&keys.ek, &keys.dk));
    assert!(PaillierKeys::is_valid(&keys.ek, &keys.dk));
}

#[test]
fn equal_keys_compare_equal() {
    let keys = |p: u64, q: u64| PaillierKeys::from_primes(BigInt::from_u64(p), BigInt::from_u64(q));
    assert!(keys(11, 13) == keys(11, 13));
    assert!(keys(11, 13) != keys(13, 11));
    assert!(keys(11, 13) != keys(11, 17));
    assert!(keys(11, 13).ek == keys(13, 11).ek);
    assert!(keys(11, 13).dk != keys(13, 11).dk);
    let mut wrong = keys(11, 13);
    wrong.ek.nn = BigInt::from_u64(1);
    assert!(wrong != keys(11, 13));
}

#[test]
fn zeroize_wipes_all_four_numbers() {
    let mut keys = PaillierKeys::from_primes(BigInt::from_u64(11), BigInt::from_u64(13));
    keys.zeroize();
    assert!(keys.dk.p.is_zero() && keys.dk.q.is_zero());
    assert!(keys.ek.n.is_zero() && keys.ek.nn.is_zero());
    assert!(keys.dk.p.magnitude.is_empty());
}

#[test]
fn managed_key_is_wiped() {
    let mut key = ManagedPaillierDecryptionKey(Box::new(DecryptionKey {
        p: BigInt::from_u64(11),
        q: BigInt::from_u64(13),
    }));
    key.zeroize();
    assert!(key.0.p.is_zero() && key.0.q.is_zero());
}

#[test]
fn clone_keeps_the_keys() {
    let keys = PaillierKeys::from_primes(BigInt::from_u64(11), BigInt::from_u64(13));
    let copy = keys.clone();
    assert!(copy.dk.p.eq(&keys.dk.p) && copy.dk.q.eq(&keys.dk.q));
    assert!(copy.ek.n.eq(&keys.ek.n) && copy.ek.nn.eq(&keys.ek.nn));
}

#[test]
fn usable_primes_are_coprime_and_at_least_two() {
    let keys = |p: u64, q: u64| PaillierKeys::from_primes(BigInt::from_u64(p), BigInt::from_u64(q));
    assert!(keys(11, 13).has_usable_primes());
    assert!(keys(9, 10).has_usable_primes());
    assert!(!keys(11, 11).has_usable_primes());
    assert!(!keys(6, 9).has_usable_primes());
    assert!(!keys(1, 13).has_usable_primes());
    assert!(!keys(13, 0).has_usable_primes());
    assert!(!PaillierKeys::zero().has_usable_primes());
}
