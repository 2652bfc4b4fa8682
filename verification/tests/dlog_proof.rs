use ecdsa_mpc::bigint::BigInt;
use ecdsa_mpc::dlog_proof::{DlogProof, DIGEST_BIT_LENGTH, ING_TSS_DLOG};
use ecdsa_mpc::hashing::HSha512Trunc256;

fn n(x: u64) -> BigInt {
    BigInt::from_u64(x)
}

/// A statement `V = g^s mod N` modulo the product of the safe primes 1019
/// and 1187.
fn statement() -> (BigInt, BigInt, BigInt, BigInt) {
    let modulus = n(1019 * 1187);
    let g = n(4);
    let s = n(123_456);
    let v = BigInt::mod_pow(&g, &s, &modulus);
    (modulus, g, v, s)
}

#[test]
fn dlog_constants() {
    assert_eq!(DIGEST_BIT_LENGTH, 256);
    assert_eq!(ING_TSS_DLOG, "ING TS dlog proof sub-protocol v1.0");
}

#[test]
fn honest_proofs_verify() {
    let (modulus, g, v, s) = statement();
    for _ in 0..20 {
        let proof = DlogProof::create(&modulus, &g, &v, &s, 17, 128);
        assert!(proof.verify(&modulus, &g, &v));
        assert!(!proof.c.is_negative());
        assert!(proof.c.to_bytes().len() <= 32);
    }
}

#[test]
fn challenge_is_the_hash_of_the_transcript() {
    let (modulus, g, v, s) = statement();
    let r = n(987_654_321);
    let x = BigInt::mod_pow(&g, &r, &modulus);
    let salt = BigInt::from_bytes(ING_TSS_DLOG.as_bytes());
    let c = HSha512Trunc256::create_hash(&[&salt, &modulus, &g, &v, &x]);
    let proof = DlogProof::create_from(&modulus, &g, &v, &s, r.clone());
    assert!(proof.c.eq(&c));
    assert!(proof.y.eq(&r.sub(&c.mul(&s))));
    assert!(proof.verify(&modulus, &g, &v));
}

#[test]
fn small_randomness_gives_a_negative_answer_that_still_verifies() {
    let (modulus, g, v, s) = statement();
    let proof = DlogProof::create_from(&modulus, &g, &v, &s, n(5));
    assert!(proof.y.is_negative());
    assert!(proof.verify(&modulus, &g, &v));
}

#[test]
fn negative_answer_needs_an_invertible_base() {
    // 1019 divides the base: it has no inverse modulo the modulus.
    let modulus = n(1019 * 1187);
    let g = n(1019 * 2);
    let s = n(77);
    let v = BigInt::mod_pow(&g, &s, &modulus);
    let proof = DlogProof::create_from(&modulus, &g, &v, &s, n(5));
    assert!(proof.y.is_negative());
    assert!(!proof.verify(&modulus, &g, &v));
}

#[test]
fn tampered_proofs_are_rejected() {
    let (modulus, g, v, s) = statement();
    let proof = DlogProof::create(&modulus, &g, &v, &s, 17, 128);
    let one = n(1);
    let wrong_y = DlogProof { y: proof.y.add(&one), c: proof.c.clone() };
    assert!(!wrong_y.verify(&modulus, &g, &v));
    let wrong_c = DlogProof { y: proof.y.clone(), c: proof.c.add(&one) };
    assert!(!wrong_c.verify(&modulus, &g, &v));
    let negative_c = DlogProof { y: proof.y.clone(), c: proof.c.neg() };
    assert!(!negative_c.verify(&modulus, &g, &v));
}

#[test]
fn proofs_are_bound_to_their_statement() {
    let (modulus, g, v, s) = statement();
    let proof = DlogProof::create(&modulus, &g, &v, &s, 17, 128);
    assert!(!proof.verify(&modulus, &g, &v.add(&n(1))));
    assert!(!proof.verify(&modulus, &g.add(&n(1)), &v));
    assert!(!proof.verify(&modulus.add(&n(2)), &g, &v));
}

#[test]
fn proof_for_a_wrong_secret_is_rejected() {
    let (modulus, g, v, s) = statement();
    let proof = DlogProof::create(&modulus, &g, &v, &s.add(&n(1)), 17, 128);
    assert!(!proof.verify(&modulus, &g, &v));
}

#[test]
fn zero_modulus_is_rejected() {
    let (modulus, g, v, s) = statement();
    let proof = DlogProof::create(&modulus, &g, &v, &s, 17, 128);
    assert!(!proof.verify(&n(0), &g, &v));
}

#[test]
fn clone_keeps_the_proof() {
    let (modulus, g, v, s) = statement();
    let proof = DlogProof::create(&modulus, &g, &v, &s, 17, 128);
    let copy = proof.clone();
    assert!(copy.y.eq(&proof.y) && copy.c.eq(&proof.c));
    assert!(copy.verify(&modulus, &g, &v));
}

#[test]
fn public_setup_is_verified_by_its_proof() {
    let modulus = n(1019 * 1187);
    let h1 = n(9);
    let x = n(31_337);
    let h2 = BigInt::mod_pow(&h1, &x, &modulus);
    let discrete_log_proof = DlogProof::create(&modulus, &h1, &h2, &x, 20, 128);
    let setup = ecdsa_mpc::zk_range_proofs::ZkpPublicSetup {
        N_tilde: modulus,
        h1,
        h2: h2.clone(),
        discrete_log_proof,
    };
    assert!(setup.verify());
    let forged = ecdsa_mpc::zk_range_proofs::ZkpPublicSetup {
        h2: h2.add(&n(1)),
        ..setup.clone()
    };
    assert!(!forged.verify());
}

#[test]
fn challenge_of_a_small_statement_fits_in_256_bits() {
    let proof = DlogProof::create(&n(15), &n(2), &n(8), &n(3), 2, 8);
    assert!(proof.c.lt(&n(2).pow(256)));
    assert!(!proof.c.is_negative());
    assert!(proof.verify(&n(15), &n(2), &n(8)));
}
