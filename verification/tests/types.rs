use ecdsa_mpc::bigint::BigInt;
use ecdsa_mpc::curve::{Point, Scalar};
use ecdsa_mpc::error::{KeygenError, ParameterFault};
use ecdsa_mpc::hashing::HSha512Trunc256;
use ecdsa_mpc::paillier::PaillierKeys;
use ecdsa_mpc::protocol::PartyIndex;
use ecdsa_mpc::types::{
    insert_party, CommitmentScheme, InitialKeys, InitialPublicKeys, Parameters, Signature,
    SigningParameters,
};

fn hex(s: &str) -> Vec<u8> {
    (0..s.len()).step_by(2).map(|i| u8::from_str_radix(&s[i..i + 2], 16).unwrap()).collect()
}

fn scalar_hex(s: &str) -> Scalar {
    Scalar::from_bigint(&BigInt::from_bytes(&hex(s)))
}

fn fault(r: Result<Parameters, KeygenError>) -> ParameterFault {
    match r {
        Err(KeygenError::IncorrectParameters(f)) => f,
        _ => panic!("expected the parameters to be refused"),
    }
}

#[test]
fn parameters_of_two_out_of_three() {
    let p = Parameters::new(2, 3).expect("2 of 3 is valid");
    assert_eq!(p.threshold(), 1);
    assert_eq!(p.share_count(), 3);
    assert_eq!(p.signers(), 2);
}

#[test]
fn parameters_at_the_edges() {
    let p = Parameters::new(2, 2).expect("2 of 2 is valid");
    assert_eq!((p.threshold(), p.share_count(), p.signers()), (1, 2, 2));
    let p = Parameters::new(u16::MAX, u16::MAX).expect("all of all is valid");
    assert_eq!(p.threshold(), u16::MAX - 1);
    assert_eq!(p.signers(), u16::MAX);
    let p = Parameters::new(20, 20).expect("20 of 20 is valid");
    assert_eq!(p.signers(), 20);
}

#[test]
fn parameters_refuse_one_signer() {
    for n in [2u16, 3, 20] {
        assert_eq!(fault(Parameters::new(1, n)), ParameterFault::TooFewSigners { min_signers: 1 });
    }
    assert_eq!(fault(Parameters::new(0, 5)), ParameterFault::TooFewSigners { min_signers: 0 });
}

#[test]
fn parameters_refuse_more_signers_than_shares() {
    for n in [2u16, 3, 20] {
        assert_eq!(
            fault(Parameters::new(n + 1, n)),
            ParameterFault::TooManySigners { min_signers: n + 1, share_count: n }
        );
    }
}

#[test]
fn parameters_refuse_one_share() {
    for t in [0u16, 1, 2, 7] {
        assert_eq!(fault(Parameters::new(t, 1)), ParameterFault::TooFewShares { share_count: 1 });
    }
    assert_eq!(fault(Parameters::new(0, 0)), ParameterFault::TooFewShares { share_count: 0 });
}

#[test]
fn parameters_accept_every_valid_pair_up_to_twenty() {
    for n in 0..=21u16 {
        for signers in 0..=22u16 {
            let valid = 2 <= signers && signers <= n;
            match Parameters::new(signers, n) {
                Ok(p) => {
                    assert!(valid);
                    assert_eq!(p.threshold() + 1, signers);
                    assert_eq!(p.share_count(), n);
                }
                Err(e) => {
                    assert!(!valid);
                    assert!(matches!(e, KeygenError::IncorrectParameters(_)));
                }
            }
        }
    }
}

#[test]
fn signing_parties_are_a_set() {
    let params = Parameters::new(2, 3).unwrap();
    let sp = SigningParameters::new(params, &[PartyIndex(3), PartyIndex(1)], Scalar::from_u16(9));
    assert_eq!(sp.signing_party_count(), 2);
    assert_eq!(sp.signing_parties(), &vec![PartyIndex(1), PartyIndex(3)]);
    assert_eq!(sp.keygen_params().signers(), 2);
    assert!(sp.message_hash().eq(&Scalar::from_u16(9)));
    let parties = [PartyIndex(5), PartyIndex(1), PartyIndex(5), PartyIndex(3), PartyIndex(1)];
    let sp = SigningParameters::new(params, &parties, Scalar::from_u16(9));
    assert_eq!(sp.signing_party_count(), 3);
    assert_eq!(sp.signing_parties(), &vec![PartyIndex(1), PartyIndex(3), PartyIndex(5)]);
    let sp = SigningParameters::new(params, &[], Scalar::from_u16(9));
    assert_eq!(sp.signing_party_count(), 0);
    assert!(sp.signing_parties().is_empty());
}

#[test]
fn parties_are_inserted_at_their_place() {
    let mut set = vec![PartyIndex(2), PartyIndex(4)];
    insert_party(&mut set, PartyIndex(3));
    assert_eq!(set, vec![PartyIndex(2), PartyIndex(3), PartyIndex(4)]);
    insert_party(&mut set, PartyIndex(1));
    insert_party(&mut set, PartyIndex(9));
    assert_eq!(set.iter().map(|p| p.0).collect::<Vec<_>>(), vec![1, 2, 3, 4, 9]);
    insert_party(&mut set, PartyIndex(4));
    insert_party(&mut set, PartyIndex(1));
    insert_party(&mut set, PartyIndex(9));
    assert_eq!(set.iter().map(|p| p.0).collect::<Vec<_>>(), vec![1, 2, 3, 4, 9]);
    let mut empty = Vec::new();
    insert_party(&mut empty, PartyIndex(7));
    assert_eq!(empty, vec![PartyIndex(7)]);
}

#[test]
fn initial_public_keys_drop_the_secrets() {
    let u_i = Scalar::from_u16(77);
    let keys = InitialKeys {
        y_i: Point::generator().mul(&u_i),
        u_i,
        paillier_keys: PaillierKeys::from_primes(BigInt::from_u64(11), BigInt::from_u64(13)),
    };
    let public = InitialPublicKeys::from(&keys);
    assert_eq!(public.y_i, keys.y_i);
    assert!(public.paillier_encryption_key.n.eq(&BigInt::from_u64(143)));
    assert!(public.paillier_encryption_key.nn.eq(&BigInt::from_u64(143 * 143)));
}

/// A signature on SHA-256("hello") under the key
/// 1e99423a4ed27608a15a2616a2b0e9e52ced330ac530edcc32c8ffc6a526aedd.
fn signed_hello() -> (Point, Scalar, Signature) {
    let pubkey = Point::from_bytes(&hex(
        "03f028892bad7ed57d2fb57bf33081d5cfcf6f9ed3d3d7f159c2e2fff579dc341a",
    ))
    .expect("the public key is a point");
    let message = scalar_hex("2cf24dba5fb0a30e26e83b2ac5b9e29e1b161e5c1fa7425e73043362938b9824");
    let signature = Signature {
        r: scalar_hex("d47ce4c025c35ec440bc81d99834a624875161a26bf56ef7fdc0f5d52f843ad1"),
        s: scalar_hex("2f63f503d5211df7e94438993c8d9334450fa7951c7a1e89456107bb89cc0e7f"),
    };
    (pubkey, message, signature)
}

#[test]
fn signature_of_a_known_key_verifies() {
    let (pubkey, message, signature) = signed_hello();
    assert!(signature.verify(&pubkey, &message));
}

#[test]
fn signature_is_bound_to_message_and_key() {
    let (pubkey, message, signature) = signed_hello();
    assert!(!signature.verify(&pubkey, &message.add(&Scalar::from_u16(1))));
    assert!(!signature.verify(&Point::generator(), &message));
    let wrong_r = Signature { r: signature.r.add(&Scalar::from_u16(1)), s: signature.s.clone() };
    assert!(!wrong_r.verify(&pubkey, &message));
    let wrong_s = Signature { r: signature.r.clone(), s: signature.s.add(&Scalar::from_u16(1)) };
    assert!(!wrong_s.verify(&pubkey, &message));
}

#[test]
fn signature_with_a_zero_is_rejected() {
    let (pubkey, message, signature) = signed_hello();
    let zero_r = Signature { r: Scalar::zero(), s: signature.s.clone() };
    assert!(!zero_r.verify(&pubkey, &message));
    let zero_s = Signature { r: signature.r.clone(), s: Scalar::zero() };
    assert!(!zero_s.verify(&pubkey, &message));
}

#[test]
fn signature_that_leads_to_the_neutral_element_is_rejected() {
    // With the public key -G and r = m the two multiples cancel.
    let g = Point::generator();
    let minus_one = Scalar::from_bigint(&BigInt::one().neg());
    let pubkey = g.mul(&minus_one);
    let m = Scalar::from_u16(5);
    let signature = Signature { r: m.clone(), s: Scalar::from_u16(3) };
    assert!(!signature.verify(&pubkey, &m));
}

#[test]
fn fresh_signatures_verify() {
    let g = Point::generator();
    for i in 0..5u16 {
        let x = Scalar::random();
        let pubkey = g.mul(&x);
        let m = Scalar::from_bigint(&BigInt::sample(256));
        let k = Scalar::random();
        let r = Scalar::from_bigint(&g.mul(&k).x_coord().expect("k is not zero"));
        let s = k.invert().expect("k is not zero").mul(&m.add(&r.mul(&x)));
        if r.is_zero() || s.is_zero() {
            continue;
        }
        let signature = Signature { r, s };
        assert!(signature.verify(&pubkey, &m));
        assert!(!signature.verify(&pubkey, &m.add(&Scalar::from_u16(i + 1))));
    }
}

#[test]
fn commitment_is_the_hash_of_message_and_blinding_factor() {
    // SHA-512/256 of 00 00 00 00 00 00 00 01 01 00 00 00 00 00 00 00 01 02.
    let scheme = CommitmentScheme {
        comm: BigInt::from_bytes(&hex(
            "d5e4168d12816f1954b2c9f9bde396d87013029cffccb6fe484574dcb3e343d3",
        )),
        decomm: BigInt::from_u64(2),
    };
    assert!(scheme.verify_hash(&BigInt::from_u64(1)));
    assert!(!scheme.verify_hash(&BigInt::from_u64(2)));
    // The message 0f 42 40 and the blinding factor ff ff, each after its length.
    let scheme = CommitmentScheme {
        comm: BigInt::from_bytes(&hex(
            "809c013b6e1f60dc9bfd038e33014f571762b7235112b8030c13d81f4c19a7d4",
        )),
        decomm: BigInt::from_u64(0xffff),
    };
    assert!(scheme.verify_hash(&BigInt::from_u64(1_000_000)));
    // Zero has the empty encoding.
    let scheme = CommitmentScheme {
        comm: BigInt::from_bytes(&hex(
            "d48f63344471c0f3690896b2980ee29f56501099b7d4a20ffafe2c0f5afbea49",
        )),
        decomm: BigInt::from_u64(5),
    };
    assert!(scheme.verify_hash(&BigInt::zero()));
}

#[test]
fn commitment_is_the_hash_of_the_library() {
    let message = BigInt::from_u64(123_456_789);
    let scheme = CommitmentScheme::from_BigInt(&message);
    let hash = HSha512Trunc256::create_hash(&[&message, &scheme.decomm]);
    assert!(scheme.comm.eq(&hash));
    // The order of message and blinding factor matters.
    let swapped = HSha512Trunc256::create_hash(&[&scheme.decomm, &message]);
    assert!(!scheme.comm.eq(&swapped));
}

#[test]
fn commitment_to_a_number_opens_to_it_alone() {
    let message = BigInt::from_u64(123_456_789);
    let scheme = CommitmentScheme::from_BigInt(&message);
    assert!(scheme.verify_hash(&message));
    assert!(!scheme.verify_hash(&message.add(&BigInt::one())));
    assert!(scheme.decomm.to_bytes().len() <= 32);
    let tampered = CommitmentScheme {
        comm: scheme.comm.clone(),
        decomm: scheme.decomm.add(&BigInt::one()),
    };
    assert!(!tampered.verify_hash(&message));
    let other = CommitmentScheme::from_BigInt(&message);
    assert!(!other.decomm.eq(&scheme.decomm));
    assert!(!other.comm.eq(&scheme.comm));
}

#[test]
fn commitment_to_a_point_opens_to_it_alone() {
    let g = Point::generator();
    let scheme = CommitmentScheme::from_GE(&g);
    assert!(scheme.verify_commitment(&g));
    assert!(!scheme.verify_commitment(&g.add(&g)));
    // A point is committed to by the number of its compressed encoding.
    assert!(scheme.verify_hash(&BigInt::from_bytes(&g.to_bytes(true))));
}
