//! Key pairs of the Paillier encryption scheme.

use crate::arithmetic::has_inverse_mod;
use crate::bigint::BigInt;
use crate::error::KeygenError;
use crate::utils::MAX_ITERATIONS_IN_REJECTION_SAMPLING;
use curv::arithmetic::Converter;
use kzen_paillier::{Decrypt, KeyGeneration};
use vstd::arithmetic::power::pow;
use vstd::prelude::*;

verus! {

/// Recommended bit length of each prime of a Paillier modulus.
pub const PRIME_BIT_LENGTH_IN_PAILLIER_SCHEMA: usize = 1024;

/// Bit length of the order of the groups that range proofs work in.
pub const DEFAULT_GROUP_ORDER_BIT_LENGTH: usize = 2048;

/// Bit length of each safe prime of such a group's modulus.
pub const DEFAULT_SAFE_PRIME_BIT_LENGTH: usize = DEFAULT_GROUP_ORDER_BIT_LENGTH / 2;

/// The public key: the modulus and its square.
#[derive(Debug)]
pub struct EncryptionKey {
    pub n: BigInt,
    pub nn: BigInt,
}

/// The private key: the two primes of the modulus.
#[derive(Debug)]
pub struct DecryptionKey {
    pub p: BigInt,
    pub q: BigInt,
}

impl Clone for EncryptionKey {
    fn clone(&self) -> (r: Self)
        ensures
            r.n@ == self.n@,
            r.nn@ == self.nn@,
    {
        EncryptionKey { n: self.n.clone(), nn: self.nn.clone() }
    }
}

impl Clone for DecryptionKey {
    fn clone(&self) -> (r: Self)
        ensures
            r.p@ == self.p@,
            r.q@ == self.q@,
    {
        DecryptionKey { p: self.p.clone(), q: self.q.clone() }
    }
}

/// The plaintext that `paillier` decrypts `c` to under the primes `p` and
/// `q`.
pub uninterp spec fn paillier_plaintext(p: int, q: int, c: int) -> int;

/// The primes with which decryption is defined: both at least 2, and each
/// with an inverse modulo the other.
pub open spec fn usable_primes(p: int, q: int) -> bool {
    &&& p >= 2
    &&& q >= 2
    &&& has_inverse_mod(p, q)
    &&& has_inverse_mod(q, p)
}

/// Two different primes are primes with which decryption is defined.
pub proof fn lemma_distinct_primes_usable(p: int, q: int)
    requires
        crate::number_theory::is_prime(p),
        crate::number_theory::is_prime(q),
        p != q,
    ensures
        usable_primes(p, q),
{
    crate::number_theory::lemma_distinct_primes_invertible(p, q);
}

/// `kzen_paillier::is_prime`: trial division, then a Fermat and a Miller-Rabin
/// test on random bases. Nothing is known of the answer.
#[verifier::external_body]
fn probably_prime(candidate: &BigInt) -> (r: bool)
    requires
        candidate@ >= 2,
{
    kzen_paillier::is_prime(&curv::BigInt::from_bytes(&candidate.magnitude))
}

/// `KeyGeneration::keypair_with_modulus_size` of `kzen_paillier::Paillier`: two
/// random probable primes. Each is drawn with half the bit length and its
/// highest bit set, and only grows from there; no more is known of the
/// outcome.
#[verifier::external_body]
fn sample_primes(bit_length: usize) -> (r: (BigInt, BigInt))
    requires
        bit_length >= 64,
    ensures
        !r.0.negative,
        !r.1.negative,
        r.0@ >= pow(2, (bit_length / 2 - 1) as nat),
        r.1@ >= pow(2, (bit_length / 2 - 1) as nat),
{
    let pair = kzen_paillier::Paillier::keypair_with_modulus_size(bit_length);
    (
        BigInt { negative: false, magnitude: pair.p.to_bytes() },
        BigInt { negative: false, magnitude: pair.q.to_bytes() },
    )
}

/// `Decrypt::decrypt` of `kzen_paillier::Paillier` with a decryption key and a
/// raw ciphertext. It divides by the primes and inverts each modulo the
/// other, so the primes have to be `usable_primes`.
#[verifier::external_body]
fn raw_decrypt(p: &BigInt, q: &BigInt, c: &BigInt) -> (r: BigInt)
    requires
        usable_primes(p@, q@),
        c@ >= 0,
    ensures
        r@ == paillier_plaintext(p@, q@, c@),
{
    let dk = kzen_paillier::DecryptionKey {
        p: curv::BigInt::from_bytes(&p.magnitude),
        q: curv::BigInt::from_bytes(&q.magnitude),
    };
    let c = curv::BigInt::from_bytes(&c.magnitude);
    let m = kzen_paillier::Paillier::decrypt(&dk, kzen_paillier::RawCiphertext::from(c));
    BigInt { negative: false, magnitude: m.0.to_bytes() }
}

/// The numbers of a key pair fit together: the modulus is the product of
/// the primes, and `nn` is its square.
pub open spec fn keys_fit(n: int, nn: int, p: int, q: int) -> bool {
    n == p * q && nn == n * n
}

/// The primes of a key have `PRIME_BIT_LENGTH_IN_PAILLIER_SCHEMA` bits or
/// more, and the modulus twice as many.
pub open spec fn key_sizes(n: int, p: int, q: int) -> bool {
    &&& p >= pow(2, (PRIME_BIT_LENGTH_IN_PAILLIER_SCHEMA - 1) as nat)
    &&& q >= pow(2, (PRIME_BIT_LENGTH_IN_PAILLIER_SCHEMA - 1) as nat)
    &&& n >= pow(2, (2 * PRIME_BIT_LENGTH_IN_PAILLIER_SCHEMA - 1) as nat)
}

/// The modulus `p * q` is coprime to `(p - 1) * (q - 1)`: it has an inverse
/// modulo that number.
pub open spec fn totient_coprime(p: int, q: int) -> bool {
    has_inverse_mod(p * q, (p - 1) * (q - 1))
}

/// What holds of a key pair that `PaillierKeys::random` hands out: the
/// public key fits the primes, all have their full size, decryption is
/// defined, and the modulus is coprime to `(p - 1)(q - 1)`.
pub open spec fn is_drawn_key(n: int, nn: int, p: int, q: int) -> bool {
    &&& keys_fit(n, nn, p, q)
    &&& key_sizes(n, p, q)
    &&& usable_primes(p, q)
    &&& totient_coprime(p, q)
}

/// Public and private key for the additively homomorphic encryption scheme.
#[derive(Debug)]
pub struct PaillierKeys {
    pub dk: DecryptionKey,
    pub ek: EncryptionKey,
}

impl Clone for PaillierKeys {
    fn clone(&self) -> (r: Self)
        ensures
            r.dk.p@ == self.dk.p@,
            r.dk.q@ == self.dk.q@,
            r.ek.n@ == self.ek.n@,
            r.ek.nn@ == self.ek.nn@,
    {
        PaillierKeys { dk: self.dk.clone(), ek: self.ek.clone() }
    }
}

impl PaillierKeys {
    /// The key pair of which every number is zero.
    pub fn zero() -> (r: PaillierKeys)
        ensures
            r.dk.p@ == 0,
            r.dk.q@ == 0,
            r.ek.n@ == 0,
            r.ek.nn@ == 0,
    {
        PaillierKeys {
            dk: DecryptionKey { p: BigInt::zero(), q: BigInt::zero() },
            ek: EncryptionKey { n: BigInt::zero(), nn: BigInt::zero() },
        }
    }

    /// A new key pair with primes of `PRIME_BIT_LENGTH_IN_PAILLIER_SCHEMA`
    /// bits: primes are drawn until a pair makes a key that `from_drawn`
    /// takes.
    ///
    /// It gives up with `InternalInvariant` when none of
    /// `MAX_ITERATIONS_IN_REJECTION_SAMPLING` pairs is taken.
    pub fn random() -> (r: Result<PaillierKeys, KeygenError>)
        ensures
            r matches Ok(keys) ==> is_drawn_key(keys.ek.n@, keys.ek.nn@, keys.dk.p@, keys.dk.q@),
            r matches Err(e) ==> e is InternalInvariant,
    {
        let mut round: usize = 0;
        while round < MAX_ITERATIONS_IN_REJECTION_SAMPLING
            decreases MAX_ITERATIONS_IN_REJECTION_SAMPLING - round,
        {
            let (p, q) = sample_primes(2 * PRIME_BIT_LENGTH_IN_PAILLIER_SCHEMA);
            match PaillierKeys::from_drawn(p, q) {
                Some(keys) => {
                    return Ok(keys);
                },
                None => {},
            }
            round = round + 1;
        }
        Err(KeygenError::InternalInvariant)
    }

    /// Decides on a drawn pair of primes: the pair is taken, and its key
    /// pair returned, if the primes and the modulus have their full size,
    /// decryption is defined with the primes, and the modulus is coprime to
    /// `(p - 1)(q - 1)`.
    pub fn from_drawn(p: BigInt, q: BigInt) -> (r: Option<PaillierKeys>)
        ensures
            r is Some <==> key_sizes(p@ * q@, p@, q@) && usable_primes(p@, q@) && totient_coprime(
                p@,
                q@,
            ),
            r matches Some(keys) ==> keys.dk.p@ == p@ && keys.dk.q@ == q@ && is_drawn_key(
                keys.ek.n@,
                keys.ek.nn@,
                p@,
                q@,
            ),
    {
        let keys = PaillierKeys::from_primes(p, q);
        if !PaillierKeys::has_full_size(&keys.ek, &keys.dk) || !keys.has_usable_primes() {
            return None;
        }
        let one = BigInt::one();
        let totient = keys.dk.p.sub(&one).mul(&keys.dk.q.sub(&one));
        proof {
            assert((keys.dk.p@ - 1) * (keys.dk.q@ - 1) > 0) by (nonlinear_arith)
                requires
                    keys.dk.p@ >= 2,
                    keys.dk.q@ >= 2,
            ;
        }
        if BigInt::is_invertible(&keys.ek.n, &totient) {
            Some(keys)
        } else {
            None
        }
    }

    /// Whether the primes and the modulus of a key have their full size.
    pub fn has_full_size(ek: &EncryptionKey, dk: &DecryptionKey) -> (r: bool)
        ensures
            r == key_sizes(ek.n@, dk.p@, dk.q@),
    {
        let two = BigInt::from_u64(2);
        let prime_bound = two.pow((PRIME_BIT_LENGTH_IN_PAILLIER_SCHEMA - 1) as u32);
        let modulus_bound = two.pow((2 * PRIME_BIT_LENGTH_IN_PAILLIER_SCHEMA - 1) as u32);
        !dk.p.lt(&prime_bound) && !dk.q.lt(&prime_bound) && !ek.n.lt(&modulus_bound)
    }

    /// The key pair of two given primes.
    pub fn from_primes(p: BigInt, q: BigInt) -> (r: PaillierKeys)
        ensures
            r.dk.p@ == p@,
            r.dk.q@ == q@,
            keys_fit(r.ek.n@, r.ek.nn@, p@, q@),
    {
        let n = p.mul(&q);
        let nn = n.mul(&n);
        PaillierKeys { dk: DecryptionKey { p, q }, ek: EncryptionKey { n, nn } }
    }

    /// Whether decryption is defined with the primes of this key pair.
    pub fn has_usable_primes(&self) -> (r: bool)
        ensures
            r == usable_primes(self.dk.p@, self.dk.q@),
    {
        let two = BigInt::from_u64(2);
        if self.dk.p.lt(&two) || self.dk.q.lt(&two) {
            return false;
        }
        BigInt::is_invertible(&self.dk.p, &self.dk.q) && BigInt::is_invertible(
            &self.dk.q,
            &self.dk.p,
        )
    }

    /// Decrypts the ciphertext `c`.
    pub fn decrypt(&self, c: BigInt) -> (r: BigInt)
        requires
            usable_primes(self.dk.p@, self.dk.q@),
            c@ >= 0,
        ensures
            r@ == paillier_plaintext(self.dk.p@, self.dk.q@, c@),
    {
        let p = self.dk.p.abs();
        let q = self.dk.q.abs();
        raw_decrypt(&p, &q, &c)
    }

    /// What `is_valid` answers once the two primality tests have answered:
    /// both primes passed, the public key fits them, and the primes and the
    /// modulus have their full size.
    pub fn is_valid_with(
        ek: &EncryptionKey,
        dk: &DecryptionKey,
        p_passed: bool,
        q_passed: bool,
    ) -> (r: bool)
        ensures
            r == (p_passed && q_passed && keys_fit(ek.n@, ek.nn@, dk.p@, dk.q@) && key_sizes(
                ek.n@,
                dk.p@,
                dk.q@,
            )),
    {
        p_passed && q_passed && ek.n.eq(&dk.p.mul(&dk.q)) && ek.nn.eq(&ek.n.mul(&ek.n))
            && PaillierKeys::has_full_size(ek, dk)
    }

    /// Tests one prime of a key: numbers below 2 fail, the others are handed
    /// to the probabilistic test.
    fn passes_prime_test(candidate: &BigInt) -> (r: bool)
        ensures
            r ==> candidate@ >= 2,
    {
        if candidate.lt(&BigInt::from_u64(2)) {
            false
        } else {
            probably_prime(&candidate.abs())
        }
    }

    /// Checks whether a key pair is valid and consistent: both primes pass a
    /// probabilistic primality test, the modulus is their product and `nn`
    /// its square, the primes have `PRIME_BIT_LENGTH_IN_PAILLIER_SCHEMA` bits
    /// or more and the modulus twice as many.
    pub fn is_valid(ek: &EncryptionKey, dk: &DecryptionKey) -> (r: bool)
        ensures
            r ==> keys_fit(ek.n@, ek.nn@, dk.p@, dk.q@) && key_sizes(ek.n@, dk.p@, dk.q@),
            !keys_fit(ek.n@, ek.nn@, dk.p@, dk.q@) ==> !r,
            !key_sizes(ek.n@, dk.p@, dk.q@) ==> !r,
    {
        let p_passed = PaillierKeys::passes_prime_test(&dk.p);
        let q_passed = p_passed && PaillierKeys::passes_prime_test(&dk.q);
        PaillierKeys::is_valid_with(ek, dk, p_passed, q_passed)
    }

    /// Overwrites all four numbers with zeros.
    pub fn zeroize(&mut self)
        ensures
            final(self).dk.p@ == 0,
            final(self).dk.q@ == 0,
            final(self).ek.n@ == 0,
            final(self).ek.nn@ == 0,
        opens_invariants none
        no_unwind
    {
        self.dk.p.zeroize();
        self.dk.q.zeroize();
        self.ek.n.zeroize();
        self.ek.nn.zeroize();
    }
}

impl Drop for PaillierKeys {
    fn drop(&mut self)
        opens_invariants none
        no_unwind
    {
        self.zeroize();
    }
}

/// A decryption key on the heap that is wiped when it is given up.
pub struct ManagedPaillierDecryptionKey(pub Box<DecryptionKey>);

impl ManagedPaillierDecryptionKey {
    /// Overwrites the two primes with zeros.
    pub fn zeroize(&mut self)
        ensures
            final(self).0.p@ == 0,
            final(self).0.q@ == 0,
        opens_invariants none
        no_unwind
    {
        self.0.p.zeroize();
        self.0.q.zeroize();
    }
}

impl Drop for ManagedPaillierDecryptionKey {
    fn drop(&mut self)
        opens_invariants none
        no_unwind
    {
        self.zeroize();
    }
}

} // verus!
