//! Proof of knowledge of a discrete logarithm in a group of unknown order.
//!
//! The scheme is the one of "Composite discrete logarithm and secure
//! authentication" (D. Pointcheval), section 3.2: for a secret `s` with
//! `V = g^s mod N` the prover draws `r`, hashes `x = g^r mod N` into the
//! challenge `c` and answers `y = r - c * s`, over the integers.

use crate::arithmetic::{
    be_nat, has_inverse_mod, inverse_mod, is_inverse_mod, lemma_inverse_unique,
};
use crate::bigint::{abs_int, BigInt};
use crate::hashing::{hash_of, HSha512Trunc256};
use crate::utils::int_views;
use vstd::arithmetic::div_mod::{lemma_mul_mod_noop, lemma_small_mod};
use vstd::arithmetic::power::{
    lemma1_pow, lemma_pow_adds, lemma_pow_distributes, lemma_pow_mod_noop, lemma_pow_multiplies,
    pow,
};
use vstd::prelude::*;
use vstd::string::StringSliceAdditionalSpecFns;

verus! {

/// Length of the challenge in bits.
pub const DIGEST_BIT_LENGTH: u32 = 256;

/// Domain separation of this proof's challenges.
pub const ING_TSS_DLOG: &'static str = "ING TS dlog proof sub-protocol v1.0";

/// The salt as a number: the bytes of `ING_TSS_DLOG`, big-endian.
pub open spec fn dlog_salt() -> int {
    be_nat(ING_TSS_DLOG.spec_bytes()) as int
}

/// The challenge that belongs to the statement `(n, g, v)` and the
/// commitment `x`.
pub open spec fn dlog_challenge(n: int, g: int, v: int, x: int) -> int {
    hash_of(seq![dlog_salt(), n, g, v, x])
}

/// `g` raised to `y` modulo `m`, also for a negative `y` where `g` has an
/// inverse.
pub open spec fn signed_pow_mod(g: int, y: int, m: int) -> Option<int> {
    if y >= 0 {
        Some(pow(g, y as nat) % m)
    } else if has_inverse_mod(g, m) {
        Some(pow(inverse_mod(g, m), (-y) as nat) % m)
    } else {
        None
    }
}

/// The commitment that the verifier computes back from a proof `(y, c)`:
/// `g^y * v^c mod |n|`. There is none for a zero modulus, a negative `c`, or
/// a negative `y` with a `g` that has no inverse.
pub open spec fn dlog_recomputed(y: int, c: int, n: int, g: int, v: int) -> Option<int> {
    let m = abs_int(n);
    if n == 0 || c < 0 {
        None
    } else {
        match signed_pow_mod(g, y, m) {
            Some(gy) => Some((gy * (pow(v, c as nat) % m)) % m),
            None => None,
        }
    }
}

/// The verifier accepts `(y, c)` for the statement `(n, g, v)`: the
/// commitment can be computed back and hashes to `c`.
pub open spec fn dlog_accepts(y: int, c: int, n: int, g: int, v: int) -> bool {
    match dlog_recomputed(y, c, n, g, v) {
        Some(x) => c == dlog_challenge(n, g, v, x),
        None => false,
    }
}

/// The proof that the prover computes from the random `r`.
pub open spec fn is_dlog_proof_from(y: int, c: int, n: int, g: int, v: int, s: int, r: int) -> bool {
    &&& c == dlog_challenge(n, g, v, pow(g, r as nat) % abs_int(n))
    &&& y == r - c * s
}

/// A proof of knowledge of the discrete logarithm of `V` to the base `g`
/// modulo `N`.
#[derive(Debug)]
pub struct DlogProof {
    pub y: BigInt,
    pub c: BigInt,
}

impl Clone for DlogProof {
    fn clone(&self) -> (r: Self)
        ensures
            r.y@ == self.y@,
            r.c@ == self.c@,
    {
        DlogProof { y: self.y.clone(), c: self.c.clone() }
    }
}

impl DlogProof {
    /// Computes the proof for the secret `s` from the random `r`, and wipes
    /// `r`.
    pub fn create_from(N: &BigInt, g: &BigInt, V: &BigInt, s: &BigInt, r: BigInt) -> (proof:
        DlogProof)
        requires
            N@ != 0,
            r@ >= 0,
        ensures
            is_dlog_proof_from(proof.y@, proof.c@, N@, g@, V@, s@, r@),
            0 <= proof.c@ < pow(256, 32),
    {
        let mut r = r;
        let x = BigInt::mod_pow(g, &r, N);
        let salt = BigInt::from_bytes(ING_TSS_DLOG.as_bytes());
        let inputs = [&salt, N, g, V, &x];
        assert(int_views(inputs@) =~= seq![dlog_salt(), N@, g@, V@, x@]);
        let c = HSha512Trunc256::create_hash(inputs.as_slice());
        let y = r.sub(&c.mul(s));
        r.zeroize();
        DlogProof { y, c }
    }

    /// Proves knowledge of `s` with `V = g^s mod N`.
    ///
    /// The random `r` is drawn below `2^(max_secret_length + 256 +
    /// security_param)`, from where it hides `c * s`.
    pub fn create(
        N: &BigInt,
        g: &BigInt,
        V: &BigInt,
        s: &BigInt,
        max_secret_length: u32,
        security_param: u32,
    ) -> (proof: DlogProof)
        requires
            N@ != 0,
            max_secret_length + DIGEST_BIT_LENGTH + security_param <= u32::MAX,
        ensures
            exists|r: int|
                0 <= r < pow(2, (max_secret_length + DIGEST_BIT_LENGTH + security_param) as nat)
                    && #[trigger] is_dlog_proof_from(proof.y@, proof.c@, N@, g@, V@, s@, r),
            0 <= proof.c@ < pow(256, 32),
    {
        let log_r: u32 = max_secret_length + DIGEST_BIT_LENGTH + security_param;
        let R = BigInt::from_u64(2).pow(log_r);
        proof {
            vstd::arithmetic::power::lemma_pow_positive(2, log_r as nat);
        }
        let r = BigInt::sample_below(&R);
        let ghost drawn = r@;
        let proof = DlogProof::create_from(N, g, V, s, r);
        assert(is_dlog_proof_from(proof.y@, proof.c@, N@, g@, V@, s@, drawn));
        proof
    }

    /// Verifies the proof against the statement `V = g^s mod N`.
    pub fn verify(&self, N: &BigInt, g: &BigInt, V: &BigInt) -> (r: bool)
        ensures
            r == dlog_accepts(self.y@, self.c@, N@, g@, V@),
    {
        if N.is_zero() || self.c.is_negative() {
            return false;
        }
        let ghost m = abs_int(N@);
        let gy = if !self.y.is_negative() {
            BigInt::mod_pow(g, &self.y, N)
        } else {
            match BigInt::mod_inv(g, N) {
                Some(inverse) => {
                    proof {
                        lemma_inverse_unique(g@, inverse@, inverse_mod(g@, m), m);
                    }
                    BigInt::mod_pow(&inverse, &self.y.neg(), N)
                },
                None => {
                    return false;
                },
            }
        };
        assert(signed_pow_mod(g@, self.y@, m) == Some(gy@));
        let vc = BigInt::mod_pow(V, &self.c, N);
        let x = gy.mul(&vc).rem(N);
        proof {
            assert(gy@ * vc@ >= 0) by (nonlinear_arith)
                requires
                    gy@ >= 0,
                    vc@ >= 0,
            ;
        }
        let salt = BigInt::from_bytes(ING_TSS_DLOG.as_bytes());
        let inputs = [&salt, N, g, V, &x];
        assert(int_views(inputs@) =~= seq![dlog_salt(), N@, g@, V@, x@]);
        let c = HSha512Trunc256::create_hash(inputs.as_slice());
        c.eq(&self.c)
    }
}

/// Completeness: the proof that an honest prover computes for `v = g^s mod
/// |n|` from any `r` is accepted, where the answer `y` is not negative or `g`
/// has an inverse modulo `|n|`.
pub proof fn lemma_dlog_complete(y: int, c: int, n: int, g: int, v: int, s: int, r: int)
    requires
        n != 0,
        s >= 0,
        r >= 0,
        v == pow(g, s as nat) % abs_int(n),
        is_dlog_proof_from(y, c, n, g, v, s, r),
        y >= 0 || has_inverse_mod(g, abs_int(n)),
    ensures
        dlog_accepts(y, c, n, g, v),
{
    let m = abs_int(n);
    let sc = (s * c) as nat;
    assert(c >= 0);
    assert(s * c >= 0 && s * c == c * s) by (nonlinear_arith)
        requires
            s >= 0,
            c >= 0,
    ;
    // v^c is g^(s * c) modulo m.
    lemma_pow_mod_noop(pow(g, s as nat), c as nat, m);
    lemma_pow_multiplies(g, s as nat, c as nat);
    assert(pow(v, c as nat) % m == pow(g, sc) % m);
    let e = pow(g, sc);
    if y >= 0 {
        lemma_pow_adds(g, y as nat, sc);
        lemma_mul_mod_noop(pow(g, y as nat), e, m);
        assert(y + sc == r);
    } else {
        let k = (-y) as nat;
        let gi = inverse_mod(g, m);
        assert(is_inverse_mod(g, gi, m));
        // g^(s * c) is g^r * g^k, and (gi * g)^k is 1 modulo m.
        assert(sc == r + k);
        lemma_pow_adds(g, r as nat, k);
        lemma_pow_distributes(gi, g, k);
        lemma_pow_mod_noop(gi * g, k, m);
        assert(gi * g == g * gi) by (nonlinear_arith);
        let unit = pow(gi, k) * pow(g, k);
        assert(unit % m == 1int % m) by {
            if m == 1 {
            } else {
                lemma_small_mod(1, m as nat);
                lemma1_pow(k);
            }
        }
        lemma_mul_mod_noop(pow(gi, k), e, m);
        assert(pow(gi, k) * e == unit * pow(g, r as nat)) by (nonlinear_arith)
            requires
                e == pow(g, r as nat) * pow(g, k),
                unit == pow(gi, k) * pow(g, k),
        ;
        lemma_mul_mod_noop(unit, pow(g, r as nat), m);
        lemma_mul_mod_noop(1, pow(g, r as nat), m);
    }
}

} // verus!
