//! What the range proofs of the signing protocol exchange: the public setup
//! of a verifier, and the two messages of the multiplicative-to-additive
//! conversion.

use crate::bigint::BigInt;
use crate::dlog_proof::{dlog_accepts, DlogProof};
use vstd::prelude::*;

verus! {

/// The setup that a party publishes for the range proofs issued against it:
/// a product of two safe primes, two generators of the largest cyclic
/// subgroup modulo it, and the proof that links them.
#[derive(Clone, Debug)]
pub struct ZkpPublicSetup {
    pub N_tilde: BigInt,
    pub h1: BigInt,
    pub h2: BigInt,
    pub discrete_log_proof: DlogProof,
}

impl ZkpPublicSetup {
    /// Verifies the setup of another party: the proof that `h2` is a power
    /// of `h1` modulo `N_tilde` holds.
    pub fn verify(&self) -> (r: bool)
        ensures
            r == dlog_accepts(
                self.discrete_log_proof.y@,
                self.discrete_log_proof.c@,
                self.N_tilde@,
                self.h1@,
                self.h2@,
            ),
    {
        self.discrete_log_proof.verify(&self.N_tilde, &self.h1, &self.h2)
    }
}

/// The first message of the conversion: the encryption of the sender's
/// factor under its own Paillier key, and the proof that the factor is in
/// range.
#[derive(Clone, Debug)]
pub struct MessageA {
    pub c: BigInt,
    pub range_proof: Vec<BigInt>,
}

/// The answer of the conversion: the ciphertext of the sender's additive
/// share, and the proof that binds the answerer's factor.
#[derive(Clone, Debug)]
pub struct MessageB {
    pub c: BigInt,
    pub proof: Vec<BigInt>,
}

} // verus!
