//! The messages that the protocols exchange.

pub mod keygen;
pub mod resharing;
pub mod signing;

use crate::bigint::BigInt;
use crate::curve::{ec_mul, encodings, feldman_share_valid, schnorr_proof_valid, GENERATOR};
use crate::types::{FE, GE};
use vstd::prelude::*;

verus! {

/// A share of Shamir's scheme: the abscissa and the ordinate of a point of
/// the polynomial.
pub type SecretShare = (u16, FE);

/// Parameters of a sharing: the degree of the polynomial and the number of
/// shares.
#[derive(Clone, Copy, Debug, PartialEq, Eq, Structural)]
pub struct ShamirSecretSharing {
    pub threshold: u16,
    pub share_count: u16,
}

/// The public part of a verifiable sharing: a commitment to each coefficient
/// of the polynomial, the constant term first.
#[derive(Debug)]
pub struct CurvVerifiableSS {
    pub parameters: ShamirSecretSharing,
    pub commitments: Vec<GE>,
}

impl Clone for CurvVerifiableSS {
    fn clone(&self) -> (r: Self)
        ensures
            r.parameters == self.parameters,
            encodings(r.commitments@) == encodings(self.commitments@),
    {
        let mut commitments: Vec<GE> = Vec::new();
        let mut i: usize = 0;
        while i < self.commitments.len()
            invariant
                i <= self.commitments.len(),
                commitments.len() == i,
                forall|j: int| 0 <= j < i ==> (#[trigger] commitments[j])@ == self.commitments[j]@,
            decreases self.commitments.len() - i,
        {
            commitments.push(self.commitments[i].clone());
            i = i + 1;
        }
        assert(encodings(commitments@) =~= encodings(self.commitments@));
        CurvVerifiableSS { parameters: self.parameters, commitments }
    }
}

/// The correct-key proof of a Paillier modulus: the roots of the challenges.
#[derive(Clone, Debug)]
pub struct CorrectKeyProof {
    pub sigma_vec: Vec<BigInt>,
}

/// A proof of knowledge of the discrete logarithm of a point.
#[derive(Clone, Debug)]
pub struct CurvDLogProofType {
    pub pk: GE,
    pub pk_t_rand_commitment: GE,
    pub challenge_response: FE,
}

/// A proof did not verify.
#[derive(Clone, Copy, Debug, PartialEq, Eq, Structural)]
pub struct ProofError;

impl CurvDLogProofType {
    /// Proves knowledge of `sk` for the public key `sk` times the generator.
    pub fn prove(sk: &FE) -> (r: CurvDLogProofType)
        ensures
            r.pk@ == ec_mul(GENERATOR@, sk@),
            schnorr_proof_valid(r.pk@, r.pk_t_rand_commitment@, r.challenge_response@),
    {
        let (pk, pk_t_rand_commitment, challenge_response) = GE::prove_dlog(sk);
        CurvDLogProofType { pk, pk_t_rand_commitment, challenge_response }
    }

    /// Verifies the proof.
    pub fn verify(proof: &CurvDLogProofType) -> (r: Result<(), ProofError>)
        ensures
            r is Ok <==> schnorr_proof_valid(
                proof.pk@,
                proof.pk_t_rand_commitment@,
                proof.challenge_response@,
            ),
    {
        if GE::verify_dlog_proof(&proof.pk, &proof.pk_t_rand_commitment, &proof.challenge_response) {
            Ok(())
        } else {
            Err(ProofError)
        }
    }
}

/// A proof that two points hold an ElGamal encryption in the exponent.
#[derive(Clone, Debug)]
pub struct CurvHomoElGamalProof {
    pub T: GE,
    pub A3: GE,
    pub z1: FE,
    pub z2: FE,
}

/// The message by which a share and the commitments that prove it are handed
/// to a counterparty.
#[derive(Debug)]
pub struct FeldmanVSS {
    pub vss: CurvVerifiableSS,
    pub share: SecretShare,
}

impl Clone for FeldmanVSS {
    fn clone(&self) -> (r: Self)
        ensures
            r.vss.parameters == self.vss.parameters,
            encodings(r.vss.commitments@) == encodings(self.vss.commitments@),
            r.share.0 == self.share.0,
            r.share.1@ == self.share.1@,
    {
        FeldmanVSS { vss: self.vss.clone(), share: (self.share.0, self.share.1.clone()) }
    }
}

/// What `FeldmanVSS::verify` decides: there are commitments, the share lies
/// on the committed polynomial, and the first commitment, which is to the
/// secret, is the dealer's public key.
pub open spec fn feldman_accepts(
    commitments: Seq<Seq<u8>>,
    share: (u16, int),
    pubkey: Seq<u8>,
) -> bool {
    &&& commitments.len() > 0
    &&& feldman_share_valid(commitments, share.1, share.0)
    &&& commitments[0] == pubkey
}

impl FeldmanVSS {
    /// Verifies the share against the commitments and the dealer's public
    /// key.
    pub fn verify(&self, pubkey: &GE) -> (r: bool)
        ensures
            r == feldman_accepts(
                encodings(self.vss.commitments@),
                (self.share.0, self.share.1@),
                pubkey@,
            ),
    {
        if self.vss.commitments.len() == 0 {
            return false;
        }
        let valid = GE::validate_share(
            self.vss.parameters.threshold,
            self.vss.parameters.share_count,
            &self.vss.commitments,
            &self.share.1,
            self.share.0,
        );
        let pubkey_valid = self.vss.commitments[0].eq(pubkey);
        valid && pubkey_valid
    }

    /// Overwrites what is secret: the share becomes `(0, 0)`, and the
    /// parameters become zero.
    pub fn wipe_share(&mut self)
        ensures
            final(self).vss.parameters.threshold == 0,
            final(self).vss.parameters.share_count == 0,
            final(self).vss.commitments@ == old(self).vss.commitments@,
            final(self).share.0 == 0,
            final(self).share.1@ == 0,
        opens_invariants none
        no_unwind
    {
        self.vss.parameters.threshold = 0;
        self.vss.parameters.share_count = 0;
        self.share.0 = 0;
        self.share.1.zeroize();
    }

    /// Overwrites the whole message with zeros: the parameters and the share
    /// become zero, and the commitments are wiped and dropped.
    pub fn zeroize(&mut self)
        ensures
            final(self).vss.parameters.threshold == 0,
            final(self).vss.parameters.share_count == 0,
            final(self).vss.commitments@.len() == 0,
            final(self).share.0 == 0,
            final(self).share.1@ == 0,
    {
        self.wipe_share();
        while self.vss.commitments.len() > 0
            invariant
                self.vss.parameters.threshold == 0,
                self.vss.parameters.share_count == 0,
                self.share.0 == 0,
                self.share.1@ == 0,
            decreases self.vss.commitments.len(),
        {
            match self.vss.commitments.pop() {
                Some(c) => {
                    c.wipe();
                },
                None => {},
            }
        }
    }
}

impl Drop for FeldmanVSS {
    /// Wipes the share when the message is given up.
    fn drop(&mut self)
        opens_invariants none
        no_unwind
    {
        self.wipe_share();
    }
}

} // verus!
