//! Messages of the key generation protocol.

use crate::bigint::BigInt;
use crate::curve::{encodings, schnorr_proof_valid};
use crate::error::KeygenError;
use crate::messages::feldman_accepts;
use crate::protocol::PartyIndex;
use crate::types::{opens_to, point_message, CommitmentScheme};
use crate::messages::{CorrectKeyProof, CurvDLogProofType, FeldmanVSS};
use crate::paillier::EncryptionKey;
use crate::protocol::{contains_sender, has_sender, InputMessage, OutputMessage, Round};
use crate::types::GE;
use crate::zk_range_proofs::ZkpPublicSetup;
use vstd::prelude::*;
use vstd::std_specs::convert::FromSpecImpl;

verus! {

/// The messages of key generation, one kind for each round.
#[derive(Clone, Debug)]
pub enum Message {
    R1(Phase1Broadcast),
    R2(DecommitPublicKey),
    R3(FeldmanVSS),
    R4(CurvDLogProofType),
}

pub type InMsg = InputMessage<Message>;

pub type OutMsg = OutputMessage<Message>;

impl InputMessage<Message> {
    /// Whether the set already holds a message of this message's sender.
    pub fn is_duplicate(&self, current_msg_set: &[InMsg]) -> (r: bool)
        ensures
            r == has_sender(current_msg_set@, self.sender),
    {
        contains_sender(current_msg_set, self.sender)
    }
}

impl Round for Message {
    open spec fn spec_round(&self) -> u8 {
        match self {
            Message::R1(_) => 1,
            Message::R2(_) => 2,
            Message::R3(_) => 3,
            Message::R4(_) => 4,
        }
    }

    /// The round that the message belongs to, from 1.
    fn round(&self) -> (r: u8) {
        match self {
            Message::R1(_) => 1,
            Message::R2(_) => 2,
            Message::R3(_) => 3,
            Message::R4(_) => 4,
        }
    }
}

impl From<Message> for Option<Phase1Broadcast> {
    fn from(x: Message) -> (r: Option<Phase1Broadcast>) {
        match x {
            Message::R1(msg) => Some(msg),
            _ => None,
        }
    }
}

impl FromSpecImpl<Message> for Option<Phase1Broadcast> {
    open spec fn obeys_from_spec() -> bool {
        true
    }

    open spec fn from_spec(x: Message) -> Option<Phase1Broadcast> {
        match x {
            Message::R1(msg) => Some(msg),
            _ => None,
        }
    }
}

impl From<Message> for Option<DecommitPublicKey> {
    fn from(m: Message) -> (r: Option<DecommitPublicKey>) {
        match m {
            Message::R2(msg) => Some(msg),
            _ => None,
        }
    }
}

impl FromSpecImpl<Message> for Option<DecommitPublicKey> {
    open spec fn obeys_from_spec() -> bool {
        true
    }

    open spec fn from_spec(m: Message) -> Option<DecommitPublicKey> {
        match m {
            Message::R2(msg) => Some(msg),
            _ => None,
        }
    }
}

impl From<Message> for Option<FeldmanVSS> {
    fn from(m: Message) -> (r: Option<FeldmanVSS>) {
        match m {
            Message::R3(fvss) => Some(fvss),
            _ => None,
        }
    }
}

impl FromSpecImpl<Message> for Option<FeldmanVSS> {
    open spec fn obeys_from_spec() -> bool {
        true
    }

    open spec fn from_spec(m: Message) -> Option<FeldmanVSS> {
        match m {
            Message::R3(fvss) => Some(fvss),
            _ => None,
        }
    }
}

impl From<Message> for Option<CurvDLogProofType> {
    fn from(m: Message) -> (r: Option<CurvDLogProofType>) {
        match m {
            Message::R4(proof) => Some(proof),
            _ => None,
        }
    }
}

impl FromSpecImpl<Message> for Option<CurvDLogProofType> {
    open spec fn obeys_from_spec() -> bool {
        true
    }

    open spec fn from_spec(m: Message) -> Option<CurvDLogProofType> {
        match m {
            Message::R4(proof) => Some(proof),
            _ => None,
        }
    }
}

/// The first broadcast of key generation: the public Paillier key, the
/// commitment to the party's part of the public key, the proof of the
/// Paillier key, and the setup for range proofs where the party has one.
#[derive(Clone, Debug)]
pub struct Phase1Broadcast {
    pub e: EncryptionKey,
    pub com: BigInt,
    pub correct_key_proof: CorrectKeyProof,
    pub range_proof_setup: Option<ZkpPublicSetup>,
}

/// The opening of the commitment to the party's part of the public key.
#[derive(Clone, Debug)]
pub struct DecommitPublicKey {
    pub blind_factor: BigInt,
    pub y_i: GE,
}

/// Holds the decommitment of `sender` against the commitment `com` of its
/// first broadcast, and blames `sender` where it does not open it.
pub fn check_decommitment(sender: PartyIndex, com: &BigInt, decommit: &DecommitPublicKey) -> (r:
    Result<(), KeygenError>)
    ensures
        r is Ok <==> opens_to(com@, decommit.blind_factor@, point_message(decommit.y_i@)),
        r matches Err(e) ==> e matches KeygenError::CryptoValidationFailure(party) && party
            == sender,
{
    let scheme = CommitmentScheme { comm: com.clone(), decomm: decommit.blind_factor.clone() };
    if scheme.verify_commitment(&decommit.y_i) {
        Ok(())
    } else {
        Err(KeygenError::CryptoValidationFailure(sender))
    }
}

/// Verifies the share that `sender` dealt against the part `y_i` of the
/// public key that `sender` opened, and blames `sender` where it fails.
pub fn check_share(sender: PartyIndex, fvss: &FeldmanVSS, y_i: &GE) -> (r: Result<
    (),
    KeygenError,
>)
    ensures
        r is Ok <==> feldman_accepts(
            encodings(fvss.vss.commitments@),
            (fvss.share.0, fvss.share.1@),
            y_i@,
        ),
        r matches Err(e) ==> e matches KeygenError::CryptoValidationFailure(party) && party
            == sender,
{
    if fvss.verify(y_i) {
        Ok(())
    } else {
        Err(KeygenError::CryptoValidationFailure(sender))
    }
}

/// Verifies the proof of knowledge that `sender` broadcast in the last
/// round, and blames `sender` where it fails.
pub fn check_dlog_proof(sender: PartyIndex, proof: &CurvDLogProofType) -> (r: Result<
    (),
    KeygenError,
>)
    ensures
        r is Ok <==> schnorr_proof_valid(
            proof.pk@,
            proof.pk_t_rand_commitment@,
            proof.challenge_response@,
        ),
        r matches Err(e) ==> e matches KeygenError::CryptoValidationFailure(party) && party
            == sender,
{
    match CurvDLogProofType::verify(proof) {
        Ok(_) => Ok(()),
        Err(_) => Err(KeygenError::CryptoValidationFailure(sender)),
    }
}

} // verus!
