//! Messages of the resharing protocol.

use crate::bigint::BigInt;
use crate::curve::encodings;
use crate::messages::{CorrectKeyProof, CurvVerifiableSS, SecretShare};
use crate::paillier::EncryptionKey;
use crate::protocol::{contains_sender, has_sender, InputMessage, OutputMessage, Round};
use crate::types::GE;
use crate::zk_range_proofs::ZkpPublicSetup;
use vstd::prelude::*;
use vstd::std_specs::convert::FromSpecImpl;

verus! {

/// The broadcast of a party of the old committee: the public key, and the
/// commitment to the sharing of its share.
#[derive(Clone, Debug)]
pub struct Phase1Broadcast {
    pub y: GE,
    pub vss_commitment: BigInt,
}

/// The broadcast of a party of the new committee: its public Paillier key
/// with the proof of it, and its setup for range proofs where it has one.
#[derive(Clone, Debug)]
pub struct Phase2Broadcast {
    pub ek: EncryptionKey,
    pub correct_key_proof: CorrectKeyProof,
    pub range_proof_setup: Option<ZkpPublicSetup>,
}

/// A share for a party of the new committee, with the commitments that
/// prove it.
#[derive(Debug)]
pub struct VSS {
    pub share: SecretShare,
    pub vss: CurvVerifiableSS,
}

impl Clone for VSS {
    fn clone(&self) -> (r: Self)
        ensures
            r.vss.parameters == self.vss.parameters,
            encodings(r.vss.commitments@) == encodings(self.vss.commitments@),
            r.share.0 == self.share.0,
            r.share.1@ == self.share.1@,
    {
        VSS { share: (self.share.0, self.share.1.clone()), vss: self.vss.clone() }
    }
}

/// The messages of the resharing protocol: one kind for each round, and the
/// two acknowledgements that end it.
#[derive(Clone, Debug)]
pub enum Message {
    R1(Phase1Broadcast),
    R2(Phase2Broadcast),
    R3(VSS),
    Ack,
    FinalAck,
}

pub type InMsg = InputMessage<Message>;

pub type OutMsg = OutputMessage<Message>;

impl InputMessage<Message> {
    /// Whether the set already holds a message of this message's sender.
    pub fn is_duplicate(&self, current_msg_set: &[InMsg]) -> (r: bool)
        ensures
            r == has_sender(current_msg_set@, self.sender),
    {
        contains_sender(current_msg_set, self.sender)
    }
}

impl Round for Message {
    open spec fn spec_round(&self) -> u8 {
        match self {
            Message::R1(_) => 1,
            Message::R2(_) => 2,
            Message::R3(_) => 3,
            Message::Ack => 4,
            Message::FinalAck => 5,
        }
    }

    /// The number of the round that the message belongs to; the
    /// acknowledgements count as rounds 4 and 5.
    fn round(&self) -> (r: u8) {
        match self {
            Message::R1(_) => 1,
            Message::R2(_) => 2,
            Message::R3(_) => 3,
            Message::Ack => 4,
            Message::FinalAck => 5,
        }
    }
}

impl From<Message> for Option<Phase1Broadcast> {
    fn from(x: Message) -> (r: Option<Phase1Broadcast>) {
        match x {
            Message::R1(msg) => Some(msg),
            _ => None,
        }
    }
}

impl FromSpecImpl<Message> for Option<Phase1Broadcast> {
    open spec fn obeys_from_spec() -> bool {
        true
    }

    open spec fn from_spec(x: Message) -> Option<Phase1Broadcast> {
        match x {
            Message::R1(msg) => Some(msg),
            _ => None,
        }
    }
}

impl From<Message> for Option<Phase2Broadcast> {
    fn from(x: Message) -> (r: Option<Phase2Broadcast>) {
        match x {
            Message::R2(msg) => Some(msg),
            _ => None,
        }
    }
}

impl FromSpecImpl<Message> for Option<Phase2Broadcast> {
    open spec fn obeys_from_spec() -> bool {
        true
    }

    open spec fn from_spec(x: Message) -> Option<Phase2Broadcast> {
        match x {
            Message::R2(msg) => Some(msg),
            _ => None,
        }
    }
}

impl From<Message> for Option<VSS> {
    fn from(x: Message) -> (r: Option<VSS>) {
        match x {
            Message::R3(msg) => Some(msg),
            _ => None,
        }
    }
}

impl FromSpecImpl<Message> for Option<VSS> {
    open spec fn obeys_from_spec() -> bool {
        true
    }

    open spec fn from_spec(x: Message) -> Option<VSS> {
        match x {
            Message::R3(msg) => Some(msg),
            _ => None,
        }
    }
}

} // verus!
