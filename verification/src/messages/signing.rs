//! Messages of the signing protocol.

use crate::bigint::BigInt;
use crate::messages::{CurvDLogProofType, CurvHomoElGamalProof};
use crate::protocol::{contains_sender, has_sender, InputMessage, OutputMessage, Round};
use crate::types::{FE, GE};
use crate::zk_range_proofs::{MessageA, MessageB};
use vstd::prelude::*;
use vstd::std_specs::convert::FromSpecImpl;

verus! {

pub type InMsg = InputMessage<Message>;

pub type OutMsg = OutputMessage<Message>;

/// The first broadcast of the signing protocol: the commitment to `g` to the
/// power of the party's `gamma`, and the first message of the conversion.
#[derive(Clone, Debug)]
pub struct SignBroadcastPhase1 {
    pub com: BigInt,
    pub mta_a: MessageA,
}

/// The opening of that commitment, and the proof of knowledge of `gamma`.
#[derive(Clone, Debug)]
pub struct SignDecommitPhase4 {
    pub blind_factor: BigInt,
    pub g_gamma_i: GE,
    pub gamma_proof: CurvDLogProofType,
}

/// The commitment to `V_i` and `A_i`.
#[derive(Clone, Debug)]
pub struct Phase5Com1 {
    pub com: BigInt,
}

/// The commitment to `U_i` and `T_i`.
#[derive(Clone, Debug)]
pub struct Phase5Com2 {
    pub com: BigInt,
}

/// The opening of the commitment to `V_i` and `A_i`, with its proof.
#[derive(Clone, Debug)]
pub struct Phase5Decom1 {
    pub V_i: GE,
    pub A_i: GE,
    pub B_i: GE,
    pub blind_factor: BigInt,
    pub proof: CurvHomoElGamalProof,
}

/// The opening of the commitment to `U_i` and `T_i`.
#[derive(Clone, Debug)]
pub struct Phase5Decom2 {
    pub U_i: GE,
    pub T_i: GE,
    pub blind_factor: BigInt,
}

/// The broadcast of the party's `delta`.
#[derive(Clone, Debug)]
pub struct Phase3data {
    pub delta_i: FE,
}

/// The last broadcast of the signing protocol: the party's part of the
/// signature.
#[derive(Clone, Debug)]
pub struct Phase5Edata {
    pub s_i: FE,
}

/// The messages of the signing protocol, one kind for each round.
#[derive(Clone, Debug)]
pub enum Message {
    R1(SignBroadcastPhase1),
    R2(MessageB),
    R2b(MessageB),
    R3(Phase3data),
    R4(SignDecommitPhase4),
    R5(Phase5Com1),
    R6(Phase5Decom1),
    R7(Phase5Com2),
    R8(Phase5Decom2),
    R9(Phase5Edata),
}

impl InputMessage<Message> {
    /// Whether the set already holds a message of this message's sender.
    pub fn is_duplicate(&self, current_msg_set: &[InMsg]) -> (r: bool)
        ensures
            r == has_sender(current_msg_set@, self.sender),
    {
        contains_sender(current_msg_set, self.sender)
    }
}

impl Round for Message {
    open spec fn spec_round(&self) -> u8 {
        match self {
            Message::R1(_) => 1,
            Message::R2(_) => 2,
            Message::R2b(_) => 2,
            Message::R3(_) => 3,
            Message::R4(_) => 4,
            Message::R5(_) => 5,
            Message::R6(_) => 6,
            Message::R7(_) => 7,
            Message::R8(_) => 8,
            Message::R9(_) => 9,
        }
    }

    /// The number of the round that the message belongs to; the second
    /// answer of the conversion counts with the first.
    fn round(&self) -> (r: u8) {
        match self {
            Message::R1(_) => 1,
            Message::R2(_) => 2,
            Message::R2b(_) => 2,
            Message::R3(_) => 3,
            Message::R4(_) => 4,
            Message::R5(_) => 5,
            Message::R6(_) => 6,
            Message::R7(_) => 7,
            Message::R8(_) => 8,
            Message::R9(_) => 9,
        }
    }
}

impl From<Message> for Option<SignBroadcastPhase1> {
    fn from(x: Message) -> (r: Option<SignBroadcastPhase1>) {
        match x {
            Message::R1(msg) => Some(msg),
            _ => None,
        }
    }
}

impl FromSpecImpl<Message> for Option<SignBroadcastPhase1> {
    open spec fn obeys_from_spec() -> bool {
        true
    }

    open spec fn from_spec(x: Message) -> Option<SignBroadcastPhase1> {
        match x {
            Message::R1(msg) => Some(msg),
            _ => None,
        }
    }
}

impl From<Message> for Option<SignDecommitPhase4> {
    fn from(x: Message) -> (r: Option<SignDecommitPhase4>) {
        match x {
            Message::R4(msg) => Some(msg),
            _ => None,
        }
    }
}

impl FromSpecImpl<Message> for Option<SignDecommitPhase4> {
    open spec fn obeys_from_spec() -> bool {
        true
    }

    open spec fn from_spec(x: Message) -> Option<SignDecommitPhase4> {
        match x {
            Message::R4(msg) => Some(msg),
            _ => None,
        }
    }
}

impl From<Message> for Option<MessageB> {
    fn from(x: Message) -> (r: Option<MessageB>) {
        match x {
            Message::R2(msg) => Some(msg),
            Message::R2b(msg) => Some(msg),
            _ => None,
        }
    }
}

impl FromSpecImpl<Message> for Option<MessageB> {
    open spec fn obeys_from_spec() -> bool {
        true
    }

    open spec fn from_spec(x: Message) -> Option<MessageB> {
        match x {
            Message::R2(msg) => Some(msg),
            Message::R2b(msg) => Some(msg),
            _ => None,
        }
    }
}

impl From<Message> for Option<Phase3data> {
    fn from(x: Message) -> (r: Option<Phase3data>) {
        match x {
            Message::R3(msg) => Some(msg),
            _ => None,
        }
    }
}

impl FromSpecImpl<Message> for Option<Phase3data> {
    open spec fn obeys_from_spec() -> bool {
        true
    }

    open spec fn from_spec(x: Message) -> Option<Phase3data> {
        match x {
            Message::R3(msg) => Some(msg),
            _ => None,
        }
    }
}

impl From<Message> for Option<Phase5Com1> {
    fn from(x: Message) -> (r: Option<Phase5Com1>) {
        match x {
            Message::R5(msg) => Some(msg),
            _ => None,
        }
    }
}

impl FromSpecImpl<Message> for Option<Phase5Com1> {
    open spec fn obeys_from_spec() -> bool {
        true
    }

    open spec fn from_spec(x: Message) -> Option<Phase5Com1> {
        match x {
            Message::R5(msg) => Some(msg),
            _ => None,
        }
    }
}

impl From<Message> for Option<Phase5Decom1> {
    fn from(x: Message) -> (r: Option<Phase5Decom1>) {
        match x {
            Message::R6(msg) => Some(msg),
            _ => None,
        }
    }
}

impl FromSpecImpl<Message> for Option<Phase5Decom1> {
    open spec fn obeys_from_spec() -> bool {
        true
    }

    open spec fn from_spec(x: Message) -> Option<Phase5Decom1> {
        match x {
            Message::R6(msg) => Some(msg),
            _ => None,
        }
    }
}

impl From<Message> for Option<Phase5Com2> {
    fn from(x: Message) -> (r: Option<Phase5Com2>) {
        match x {
            Message::R7(msg) => Some(msg),
            _ => None,
        }
    }
}

impl FromSpecImpl<Message> for Option<Phase5Com2> {
    open spec fn obeys_from_spec() -> bool {
        true
    }

    open spec fn from_spec(x: Message) -> Option<Phase5Com2> {
        match x {
            Message::R7(msg) => Some(msg),
            _ => None,
        }
    }
}

impl From<Message> for Option<Phase5Decom2> {
    fn from(x: Message) -> (r: Option<Phase5Decom2>) {
        match x {
            Message::R8(msg) => Some(msg),
            _ => None,
        }
    }
}

impl FromSpecImpl<Message> for Option<Phase5Decom2> {
    open spec fn obeys_from_spec() -> bool {
        true
    }

    open spec fn from_spec(x: Message) -> Option<Phase5Decom2> {
        match x {
            Message::R8(msg) => Some(msg),
            _ => None,
        }
    }
}

impl From<Message> for Option<Phase5Edata> {
    fn from(x: Message) -> (r: Option<Phase5Edata>) {
        match x {
            Message::R9(msg) => Some(msg),
            _ => None,
        }
    }
}

impl FromSpecImpl<Message> for Option<Phase5Edata> {
    open spec fn obeys_from_spec() -> bool {
        true
    }

    open spec fn from_spec(x: Message) -> Option<Phase5Edata> {
        match x {
            Message::R9(msg) => Some(msg),
            _ => None,
        }
    }
}

} // verus!
