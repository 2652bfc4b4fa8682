//! The ways in which a protocol instance can fail.

use crate::protocol::PartyIndex;
use vstd::prelude::*;

verus! {

/// Why a pair `(min_signers, share_count)` is no valid threshold setting.
#[derive(Clone, Copy, Debug, PartialEq, Eq, Structural)]
pub enum ParameterFault {
    /// Fewer than two shares.
    TooFewShares { share_count: u16 },
    /// Fewer than two signers.
    TooFewSigners { min_signers: u16 },
    /// More signers than shares.
    TooManySigners { min_signers: u16, share_count: u16 },
}

/// Terminal outcome of a protocol instance that did not succeed.
#[derive(Clone, Debug)]
pub enum KeygenError {
    /// The parameters break `2 <= min_signers <= share_count`.
    IncorrectParameters(ParameterFault),
    /// A proof or a commitment of this party did not verify.
    CryptoValidationFailure(PartyIndex),
    /// This party sent a message that the round does not take.
    UnexpectedMessage(PartyIndex),
    /// The round's time ran out while these parties had not delivered.
    Timeout { round: u8, missing: Vec<PartyIndex> },
    /// The instance was told to terminate.
    Cancelled,
    /// A state that the protocol rules out was reached.
    InternalInvariant,
}

} // verus!
