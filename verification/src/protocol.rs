//! Party identities and the envelopes that carry protocol messages.

use crate::error::KeygenError;
use vstd::prelude::*;

verus! {

/// Identity of a party: an opaque number, totally ordered.
#[derive(Clone, Copy, Debug, PartialEq, Eq, Structural, PartialOrd, Ord, Hash)]
pub struct PartyIndex(pub u64);

/// A message as received: who sent it, and what.
#[derive(Clone, Debug)]
pub struct InputMessage<M> {
    pub sender: PartyIndex,
    pub body: M,
}

/// A message to send: to one party, or to all when `receiver` is `None`.
#[derive(Clone, Debug)]
pub struct OutputMessage<M> {
    pub receiver: Option<PartyIndex>,
    pub body: M,
}

/// A message that belongs to one round of its protocol.
pub trait Round {
    /// The number of the round.
    spec fn spec_round(&self) -> u8;

    fn round(&self) -> (r: u8)
        ensures
            r == self.spec_round(),
    ;
}

/// Some message of the set comes from `sender`.
pub open spec fn has_sender<M>(set: Seq<InputMessage<M>>, sender: PartyIndex) -> bool {
    exists|i: int| 0 <= i < set.len() && (#[trigger] set[i]).sender == sender
}

/// Whether some message of the set comes from `sender`.
pub fn contains_sender<M>(set: &[InputMessage<M>], sender: PartyIndex) -> (r: bool)
    ensures
        r == has_sender(set@, sender),
{
    let mut i: usize = 0;
    while i < set.len()
        invariant
            i <= set.len(),
            forall|j: int| 0 <= j < i ==> (#[trigger] set[j]).sender != sender,
        decreases set.len() - i,
    {
        if set[i].sender == sender {
            return true;
        }
        i = i + 1;
    }
    false
}

/// `party` is one of `parties`.
pub open spec fn is_member(parties: Seq<PartyIndex>, party: PartyIndex) -> bool {
    exists|i: int| 0 <= i < parties.len() && #[trigger] parties[i] == party
}

/// Whether `party` is one of `parties`.
pub fn contains_party(parties: &[PartyIndex], party: PartyIndex) -> (r: bool)
    ensures
        r == is_member(parties@, party),
{
    let mut i: usize = 0;
    while i < parties.len()
        invariant
            i <= parties.len(),
            forall|j: int| 0 <= j < i ==> #[trigger] parties[j] != party,
        decreases parties.len() - i,
    {
        if parties[i] == party {
            return true;
        }
        i = i + 1;
    }
    false
}

/// The rule by which a round admits a message to the set collected so far:
/// the message belongs to the round, its sender is one of the parties that
/// the round waits for, and the set holds no message of that sender yet.
pub open spec fn admits<M: Round>(
    buffer: Seq<InputMessage<M>>,
    expected: Seq<PartyIndex>,
    round: u8,
    msg: InputMessage<M>,
) -> bool {
    &&& msg.body.spec_round() == round
    &&& is_member(expected, msg.sender)
    &&& !has_sender(buffer, msg.sender)
}

/// The set after `msg` was delivered: with `msg` at its end if the round
/// admits it, and unchanged if not.
pub open spec fn delivered<M: Round>(
    buffer: Seq<InputMessage<M>>,
    expected: Seq<PartyIndex>,
    round: u8,
    msg: InputMessage<M>,
) -> Seq<InputMessage<M>> {
    if admits(buffer, expected, round, msg) {
        buffer.push(msg)
    } else {
        buffer
    }
}

/// Whether the round admits `msg` to the set collected so far.
pub fn is_admitted<M: Round>(
    buffer: &[InputMessage<M>],
    expected: &[PartyIndex],
    round: u8,
    msg: &InputMessage<M>,
) -> (r: bool)
    ensures
        r == admits(buffer@, expected@, round, *msg),
{
    msg.body.round() == round && contains_party(expected, msg.sender) && !contains_sender(
        buffer,
        msg.sender,
    )
}

/// Like `is_admitted`, with the error that names the sender of a message
/// that is not admitted.
pub fn check_admitted<M: Round>(
    buffer: &[InputMessage<M>],
    expected: &[PartyIndex],
    round: u8,
    msg: &InputMessage<M>,
) -> (r: Result<(), KeygenError>)
    ensures
        r is Ok <==> admits(buffer@, expected@, round, *msg),
        r matches Err(e) ==> e matches KeygenError::UnexpectedMessage(party) && party
            == msg.sender,
{
    if is_admitted(buffer, expected, round, msg) {
        Ok(())
    } else {
        Err(KeygenError::UnexpectedMessage(msg.sender))
    }
}

/// Delivers `msg` to a round: it is added to the set if the round admits it
/// and dropped if not. Returns whether it was added.
pub fn deliver<M: Round>(
    buffer: &mut Vec<InputMessage<M>>,
    expected: &[PartyIndex],
    round: u8,
    msg: InputMessage<M>,
) -> (r: bool)
    ensures
        r == admits(old(buffer)@, expected@, round, msg),
        final(buffer)@ == delivered(old(buffer)@, expected@, round, msg),
{
    if is_admitted(buffer.as_slice(), expected, round, &msg) {
        buffer.push(msg);
        true
    } else {
        false
    }
}

/// Duplicate suppression: once a message of a sender and a round has been
/// delivered, a second one of the same sender and round leaves the set
/// unchanged.
pub proof fn lemma_duplicate_delivery<M: Round>(
    buffer: Seq<InputMessage<M>>,
    expected: Seq<PartyIndex>,
    round: u8,
    first: InputMessage<M>,
    second: InputMessage<M>,
)
    requires
        first.sender == second.sender,
        first.body.spec_round() == second.body.spec_round(),
    ensures
        delivered(delivered(buffer, expected, round, first), expected, round, second) == delivered(
            buffer,
            expected,
            round,
            first,
        ),
{
    let once = delivered(buffer, expected, round, first);
    if admits(buffer, expected, round, first) {
        assert(once[once.len() - 1].sender == second.sender);
        assert(has_sender(once, second.sender));
    } else {
        if has_sender(buffer, first.sender) {
            assert(has_sender(once, second.sender));
        }
    }
}

/// Delivery keeps the rule of the set: no two of its messages have the same
/// sender.
pub open spec fn distinct_senders<M>(buffer: Seq<InputMessage<M>>) -> bool {
    forall|i: int, j: int|
        0 <= i < j < buffer.len() ==> (#[trigger] buffer[i]).sender != (#[trigger] buffer[j]).sender
}

pub proof fn lemma_delivery_keeps_senders_distinct<M: Round>(
    buffer: Seq<InputMessage<M>>,
    expected: Seq<PartyIndex>,
    round: u8,
    msg: InputMessage<M>,
)
    requires
        distinct_senders(buffer),
    ensures
        distinct_senders(delivered(buffer, expected, round, msg)),
{
    let after = delivered(buffer, expected, round, msg);
    if admits(buffer, expected, round, msg) {
        assert forall|i: int, j: int| 0 <= i < j < after.len() implies (#[trigger] after[i]).sender
            != (#[trigger] after[j]).sender by {
            if j == buffer.len() {
                assert(after[i] == buffer[i]);
                if buffer[i].sender == msg.sender {
                    assert(has_sender(buffer, msg.sender));
                }
            } else {
                assert(after[i] == buffer[i] && after[j] == buffer[j]);
            }
        }
    }
}

/// Every party that the round waits for has delivered.
pub open spec fn all_delivered<M>(buffer: Seq<InputMessage<M>>, expected: Seq<PartyIndex>) -> bool {
    forall|i: int| 0 <= i < expected.len() ==> has_sender(buffer, #[trigger] expected[i])
}

/// Whether every party that the round waits for has delivered.
pub fn is_round_complete<M>(buffer: &[InputMessage<M>], expected: &[PartyIndex]) -> (r: bool)
    ensures
        r == all_delivered(buffer@, expected@),
{
    let mut i: usize = 0;
    while i < expected.len()
        invariant
            i <= expected.len(),
            forall|j: int| 0 <= j < i ==> has_sender(buffer@, #[trigger] expected[j]),
        decreases expected.len() - i,
    {
        if !contains_sender(buffer, expected[i]) {
            return false;
        }
        i = i + 1;
    }
    true
}

/// The parties that the round waits for and that have not delivered, in the
/// order of `expected`.
pub open spec fn missing_from<M>(
    buffer: Seq<InputMessage<M>>,
    expected: Seq<PartyIndex>,
) -> Seq<PartyIndex> {
    expected.filter(|p: PartyIndex| !has_sender(buffer, p))
}

/// The parties that the round waits for and that have not delivered.
pub fn missing_parties<M>(buffer: &[InputMessage<M>], expected: &[PartyIndex]) -> (r: Vec<
    PartyIndex,
>)
    ensures
        r@ == missing_from(buffer@, expected@),
{
    let mut missing: Vec<PartyIndex> = Vec::new();
    let ghost absent = |p: PartyIndex| !has_sender(buffer@, p);
    let mut i: usize = 0;
    proof {
        assert(expected@.take(0) =~= Seq::<PartyIndex>::empty());
        assert(Seq::<PartyIndex>::empty().filter(absent) =~= Seq::<PartyIndex>::empty()) by {
            reveal(Seq::filter);
        }
    }
    while i < expected.len()
        invariant
            i <= expected.len(),
            absent == |p: PartyIndex| !has_sender(buffer@, p),
            missing@ == expected@.take(i as int).filter(absent),
        decreases expected.len() - i,
    {
        let party = expected[i];
        let delivered = contains_sender(buffer, party);
        proof {
            let before = expected@.take(i as int);
            assert(expected@.take(i + 1) =~= before.push(party));
            reveal(Seq::filter);
            assert(before.push(party).drop_last() =~= before);
        }
        if !delivered {
            missing.push(party);
        }
        i = i + 1;
    }
    proof {
        assert(expected@.take(expected.len() as int) =~= expected@);
    }
    missing
}

/// The terminal error of a round whose time ran out: the round's number and
/// the parties that have not delivered.
pub fn timeout_error<M>(round: u8, buffer: &[InputMessage<M>], expected: &[PartyIndex]) -> (r:
    KeygenError)
    ensures
        r matches KeygenError::Timeout { round: at, missing } && at == round && missing@
            == missing_from(buffer@, expected@),
{
    KeygenError::Timeout { round, missing: missing_parties(buffer, expected) }
}

} // verus!
