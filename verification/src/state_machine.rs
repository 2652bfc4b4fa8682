//! The contract between a protocol's states and the driver that runs them,
//! and the driver's decision on each input.

use crate::error::KeygenError;
use std::time::Duration;
use vstd::prelude::*;

verus! {

/// The types that a protocol works with.
pub trait StateMachineTraits {
    type InMsg;

    type OutMsg;

    type FinalState;

    type ErrorState;
}

/// What a state hands back once its input is complete: the next state, or
/// the end of the protocol. `S` is the protocol's type of states, one variant
/// for each round.
pub enum Transition<S, T> where T: StateMachineTraits {
    NewState(S),
    FinalState(Result<T::FinalState, T::ErrorState>),
}

/// What the driver is fed: a message for the current state, or the order to
/// stop.
#[derive(Debug, Clone)]
pub enum Instruction<T> {
    Data(T),
    Terminate,
}

impl<T> Instruction<T> {
    /// The message of the instruction, or the error of a protocol that was
    /// told to stop.
    pub fn into_data(self) -> (r: Result<T, KeygenError>)
        ensures
            self matches Instruction::Data(msg) ==> r == Ok::<T, KeygenError>(msg),
            self is Terminate ==> (r matches Err(e) && e is Cancelled),
    {
        match self {
            Instruction::Data(msg) => Ok(msg),
            Instruction::Terminate => Err(KeygenError::Cancelled),
        }
    }
}

/// One round of a protocol. A state can be sent to another thread between
/// rounds, and is never suspended within one.
pub trait State<T>: Sized + Send where T: StateMachineTraits {
    /// Called once on entry: the messages to send in this round.
    fn start(&mut self) -> Option<Vec<T::OutMsg>>;

    /// Whether the message is admitted to the set collected so far.
    fn is_message_expected(&self, msg: &T::InMsg, current_msg_set: &[T::InMsg]) -> bool;

    /// Whether every message that the round waits for is in the set.
    fn is_input_complete(&self, current_msg_set: &[T::InMsg]) -> bool;

    /// Validates the set and computes what follows.
    fn consume(&self, current_msg_set: Vec<T::InMsg>) -> Transition<Self, T>;

    /// How long the round may wait. A state that does not say so itself
    /// waits for ever: it has no timeout.
    fn timeout(&self) -> (r: Option<Duration>)
        default_ensures
            r is None,
    {
        None
    }

    /// The end of the protocol when the time ran out.
    fn timeout_outcome(&self, current_msg_set: Vec<T::InMsg>) -> Result<
        T::FinalState,
        T::ErrorState,
    >;
}

/// What the driver does after an input.
pub enum Progress<S, T> where T: StateMachineTraits {
    /// The round goes on and waits for more input.
    Waiting,
    /// The round's input was complete: what the state made of it.
    Moved(Transition<S, T>),
    /// The driver was told to stop: the protocol ends as cancelled.
    Cancelled,
}

/// `answer` is what the state said when asked whether it expects `msg` with
/// the set `buffer`.
pub open spec fn expected_by<T: StateMachineTraits, S: State<T>>(
    state: &S,
    msg: &T::InMsg,
    buffer: Seq<T::InMsg>,
    answer: bool,
) -> bool {
    exists|set: &[T::InMsg]|
        set@ == buffer && #[trigger] call_ensures(S::is_message_expected, (state, msg, set), answer)
}

/// `answer` is what the state said when asked whether `buffer` completes its
/// input.
pub open spec fn completed_by<T: StateMachineTraits, S: State<T>>(
    state: &S,
    buffer: Seq<T::InMsg>,
    answer: bool,
) -> bool {
    exists|set: &[T::InMsg]|
        set@ == buffer && #[trigger] call_ensures(S::is_input_complete, (state, set), answer)
}

/// `next` is what the state made of the set `buffer`.
pub open spec fn consumed_by<T: StateMachineTraits, S: State<T>>(
    state: &S,
    buffer: Seq<T::InMsg>,
    next: Transition<S, T>,
) -> bool {
    exists|set: Vec<T::InMsg>|
        set@ == buffer && #[trigger] call_ensures(S::consume, (state, set), next)
}

/// What the driver does with a message, given the state's two answers: the
/// message joins the set if the state expects it; then the set goes to the
/// state and is emptied if it is complete, and is kept if not.
pub open spec fn fed<T: StateMachineTraits, S: State<T>>(
    state: &S,
    before: Seq<T::InMsg>,
    msg: T::InMsg,
    after: Seq<T::InMsg>,
    progress: Progress<S, T>,
    expected: bool,
    complete: bool,
) -> bool {
    let collected = if expected {
        before.push(msg)
    } else {
        before
    };
    &&& expected_by(state, &msg, before, expected)
    &&& completed_by(state, collected, complete)
    &&& if complete {
        after.len() == 0 && (progress matches Progress::Moved(next) && consumed_by(
            state,
            collected,
            next,
        ))
    } else {
        after == collected && progress is Waiting
    }
}

/// The driver's decision on one input.
///
/// On `Terminate` the protocol is cancelled and the set is left as it is. A
/// message is added to the set if the state expects it and dropped if not;
/// then, if the state finds its input complete, the set is handed to the
/// state and emptied, and the state's transition is returned.
pub fn feed<T: StateMachineTraits, S: State<T>>(
    state: &S,
    buffer: &mut Vec<T::InMsg>,
    instruction: Instruction<T::InMsg>,
) -> (r: Progress<S, T>)
    ensures
        instruction is Terminate ==> r is Cancelled && final(buffer)@ == old(buffer)@,
        instruction matches Instruction::Data(msg) ==> exists|expected: bool, complete: bool|
            #[trigger] fed(state, old(buffer)@, msg, final(buffer)@, r, expected, complete),
{
    match instruction {
        Instruction::Terminate => Progress::Cancelled,
        Instruction::Data(msg) => {
            let ghost before = buffer@;
            let ghost given = msg;
            let expected = state.is_message_expected(&msg, buffer.as_slice());
            if expected {
                buffer.push(msg);
            }
            let ghost collected = buffer@;
            let complete = state.is_input_complete(buffer.as_slice());
            if complete {
                let mut set: Vec<T::InMsg> = Vec::new();
                set.append(buffer);
                assert(set@ =~= collected);
                let next = state.consume(set);
                let r = Progress::Moved(next);
                assert(fed(state, before, given, buffer@, r, expected, complete));
                r
            } else {
                let r = Progress::Waiting;
                assert(fed(state, before, given, buffer@, r, expected, complete));
                r
            }
        },
    }
}

} // verus!
