use ecdsa_mpc::error::KeygenError;
use ecdsa_mpc::protocol::{deliver, is_admitted, is_round_complete, InputMessage, PartyIndex};
use ecdsa_mpc::messages::resharing::Message;
use ecdsa_mpc::state_machine::{
    feed, Instruction, Progress, State, StateMachineTraits, Transition,
};
use std::time::Duration;

struct Acks;

impl StateMachineTraits for Acks {
    type InMsg = InputMessage<Message>;
    type OutMsg = Message;
    type FinalState = Vec<u64>;
    type ErrorState = String;
}

/// The two acknowledgement rounds of resharing among three parties.
enum AckRound {
    Ack,
    FinalAck,
}

const PARTIES: [PartyIndex; 3] = [PartyIndex(1), PartyIndex(2), PartyIndex(3)];

impl AckRound {
    fn number(&self) -> u8 {
        match self {
            AckRound::Ack => 4,
            AckRound::FinalAck => 5,
        }
    }
}

impl State<Acks> for AckRound {
    fn start(&mut self) -> Option<Vec<Message>> {
        match self {
            AckRound::Ack => Some(vec![Message::Ack]),
            AckRound::FinalAck => Some(vec![Message::FinalAck]),
        }
    }

    fn is_message_expected(
        &self,
        msg: &InputMessage<Message>,
        current_msg_set: &[InputMessage<Message>],
    ) -> bool {
        is_admitted(current_msg_set, &PARTIES, self.number(), msg)
    }

    fn is_input_complete(&self, current_msg_set: &[InputMessage<Message>]) -> bool {
        is_round_complete(current_msg_set, &PARTIES)
    }

    fn consume(&self, current_msg_set: Vec<InputMessage<Message>>) -> Transition<Self, Acks> {
        match self {
            AckRound::Ack => Transition::NewState(AckRound::FinalAck),
            AckRound::FinalAck => Transition::FinalState(Ok(
                current_msg_set.iter().map(|m| m.sender.0).collect(),
            )),
        }
    }

    fn timeout_outcome(
        &self,
        current_msg_set: Vec<InputMessage<Message>>,
    ) -> Result<Vec<u64>, String> {
        Err(format!("{} of 3 delivered", current_msg_set.len()))
    }
}

fn data(sender: u64, body: Message) -> Instruction<InputMessage<Message>> {
    Instruction::Data(InputMessage { sender: PartyIndex(sender), body })
}

#[test]
fn driver_collects_until_the_round_is_complete() {
    let mut state = AckRound::Ack;
    assert!(matches!(state.start().as_deref(), Some([Message::Ack])));
    let mut buffer = Vec::new();
    assert!(matches!(feed(&state, &mut buffer, data(2, Message::Ack)), Progress::Waiting));
    assert_eq!(buffer.len(), 1);
    assert!(matches!(feed(&state, &mut buffer, data(1, Message::Ack)), Progress::Waiting));
    assert_eq!(buffer.len(), 2);
    match feed(&state, &mut buffer, data(3, Message::Ack)) {
        Progress::Moved(Transition::NewState(next)) => {
            assert!(matches!(next, AckRound::FinalAck));
            state = next;
        }
        _ => panic!("the round was complete"),
    }
    assert!(buffer.is_empty());

    for sender in [3, 1] {
        let progress = feed(&state, &mut buffer, data(sender, Message::FinalAck));
        assert!(matches!(progress, Progress::Waiting));
    }
    match feed(&state, &mut buffer, data(2, Message::FinalAck)) {
        Progress::Moved(Transition::FinalState(result)) => {
            assert_eq!(result, Ok(vec![3, 1, 2]));
        }
        _ => panic!("the protocol was at its end"),
    }
    assert!(buffer.is_empty());
}

#[test]
fn driver_drops_what_the_state_does_not_expect() {
    let state = AckRound::Ack;
    let mut buffer = Vec::new();
    feed(&state, &mut buffer, data(2, Message::Ack));
    // A duplicate, a message of another round, and a stranger.
    for unexpected in [data(2, Message::Ack), data(1, Message::FinalAck), data(7, Message::Ack)] {
        assert!(matches!(feed(&state, &mut buffer, unexpected), Progress::Waiting));
        assert_eq!(buffer.len(), 1);
        assert_eq!(buffer[0].sender, PartyIndex(2));
    }
}

#[test]
fn driver_is_cancelled_by_terminate() {
    let state = AckRound::Ack;
    let mut buffer = Vec::new();
    deliver(&mut buffer, &PARTIES, 4, InputMessage { sender: PartyIndex(1), body: Message::Ack });
    assert!(matches!(feed(&state, &mut buffer, Instruction::Terminate), Progress::Cancelled));
    assert_eq!(buffer.len(), 1);
}

#[test]
fn states_wait_for_ever_unless_they_say_otherwise() {
    assert_eq!(AckRound::Ack.timeout(), None::<Duration>);
    assert_eq!(AckRound::Ack.timeout_outcome(vec![]), Err("0 of 3 delivered".to_string()));
}

#[test]
fn terminate_is_the_cancelled_error() {
    assert!(matches!(Instruction::Data(5u8).into_data(), Ok(5)));
    assert!(matches!(Instruction::<u8>::Terminate.into_data(), Err(KeygenError::Cancelled)));
}
