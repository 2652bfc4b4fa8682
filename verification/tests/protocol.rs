use ecdsa_mpc::error::KeygenError;
use ecdsa_mpc::messages::resharing::Message;
use ecdsa_mpc::protocol::{
    check_admitted, contains_party, contains_sender, deliver, is_admitted, is_round_complete, missing_parties,
    timeout_error, InputMessage, OutputMessage, PartyIndex,
};

const ANNA: PartyIndex = PartyIndex(1);
const BEN: PartyIndex = PartyIndex(2);
const CLEO: PartyIndex = PartyIndex(3);

fn ack(sender: PartyIndex) -> InputMessage<Message> {
    InputMessage { sender, body: Message::Ack }
}

fn final_ack(sender: PartyIndex) -> InputMessage<Message> {
    InputMessage { sender, body: Message::FinalAck }
}

fn senders(buffer: &[InputMessage<Message>]) -> Vec<u64> {
    buffer.iter().map(|m| m.sender.0).collect()
}

#[test]
fn membership() {
    assert!(contains_party(&[ANNA, CLEO], CLEO));
    assert!(!contains_party(&[ANNA, CLEO], BEN));
    assert!(!contains_party(&[], BEN));
    assert!(contains_sender(&[ack(ANNA), ack(BEN)], BEN));
    assert!(!contains_sender(&[ack(ANNA), ack(BEN)], CLEO));
}

#[test]
fn admission_asks_for_round_sender_and_novelty() {
    let expected = [ANNA, BEN];
    let buffer = vec![ack(ANNA)];
    assert!(is_admitted(&buffer, &expected, 4, &ack(BEN)));
    // A duplicate.
    assert!(!is_admitted(&buffer, &expected, 4, &ack(ANNA)));
    // Another round.
    assert!(!is_admitted(&buffer, &expected, 4, &final_ack(BEN)));
    assert!(!is_admitted(&buffer, &expected, 5, &ack(BEN)));
    // A sender that the round does not wait for.
    assert!(!is_admitted(&buffer, &expected, 4, &ack(CLEO)));
}

#[test]
fn delivery_adds_what_is_admitted() {
    let expected = [ANNA, BEN, CLEO];
    let mut buffer = Vec::new();
    assert!(deliver(&mut buffer, &expected, 4, ack(BEN)));
    assert!(deliver(&mut buffer, &expected, 4, ack(ANNA)));
    assert_eq!(senders(&buffer), vec![2, 1]);
    assert!(!deliver(&mut buffer, &expected, 4, final_ack(CLEO)));
    assert!(!deliver(&mut buffer, &expected, 4, ack(PartyIndex(9))));
    assert_eq!(senders(&buffer), vec![2, 1]);
}

#[test]
fn second_delivery_of_a_sender_and_round_changes_nothing() {
    let expected = [ANNA, BEN, CLEO];
    for first in [ack(BEN), final_ack(BEN), ack(PartyIndex(9))] {
        let mut buffer = vec![ack(ANNA)];
        deliver(&mut buffer, &expected, 4, first.clone());
        let once = senders(&buffer);
        for _ in 0..3 {
            assert!(!deliver(&mut buffer, &expected, 4, first.clone()));
            assert_eq!(senders(&buffer), once);
        }
    }
}

#[test]
fn round_is_complete_when_all_have_delivered() {
    let expected = [ANNA, BEN, CLEO];
    let mut buffer = Vec::new();
    assert!(!is_round_complete(&buffer, &expected));
    deliver(&mut buffer, &expected, 4, ack(CLEO));
    deliver(&mut buffer, &expected, 4, ack(ANNA));
    assert!(!is_round_complete(&buffer, &expected));
    deliver(&mut buffer, &expected, 4, ack(BEN));
    assert!(is_round_complete(&buffer, &expected));
    assert!(is_round_complete(&buffer, &[]));
    assert!(is_round_complete::<Message>(&[], &[]));
}

#[test]
fn missing_parties_are_those_that_have_not_delivered() {
    let expected = [ANNA, BEN, CLEO];
    assert_eq!(missing_parties::<Message>(&[], &expected), vec![ANNA, BEN, CLEO]);
    assert_eq!(missing_parties(&[ack(BEN)], &expected), vec![ANNA, CLEO]);
    assert_eq!(missing_parties(&[ack(CLEO), ack(ANNA)], &expected), vec![BEN]);
    assert_eq!(missing_parties(&[ack(CLEO), ack(ANNA), ack(BEN)], &expected), vec![]);
}

#[test]
fn withheld_message_ends_in_a_timeout_that_names_the_party() {
    // CLEO withholds its message of round 2.
    let expected = [ANNA, BEN, CLEO];
    let buffer = vec![ack(ANNA), ack(BEN)];
    match timeout_error(2, &buffer, &expected) {
        KeygenError::Timeout { round, missing } => {
            assert_eq!(round, 2);
            assert_eq!(missing, vec![CLEO]);
        }
        _ => panic!("expected a timeout"),
    }
}

#[test]
fn output_without_receiver_is_a_broadcast() {
    let broadcast = OutputMessage { receiver: None, body: Message::Ack };
    let unicast = OutputMessage { receiver: Some(BEN), body: Message::FinalAck };
    assert!(broadcast.receiver.is_none());
    assert_eq!(unicast.receiver, Some(BEN));
    assert!(ANNA < BEN && BEN < CLEO);
}

#[test]
fn unexpected_message_names_its_sender() {
    let expected = [ANNA, BEN];
    let buffer = vec![ack(ANNA)];
    assert!(check_admitted(&buffer, &expected, 4, &ack(BEN)).is_ok());
    for unexpected in [ack(ANNA), final_ack(BEN), ack(CLEO)] {
        match check_admitted(&buffer, &expected, 4, &unexpected) {
            Err(KeygenError::UnexpectedMessage(party)) => assert_eq!(party, unexpected.sender),
            _ => panic!("expected the message to be refused"),
        }
    }
}
