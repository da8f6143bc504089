use bluster::gatt::admission::{
    settles, Admission, AdmissionAction, AdmissionEvent, AdmissionState,
};
use bluster::gatt::event::{read_request, Submission};
use bluster::GattError;

#[test]
fn tickets_count_from_zero() {
    let mut door = Admission::new();
    assert_eq!(door.step(AdmissionEvent::Arrived), AdmissionAction::Ticket(0));
    assert_eq!(door.step(AdmissionEvent::Arrived), AdmissionAction::Ticket(1));
    assert_eq!(door.step(AdmissionEvent::Arrived), AdmissionAction::Ticket(2));
    assert_eq!(door.state(), AdmissionState { issued: 3, settled: 0, offered: false });
}

#[test]
fn later_request_waits_for_the_earlier_one() {
    let mut door = Admission::new();
    door.step(AdmissionEvent::Arrived);
    door.step(AdmissionEvent::Arrived);
    assert_eq!(door.step(AdmissionEvent::Asked(1)), AdmissionAction::Wait);
    assert_eq!(door.step(AdmissionEvent::Asked(0)), AdmissionAction::Offer);
    assert_eq!(door.step(AdmissionEvent::Asked(1)), AdmissionAction::Wait);
    assert_eq!(door.step(AdmissionEvent::Settled(0)), AdmissionAction::Nothing);
    assert_eq!(door.step(AdmissionEvent::Asked(1)), AdmissionAction::Offer);
    assert_eq!(door.state(), AdmissionState { issued: 2, settled: 1, offered: true });
}

#[test]
fn request_that_found_the_channel_full_keeps_its_turn() {
    let mut door = Admission::new();
    door.step(AdmissionEvent::Arrived);
    door.step(AdmissionEvent::Arrived);
    assert_eq!(door.step(AdmissionEvent::Asked(0)), AdmissionAction::Offer);
    assert!(!settles(&Submission::Retry));
    assert_eq!(door.step(AdmissionEvent::Asked(1)), AdmissionAction::Wait);
    assert_eq!(door.step(AdmissionEvent::Asked(0)), AdmissionAction::Offer);
    assert!(settles(&Submission::Failed(GattError::ChannelClosed)));
    door.step(AdmissionEvent::Settled(0));
    assert_eq!(door.step(AdmissionEvent::Asked(1)), AdmissionAction::Offer);
}

#[test]
fn taken_request_settles() {
    let (_event, pending) = read_request();
    assert!(settles(&Submission::Taken(pending)));
}

#[test]
fn only_the_request_in_turn_is_settled_and_only_after_it_was_let_through() {
    let mut door = Admission::new();
    door.step(AdmissionEvent::Arrived);
    door.step(AdmissionEvent::Arrived);
    door.step(AdmissionEvent::Settled(0));
    assert_eq!(door.state().settled, 0);
    door.step(AdmissionEvent::Settled(1));
    assert_eq!(door.state().settled, 0);
    door.step(AdmissionEvent::Asked(0));
    door.step(AdmissionEvent::Settled(1));
    assert_eq!(door.state().settled, 0);
    door.step(AdmissionEvent::Settled(0));
    assert_eq!(door.state().settled, 1);
    door.step(AdmissionEvent::Settled(0));
    assert_eq!(door.state().settled, 1);
}

#[test]
fn unknown_and_settled_tickets_are_told_nothing() {
    let mut door = Admission::new();
    assert_eq!(door.step(AdmissionEvent::Asked(0)), AdmissionAction::Nothing);
    door.step(AdmissionEvent::Arrived);
    assert_eq!(door.step(AdmissionEvent::Asked(1)), AdmissionAction::Nothing);
    door.step(AdmissionEvent::Asked(0));
    door.step(AdmissionEvent::Settled(0));
    assert_eq!(door.step(AdmissionEvent::Asked(0)), AdmissionAction::Nothing);
}

#[test]
fn requests_are_let_through_in_the_order_of_arrival() {
    let mut door = Admission::new();
    for _ in 0..5 {
        door.step(AdmissionEvent::Arrived);
    }
    let mut let_through = Vec::new();
    let asking = [4u64, 2, 0, 3, 1, 0, 4, 1, 3, 2, 2, 4, 3, 3, 4, 4];
    for ticket in asking {
        if door.step(AdmissionEvent::Asked(ticket)) == AdmissionAction::Offer {
            let_through.push(ticket);
            door.step(AdmissionEvent::Settled(ticket));
        }
    }
    assert_eq!(let_through, vec![0, 1, 2, 3, 4]);
}
