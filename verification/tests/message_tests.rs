use two_phase_commit::message::{MessageType, ProtocolMessage, RequestStatus};
use two_phase_commit::tally::{client_result, decide_outcome, participant_decision};

fn proposal() -> ProtocolMessage {
    ProtocolMessage::instantiate(
        MessageType::CoordinatorPropose,
        3,
        String::from("client_1_op_3"),
        String::from("client_1"),
        3,
    )
}

#[test]
fn instantiate_and_generate_set_every_field() {
    let m = ProtocolMessage::instantiate(MessageType::ClientRequest, 9, "t".to_string(), "s".to_string(), 4);
    assert_eq!(m.mtype, MessageType::ClientRequest);
    assert_eq!(m.uid, 9);
    assert_eq!(m.txid, "t");
    assert_eq!(m.senderid, "s");
    assert_eq!(m.opid, 4);
    let g = ProtocolMessage::generate(MessageType::ClientRequest, "t".to_string(), "s".to_string(), 5);
    assert_eq!(g.uid, 5);
    assert_eq!(g.opid, 5);
}

#[test]
fn marking_unknown_appends_suffix() {
    let p = proposal();
    assert!(!p.is_marked_unknown());
    let m = p.marked_unknown(MessageType::CoordinatorAbort);
    assert_eq!(m.txid, "client_1_op_3_unknown");
    assert_eq!(m.mtype, MessageType::CoordinatorAbort);
    assert!(m.is_marked_unknown());
    assert_eq!(p.txid, "client_1_op_3");
}

#[test]
fn exit_message_is_blank() {
    let e = ProtocolMessage::exit();
    assert_eq!(e.mtype, MessageType::CoordinatorExit);
    assert_eq!(e.uid, 0);
    assert_eq!(e.txid, "");
    assert_eq!(e.senderid, "");
    assert_eq!(e.opid, 0);
}

#[test]
fn outcome_is_commit_only_when_all_vote_commit() {
    assert_eq!(decide_outcome(3, 3, false), RequestStatus::Committed);
    assert_eq!(decide_outcome(3, 3, true), RequestStatus::Committed);
    assert_eq!(decide_outcome(2, 3, false), RequestStatus::Aborted);
    assert_eq!(decide_outcome(2, 3, true), RequestStatus::Unknown);
    assert_eq!(decide_outcome(0, 0, false), RequestStatus::Committed);
}

#[test]
fn decision_messages_for_each_outcome() {
    let p = proposal();
    let c = participant_decision(&p, RequestStatus::Committed);
    assert_eq!(c.mtype, MessageType::CoordinatorCommit);
    assert_eq!(c.txid, "client_1_op_3");
    let a = participant_decision(&p, RequestStatus::Aborted);
    assert_eq!(a.mtype, MessageType::CoordinatorAbort);
    assert_eq!(a.txid, "client_1_op_3");
    let u = participant_decision(&p, RequestStatus::Unknown);
    assert_eq!(u.mtype, MessageType::CoordinatorAbort);
    assert_eq!(u.txid, "client_1_op_3_unknown");
    let rc = client_result(&p, RequestStatus::Committed);
    assert_eq!(rc.mtype, MessageType::ClientResultCommit);
    let ra = client_result(&p, RequestStatus::Aborted);
    assert_eq!(ra.mtype, MessageType::ClientResultAbort);
    assert_eq!(ra.txid, "client_1_op_3");
    let ru = client_result(&p, RequestStatus::Unknown);
    assert_eq!(ru.mtype, MessageType::ClientResultAbort);
    assert_eq!(ru.txid, "client_1_op_3_unknown");
    assert_eq!(ru.senderid, "client_1");
}
