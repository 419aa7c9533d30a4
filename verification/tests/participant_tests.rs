use two_phase_commit::message::{MessageType, ProtocolMessage};
use two_phase_commit::participant::{Participant, ParticipantState};

fn msg(t: MessageType, txid: &str) -> ProtocolMessage {
    ProtocolMessage::instantiate(t, 1, txid.to_string(), "client_0".to_string(), 1)
}

#[test]
fn new_participant_is_named_and_quiescent() {
    let p = Participant::new("4".to_string(), 10);
    assert_eq!(p.id_str(), "participant_4");
    assert_eq!(p.state(), ParticipantState::Quiescent);
    assert_eq!((p.successful_ops(), p.failed_ops(), p.unknown_ops()), (0, 0, 0));
    assert_eq!(p.num_requests(), 0);
}

#[test]
fn perform_operation_votes_by_outcome() {
    let p = Participant::new("0".to_string(), 2);
    let req = msg(MessageType::CoordinatorPropose, "client_0_op_1");
    let v = p.perform_operation(&req, true);
    assert_eq!(v.mtype, MessageType::ParticipantVoteCommit);
    assert_eq!(v.txid, "client_0_op_1");
    let v = p.perform_operation(&req, false);
    assert_eq!(v.mtype, MessageType::ParticipantVoteAbort);
    assert_eq!(p.state(), ParticipantState::Quiescent);
}

#[test]
fn send_passes_vote_only_when_delivered() {
    let p = Participant::new("0".to_string(), 2);
    let v = msg(MessageType::ParticipantVoteCommit, "client_0_op_1");
    let sent = p.send(v, true).unwrap();
    assert_eq!(sent.mtype, MessageType::ParticipantVoteCommit);
    let v = msg(MessageType::ParticipantVoteCommit, "client_0_op_1");
    assert!(p.send(v, false).is_none());
    assert_eq!(p.state(), ParticipantState::Quiescent);
}

#[test]
fn vote_on_proposal_votes_sends_and_awaits() {
    let mut p = Participant::new("0".to_string(), 2);
    let req = msg(MessageType::CoordinatorPropose, "client_0_op_1");
    let (vote, sent) = p.vote_on_proposal(&req, true, true);
    assert_eq!(vote.mtype, MessageType::ParticipantVoteCommit);
    assert_eq!(sent.unwrap().mtype, MessageType::ParticipantVoteCommit);
    assert_eq!(p.state(), ParticipantState::AwaitingGlobalDecision);
    let (vote, sent) = p.vote_on_proposal(&req, false, false);
    assert_eq!(vote.mtype, MessageType::ParticipantVoteAbort);
    assert!(sent.is_none());
    assert_eq!(p.state(), ParticipantState::AwaitingGlobalDecision);
}

#[test]
fn receive_decision_counts_and_logs() {
    let mut p = Participant::new("0".to_string(), 5);
    let r = p.receive_decision(&msg(MessageType::CoordinatorCommit, "client_0_op_1"));
    assert_eq!(r.unwrap().mtype, MessageType::CoordinatorCommit);
    let r = p.receive_decision(&msg(MessageType::CoordinatorAbort, "client_0_op_2"));
    assert_eq!(r.unwrap().txid, "client_0_op_2");
    let r = p.receive_decision(&msg(MessageType::CoordinatorAbort, "client_0_op_3_unknown"));
    assert!(r.is_none());
    assert_eq!((p.successful_ops(), p.failed_ops(), p.unknown_ops()), (1, 2, 1));
    assert_eq!(p.num_requests(), 3);
    assert_eq!(p.state(), ParticipantState::Quiescent);
    let r = p.receive_decision(&msg(MessageType::ClientRequest, "x"));
    assert!(r.is_none());
    assert_eq!((p.successful_ops(), p.failed_ops(), p.unknown_ops()), (1, 2, 1));
    assert_eq!(p.num_requests(), 4);
}

#[test]
fn participant_protocol_runs_to_total() {
    let mut p = Participant::new("0".to_string(), 1);
    assert!(p.protocol(true));
    assert!(!p.protocol(false));
    p.receive_decision(&msg(MessageType::CoordinatorCommit, "client_0_op_1"));
    assert!(!p.protocol(true));
}

#[test]
fn participant_waits_for_exit_signal_or_interrupt() {
    let p = Participant::new("0".to_string(), 1);
    assert!(!p.wait_for_exit_signal(true, Some(MessageType::CoordinatorCommit)));
    assert!(p.wait_for_exit_signal(true, Some(MessageType::CoordinatorExit)));
    assert!(p.wait_for_exit_signal(false, None));
}

#[test]
fn participant_report_status_line() {
    let mut p = Participant::new("3".to_string(), 3);
    p.receive_decision(&msg(MessageType::CoordinatorAbort, "client_0_op_3_unknown"));
    assert_eq!(
        p.report_status(),
        "participant_3   :\tCommitted:      0\tAborted:      1\tUnknown:      1"
    );
}
