use two_phase_commit::client::Client;
use two_phase_commit::coordinator::{
    Coordinator, CoordinatorAction, CoordinatorCommand, CoordinatorEvent, CoordinatorState,
    VoteOutcome,
};
use two_phase_commit::message::{MessageType, ProtocolMessage};
use two_phase_commit::participant::Participant;

fn setup(total: u32, clients: &[&str], participants: &[&str]) -> Coordinator {
    let mut c = Coordinator::new(total);
    for name in clients {
        c.client_join(&name.to_string());
    }
    for name in participants {
        c.participant_join(&name.to_string());
    }
    c
}

fn request(client: &str, n: u32) -> ProtocolMessage {
    ProtocolMessage::instantiate(
        MessageType::ClientRequest,
        n,
        format!("{}_op_{}", client, n),
        client.to_string(),
        n,
    )
}

fn expect_receive(a: &CoordinatorAction, who: &str) {
    match &a.next {
        CoordinatorCommand::ReceiveRequest(n) => assert_eq!(n, who),
        _ => panic!("expected to receive from {}", who),
    }
}

fn expect_vote(a: &CoordinatorAction, who: &str) {
    match &a.next {
        CoordinatorCommand::CollectVote(n) => assert_eq!(n, who),
        _ => panic!("expected to collect a vote from {}", who),
    }
}

fn vote_commit() -> CoordinatorEvent {
    CoordinatorEvent::Vote(VoteOutcome::Received(MessageType::ParticipantVoteCommit))
}

#[test]
fn joins_ignore_duplicate_names() {
    let mut c = setup(0, &["client_0", "client_1"], &["participant_0"]);
    c.client_join(&"client_0".to_string());
    c.participant_join(&"participant_0".to_string());
    assert_eq!(c.num_clients(), 2);
    assert_eq!(c.num_participants(), 1);
    assert_eq!(c.state(), CoordinatorState::Quiescent);
}

#[test]
fn send_client_message_only_to_registered_clients() {
    let c = setup(1, &["client_0"], &[]);
    assert!(c.send_client_message(request("client_0", 1)).is_some());
    assert!(c.send_client_message(request("client_9", 1)).is_none());
    let exits = c.send_client_message_exit(&ProtocolMessage::exit());
    assert_eq!(exits.len(), 1);
    assert_eq!(exits[0].senderid, "client_0");
    assert_eq!(exits[0].mtype, MessageType::CoordinatorExit);
}

#[test]
fn unanimous_commit_round_then_exit() {
    let mut c = setup(1, &["client_0"], &["participant_0", "participant_1"]);
    let a = c.protocol(CoordinatorEvent::Running(true));
    expect_receive(&a, "client_0");
    let a = c.protocol(CoordinatorEvent::Request(request("client_0", 1)));
    assert_eq!(a.log.len(), 1);
    assert_eq!(a.log[0].mtype, MessageType::CoordinatorPropose);
    assert_eq!(a.to_participants.len(), 1);
    assert_eq!(a.to_participants[0].mtype, MessageType::CoordinatorPropose);
    assert_eq!(a.to_participants[0].txid, "client_0_op_1");
    assert_eq!(c.state(), CoordinatorState::ProposalSent);
    assert_eq!(c.unknown_ops(), 1);
    expect_vote(&a, "participant_0");
    let a = c.protocol(vote_commit());
    expect_vote(&a, "participant_1");
    assert!(a.to_participants.is_empty());
    let a = c.protocol(vote_commit());
    assert_eq!(a.log.len(), 1);
    assert_eq!(a.log[0].mtype, MessageType::CoordinatorCommit);
    assert_eq!(a.to_participants[0].mtype, MessageType::CoordinatorCommit);
    assert_eq!(a.to_clients.len(), 1);
    assert_eq!(a.to_clients[0].mtype, MessageType::ClientResultCommit);
    assert_eq!(a.to_clients[0].senderid, "client_0");
    assert!(matches!(a.next, CoordinatorCommand::CheckRunning));
    assert_eq!(c.state(), CoordinatorState::Quiescent);
    assert_eq!((c.successful_ops(), c.failed_ops(), c.unknown_ops()), (1, 0, 0));
    // every request decided: the exit signal goes to everyone
    let a = c.protocol(CoordinatorEvent::Running(true));
    assert_eq!(a.to_participants.len(), 1);
    assert_eq!(a.to_participants[0].mtype, MessageType::CoordinatorExit);
    assert_eq!(a.to_clients.len(), 1);
    assert_eq!(a.to_clients[0].senderid, "client_0");
    assert!(a.log.is_empty());
    let a = c.protocol(CoordinatorEvent::Running(true));
    assert!(matches!(a.next, CoordinatorCommand::Stop));
    let a = c.protocol(CoordinatorEvent::Running(true));
    assert!(matches!(a.next, CoordinatorCommand::Stop));
}

#[test]
fn one_abort_vote_aborts() {
    let mut c = setup(1, &["client_0"], &["participant_0", "participant_1"]);
    c.protocol(CoordinatorEvent::Running(true));
    c.protocol(CoordinatorEvent::Request(request("client_0", 1)));
    c.protocol(CoordinatorEvent::Vote(VoteOutcome::Received(MessageType::ParticipantVoteAbort)));
    let a = c.protocol(vote_commit());
    assert_eq!(a.log[0].mtype, MessageType::CoordinatorAbort);
    assert_eq!(a.to_participants[0].mtype, MessageType::CoordinatorAbort);
    assert_eq!(a.to_participants[0].txid, "client_0_op_1");
    assert_eq!(a.to_clients[0].mtype, MessageType::ClientResultAbort);
    assert_eq!((c.successful_ops(), c.failed_ops(), c.unknown_ops()), (0, 1, 0));
}

#[test]
fn missing_vote_aborts_as_unknown() {
    let mut c = setup(1, &["client_0"], &["participant_0", "participant_1"]);
    c.protocol(CoordinatorEvent::Running(true));
    c.protocol(CoordinatorEvent::Request(request("client_0", 1)));
    c.protocol(vote_commit());
    let a = c.protocol(CoordinatorEvent::Vote(VoteOutcome::TimedOut));
    assert!(a.log.is_empty());
    assert_eq!(a.to_participants[0].mtype, MessageType::CoordinatorAbort);
    assert_eq!(a.to_participants[0].txid, "client_0_op_1_unknown");
    assert_eq!(a.to_clients[0].mtype, MessageType::ClientResultAbort);
    assert_eq!(a.to_clients[0].txid, "client_0_op_1_unknown");
    assert_eq!((c.successful_ops(), c.failed_ops(), c.unknown_ops()), (0, 1, 1));
}

#[test]
fn interrupted_vote_aborts_without_unknown() {
    let mut c = setup(1, &["client_0"], &["participant_0"]);
    c.protocol(CoordinatorEvent::Running(true));
    c.protocol(CoordinatorEvent::Request(request("client_0", 1)));
    let a = c.protocol(CoordinatorEvent::Vote(VoteOutcome::Interrupted));
    assert_eq!(a.to_participants[0].mtype, MessageType::CoordinatorAbort);
    assert_eq!(a.to_participants[0].txid, "client_0_op_1");
    assert_eq!((c.successful_ops(), c.failed_ops(), c.unknown_ops()), (0, 1, 0));
}

#[test]
fn no_participants_commit_at_once() {
    let mut c = setup(1, &["client_0"], &[]);
    c.protocol(CoordinatorEvent::Running(true));
    let a = c.protocol(CoordinatorEvent::Request(request("client_0", 1)));
    assert_eq!(a.log.len(), 2);
    assert_eq!(a.log[0].mtype, MessageType::CoordinatorPropose);
    assert_eq!(a.log[1].mtype, MessageType::CoordinatorCommit);
    assert_eq!(a.to_clients[0].mtype, MessageType::ClientResultCommit);
    assert_eq!(c.successful_ops(), 1);
}

#[test]
fn round_visits_every_client_in_turn() {
    let mut c = setup(4, &["client_0", "client_1"], &["participant_0"]);
    for round in 1..=2u32 {
        let a = c.protocol(CoordinatorEvent::Running(true));
        expect_receive(&a, "client_0");
        c.protocol(CoordinatorEvent::Request(request("client_0", round)));
        let a = c.protocol(vote_commit());
        expect_receive(&a, "client_1");
        assert_eq!(c.state(), CoordinatorState::ReceivedVotesCommit);
        c.protocol(CoordinatorEvent::Request(request("client_1", round)));
        let a = c.protocol(vote_commit());
        assert!(matches!(a.next, CoordinatorCommand::CheckRunning));
    }
    let a = c.protocol(CoordinatorEvent::Running(true));
    assert_eq!(a.to_clients.len(), 2);
    assert_eq!(c.successful_ops() + c.failed_ops(), 4);
}

#[test]
fn interrupt_stops_and_unexpected_events_change_nothing() {
    let mut c = setup(2, &["client_0"], &["participant_0"]);
    let a = c.protocol(vote_commit());
    assert!(matches!(a.next, CoordinatorCommand::CheckRunning));
    assert!(a.log.is_empty() && a.to_participants.is_empty() && a.to_clients.is_empty());
    let a = c.protocol(CoordinatorEvent::Running(true));
    expect_receive(&a, "client_0");
    let a = c.protocol(CoordinatorEvent::Running(false));
    expect_receive(&a, "client_0");
    c.protocol(CoordinatorEvent::Request(request("client_0", 1)));
    c.protocol(vote_commit());
    let a = c.protocol(CoordinatorEvent::Running(false));
    assert!(matches!(a.next, CoordinatorCommand::Stop));
    let a = c.protocol(CoordinatorEvent::Request(request("client_0", 2)));
    assert!(matches!(a.next, CoordinatorCommand::Stop));
    assert_eq!(c.successful_ops(), 1);
}

#[test]
fn failed_receive_ends_the_run_quietly() {
    let mut c = setup(2, &["client_0", "client_1"], &["participant_0"]);
    c.protocol(CoordinatorEvent::Running(true));
    let a = c.protocol(CoordinatorEvent::ReceiveFailed);
    assert!(matches!(a.next, CoordinatorCommand::Stop));
    assert!(a.log.is_empty() && a.to_participants.is_empty() && a.to_clients.is_empty());
    assert_eq!((c.successful_ops(), c.failed_ops(), c.unknown_ops()), (0, 0, 0));
}

#[test]
fn failed_receive_is_ignored_outside_a_receive() {
    let mut c = setup(1, &["client_0"], &["participant_0"]);
    let a = c.protocol(CoordinatorEvent::ReceiveFailed);
    assert!(matches!(a.next, CoordinatorCommand::CheckRunning));
}

#[test]
fn coordinator_report_status_line() {
    let c = setup(0, &[], &[]);
    assert_eq!(
        c.report_status(),
        "coordinator     :\tCommitted:      0\tAborted:      0\tUnknown:      0"
    );
}

/// Runs one request through all three roles and checks that the counts stay in step.
fn exchange(votes: &[VoteOutcome]) -> (Coordinator, Vec<Participant>, Client) {
    let n = votes.len();
    let names: Vec<String> = (0..n).map(|i| format!("participant_{}", i)).collect();
    let mut c = Coordinator::new(1);
    c.client_join(&"client_0".to_string());
    for name in &names {
        c.participant_join(name);
    }
    let mut parts: Vec<Participant> = (0..n).map(|i| Participant::new(i.to_string(), 1)).collect();
    let mut client = Client::new("0".to_string());
    c.protocol(CoordinatorEvent::Running(true));
    client.protocol(1);
    let req = client.next_request(true).unwrap();
    let mut a = c.protocol(CoordinatorEvent::Request(req));
    for v in votes {
        a = c.protocol(CoordinatorEvent::Vote(*v));
    }
    for p in parts.iter_mut() {
        p.receive_decision(&a.to_participants[0]);
    }
    let result = a.to_clients.pop().unwrap();
    client.recv_result(result);
    (c, parts, client)
}

fn check_in_sync(c: &Coordinator, parts: &[Participant], client: &Client) {
    let counts = (c.successful_ops(), c.failed_ops(), c.unknown_ops());
    for p in parts {
        assert_eq!((p.successful_ops(), p.failed_ops(), p.unknown_ops()), counts);
    }
    assert_eq!((client.successful_ops, client.failed_ops, client.unknown_ops), counts);
    assert_eq!(counts.0 + counts.1, 1);
    assert!(counts.2 <= counts.1);
}

#[test]
fn counts_in_sync_on_commit() {
    let (c, parts, client) = exchange(&[
        VoteOutcome::Received(MessageType::ParticipantVoteCommit),
        VoteOutcome::Received(MessageType::ParticipantVoteCommit),
    ]);
    check_in_sync(&c, &parts, &client);
    assert_eq!(c.successful_ops(), 1);
}

#[test]
fn counts_in_sync_on_abort() {
    let (c, parts, client) = exchange(&[
        VoteOutcome::Received(MessageType::ParticipantVoteCommit),
        VoteOutcome::Received(MessageType::ParticipantVoteAbort),
    ]);
    check_in_sync(&c, &parts, &client);
    assert_eq!((c.failed_ops(), c.unknown_ops()), (1, 0));
}

#[test]
fn counts_in_sync_on_unknown() {
    let (c, parts, client) = exchange(&[
        VoteOutcome::TimedOut,
        VoteOutcome::Received(MessageType::ParticipantVoteCommit),
        VoteOutcome::Received(MessageType::ParticipantVoteAbort),
    ]);
    check_in_sync(&c, &parts, &client);
    assert_eq!((c.failed_ops(), c.unknown_ops()), (1, 1));
}
