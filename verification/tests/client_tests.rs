use two_phase_commit::client::Client;
use two_phase_commit::message::{MessageType, ProtocolMessage};

fn result(t: MessageType, txid: &str) -> ProtocolMessage {
    ProtocolMessage::instantiate(t, 1, txid.to_string(), "client_0".to_string(), 1)
}

#[test]
fn new_client_is_named_and_empty() {
    let c = Client::new("0".to_string());
    assert_eq!(c.id_str, "client_0");
    assert_eq!(c.num_requests, 0);
    assert_eq!((c.successful_ops, c.failed_ops, c.unknown_ops), (0, 0, 0));
}

#[test]
fn send_next_operation_numbers_requests() {
    let mut c = Client::new("3".to_string());
    let m1 = c.send_next_operation();
    assert_eq!(m1.mtype, MessageType::ClientRequest);
    assert_eq!(m1.txid, "client_3_op_1");
    assert_eq!(m1.senderid, "client_3");
    assert_eq!(m1.opid, 1);
    assert_eq!(c.unknown_ops, 1);
    let m2 = c.send_next_operation();
    assert_eq!(m2.txid, "client_3_op_2");
    assert_ne!(m1.txid, m2.txid);
    assert_eq!(c.num_requests, 2);
    assert_eq!(c.unknown_ops, 2);
}

#[test]
fn recv_result_counts_each_kind() {
    let mut c = Client::new("0".to_string());
    c.send_next_operation();
    c.recv_result(result(MessageType::ClientResultCommit, "client_0_op_1"));
    assert_eq!((c.successful_ops, c.failed_ops, c.unknown_ops), (1, 0, 0));
    c.send_next_operation();
    c.recv_result(result(MessageType::ClientResultAbort, "client_0_op_2"));
    assert_eq!((c.successful_ops, c.failed_ops, c.unknown_ops), (1, 1, 0));
    c.send_next_operation();
    c.recv_result(result(MessageType::ClientResultAbort, "client_0_op_3_unknown"));
    assert_eq!((c.successful_ops, c.failed_ops, c.unknown_ops), (1, 2, 1));
    // committed + aborted add up to the requests, the unknown among the aborted
    assert_eq!(c.successful_ops + c.failed_ops, c.num_requests as u64);
    assert!(c.unknown_ops <= c.failed_ops);
}

#[test]
fn recv_result_ignores_other_messages() {
    let mut c = Client::new("0".to_string());
    c.send_next_operation();
    c.recv_result(result(MessageType::CoordinatorPropose, "client_0_op_1"));
    assert_eq!((c.successful_ops, c.failed_ops, c.unknown_ops), (0, 0, 1));
}

#[test]
fn protocol_issues_n_more_requests_one_at_a_time() {
    let mut c = Client::new("1".to_string());
    c.send_next_operation();
    c.recv_result(result(MessageType::ClientResultCommit, "client_1_op_1"));
    c.send_next_operation();
    c.recv_result(result(MessageType::ClientResultCommit, "client_1_op_2"));
    // two requests issued already: a run of one more still issues one
    c.protocol(1);
    let m = c.next_request(true).unwrap();
    assert_eq!(m.txid, "client_1_op_3");
    assert_eq!(m.opid, 3);
    assert!(c.awaiting_result);
    // no second request while the result is awaited
    assert!(c.next_request(true).is_none());
    assert_eq!(c.num_requests, 3);
    c.recv_result(result(MessageType::ClientResultAbort, "client_1_op_3"));
    assert!(!c.awaiting_result);
    assert!(c.next_request(true).is_none());
    assert_eq!(c.num_requests, 3);
    assert_eq!((c.successful_ops, c.failed_ops, c.unknown_ops), (2, 1, 0));
}

#[test]
fn protocol_run_of_three_from_fresh() {
    let mut c = Client::new("0".to_string());
    c.protocol(3);
    let mut txids = Vec::new();
    while let Some(m) = c.next_request(true) {
        txids.push(m.txid.clone());
        let t = if m.opid == 2 { MessageType::ClientResultAbort } else { MessageType::ClientResultCommit };
        c.recv_result(result(t, &m.txid));
    }
    assert_eq!(txids, vec!["client_0_op_1", "client_0_op_2", "client_0_op_3"]);
    assert_eq!(c.num_requests, 3);
    assert_eq!(c.successful_ops + c.failed_ops, 3);
    assert_eq!(c.remaining, 0);
}

#[test]
fn protocol_stops_when_interrupted() {
    let mut c = Client::new("1".to_string());
    c.protocol(5);
    assert!(c.next_request(false).is_none());
    assert_eq!(c.remaining, 0);
    assert!(c.next_request(true).is_none());
    assert_eq!(c.num_requests, 0);
    assert_eq!(c.unknown_ops, 0);
}

#[test]
fn client_waits_for_exit_signal_or_interrupt() {
    let c = Client::new("1".to_string());
    assert!(!c.wait_for_exit_signal(true, None));
    assert!(!c.wait_for_exit_signal(true, Some(MessageType::ClientRequest)));
    assert!(c.wait_for_exit_signal(true, Some(MessageType::CoordinatorExit)));
    assert!(c.wait_for_exit_signal(false, None));
}

#[test]
fn client_report_status_line() {
    let mut c = Client::new("0".to_string());
    c.send_next_operation();
    c.recv_result(result(MessageType::ClientResultCommit, "client_0_op_1"));
    assert_eq!(
        c.report_status(),
        "client_0        :\tCommitted:      1\tAborted:      0\tUnknown:      0"
    );
}
