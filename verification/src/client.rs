//! The client side of the protocol: it issues requests one at a time and counts
//! how they ended.
use crate::message::{marks_unknown, MessageType, MessageView, ProtocolMessage};
use crate::tally::Tally;
use crate::text::{decimal, push_decimal, status_line, status_text};
use vstd::prelude::*;

verus! {

/// A client and the counts of its requests.
pub struct Client {
    pub id_str: String,
    pub num_requests: u32,
    pub successful_ops: u64,
    pub failed_ops: u64,
    pub unknown_ops: u64,
    /// How many requests the protocol run under way has yet to issue.
    pub remaining: u32,
    /// A request was issued and its result has not arrived yet.
    pub awaiting_result: bool,
}

/// The mathematical value of a client.
pub struct ClientView {
    pub id: Seq<char>,
    pub num_requests: nat,
    pub tally: Tally,
    pub remaining: nat,
    pub awaiting: bool,
}

impl View for Client {
    type V = ClientView;

    open spec fn view(&self) -> ClientView {
        ClientView {
            id: self.id_str@,
            num_requests: self.num_requests as nat,
            tally: self.tally(),
            remaining: self.remaining as nat,
            awaiting: self.awaiting_result,
        }
    }
}

/// What every client's name begins with.
pub open spec fn client_prefix() -> Seq<char> {
    seq!['c', 'l', 'i', 'e', 'n', 't', '_']
}

/// What separates a client's name from the request number in a transaction id.
pub open spec fn op_separator() -> Seq<char> {
    seq!['_', 'o', 'p', '_']
}

/// The transaction id of request number `n` of the client named `id`.
pub open spec fn request_txid(id: Seq<char>, n: nat) -> Seq<char> {
    id + op_separator() + decimal(n)
}

/// The message with which the client named `id` issues its request number `n`.
pub open spec fn request_message(id: Seq<char>, n: u32) -> MessageView {
    MessageView {
        mtype: MessageType::ClientRequest,
        uid: n,
        txid: request_txid(id, n as nat),
        senderid: id,
        opid: n,
    }
}

/// Receiving `m` leaves every count of `t` within `u64`.
pub open spec fn result_fits(t: Tally, m: MessageView) -> bool {
    &&& m.mtype == MessageType::ClientResultCommit ==> t.committed < u64::MAX && t.unknown > 0
    &&& m.mtype == MessageType::ClientResultAbort ==> t.aborted < u64::MAX && (!marks_unknown(
        m.txid,
    ) ==> t.unknown > 0)
}

impl ClientView {
    /// No more requests are unknown than were issued, and the run under way
    /// cannot take the request count past `u32`.
    pub open spec fn wf(self) -> bool {
        &&& 0 <= self.tally.unknown <= self.num_requests
        &&& 0 <= self.tally.committed
        &&& 0 <= self.tally.aborted
        &&& self.num_requests + self.remaining <= u32::MAX
    }

    /// The message of the client's next request.
    pub open spec fn next_message(self) -> MessageView {
        request_message(self.id, (self.num_requests + 1) as u32)
    }

    /// After issuing the next request.
    pub open spec fn sent(self) -> ClientView {
        ClientView {
            num_requests: self.num_requests + 1,
            tally: self.tally.after_request(),
            ..self
        }
    }

    /// After receiving `m` as the result of the request under way.
    pub open spec fn received(self, m: MessageView) -> ClientView {
        ClientView { tally: self.tally.after_client_result(m), awaiting: false, ..self }
    }

    /// After starting a protocol run of `n` requests.
    pub open spec fn started(self, n: nat) -> ClientView {
        ClientView { remaining: n, ..self }
    }

    /// One turn of the protocol run: while a result is awaited, nothing; once
    /// the run is interrupted, it ends; else the next request goes out, if the
    /// run has one left.
    pub open spec fn issue(self, running: bool) -> (ClientView, Option<MessageView>) {
        if self.awaiting {
            (self, None)
        } else if !running {
            (ClientView { remaining: 0, ..self }, None)
        } else if self.remaining == 0 {
            (self, None)
        } else {
            (
                ClientView {
                    remaining: (self.remaining - 1) as nat,
                    awaiting: true,
                    ..self.sent()
                },
                Some(self.next_message()),
            )
        }
    }
}

impl Client {
    /// The counts as integers.
    pub open spec fn tally(&self) -> Tally {
        Tally {
            committed: self.successful_ops as int,
            aborted: self.failed_ops as int,
            unknown: self.unknown_ops as int,
        }
    }

    /// A client named `client_<id_str>` that has issued nothing yet.
    pub fn new(id_str: String) -> (c: Client)
        ensures
            c@ == (ClientView {
                id: client_prefix() + id_str@,
                num_requests: 0,
                tally: Tally::zero(),
                remaining: 0,
                awaiting: false,
            }),
            c@.wf(),
    {
        let mut name = String::from_str("client_");
        name.append(id_str.as_str());
        proof {
            reveal_strlit("client_");
            assert("client_"@ =~= client_prefix());
        }
        Client {
            id_str: name,
            num_requests: 0,
            successful_ops: 0,
            failed_ops: 0,
            unknown_ops: 0,
            remaining: 0,
            awaiting_result: false,
        }
    }

    /// Issues the next request: numbers it, counts it as unknown until its result
    /// arrives, and returns the message to send to the coordinator.
    pub fn send_next_operation(&mut self) -> (pm: ProtocolMessage)
        requires
            old(self)@.wf(),
            old(self)@.num_requests + old(self)@.remaining < u32::MAX,
        ensures
            final(self)@ == old(self)@.sent(),
            final(self)@.wf(),
            pm@ == old(self)@.next_message(),
    {
        self.num_requests = self.num_requests + 1;
        let mut txid = self.id_str.clone();
        txid.append("_op_");
        push_decimal(&mut txid, self.num_requests as u64);
        proof {
            reveal_strlit("_op_");
            assert("_op_"@ =~= op_separator());
        }
        let pm = ProtocolMessage::generate(
            MessageType::ClientRequest,
            txid,
            self.id_str.clone(),
            self.num_requests,
        );
        self.unknown_ops = self.unknown_ops + 1;
        pm
    }

    /// Counts the result the coordinator sent for the request under way.
    pub fn recv_result(&mut self, result: ProtocolMessage)
        requires
            old(self)@.wf(),
            result_fits(old(self).tally(), result@),
        ensures
            final(self)@ == old(self)@.received(result@),
            final(self)@.wf(),
    {
        if result.mtype == MessageType::ClientResultCommit {
            self.successful_ops = self.successful_ops + 1;
            self.unknown_ops = self.unknown_ops - 1;
        }
        if result.mtype == MessageType::ClientResultAbort {
            self.failed_ops = self.failed_ops + 1;
            if !result.is_marked_unknown() {
                self.unknown_ops = self.unknown_ops - 1;
            }
        }
        self.awaiting_result = false;
    }

    /// Starts the client's protocol run of `n_requests` requests, issued one at
    /// a time by `next_request`.
    pub fn protocol(&mut self, n_requests: u32)
        requires
            old(self)@.wf(),
            old(self)@.num_requests + n_requests <= u32::MAX,
        ensures
            final(self)@ == old(self)@.started(n_requests as nat),
            final(self)@.wf(),
    {
        self.remaining = n_requests;
    }

    /// One turn of the protocol run: the next request to send, if the run has
    /// one left, is still going, and no result is awaited. `None` means the run
    /// is over (or a result is awaited), and the client goes on to wait for the
    /// exit signal.
    pub fn next_request(&mut self, running: bool) -> (next: Option<ProtocolMessage>)
        requires
            old(self)@.wf(),
        ensures
            final(self)@ == old(self)@.issue(running).0,
            next is Some <==> old(self)@.issue(running).1 is Some,
            next is Some ==> next->0@ == old(self)@.issue(running).1->0,
            final(self)@.wf(),
    {
        if self.awaiting_result {
            None
        } else if !running {
            self.remaining = 0;
            None
        } else if self.remaining == 0 {
            None
        } else {
            self.remaining = self.remaining - 1;
            let pm = self.send_next_operation();
            self.awaiting_result = true;
            Some(pm)
        }
    }

    /// Whether the wait for the exit signal is over: the run was interrupted, or
    /// the message just received is the coordinator's exit signal.
    pub fn wait_for_exit_signal(&self, running: bool, received: Option<MessageType>) -> (done:
        bool)
        ensures
            done == (!running || received == Some(MessageType::CoordinatorExit)),
    {
        !running || match received {
            Some(t) => t == MessageType::CoordinatorExit,
            None => false,
        }
    }

    /// The status line the client prints when it exits.
    pub fn report_status(&self) -> (line: String)
        ensures
            line@ == status_text(
                self.id_str@,
                self.successful_ops as nat,
                self.failed_ops as nat,
                self.unknown_ops as nat,
            ),
    {
        status_line(self.id_str.as_str(), self.successful_ops, self.failed_ops, self.unknown_ops)
    }
}

} // verus!
