//! The participant side of the protocol: it votes on each proposal and applies
//! the coordinator's global decision.
use crate::message::{MessageType, ProtocolMessage};
use crate::tally::Tally;
use crate::text::{status_line, status_text};
use vstd::prelude::*;

verus! {

/// States of the participant's two-phase-commit state machine.
#[derive(Clone, Copy, Debug, PartialEq, Eq, Structural)]
pub enum ParticipantState {
    Quiescent,
    ReceivedP1,
    VotedAbort,
    VotedCommit,
    AwaitingGlobalDecision,
}

/// A participant and the counts of the transactions it took part in.
pub struct Participant {
    id_str: String,
    state: ParticipantState,
    successful_ops: u64,
    failed_ops: u64,
    unknown_ops: u64,
    total_num_requests: u32,
    num_requests: u32,
}

/// The mathematical value of a participant.
pub struct ParticipantView {
    pub id: Seq<char>,
    pub state: ParticipantState,
    pub tally: Tally,
    /// How many proposals the run holds in all.
    pub total: nat,
    /// How many proposals this participant has seen decided.
    pub num_requests: nat,
}

/// What every participant's name begins with.
pub open spec fn participant_prefix() -> Seq<char> {
    seq!['p', 'a', 'r', 't', 'i', 'c', 'i', 'p', 'a', 'n', 't', '_']
}

impl ParticipantView {
    /// Every decided proposal is counted at most once, and the unknown
    /// transactions are among the aborted ones.
    pub open spec fn wf(self) -> bool {
        &&& 0 <= self.tally.unknown <= self.tally.aborted
        &&& 0 <= self.tally.committed
        &&& self.tally.committed + self.tally.aborted <= self.num_requests
        &&& self.num_requests <= self.total
    }
}

impl View for Participant {
    type V = ParticipantView;

    closed spec fn view(&self) -> ParticipantView {
        ParticipantView {
            id: self.id_str@,
            state: self.state,
            tally: Tally {
                committed: self.successful_ops as int,
                aborted: self.failed_ops as int,
                unknown: self.unknown_ops as int,
            },
            total: self.total_num_requests as nat,
            num_requests: self.num_requests as nat,
        }
    }
}

impl Participant {
    /// A participant named `participant_<id_str>` in a run of `total_num_requests`
    /// proposals.
    pub fn new(id_str: String, total_num_requests: u32) -> (p: Participant)
        ensures
            p@ == (ParticipantView {
                id: participant_prefix() + id_str@,
                state: ParticipantState::Quiescent,
                tally: Tally::zero(),
                total: total_num_requests as nat,
                num_requests: 0,
            }),
            p@.wf(),
    {
        let mut name = String::from_str("participant_");
        name.append(id_str.as_str());
        proof {
            reveal_strlit("participant_");
            assert("participant_"@ =~= participant_prefix());
        }
        Participant {
            id_str: name,
            state: ParticipantState::Quiescent,
            successful_ops: 0,
            failed_ops: 0,
            unknown_ops: 0,
            total_num_requests,
            num_requests: 0,
        }
    }

    /// One turn of the participant's protocol loop: whether it takes another
    /// proposal (the run goes on and not every proposal has been decided).
    pub fn protocol(&self, running: bool) -> (more: bool)
        ensures
            more == (running && self@.num_requests < self@.total),
    {
        running && self.num_requests < self.total_num_requests
    }

    /// Performs the operation of `request`, whose outcome `succeeded` gives, and
    /// returns the vote: the request as a commit vote if it succeeded, as an
    /// abort vote if not. The vote is also the record to log.
    pub fn perform_operation(&self, request: &ProtocolMessage, succeeded: bool) -> (vote:
        ProtocolMessage)
        ensures
            vote@ == request@.with_mtype(
                if succeeded {
                    MessageType::ParticipantVoteCommit
                } else {
                    MessageType::ParticipantVoteAbort
                },
            ),
    {
        if succeeded {
            request.with_type(MessageType::ParticipantVoteCommit)
        } else {
            request.with_type(MessageType::ParticipantVoteAbort)
        }
    }

    /// Hands the vote on for sending if the send goes through (`delivered`).
    pub fn send(&self, vote: ProtocolMessage, delivered: bool) -> (sent: Option<ProtocolMessage>)
        ensures
            delivered ==> sent is Some && sent->0@ == vote@,
            !delivered ==> sent is None,
    {
        if delivered {
            Some(vote)
        } else {
            None
        }
    }

    /// The first half of a protocol round: the proposal `request` arrived; the
    /// participant performs its operation (outcome `succeeded`), votes, sends
    /// the vote if the send goes through (`delivered`), and awaits the global
    /// decision. Returns the vote, which is also the record to log, and the
    /// message to send, if any.
    pub fn vote_on_proposal(&mut self, request: &ProtocolMessage, succeeded: bool, delivered: bool) -> (res: (
        ProtocolMessage,
        Option<ProtocolMessage>,
    ))
        ensures
            final(self)@ == (ParticipantView {
                state: ParticipantState::AwaitingGlobalDecision,
                ..old(self)@
            }),
            res.0@ == request@.with_mtype(
                if succeeded {
                    MessageType::ParticipantVoteCommit
                } else {
                    MessageType::ParticipantVoteAbort
                },
            ),
            delivered ==> res.1 is Some && res.1->0@ == res.0@,
            !delivered ==> res.1 is None,
    {
        self.state = ParticipantState::ReceivedP1;
        let vote = self.perform_operation(request, succeeded);
        if succeeded {
            self.state = ParticipantState::VotedCommit;
        } else {
            self.state = ParticipantState::VotedAbort;
        }
        let sent = self.send(vote.duplicate(), delivered);
        self.state = ParticipantState::AwaitingGlobalDecision;
        (vote, sent)
    }

    /// Applies the coordinator's global decision: counts it, and returns the
    /// record to log, if any (commits, and aborts not marked unknown).
    pub fn receive_decision(&mut self, decision: &ProtocolMessage) -> (record: Option<
        ProtocolMessage,
    >)
        requires
            old(self)@.wf(),
            old(self)@.num_requests < old(self)@.total,
        ensures
            final(self)@ == (ParticipantView {
                state: ParticipantState::Quiescent,
                tally: old(self)@.tally.after_participant_decision(decision@),
                num_requests: old(self)@.num_requests + 1,
                ..old(self)@
            }),
            final(self)@.wf(),
            record is Some <==> (decision@.mtype == MessageType::CoordinatorCommit || (
            decision@.mtype == MessageType::CoordinatorAbort && !crate::message::marks_unknown(
                decision@.txid,
            ))),
            record is Some ==> record->0@ == decision@,
    {
        let mut record = None;
        if decision.mtype == MessageType::CoordinatorCommit {
            self.successful_ops = self.successful_ops + 1;
            record = Some(decision.duplicate());
        } else if decision.mtype == MessageType::CoordinatorAbort {
            self.failed_ops = self.failed_ops + 1;
            if decision.is_marked_unknown() {
                self.unknown_ops = self.unknown_ops + 1;
            } else {
                record = Some(decision.duplicate());
            }
        }
        self.state = ParticipantState::Quiescent;
        self.num_requests = self.num_requests + 1;
        record
    }

    /// Whether the wait for the exit signal is over: the run was interrupted, or
    /// the message just received is the coordinator's exit signal.
    pub fn wait_for_exit_signal(&self, running: bool, received: Option<MessageType>) -> (done:
        bool)
        ensures
            done == (!running || received == Some(MessageType::CoordinatorExit)),
    {
        !running || match received {
            Some(t) => t == MessageType::CoordinatorExit,
            None => false,
        }
    }

    /// The participant's name.
    pub fn id_str(&self) -> (id: &String)
        ensures
            id@ == self@.id,
    {
        &self.id_str
    }

    /// The state of the two-phase-commit state machine.
    pub fn state(&self) -> (s: ParticipantState)
        ensures
            s == self@.state,
    {
        self.state
    }

    /// How many transactions committed.
    pub fn successful_ops(&self) -> (n: u64)
        ensures
            n == self@.tally.committed,
    {
        self.successful_ops
    }

    /// How many transactions aborted, those aborted for want of a vote included.
    pub fn failed_ops(&self) -> (n: u64)
        ensures
            n == self@.tally.aborted,
    {
        self.failed_ops
    }

    /// How many transactions aborted for want of a vote.
    pub fn unknown_ops(&self) -> (n: u64)
        ensures
            n == self@.tally.unknown,
    {
        self.unknown_ops
    }

    /// How many global decisions the participant has received.
    pub fn num_requests(&self) -> (n: u32)
        ensures
            n == self@.num_requests,
    {
        self.num_requests
    }

    /// The status line the participant prints when it exits.
    pub fn report_status(&self) -> (line: String)
        ensures
            line@ == status_text(
                self@.id,
                self@.tally.committed as nat,
                self@.tally.aborted as nat,
                self@.tally.unknown as nat,
            ),
    {
        status_line(self.id_str.as_str(), self.successful_ops, self.failed_ops, self.unknown_ops)
    }
}

} // verus!
