//! The coordinator side of the protocol: it takes one request from each client in
//! turn, proposes it to every participant, collects their votes and broadcasts
//! the global decision.
//!
//! The coordinator is a state machine. `Coordinator::protocol` takes an event
//! (the run's running flag, a client's request, or the outcome of waiting for a
//! participant's vote) and returns what to log, what to send, and what to wait
//! for next.
use crate::message::{exit_message, MessageType, MessageView, ProtocolMessage, RequestStatus};
use crate::tally::{
    client_result, decide, decide_outcome, decision_for_participants, lemma_tally_of_bounds,
    lemma_tally_of_push, participant_decision, result_for_client, tally_of, Tally,
};
use crate::text::{status_line, status_text};
use vstd::prelude::*;

verus! {

/// States of the coordinator's two-phase-commit state machine.
#[derive(Clone, Copy, Debug, PartialEq, Eq, Structural)]
pub enum CoordinatorState {
    Quiescent,
    ReceivedRequest,
    ProposalSent,
    ReceivedVotesAbort,
    ReceivedVotesCommit,
    SentGlobalDecision,
}

/// What came of waiting for one participant's vote.
#[derive(Clone, Copy, Debug, PartialEq, Eq, Structural)]
pub enum VoteOutcome {
    /// A message of this type arrived from the participant.
    Received(MessageType),
    /// Nothing arrived before the deadline.
    TimedOut,
    /// The run was interrupted while waiting.
    Interrupted,
}

/// Where the coordinator stands in its protocol loop.
pub enum Phase {
    /// About to test whether the loop goes on.
    LoopHead,
    /// Waiting for the request of the `client`-th client of this round.
    AwaitRequest { client: usize },
    /// Waiting for the vote of the `participant`-th participant on `proposal`.
    AwaitVote {
        client: usize,
        participant: usize,
        commits: usize,
        missing: bool,
        proposal: ProtocolMessage,
    },
    /// The loop is over.
    Stopped,
}

/// The mathematical value of a phase.
pub enum PhaseView {
    LoopHead,
    AwaitRequest { client: nat },
    AwaitVote { client: nat, participant: nat, commits: nat, missing: bool, proposal: MessageView },
    Stopped,
}

impl View for Phase {
    type V = PhaseView;

    open spec fn view(&self) -> PhaseView {
        match self {
            Phase::LoopHead => PhaseView::LoopHead,
            Phase::AwaitRequest { client } => PhaseView::AwaitRequest { client: *client as nat },
            Phase::AwaitVote { client, participant, commits, missing, proposal } =>
                PhaseView::AwaitVote {
                client: *client as nat,
                participant: *participant as nat,
                commits: *commits as nat,
                missing: *missing,
                proposal: proposal@,
            },
            Phase::Stopped => PhaseView::Stopped,
        }
    }
}

/// What the coordinator learns from outside.
pub enum CoordinatorEvent {
    /// Whether the run is still going, read at the head of the loop.
    Running(bool),
    /// The request the awaited client sent.
    Request(ProtocolMessage),
    /// The outcome of waiting for the awaited participant's vote.
    Vote(VoteOutcome),
    /// Receiving from the awaited client failed: the run ends.
    ReceiveFailed,
}

pub enum EventView {
    Running(bool),
    Request(MessageView),
    Vote(VoteOutcome),
    ReceiveFailed,
}

impl View for CoordinatorEvent {
    type V = EventView;

    open spec fn view(&self) -> EventView {
        match self {
            CoordinatorEvent::Running(r) => EventView::Running(*r),
            CoordinatorEvent::Request(m) => EventView::Request(m@),
            CoordinatorEvent::Vote(o) => EventView::Vote(*o),
            CoordinatorEvent::ReceiveFailed => EventView::ReceiveFailed,
        }
    }
}

/// What the coordinator waits for next.
pub enum CoordinatorCommand {
    /// Read the running flag and hand it back as `CoordinatorEvent::Running`.
    CheckRunning,
    /// Receive the next request of the client of this name.
    ReceiveRequest(String),
    /// Wait, within the deadline, for the vote of the participant of this name.
    CollectVote(String),
    /// The protocol is over.
    Stop,
}

pub enum CommandView {
    CheckRunning,
    ReceiveRequest(Seq<char>),
    CollectVote(Seq<char>),
    Stop,
}

impl View for CoordinatorCommand {
    type V = CommandView;

    open spec fn view(&self) -> CommandView {
        match self {
            CoordinatorCommand::CheckRunning => CommandView::CheckRunning,
            CoordinatorCommand::ReceiveRequest(n) => CommandView::ReceiveRequest(n@),
            CoordinatorCommand::CollectVote(n) => CommandView::CollectVote(n@),
            CoordinatorCommand::Stop => CommandView::Stop,
        }
    }
}

/// The effects of one step, to be carried out in this order: append the records
/// to the log, send each message of `to_participants` to every participant,
/// send each message of `to_clients` to the client its `senderid` names; then
/// do what `next` says.
pub struct CoordinatorAction {
    pub log: Vec<ProtocolMessage>,
    pub to_participants: Vec<ProtocolMessage>,
    pub to_clients: Vec<ProtocolMessage>,
    pub next: CoordinatorCommand,
}

pub struct ActionView {
    pub log: Seq<MessageView>,
    pub to_participants: Seq<MessageView>,
    pub to_clients: Seq<MessageView>,
    pub next: CommandView,
}

pub open spec fn messages_view(v: Seq<ProtocolMessage>) -> Seq<MessageView> {
    v.map_values(|m: ProtocolMessage| m@)
}

pub open spec fn names_view(v: Seq<String>) -> Seq<Seq<char>> {
    v.map_values(|s: String| s@)
}

impl View for CoordinatorAction {
    type V = ActionView;

    open spec fn view(&self) -> ActionView {
        ActionView {
            log: messages_view(self.log@),
            to_participants: messages_view(self.to_participants@),
            to_clients: messages_view(self.to_clients@),
            next: self.next@,
        }
    }
}

impl ActionView {
    /// The effects of `self` followed by those of `later`, which says what comes next.
    pub open spec fn followed_by(self, later: ActionView) -> ActionView {
        ActionView {
            log: self.log + later.log,
            to_participants: self.to_participants + later.to_participants,
            to_clients: self.to_clients + later.to_clients,
            next: later.next,
        }
    }
}

/// The coordinator.
pub struct Coordinator {
    state: CoordinatorState,
    successful_ops: u64,
    failed_ops: u64,
    unknown_ops: u64,
    clients: Vec<String>,
    participants: Vec<String>,
    total_num_requests: u32,
    num_requests: u64,
    exit_sent: bool,
    phase: Phase,
    decided: Ghost<Seq<RequestStatus>>,
}

/// The mathematical value of the coordinator.
pub struct CoordinatorView {
    pub state: CoordinatorState,
    pub tally: Tally,
    pub clients: Seq<Seq<char>>,
    pub participants: Seq<Seq<char>>,
    /// How many requests the run holds in all.
    pub total: nat,
    /// How many requests were decided, plus one once the exit signal went out.
    pub num_requests: nat,
    pub exit_sent: bool,
    pub phase: PhaseView,
    /// The outcome of every request decided so far, in order.
    pub decided: Seq<RequestStatus>,
}

impl View for Coordinator {
    type V = CoordinatorView;

    closed spec fn view(&self) -> CoordinatorView {
        CoordinatorView {
            state: self.state,
            tally: Tally {
                committed: self.successful_ops as int,
                aborted: self.failed_ops as int,
                unknown: self.unknown_ops as int,
            },
            clients: names_view(self.clients@),
            participants: names_view(self.participants@),
            total: self.total_num_requests as nat,
            num_requests: self.num_requests as nat,
            exit_sent: self.exit_sent,
            phase: self.phase@,
            decided: self.decided@,
        }
    }
}

impl CoordinatorView {
    /// One request is between its receipt and its decision.
    pub open spec fn in_flight(self) -> int {
        if self.phase is AwaitVote {
            1
        } else {
            0
        }
    }

    /// The part of the invariant that does not depend on the phase.
    pub open spec fn wf_counts(self) -> bool {
        &&& self.clients.no_duplicates()
        &&& self.participants.no_duplicates()
        &&& self.clients.len() <= u32::MAX
        &&& self.participants.len() <= u32::MAX
        &&& self.total <= u32::MAX
        // the counts are those of the decided requests
        &&& self.tally.committed == tally_of(self.decided).committed
        &&& self.tally.aborted == tally_of(self.decided).aborted
        &&& self.decided.len() + (if self.exit_sent {
            1int
        } else {
            0int
        }) == self.num_requests
        &&& self.num_requests <= self.total + self.clients.len() + 1
    }

    /// The coordinator's invariant.
    pub open spec fn wf(self) -> bool {
        &&& self.wf_counts()
        // the unknown ones are those aborted for want of a vote, and the one in flight
        &&& self.tally.unknown == tally_of(self.decided).unknown + self.in_flight()
        &&& self.exit_sent ==> self.num_requests == self.total + 1 && (self.phase is LoopHead
            || self.phase is Stopped)
        &&& match self.phase {
            PhaseView::AwaitRequest { client } => {
                &&& client < self.clients.len()
                &&& client <= self.num_requests
                &&& self.num_requests < self.total + client
                &&& !self.exit_sent
            },
            PhaseView::AwaitVote { client, participant, commits, missing, proposal } => {
                &&& client < self.clients.len()
                &&& participant < self.participants.len()
                &&& commits <= participant
                &&& client <= self.num_requests
                &&& self.num_requests < self.total + client
                &&& self.state == CoordinatorState::ProposalSent
            },
            _ => true,
        }
    }

    /// What the coordinator waits for in its present phase.
    pub open spec fn command(self) -> CommandView {
        match self.phase {
            PhaseView::LoopHead => CommandView::CheckRunning,
            PhaseView::AwaitRequest { client } => CommandView::ReceiveRequest(
                self.clients[client as int],
            ),
            PhaseView::AwaitVote { participant, .. } => CommandView::CollectVote(
                self.participants[participant as int],
            ),
            PhaseView::Stopped => CommandView::Stop,
        }
    }

    /// No effect; wait for what the phase calls for.
    pub open spec fn idle(self) -> ActionView {
        ActionView {
            log: Seq::empty(),
            to_participants: Seq::empty(),
            to_clients: Seq::empty(),
            next: self.command(),
        }
    }

    /// `m` as sent to clients: to the one its `senderid` names, if it is registered.
    pub open spec fn route(self, m: MessageView) -> Seq<MessageView> {
        if self.clients.contains(m.senderid) {
            seq![m]
        } else {
            Seq::empty()
        }
    }

    /// The exit signal, addressed to each client in turn.
    pub open spec fn exit_notices(self) -> Seq<MessageView> {
        self.clients.map_values(|name: Seq<char>| exit_message().with_senderid(name))
    }

    /// The head of the loop: stop if the run was interrupted or every request was
    /// handled; send the exit signal once every request was decided; else start a
    /// round over the clients.
    pub open spec fn at_loop_head(self, running: bool) -> (CoordinatorView, ActionView) {
        if !running || self.num_requests > self.total {
            let post = CoordinatorView { phase: PhaseView::Stopped, ..self };
            (post, post.idle())
        } else if self.num_requests == self.total {
            let post = CoordinatorView {
                num_requests: self.num_requests + 1,
                exit_sent: true,
                state: CoordinatorState::Quiescent,
                ..self
            };
            (
                post,
                ActionView {
                    log: Seq::empty(),
                    to_participants: seq![exit_message()],
                    to_clients: self.exit_notices(),
                    next: CommandView::CheckRunning,
                },
            )
        } else if self.clients.len() == 0 {
            let post = CoordinatorView { state: CoordinatorState::Quiescent, ..self };
            (post, post.idle())
        } else {
            let post = CoordinatorView { phase: PhaseView::AwaitRequest { client: 0 }, ..self };
            (post, post.idle())
        }
    }

    /// The request `m` of the `client`-th client arrived: count it as unknown,
    /// log it as a proposal and propose it to every participant.
    pub open spec fn receive_request(self, client: nat, m: MessageView) -> (
        CoordinatorView,
        ActionView,
    ) {
        let p = m.with_mtype(MessageType::CoordinatorPropose);
        let post = CoordinatorView {
            state: CoordinatorState::ProposalSent,
            tally: self.tally.after_request(),
            phase: PhaseView::AwaitVote {
                client,
                participant: 0,
                commits: 0,
                missing: false,
                proposal: p,
            },
            ..self
        };
        let sent = ActionView {
            log: seq![p],
            to_participants: seq![p],
            to_clients: Seq::empty(),
            next: post.command(),
        };
        if self.participants.len() == 0 {
            let (post2, decided) = post.conclude(client, 0, false, p);
            (post2, sent.followed_by(decided))
        } else {
            (post, sent)
        }
    }

    /// The wait for the `participant`-th vote on `p` ended with `o`.
    pub open spec fn record_vote(
        self,
        client: nat,
        participant: nat,
        commits: nat,
        missing: bool,
        p: MessageView,
        o: VoteOutcome,
    ) -> (CoordinatorView, ActionView) {
        let commits2 = if o == VoteOutcome::Received(MessageType::ParticipantVoteCommit) {
            commits + 1
        } else {
            commits
        };
        let missing2 = missing || o == VoteOutcome::TimedOut;
        if participant + 1 < self.participants.len() {
            let post = CoordinatorView {
                phase: PhaseView::AwaitVote {
                    client,
                    participant: participant + 1,
                    commits: commits2,
                    missing: missing2,
                    proposal: p,
                },
                ..self
            };
            (post, post.idle())
        } else {
            self.conclude(client, commits2, missing2, p)
        }
    }

    /// Every vote on `p` is in: decide, log the decision (unless it is unknown),
    /// tell every participant and the requesting client, and move on to the next
    /// client of the round, or back to the head of the loop.
    pub open spec fn conclude(self, client: nat, commits: nat, missing: bool, p: MessageView) -> (
        CoordinatorView,
        ActionView,
    ) {
        let o = decide(commits, self.participants.len(), missing);
        let decision = decision_for_participants(p, o);
        let state = match o {
            RequestStatus::Committed => CoordinatorState::ReceivedVotesCommit,
            RequestStatus::Aborted => CoordinatorState::ReceivedVotesAbort,
            RequestStatus::Unknown => self.state,
        };
        let more = client + 1 < self.clients.len();
        let post = CoordinatorView {
            state: if more {
                state
            } else {
                CoordinatorState::Quiescent
            },
            tally: self.tally.after_decision(o),
            num_requests: self.num_requests + 1,
            decided: self.decided.push(o),
            phase: if more {
                PhaseView::AwaitRequest { client: client + 1 }
            } else {
                PhaseView::LoopHead
            },
            ..self
        };
        (
            post,
            ActionView {
                log: if o == RequestStatus::Unknown {
                    Seq::empty()
                } else {
                    seq![decision]
                },
                to_participants: seq![decision],
                to_clients: self.route(result_for_client(p, o)),
                next: post.command(),
            },
        )
    }

    /// One step of the coordinator on event `ev`. An event the phase does not
    /// call for changes nothing.
    pub open spec fn step(self, ev: EventView) -> (CoordinatorView, ActionView) {
        match self.phase {
            PhaseView::LoopHead => match ev {
                EventView::Running(r) => self.at_loop_head(r),
                _ => (self, self.idle()),
            },
            PhaseView::AwaitRequest { client } => match ev {
                EventView::Request(m) => self.receive_request(client, m),
                EventView::ReceiveFailed => {
                    let post = CoordinatorView { phase: PhaseView::Stopped, ..self };
                    (post, post.idle())
                },
                _ => (self, self.idle()),
            },
            PhaseView::AwaitVote { client, participant, commits, missing, proposal } => match ev {
                EventView::Vote(o) => self.record_vote(
                    client,
                    participant,
                    commits,
                    missing,
                    proposal,
                    o,
                ),
                _ => (self, self.idle()),
            },
            PhaseView::Stopped => (self, self.idle()),
        }
    }
}

/// Concluding a request keeps the invariant.
proof fn lemma_conclude_wf(c: CoordinatorView, client: nat, commits: nat, missing: bool, p: MessageView)
    requires
        c.wf_counts(),
        !c.exit_sent,
        (c.phase is AwaitVote),
        c.phase->AwaitVote_client == client,
        client < c.clients.len(),
        client <= c.num_requests,
        c.num_requests < c.total + client,
        c.tally.unknown == tally_of(c.decided).unknown + 1,
        commits <= c.participants.len(),
    ensures
        c.conclude(client, commits, missing, p).0.wf(),
{
    let o = decide(commits, c.participants.len(), missing);
    lemma_tally_of_push(c.decided, o);
}

/// Every step keeps the invariant.
pub proof fn lemma_step_wf(c: CoordinatorView, ev: EventView)
    requires
        c.wf(),
    ensures
        c.step(ev).0.wf(),
{
    match c.phase {
        PhaseView::AwaitRequest { client } => {
            if let EventView::Request(m) = ev {
                let p = m.with_mtype(MessageType::CoordinatorPropose);
                let post = CoordinatorView {
                    state: CoordinatorState::ProposalSent,
                    tally: c.tally.after_request(),
                    phase: PhaseView::AwaitVote {
                        client,
                        participant: 0,
                        commits: 0,
                        missing: false,
                        proposal: p,
                    },
                    ..c
                };
                if c.participants.len() == 0 {
                    lemma_conclude_wf(post, client, 0, false, p);
                }
            }
        },
        PhaseView::AwaitVote { client, participant, commits, missing, proposal } => {
            if let EventView::Vote(o) = ev {
                let commits2 = if o == VoteOutcome::Received(MessageType::ParticipantVoteCommit) {
                    commits + 1
                } else {
                    commits
                };
                let missing2 = missing || o == VoteOutcome::TimedOut;
                if participant + 1 >= c.participants.len() {
                    lemma_conclude_wf(c, client, commits2, missing2, proposal);
                }
            }
        },
        _ => {},
    }
}


/// The coordinator's name in its status line.
pub open spec fn coordinator_name() -> Seq<char> {
    seq!['c', 'o', 'o', 'r', 'd', 'i', 'n', 'a', 't', 'o', 'r']
}

/// Where `name` stands in `names`, if it does.
fn position(names: &Vec<String>, name: &String) -> (i: Option<usize>)
    ensures
        match i {
            Some(k) => k < names@.len() && names@[k as int]@ == name@,
            None => !names_view(names@).contains(name@),
        },
{
    let mut k: usize = 0;
    while k < names.len()
        invariant
            k <= names@.len(),
            forall|j: int| 0 <= j < k ==> names@[j]@ != name@,
        decreases names@.len() - k,
    {
        if names[k] == *name {
            return Some(k);
        }
        k = k + 1;
    }
    None
}

/// `names` with `name` added, unless it is there already.
proof fn lemma_join_keeps_distinct(names: Seq<Seq<char>>, name: Seq<char>)
    requires
        names.no_duplicates(),
        !names.contains(name),
    ensures
        names.push(name).no_duplicates(),
{
    let s = names.push(name);
    assert forall|i: int, j: int| 0 <= i < s.len() && 0 <= j < s.len() && i != j implies s[i]
        != s[j] by {
        if i == names.len() {
            assert(s[j] == names[j]);
        } else if j == names.len() {
            assert(s[i] == names[i]);
        }
    }
}

impl Coordinator {
    /// A coordinator for a run of `total_num_requests` requests, with no clients
    /// or participants yet.
    pub fn new(total_num_requests: u32) -> (c: Coordinator)
        ensures
            c@ == (CoordinatorView {
                state: CoordinatorState::Quiescent,
                tally: Tally::zero(),
                clients: Seq::empty(),
                participants: Seq::empty(),
                total: total_num_requests as nat,
                num_requests: 0,
                exit_sent: false,
                phase: PhaseView::LoopHead,
                decided: Seq::empty(),
            }),
            c@.wf(),
    {
        let c = Coordinator {
            state: CoordinatorState::Quiescent,
            successful_ops: 0,
            failed_ops: 0,
            unknown_ops: 0,
            clients: Vec::new(),
            participants: Vec::new(),
            total_num_requests,
            num_requests: 0,
            exit_sent: false,
            phase: Phase::LoopHead,
            decided: Ghost(Seq::empty()),
        };
        assert(c@.clients =~= Seq::empty());
        assert(c@.participants =~= Seq::empty());
        c
    }

    /// Registers the participant `name`; one already registered stays as it is.
    pub fn participant_join(&mut self, name: &String)
        requires
            old(self)@.wf(),
            old(self)@.state == CoordinatorState::Quiescent,
            !old(self)@.participants.contains(name@) ==> old(self)@.participants.len() < u32::MAX,
        ensures
            final(self)@ == (CoordinatorView {
                participants: if old(self)@.participants.contains(name@) {
                    old(self)@.participants
                } else {
                    old(self)@.participants.push(name@)
                },
                ..old(self)@
            }),
            final(self)@.wf(),
    {
        match position(&self.participants, name) {
            Some(k) => {
                assert(old(self)@.participants[k as int] == name@);
            },
            None => {
                proof {
                    lemma_join_keeps_distinct(old(self)@.participants, name@);
                }
                self.participants.push(name.clone());
                assert(names_view(self.participants@) =~= old(self)@.participants.push(name@));
            },
        }
    }

    /// Registers the client `name`; one already registered stays as it is.
    pub fn client_join(&mut self, name: &String)
        requires
            old(self)@.wf(),
            old(self)@.state == CoordinatorState::Quiescent,
            !old(self)@.clients.contains(name@) ==> old(self)@.clients.len() < u32::MAX,
        ensures
            final(self)@ == (CoordinatorView {
                clients: if old(self)@.clients.contains(name@) {
                    old(self)@.clients
                } else {
                    old(self)@.clients.push(name@)
                },
                ..old(self)@
            }),
            final(self)@.wf(),
    {
        match position(&self.clients, name) {
            Some(k) => {
                assert(old(self)@.clients[k as int] == name@);
            },
            None => {
                proof {
                    lemma_join_keeps_distinct(old(self)@.clients, name@);
                }
                self.clients.push(name.clone());
                assert(names_view(self.clients@) =~= old(self)@.clients.push(name@));
            },
        }
    }

    /// `pm` as sent to clients: to the client its `senderid` names, if that
    /// client is registered; to none otherwise.
    pub fn send_client_message(&self, pm: ProtocolMessage) -> (sent: Option<ProtocolMessage>)
        ensures
            sent is Some <==> self@.clients.contains(pm@.senderid),
            sent is Some ==> sent->0@ == pm@,
    {
        match position(&self.clients, &pm.senderid) {
            Some(k) => {
                assert(self@.clients[k as int] == pm@.senderid);
                Some(pm)
            },
            None => None,
        }
    }

    /// `pm` addressed to each registered client in turn.
    pub fn send_client_message_exit(&self, pm: &ProtocolMessage) -> (sent: Vec<ProtocolMessage>)
        ensures
            messages_view(sent@) == self@.clients.map_values(
                |name: Seq<char>| pm@.with_senderid(name),
            ),
    {
        let mut sent: Vec<ProtocolMessage> = Vec::new();
        let mut i: usize = 0;
        while i < self.clients.len()
            invariant
                i <= self.clients@.len(),
                messages_view(sent@) =~= self@.clients.take(i as int).map_values(
                    |name: Seq<char>| pm@.with_senderid(name),
                ),
            decreases self.clients@.len() - i,
        {
            let mut m = pm.duplicate();
            m.senderid = self.clients[i].clone();
            assert(self@.clients[i as int] == m@.senderid);
            let ghost before = sent@;
            let ghost expected = m@;
            match self.send_client_message(m) {
                Some(x) => {
                    sent.push(x);
                },
                None => {},
            }
            assert(messages_view(sent@) =~= messages_view(before).push(expected));
            i = i + 1;
            assert(self@.clients.take(i as int) =~= self@.clients.take(i - 1).push(
                self@.clients[i - 1],
            ));
        }
        assert(self@.clients.take(i as int) =~= self@.clients);
        sent
    }

    /// What the coordinator waits for in its present phase.
    fn command(&self) -> (c: CoordinatorCommand)
        requires
            self@.wf(),
        ensures
            c@ == self@.command(),
    {
        match &self.phase {
            Phase::LoopHead => CoordinatorCommand::CheckRunning,
            Phase::AwaitRequest { client } => CoordinatorCommand::ReceiveRequest(
                self.clients[*client].clone(),
            ),
            Phase::AwaitVote { participant, .. } => CoordinatorCommand::CollectVote(
                self.participants[*participant].clone(),
            ),
            Phase::Stopped => CoordinatorCommand::Stop,
        }
    }

    fn idle(&self) -> (a: CoordinatorAction)
        requires
            self@.wf(),
        ensures
            a@ == self@.idle(),
    {
        let a = CoordinatorAction {
            log: Vec::new(),
            to_participants: Vec::new(),
            to_clients: Vec::new(),
            next: self.command(),
        };
        assert(a@.log =~= Seq::empty());
        assert(a@.to_participants =~= Seq::empty());
        assert(a@.to_clients =~= Seq::empty());
        a
    }

    fn at_loop_head(&mut self, running: bool) -> (a: CoordinatorAction)
        requires
            old(self)@.wf(),
            old(self)@.phase is LoopHead,
        ensures
            (final(self)@, a@) == old(self)@.at_loop_head(running),
    {
        if !running || self.num_requests > self.total_num_requests as u64 {
            self.phase = Phase::Stopped;
            self.idle()
        } else if self.num_requests == self.total_num_requests as u64 {
            let exit = ProtocolMessage::exit();
            let to_clients = self.send_client_message_exit(&exit);
            let mut to_participants = Vec::new();
            to_participants.push(exit);
            self.num_requests = self.num_requests + 1;
            self.exit_sent = true;
            self.state = CoordinatorState::Quiescent;
            let a = CoordinatorAction {
                log: Vec::new(),
                to_participants,
                to_clients,
                next: CoordinatorCommand::CheckRunning,
            };
            assert(a@.log =~= Seq::empty());
            assert(a@.to_participants =~= seq![exit_message()]);
            assert(a@.to_clients =~= old(self)@.exit_notices());
            a
        } else if self.clients.len() == 0 {
            self.state = CoordinatorState::Quiescent;
            self.idle()
        } else {
            self.phase = Phase::AwaitRequest { client: 0 };
            self.idle()
        }
    }

    fn conclude(&mut self, client: usize, commits: usize, missing: bool, p: ProtocolMessage) -> (a:
        CoordinatorAction)
        requires
            old(self)@.wf_counts(),
            !old(self)@.exit_sent,
            (old(self)@.phase is AwaitVote),
            old(self)@.phase->AwaitVote_client == client,
            client < old(self)@.clients.len(),
            client <= old(self)@.num_requests,
            old(self)@.num_requests < old(self)@.total + client,
            old(self)@.tally.unknown == tally_of(old(self)@.decided).unknown + 1,
            commits <= old(self)@.participants.len(),
        ensures
            (final(self)@, a@) == old(self)@.conclude(client as nat, commits as nat, missing, p@),
            final(self)@.wf(),
    {
        proof {
            lemma_conclude_wf(old(self)@, client as nat, commits as nat, missing, p@);
            lemma_tally_of_bounds(old(self)@.decided);
        }
        let o = decide_outcome(commits, self.participants.len(), missing);
        let decision = participant_decision(&p, o);
        let result = client_result(&p, o);
        let mut log: Vec<ProtocolMessage> = Vec::new();
        match o {
            RequestStatus::Unknown => {},
            _ => {
                log.push(decision.duplicate());
            },
        }
        let mut to_participants: Vec<ProtocolMessage> = Vec::new();
        to_participants.push(decision);
        let mut to_clients: Vec<ProtocolMessage> = Vec::new();
        match self.send_client_message(result) {
            Some(m) => {
                to_clients.push(m);
            },
            None => {},
        }
        match o {
            RequestStatus::Committed => {
                self.state = CoordinatorState::ReceivedVotesCommit;
                self.successful_ops = self.successful_ops + 1;
                self.unknown_ops = self.unknown_ops - 1;
            },
            RequestStatus::Aborted => {
                self.state = CoordinatorState::ReceivedVotesAbort;
                self.failed_ops = self.failed_ops + 1;
                self.unknown_ops = self.unknown_ops - 1;
            },
            RequestStatus::Unknown => {
                self.failed_ops = self.failed_ops + 1;
            },
        }
        self.num_requests = self.num_requests + 1;
        self.decided = Ghost(self.decided@.push(o));
        if client + 1 < self.clients.len() {
            self.phase = Phase::AwaitRequest { client: client + 1 };
        } else {
            self.phase = Phase::LoopHead;
            self.state = CoordinatorState::Quiescent;
        }
        let a = CoordinatorAction { log, to_participants, to_clients, next: self.command() };
        let ghost spec_a = old(self)@.conclude(client as nat, commits as nat, missing, p@).1;
        assert(a@.log =~= spec_a.log);
        assert(a@.to_participants =~= spec_a.to_participants);
        assert(a@.to_clients =~= spec_a.to_clients);
        a
    }

    fn receive_request(&mut self, client: usize, m: ProtocolMessage) -> (a: CoordinatorAction)
        requires
            old(self)@.wf(),
            old(self)@.phase == (PhaseView::AwaitRequest { client: client as nat }),
        ensures
            (final(self)@, a@) == old(self)@.receive_request(client as nat, m@),
            final(self)@.wf(),
    {
        proof {
            lemma_tally_of_bounds(old(self)@.decided);
        }
        self.unknown_ops = self.unknown_ops + 1;
        self.state = CoordinatorState::ReceivedRequest;
        let p = m.with_type(MessageType::CoordinatorPropose);
        let mut log: Vec<ProtocolMessage> = Vec::new();
        log.push(p.duplicate());
        let mut to_participants: Vec<ProtocolMessage> = Vec::new();
        to_participants.push(p.duplicate());
        self.state = CoordinatorState::ProposalSent;
        let ghost post = old(self)@.receive_request(client as nat, m@);
        if self.participants.len() == 0 {
            self.phase = Phase::AwaitVote {
                client,
                participant: 0,
                commits: 0,
                missing: false,
                proposal: p.duplicate(),
            };
            let mut decided = self.conclude(client, 0, false, p);
            log.append(&mut decided.log);
            to_participants.append(&mut decided.to_participants);
            let a = CoordinatorAction {
                log,
                to_participants,
                to_clients: decided.to_clients,
                next: decided.next,
            };
            assert(a@.log =~= post.1.log);
            assert(a@.to_participants =~= post.1.to_participants);
            assert(a@.to_clients =~= post.1.to_clients);
            a
        } else {
            self.phase = Phase::AwaitVote {
                client,
                participant: 0,
                commits: 0,
                missing: false,
                proposal: p,
            };
            let a = CoordinatorAction {
                log,
                to_participants,
                to_clients: Vec::new(),
                next: self.command(),
            };
            assert(a@.log =~= post.1.log);
            assert(a@.to_participants =~= post.1.to_participants);
            assert(a@.to_clients =~= post.1.to_clients);
            a
        }
    }

    fn record_vote(
        &mut self,
        client: usize,
        participant: usize,
        commits: usize,
        missing: bool,
        p: ProtocolMessage,
        o: VoteOutcome,
    ) -> (a: CoordinatorAction)
        requires
            old(self)@.wf(),
            old(self)@.phase == (PhaseView::AwaitVote {
                client: client as nat,
                participant: participant as nat,
                commits: commits as nat,
                missing,
                proposal: p@,
            }),
        ensures
            (final(self)@, a@) == old(self)@.record_vote(
                client as nat,
                participant as nat,
                commits as nat,
                missing,
                p@,
                o,
            ),
            final(self)@.wf(),
    {
        let commits2 = if o == VoteOutcome::Received(MessageType::ParticipantVoteCommit) {
            commits + 1
        } else {
            commits
        };
        let missing2 = missing || o == VoteOutcome::TimedOut;
        if participant + 1 < self.participants.len() {
            self.phase = Phase::AwaitVote {
                client,
                participant: participant + 1,
                commits: commits2,
                missing: missing2,
                proposal: p,
            };
            self.idle()
        } else {
            self.conclude(client, commits2, missing2, p)
        }
    }

    /// One step of the coordinator's protocol on `event`: updates the state
    /// machine and returns what to log, what to send, and what to wait for next.
    pub fn protocol(&mut self, event: CoordinatorEvent) -> (action: CoordinatorAction)
        requires
            old(self)@.wf(),
        ensures
            (final(self)@, action@) == old(self)@.step(event@),
            final(self)@.wf(),
    {
        proof {
            lemma_step_wf(old(self)@, event@);
        }
        match event {
            CoordinatorEvent::Running(r) => {
                if let Phase::LoopHead = self.phase {
                    self.at_loop_head(r)
                } else {
                    self.idle()
                }
            },
            CoordinatorEvent::Request(m) => {
                if let Phase::AwaitRequest { client } = self.phase {
                    self.receive_request(client, m)
                } else {
                    self.idle()
                }
            },
            CoordinatorEvent::ReceiveFailed => {
                if let Phase::AwaitRequest { .. } = self.phase {
                    self.phase = Phase::Stopped;
                }
                self.idle()
            },
            CoordinatorEvent::Vote(o) => {
                let awaited = match &self.phase {
                    Phase::AwaitVote { client, participant, commits, missing, proposal } => Some(
                        (*client, *participant, *commits, *missing, proposal.duplicate()),
                    ),
                    _ => None,
                };
                match awaited {
                    Some((client, participant, commits, missing, p)) => self.record_vote(
                        client,
                        participant,
                        commits,
                        missing,
                        p,
                        o,
                    ),
                    None => self.idle(),
                }
            },
        }
    }

    /// The state of the two-phase-commit state machine.
    pub fn state(&self) -> (s: CoordinatorState)
        ensures
            s == self@.state,
    {
        self.state
    }

    /// How many requests committed.
    pub fn successful_ops(&self) -> (n: u64)
        ensures
            n == self@.tally.committed,
    {
        self.successful_ops
    }

    /// How many requests aborted, those aborted for want of a vote included.
    pub fn failed_ops(&self) -> (n: u64)
        ensures
            n == self@.tally.aborted,
    {
        self.failed_ops
    }

    /// How many requests aborted for want of a vote, plus the one in flight.
    pub fn unknown_ops(&self) -> (n: u64)
        ensures
            n == self@.tally.unknown,
    {
        self.unknown_ops
    }

    /// How many clients are registered.
    pub fn num_clients(&self) -> (n: usize)
        ensures
            n == self@.clients.len(),
    {
        self.clients.len()
    }

    /// How many participants are registered.
    pub fn num_participants(&self) -> (n: usize)
        ensures
            n == self@.participants.len(),
    {
        self.participants.len()
    }

    /// The status line the coordinator prints when it exits.
    pub fn report_status(&self) -> (line: String)
        ensures
            line@ == status_text(
                coordinator_name(),
                self@.tally.committed as nat,
                self@.tally.aborted as nat,
                self@.tally.unknown as nat,
            ),
    {
        proof {
            reveal_strlit("coordinator");
            assert("coordinator"@ =~= coordinator_name());
        }
        status_line("coordinator", self.successful_ops, self.failed_ops, self.unknown_ops)
    }
}

} // verus!
