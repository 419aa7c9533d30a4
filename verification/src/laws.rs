//! What holds of the protocol as a whole: across the roles, across steps, and
//! across a whole run of votes.
use crate::client::{op_separator, request_message, request_txid, ClientView};
use crate::coordinator::{ActionView, CommandView, CoordinatorView, EventView, PhaseView, VoteOutcome};
use crate::message::{
    exit_message, lemma_suffix_marks_unknown, marks_unknown, unknown_suffix, MessageType, MessageView,
    RequestStatus,
};
use crate::participant::ParticipantView;
use crate::tally::{
    decide, decision_for_participants, lemma_tally_of_bounds, lemma_tally_of_push, outcome_tally,
    result_for_client, tally_of, Tally,
};
use crate::text::{decimal, digit_char, has_infix, pad_left, pad_right};
use vstd::prelude::*;

verus! {

/// The coordinator after each event of `events` in turn, with the action of every step.
pub open spec fn run(c: CoordinatorView, events: Seq<EventView>) -> (CoordinatorView, Seq<ActionView>)
    decreases events.len(),
{
    if events.len() == 0 {
        (c, Seq::empty())
    } else {
        let (c1, a1) = c.step(events[0]);
        let (c2, rest) = run(c1, events.drop_first());
        (c2, seq![a1] + rest)
    }
}

/// The outcomes of the waits for votes, as events.
pub open spec fn vote_events(outcomes: Seq<VoteOutcome>) -> Seq<EventView> {
    outcomes.map_values(|o: VoteOutcome| EventView::Vote(o))
}

/// How many of the outcomes are commit votes.
pub open spec fn count_commits(outcomes: Seq<VoteOutcome>) -> nat
    decreases outcomes.len(),
{
    if outcomes.len() == 0 {
        0
    } else {
        (if outcomes[0] == VoteOutcome::Received(MessageType::ParticipantVoteCommit) {
            1nat
        } else {
            0nat
        }) + count_commits(outcomes.drop_first())
    }
}

/// Every outcome is a commit vote.
pub open spec fn all_commit(outcomes: Seq<VoteOutcome>) -> bool {
    forall|i: int|
        0 <= i < outcomes.len() ==> outcomes[i] == VoteOutcome::Received(
            MessageType::ParticipantVoteCommit,
        )
}

/// Some wait for a vote ran out of time.
pub open spec fn some_timed_out(outcomes: Seq<VoteOutcome>) -> bool {
    outcomes.contains(VoteOutcome::TimedOut)
}

proof fn lemma_count_commits(outcomes: Seq<VoteOutcome>)
    ensures
        count_commits(outcomes) <= outcomes.len(),
        count_commits(outcomes) == outcomes.len() <==> all_commit(outcomes),
    decreases outcomes.len(),
{
    if outcomes.len() > 0 {
        let rest = outcomes.drop_first();
        lemma_count_commits(rest);
        if all_commit(outcomes) {
            assert(all_commit(rest)) by {
                assert forall|i: int| 0 <= i < rest.len() implies rest[i]
                    == VoteOutcome::Received(MessageType::ParticipantVoteCommit) by {
                    assert(rest[i] == outcomes[i + 1]);
                }
            }
        }
        if all_commit(rest) && outcomes[0] == VoteOutcome::Received(
            MessageType::ParticipantVoteCommit,
        ) {
            assert forall|i: int| 0 <= i < outcomes.len() implies outcomes[i]
                == VoteOutcome::Received(MessageType::ParticipantVoteCommit) by {
                if i > 0 {
                    assert(outcomes[i] == rest[i - 1]);
                }
            }
        }
    }
}

proof fn lemma_some_timed_out(outcomes: Seq<VoteOutcome>)
    requires
        outcomes.len() > 0,
    ensures
        some_timed_out(outcomes) == (outcomes[0] == VoteOutcome::TimedOut || some_timed_out(
            outcomes.drop_first(),
        )),
{
    let rest = outcomes.drop_first();
    if some_timed_out(outcomes) && outcomes[0] != VoteOutcome::TimedOut {
        let i = choose|i: int| 0 <= i < outcomes.len() && outcomes[i] == VoteOutcome::TimedOut;
        assert(rest[i - 1] == VoteOutcome::TimedOut);
    }
    if some_timed_out(rest) {
        let i = choose|i: int| 0 <= i < rest.len() && rest[i] == VoteOutcome::TimedOut;
        assert(outcomes[i + 1] == VoteOutcome::TimedOut);
    }
}

/// The action logs nothing and sends nothing.
pub open spec fn quiet(a: ActionView) -> bool {
    &&& a.log.len() == 0
    &&& a.to_participants.len() == 0
    &&& a.to_clients.len() == 0
}

/// Collecting the remaining votes ends in the decision on all of them together.
#[verifier::rlimit(30)]
proof fn lemma_collect_votes(c: CoordinatorView, outcomes: Seq<VoteOutcome>)
    requires
        c.wf(),
        (c.phase is AwaitVote),
        c.phase->AwaitVote_participant + outcomes.len() == c.participants.len(),
    ensures
        ({
            let client = c.phase->AwaitVote_client;
            let commits = c.phase->AwaitVote_commits;
            let missing = c.phase->AwaitVote_missing;
            let p = c.phase->AwaitVote_proposal;
            let decided = c.conclude(
                client,
                commits + count_commits(outcomes),
                missing || some_timed_out(outcomes),
                p,
            );
            &&& run(c, vote_events(outcomes)).0 == decided.0
            &&& run(c, vote_events(outcomes)).1.last() == decided.1
            &&& run(c, vote_events(outcomes)).1.len() == outcomes.len()
            &&& forall|i: int|
                0 <= i < outcomes.len() - 1 ==> quiet(#[trigger] run(c, vote_events(outcomes)).1[i])
        }),
    decreases outcomes.len(),
{
    let client = c.phase->AwaitVote_client;
    let participant = c.phase->AwaitVote_participant;
    let commits = c.phase->AwaitVote_commits;
    let missing = c.phase->AwaitVote_missing;
    let p = c.phase->AwaitVote_proposal;
    let o = outcomes[0];
    let rest = outcomes.drop_first();
    let events = vote_events(outcomes);
    assert(events.drop_first() =~= vote_events(rest));
    assert(events[0] == EventView::Vote(o));
    lemma_some_timed_out(outcomes);
    let commits2 = if o == VoteOutcome::Received(MessageType::ParticipantVoteCommit) {
        commits + 1
    } else {
        commits
    };
    let missing2 = missing || o == VoteOutcome::TimedOut;
    if participant + 1 < c.participants.len() {
        let c1 = c.step(events[0]).0;
        crate::coordinator::lemma_step_wf(c, events[0]);
        lemma_collect_votes(c1, rest);
        assert(c1.phase->AwaitVote_commits == commits2);
        assert(c1.phase->AwaitVote_missing == missing2);
        assert(commits + count_commits(outcomes) == commits2 + count_commits(rest));
        assert((missing || some_timed_out(outcomes)) == (missing2 || some_timed_out(rest)));
        assert(c1.conclude(client, commits2 + count_commits(rest), missing2 || some_timed_out(rest), p)
            == c.conclude(client, commits2 + count_commits(rest), missing2 || some_timed_out(rest), p));
        let acts = run(c, events).1;
        let tail = run(c1, events.drop_first()).1;
        assert(acts == seq![c.step(events[0]).1] + tail);
        assert(acts.last() == tail.last());
        assert forall|i: int| 0 <= i < outcomes.len() - 1 implies quiet(#[trigger] acts[i]) by {
            if i > 0 {
                assert(acts[i] == tail[i - 1]);
            } else {
                assert(acts[0] == c1.idle());
            }
        }
    } else {
        assert(rest.len() == 0);
        assert(count_commits(rest) == 0);
        assert(!some_timed_out(rest));
        assert(run(c.step(events[0]).0, events.drop_first()).1 =~= Seq::<ActionView>::empty());
        assert(run(c, events).1 =~= seq![c.step(events[0]).1]);
    }
}

/// A proposal's global decision. Once the coordinator has proposed `p` to the
/// participants, and the wait for each participant's vote has ended (in a vote,
/// a timeout or an interruption), every participant is told to commit exactly
/// when every one of them voted to commit; otherwise every participant is told
/// to abort, with the transaction id marked unknown exactly when some vote
/// timed out. The decision is logged unless it is unknown, the requesting
/// client is sent the matching result, and the outcome joins the coordinator's
/// record of decided requests.
pub proof fn law_global_decision(c: CoordinatorView, outcomes: Seq<VoteOutcome>)
    requires
        c.wf(),
        (c.phase is AwaitVote),
        c.phase->AwaitVote_participant == 0,
        c.phase->AwaitVote_commits == 0,
        !c.phase->AwaitVote_missing,
        outcomes.len() == c.participants.len(),
    ensures
        ({
            let p = c.phase->AwaitVote_proposal;
            let last = run(c, vote_events(outcomes)).1.last();
            let o = decide(count_commits(outcomes), c.participants.len(), some_timed_out(outcomes));
            &&& o == RequestStatus::Committed <==> all_commit(outcomes)
            &&& o == RequestStatus::Unknown <==> some_timed_out(outcomes)
            &&& run(c, vote_events(outcomes)).0.decided == c.decided.push(o)
            &&& last.to_participants == seq![decision_for_participants(p, o)]
            &&& (last.to_participants[0].mtype == MessageType::CoordinatorCommit <==> all_commit(outcomes))
            &&& (last.to_participants[0].mtype == MessageType::CoordinatorAbort <==> !all_commit(outcomes))
            &&& last.to_clients == c.route(result_for_client(p, o))
            &&& last.log == if o == RequestStatus::Unknown {
                Seq::<MessageView>::empty()
            } else {
                seq![decision_for_participants(p, o)]
            }
        }),
{
    lemma_collect_votes(c, outcomes);
    lemma_count_commits(outcomes);
    if some_timed_out(outcomes) {
        let i = choose|i: int| 0 <= i < outcomes.len() && outcomes[i] == VoteOutcome::TimedOut;
        assert(!all_commit(outcomes));
    }
}

/// The transaction id `t` tagged as aborted for want of a vote.
pub open spec fn tagged_unknown(t: Seq<char>) -> Seq<char> {
    t + seq!['_', 'u', 'n', 'k', 'n', 'o', 'w', 'n']
}

/// One request, from its receipt to its decision. When the coordinator, waiting
/// for a client's request, receives request `m` and then the outcome of the wait
/// for each participant's vote on it:
/// - the receipt step logs `m` as a proposal and sends it to every participant,
///   and nothing to any client;
/// - every vote step but the last logs and sends nothing;
/// - the last step tells every participant to commit if all votes were commit
///   votes and to abort otherwise, under `m`'s own transaction id, tagged
///   unknown exactly when one of this request's own votes timed out (whatever
///   happened to earlier requests); it logs that decision unless it is tagged;
///   and it sends the requesting client, if registered, exactly one result of
///   the same outcome under the same id;
/// - committed grows by one if all votes were commit votes and aborted
///   otherwise, and unknown grows by one exactly when a vote timed out.
pub proof fn law_request_outcome(c: CoordinatorView, m: MessageView, outcomes: Seq<VoteOutcome>)
    requires
        c.wf(),
        (c.phase is AwaitRequest),
        c.participants.len() > 0,
        outcomes.len() == c.participants.len(),
    ensures
        ({
            let events = seq![EventView::Request(m)] + vote_events(outcomes);
            let (c2, acts) = run(c, events);
            let committed = all_commit(outcomes);
            let missing = some_timed_out(outcomes);
            let id = if missing {
                tagged_unknown(m.txid)
            } else {
                m.txid
            };
            let proposal = MessageView { mtype: MessageType::CoordinatorPropose, ..m };
            let decision = MessageView {
                mtype: if committed {
                    MessageType::CoordinatorCommit
                } else {
                    MessageType::CoordinatorAbort
                },
                txid: id,
                ..m
            };
            let result = MessageView {
                mtype: if committed {
                    MessageType::ClientResultCommit
                } else {
                    MessageType::ClientResultAbort
                },
                txid: id,
                ..m
            };
            &&& acts.len() == outcomes.len() + 1
            &&& acts[0].log == seq![proposal]
            &&& acts[0].to_participants == seq![proposal]
            &&& acts[0].to_clients.len() == 0
            &&& forall|i: int| 1 <= i < acts.len() - 1 ==> quiet(#[trigger] acts[i])
            &&& acts.last().to_participants == seq![decision]
            &&& acts.last().log == if missing {
                Seq::<MessageView>::empty()
            } else {
                seq![decision]
            }
            &&& acts.last().to_clients == if c.clients.contains(m.senderid) {
                seq![result]
            } else {
                Seq::<MessageView>::empty()
            }
            &&& !(committed && missing)
            &&& c2.tally.committed == c.tally.committed + if committed {
                1int
            } else {
                0int
            }
            &&& c2.tally.aborted == c.tally.aborted + if committed {
                0int
            } else {
                1int
            }
            &&& c2.tally.unknown == c.tally.unknown + if missing {
                1int
            } else {
                0int
            }
        }),
{
    let events = seq![EventView::Request(m)] + vote_events(outcomes);
    let votes = vote_events(outcomes);
    assert(events[0] == EventView::Request(m));
    assert(events.drop_first() =~= votes);
    let c1 = c.step(EventView::Request(m)).0;
    crate::coordinator::lemma_step_wf(c, EventView::Request(m));
    law_global_decision(c1, outcomes);
    lemma_collect_votes(c1, outcomes);
    lemma_count_commits(outcomes);
    assert(unknown_suffix() =~= seq!['_', 'u', 'n', 'k', 'n', 'o', 'w', 'n']);
    let acts = run(c, events).1;
    let tail = run(c1, votes).1;
    assert(acts == seq![c.step(EventView::Request(m)).1] + tail);
    assert(acts.last() == tail.last());
    assert forall|i: int| 1 <= i < acts.len() - 1 implies quiet(#[trigger] acts[i]) by {
        assert(acts[i] == tail[i - 1]);
    }
}

/// What a client is told. The result of a transaction goes to the client that
/// requested it, with the proposal's numbers; it is a commit result exactly when
/// the transaction committed, and it carries the proposal's own transaction id,
/// tagged unknown only when the outcome is unknown. So when the proposal's id is
/// not tagged, the result's id is tagged exactly when the outcome is unknown, and
/// a commit result never is.
pub proof fn law_client_result(p: MessageView, o: RequestStatus)
    ensures
        ({
            let r = result_for_client(p, o);
            &&& r.senderid == p.senderid
            &&& r.uid == p.uid
            &&& r.opid == p.opid
            &&& (r.mtype == MessageType::ClientResultCommit <==> o == RequestStatus::Committed)
            &&& (r.mtype == MessageType::ClientResultAbort <==> o != RequestStatus::Committed)
            &&& r.txid == if o == RequestStatus::Unknown {
                tagged_unknown(p.txid)
            } else {
                p.txid
            }
            &&& !marks_unknown(p.txid) ==> (marks_unknown(r.txid) <==> o == RequestStatus::Unknown)
            &&& !marks_unknown(p.txid) && r.mtype == MessageType::ClientResultCommit ==> !marks_unknown(
                r.txid,
            )
        }),
{
    assert(unknown_suffix() =~= seq!['_', 'u', 'n', 'k', 'n', 'o', 'w', 'n']);
    lemma_suffix_marks_unknown(p.txid);
}

/// What the participants are told. The global decision carries the proposal's
/// numbers and sender; it is a commit exactly when the transaction committed,
/// and it carries the proposal's own transaction id, tagged unknown only when
/// the outcome is unknown.
pub proof fn law_participant_decision(p: MessageView, o: RequestStatus)
    ensures
        ({
            let d = decision_for_participants(p, o);
            &&& d.senderid == p.senderid
            &&& d.uid == p.uid
            &&& d.opid == p.opid
            &&& (d.mtype == MessageType::CoordinatorCommit <==> o == RequestStatus::Committed)
            &&& (d.mtype == MessageType::CoordinatorAbort <==> o != RequestStatus::Committed)
            &&& d.txid == if o == RequestStatus::Unknown {
                tagged_unknown(p.txid)
            } else {
                p.txid
            }
        }),
{
    assert(unknown_suffix() =~= seq!['_', 'u', 'n', 'k', 'n', 'o', 'w', 'n']);
}

/// The counts stay in step. For a transaction whose id does not already carry
/// the unknown marker, whatever its outcome, the coordinator's counts (from the
/// request's receipt to its decision) change exactly as every participant's do
/// on the decision the coordinator broadcasts, and as the requesting client's do
/// from sending the request to receiving its result.
pub proof fn law_counts_in_sync(
    coordinator: Tally,
    participant: Tally,
    client: Tally,
    p: MessageView,
    o: RequestStatus,
)
    requires
        !marks_unknown(p.txid),
    ensures
        ({
            let c2 = coordinator.after_request().after_decision(o);
            let p2 = participant.after_participant_decision(decision_for_participants(p, o));
            let k2 = client.after_request().after_client_result(result_for_client(p, o));
            &&& c2.committed - coordinator.committed == p2.committed - participant.committed
            &&& p2.committed - participant.committed == k2.committed - client.committed
            &&& c2.aborted - coordinator.aborted == p2.aborted - participant.aborted
            &&& p2.aborted - participant.aborted == k2.aborted - client.aborted
            &&& c2.unknown - coordinator.unknown == p2.unknown - participant.unknown
            &&& p2.unknown - participant.unknown == k2.unknown - client.unknown
        }),
{
    lemma_suffix_marks_unknown(p.txid);
}

/// A client's counts add up. If a client's committed and aborted requests add up
/// to the requests it issued, with the unknown ones among the aborted, this
/// still holds after it issues one more request and receives the coordinator's
/// result for it, whatever the outcome.
pub proof fn law_client_counts(t: Tally, issued: nat, p: MessageView, o: RequestStatus)
    requires
        t.committed + t.aborted == issued,
        0 <= t.unknown <= t.aborted,
        0 <= t.committed,
        !marks_unknown(p.txid),
    ensures
        ({
            let t2 = t.after_request().after_client_result(result_for_client(p, o));
            &&& t2.committed + t2.aborted == issued + 1
            &&& 0 <= t2.unknown <= t2.aborted
        }),
{
    lemma_suffix_marks_unknown(p.txid);
}

/// A participant's counts add up. If a participant's committed and aborted
/// transactions add up to the decisions it received, with the unknown ones among
/// the aborted, this still holds after it receives one more global decision of
/// the coordinator, whatever the outcome.
pub proof fn law_participant_counts(v: ParticipantView, p: MessageView, o: RequestStatus)
    requires
        v.wf(),
        v.tally.committed + v.tally.aborted == v.num_requests,
    ensures
        ({
            let t2 = v.tally.after_participant_decision(decision_for_participants(p, o));
            &&& t2.committed + t2.aborted == v.num_requests + 1
            &&& 0 <= t2.unknown <= t2.aborted
        }),
{
    lemma_suffix_marks_unknown(p.txid);
}

/// The coordinator's counts add up. Once it has sent the exit signal, its
/// committed and aborted requests add up to the run's total, and the unknown
/// ones are among the aborted.
pub proof fn law_totals_at_exit(c: CoordinatorView)
    requires
        c.wf(),
        c.exit_sent,
    ensures
        c.tally.committed + c.tally.aborted == c.total,
        0 <= c.tally.unknown <= c.tally.aborted,
{
    lemma_tally_of_bounds(c.decided);
}

/// The exit signal. When every request has been decided and the run goes on,
/// the coordinator sends the exit signal to every participant and to each
/// client by name, and stops at the next look at the loop's head.
pub proof fn law_exit_signal(c: CoordinatorView, later: bool)
    requires
        c.wf(),
        (c.phase is LoopHead),
        c.num_requests == c.total,
    ensures
        ({
            let (c1, a) = c.step(EventView::Running(true));
            &&& a.to_participants == seq![exit_message()]
            &&& a.to_clients.len() == c.clients.len()
            &&& forall|i: int|
                0 <= i < c.clients.len() ==> #[trigger] a.to_clients[i]
                    == exit_message().with_senderid(c.clients[i])
            &&& c1.exit_sent
            &&& c1.step(EventView::Running(later)).0.phase is Stopped
            &&& c1.step(EventView::Running(later)).1.next == CommandView::Stop
        }),
{
}

/// An interruption stops the coordinator at the head of its loop; a failed
/// receive from the awaited client stops it with no effect; and a stopped
/// coordinator stays stopped whatever happens.
pub proof fn law_stop(c: CoordinatorView, ev: EventView)
    requires
        c.wf(),
    ensures
        (c.phase is LoopHead) ==> c.step(EventView::Running(false)).0.phase is Stopped,
        (c.phase is AwaitRequest) ==> {
            let (c1, a) = c.step(EventView::ReceiveFailed);
            &&& c1.phase is Stopped
            &&& c1.tally == c.tally
            &&& a.log.len() == 0 && a.to_participants.len() == 0 && a.to_clients.len() == 0
            &&& a.next == CommandView::Stop
        },
        (c.phase is Stopped) ==> c.step(ev).0 == c && c.step(ev).1.next == CommandView::Stop,
{
}

/// A round starts with the first client. At the head of the loop, with requests
/// left to decide and clients registered, a running coordinator logs and sends
/// nothing, and next receives the request of its first client.
pub proof fn law_round_start(c: CoordinatorView)
    requires
        c.wf(),
        (c.phase is LoopHead),
        c.num_requests < c.total,
        c.clients.len() > 0,
    ensures
        c.step(EventView::Running(true)).0.phase == (PhaseView::AwaitRequest { client: 0 }),
        c.step(EventView::Running(true)).1.next == CommandView::ReceiveRequest(c.clients[0]),
        quiet(c.step(EventView::Running(true)).1),
{
}

/// Some message among `msgs` is the exit signal.
pub open spec fn carries_exit(msgs: Seq<MessageView>) -> bool {
    exists|i: int| 0 <= i < msgs.len() && #[trigger] msgs[i].mtype == MessageType::CoordinatorExit
}

proof fn lemma_conclude_no_exit(c: CoordinatorView, client: nat, commits: nat, missing: bool, p: MessageView)
    ensures
        !carries_exit(c.conclude(client, commits, missing, p).1.to_participants),
        !carries_exit(c.conclude(client, commits, missing, p).1.to_clients),
{
    let o = decide(commits, c.participants.len(), missing);
    let a = c.conclude(client, commits, missing, p).1;
    law_participant_decision(p, o);
    law_client_result(p, o);
    assert(a.to_participants[0] == decision_for_participants(p, o));
    if a.to_clients.len() > 0 {
        assert(a.to_clients[0] == result_for_client(p, o));
    }
}

/// The exit signal goes out only when every request is decided. A step sends
/// the exit signal to a participant or a client only at the head of the loop of
/// a running coordinator that has decided exactly the run's total of requests
/// and has not sent it before.
pub proof fn law_exit_only_when_done(c: CoordinatorView, ev: EventView)
    requires
        c.wf(),
    ensures
        carries_exit(c.step(ev).1.to_participants) || carries_exit(c.step(ev).1.to_clients) ==> {
            &&& c.phase is LoopHead
            &&& ev == EventView::Running(true)
            &&& c.num_requests == c.total
            &&& c.decided.len() == c.total
            &&& !c.exit_sent
        },
{
    let a = c.step(ev).1;
    match c.phase {
        PhaseView::LoopHead => {},
        PhaseView::AwaitRequest { client } => {
            if let EventView::Request(m) = ev {
                let p = m.with_mtype(MessageType::CoordinatorPropose);
                let post = CoordinatorView {
                    state: crate::coordinator::CoordinatorState::ProposalSent,
                    tally: c.tally.after_request(),
                    phase: PhaseView::AwaitVote {
                        client,
                        participant: 0,
                        commits: 0,
                        missing: false,
                        proposal: p,
                    },
                    ..c
                };
                lemma_conclude_no_exit(post, client, 0, false, p);
                let d = post.conclude(client, 0, false, p).1;
                if c.participants.len() == 0 {
                    assert(a.to_participants == seq![p] + d.to_participants);
                    assert(a.to_clients == Seq::<MessageView>::empty() + d.to_clients);
                    assert forall|i: int| 0 <= i < a.to_participants.len() implies #[trigger] a.to_participants[i].mtype
                        != MessageType::CoordinatorExit by {
                        if i > 0 {
                            assert(a.to_participants[i] == d.to_participants[i - 1]);
                        }
                    }
                    assert forall|i: int| 0 <= i < a.to_clients.len() implies #[trigger] a.to_clients[i].mtype
                        != MessageType::CoordinatorExit by {
                        assert(a.to_clients[i] == d.to_clients[i]);
                    }
                } else {
                    assert(a.to_participants == seq![p]);
                    assert(a.to_participants[0].mtype == MessageType::CoordinatorPropose);
                }
            }
        },
        PhaseView::AwaitVote { client, participant, commits, missing, proposal } => {
            if let EventView::Vote(o) = ev {
                let commits2 = if o == VoteOutcome::Received(MessageType::ParticipantVoteCommit) {
                    commits + 1
                } else {
                    commits
                };
                let missing2 = missing || o == VoteOutcome::TimedOut;
                lemma_conclude_no_exit(c, client, commits2, missing2, proposal);
            }
        },
        PhaseView::Stopped => {},
    }
}

/// A round visits the clients in turn. When the last vote on the request of a
/// round's `k`-th client comes in, the coordinator next receives the request of
/// client `k + 1`; after the last client it goes back, quiescent, to the head of
/// the loop.
pub proof fn law_round_order(c: CoordinatorView, o: VoteOutcome)
    requires
        c.wf(),
        (c.phase is AwaitVote),
        c.phase->AwaitVote_participant + 1 == c.participants.len(),
    ensures
        ({
            let k = c.phase->AwaitVote_client;
            let (c1, a) = c.step(EventView::Vote(o));
            &&& k + 1 < c.clients.len() ==> c1.phase == (PhaseView::AwaitRequest { client: k + 1 })
                && a.next == CommandView::ReceiveRequest(c.clients[k + 1int])
            &&& k + 1 >= c.clients.len() ==> (c1.phase is LoopHead) && c1.state
                == crate::coordinator::CoordinatorState::Quiescent && a.next
                == CommandView::CheckRunning
            &&& c1.num_requests == c.num_requests + 1
        }),
{
}

/// The coordinator's counts are those of the decided requests. Between two
/// requests, its committed, aborted and unknown counts are exactly those of the
/// requests decided so far: committed and aborted add up to them, and the
/// unknown count is the number of requests aborted because some vote never
/// arrived (see `law_global_decision`), one per such request however many
/// votes were missing.
pub proof fn law_coordinator_counts(c: CoordinatorView)
    requires
        c.wf(),
        !(c.phase is AwaitVote),
    ensures
        c.tally == tally_of(c.decided),
        c.tally.committed + c.tally.aborted == c.decided.len(),
        0 <= c.tally.unknown <= c.tally.aborted,
{
    lemma_tally_of_bounds(c.decided);
}

/// The counts a participant reaches from `t` on receiving, in turn, the global
/// decisions on `proposals` with the given outcomes.
pub open spec fn participant_over(t: Tally, proposals: Seq<MessageView>, outcomes: Seq<RequestStatus>) -> Tally
    decreases outcomes.len(),
{
    if outcomes.len() == 0 || proposals.len() == 0 {
        t
    } else {
        participant_step(
            participant_over(t, proposals.drop_last(), outcomes.drop_last()),
            proposals.last(),
            outcomes.last(),
        )
    }
}

/// A participant's counts after it receives the global decision on `p` with
/// outcome `o`.
#[verifier::opaque]
pub open spec fn participant_step(t: Tally, p: MessageView, o: RequestStatus) -> Tally {
    t.after_participant_decision(decision_for_participants(p, o))
}

/// None of the transaction ids carries the unknown marker.
pub open spec fn unmarked(proposals: Seq<MessageView>) -> bool {
    forall|i: int| 0 <= i < proposals.len() ==> !marks_unknown(#[trigger] proposals[i].txid)
}

proof fn lemma_participant_decision_adds(t: Tally, p: MessageView, o: RequestStatus)
    requires
        !marks_unknown(p.txid),
    ensures
        participant_step(t, p, o) == t.plus(outcome_tally(o)),
{
    reveal(participant_step);
    lemma_suffix_marks_unknown(p.txid);
}

/// A participant's counts over a run. Receiving the global decisions on a
/// sequence of transactions adds exactly the counts of their outcomes.
#[verifier::rlimit(40)]
pub proof fn law_participant_run(t: Tally, proposals: Seq<MessageView>, outcomes: Seq<RequestStatus>)
    requires
        proposals.len() == outcomes.len(),
        unmarked(proposals),
    ensures
        participant_over(t, proposals, outcomes) == t.plus(tally_of(outcomes)),
    decreases outcomes.len(),
{
    if outcomes.len() > 0 {
        let ps = proposals.drop_last();
        let os = outcomes.drop_last();
        let p = proposals.last();
        let o = outcomes.last();
        assert(unmarked(ps)) by {
            assert forall|i: int| 0 <= i < ps.len() implies !marks_unknown(#[trigger] ps[i].txid) by {
                assert(ps[i] == proposals[i]);
            }
        }
        law_participant_run(t, ps, os);
        let before = participant_over(t, ps, os);
        assert(participant_over(t, proposals, outcomes) == participant_step(before, p, o));
        assert(!marks_unknown(proposals[proposals.len() - 1].txid));
        lemma_participant_decision_adds(before, p, o);
        assert(outcomes =~= os.push(o));
        lemma_tally_of_push(os, o);
    }
}

/// Every participant ends with the coordinator's counts. A participant that,
/// from its start, received the global decision on each request the coordinator
/// decided has the coordinator's committed, aborted and unknown counts.
pub proof fn law_participant_matches_coordinator(c: CoordinatorView, proposals: Seq<MessageView>)
    requires
        c.wf(),
        !(c.phase is AwaitVote),
        proposals.len() == c.decided.len(),
        unmarked(proposals),
    ensures
        participant_over(Tally::zero(), proposals, c.decided) == c.tally,
{
    law_participant_run(Tally::zero(), proposals, c.decided);
}

/// The outcomes, among `outcomes`, of the requests that client `j` issued
/// (`owners[i]` is the client of request `i`).
pub open spec fn owned(owners: Seq<nat>, outcomes: Seq<RequestStatus>, j: nat) -> Seq<RequestStatus>
    decreases outcomes.len(),
{
    if outcomes.len() == 0 || owners.len() == 0 {
        Seq::empty()
    } else {
        let rest = owned(owners.drop_last(), outcomes.drop_last(), j);
        if owners.last() == j {
            rest.push(outcomes.last())
        } else {
            rest
        }
    }
}

/// The counts of clients `0 .. k` added up, each counting its own requests.
pub open spec fn clients_total(owners: Seq<nat>, outcomes: Seq<RequestStatus>, k: nat) -> Tally
    decreases k,
{
    if k == 0 {
        Tally::zero()
    } else {
        clients_total(owners, outcomes, (k - 1) as nat).plus(
            tally_of(owned(owners, outcomes, (k - 1) as nat)),
        )
    }
}

proof fn lemma_clients_total_push(owners: Seq<nat>, outcomes: Seq<RequestStatus>, w: nat, x: RequestStatus, k: nat)
    requires
        owners.len() == outcomes.len(),
    ensures
        clients_total(owners.push(w), outcomes.push(x), k) == if w < k {
            clients_total(owners, outcomes, k).plus(outcome_tally(x))
        } else {
            clients_total(owners, outcomes, k)
        },
    decreases k,
{
    if k > 0 {
        let j = (k - 1) as nat;
        lemma_clients_total_push(owners, outcomes, w, x, j);
        assert(owners.push(w).drop_last() =~= owners);
        assert(outcomes.push(x).drop_last() =~= outcomes);
        if w == j {
            lemma_tally_of_push(owned(owners, outcomes, j), x);
        }
    }
}

/// The clients' counts add up to the coordinator's. Over any sequence of
/// decided requests, each issued by one of clients `0 .. k`, the clients' counts
/// of their own requests add up to the counts of all of them, which are the
/// coordinator's (`law_coordinator_counts`) and each client's are those its run
/// reaches (`law_client_run`).
pub proof fn law_clients_sum(owners: Seq<nat>, outcomes: Seq<RequestStatus>, k: nat)
    requires
        owners.len() == outcomes.len(),
        forall|i: int| 0 <= i < owners.len() ==> #[trigger] owners[i] < k,
    ensures
        clients_total(owners, outcomes, k) == tally_of(outcomes),
    decreases outcomes.len(),
{
    if outcomes.len() == 0 {
        assert forall|j: nat| j < k implies owned(owners, outcomes, j) == Seq::<RequestStatus>::empty() by {}
        lemma_clients_total_empty(owners, outcomes, k);
    } else {
        let os = owners.drop_last();
        let xs = outcomes.drop_last();
        assert forall|i: int| 0 <= i < os.len() implies #[trigger] os[i] < k by {
            assert(os[i] == owners[i]);
        }
        law_clients_sum(os, xs, k);
        assert(owners =~= os.push(owners.last()));
        assert(outcomes =~= xs.push(outcomes.last()));
        assert(owners.last() < k);
        lemma_clients_total_push(os, xs, owners.last(), outcomes.last(), k);
        lemma_tally_of_push(xs, outcomes.last());
    }
}

proof fn lemma_clients_total_empty(owners: Seq<nat>, outcomes: Seq<RequestStatus>, k: nat)
    requires
        outcomes.len() == 0,
    ensures
        clients_total(owners, outcomes, k) == Tally::zero(),
    decreases k,
{
    if k > 0 {
        lemma_clients_total_empty(owners, outcomes, (k - 1) as nat);
    }
}

/// What a client can be asked to do.
pub enum ClientOp {
    /// `Client::protocol`: start a run of this many requests.
    Start(nat),
    /// `Client::next_request`, with the running flag.
    Issue(bool),
    /// `Client::send_next_operation`.
    Send,
    /// `Client::recv_result` with this result.
    Receive(MessageView),
}

/// One operation of a client, with the request it issues, if any.
pub open spec fn client_step(c: ClientView, op: ClientOp) -> (ClientView, Option<MessageView>) {
    match op {
        ClientOp::Start(n) => (c.started(n), None),
        ClientOp::Issue(r) => c.issue(r),
        ClientOp::Send => (c.sent(), Some(c.next_message())),
        ClientOp::Receive(m) => (c.received(m), None),
    }
}

/// A client after each of `ops` in turn, with the requests it issued in order.
pub open spec fn client_ops(c: ClientView, ops: Seq<ClientOp>) -> (ClientView, Seq<MessageView>)
    decreases ops.len(),
{
    if ops.len() == 0 {
        (c, Seq::empty())
    } else {
        let (c1, m) = client_step(c, ops[0]);
        let (c2, rest) = client_ops(c1, ops.drop_first());
        (
            c2,
            match m {
                Some(x) => seq![x] + rest,
                None => rest,
            },
        )
    }
}

/// Requests are numbered in order and carry distinct ids. Whatever a client is
/// asked to do, the requests it issues carry the operation numbers following its
/// count, in order, and pairwise distinct transaction ids.
#[verifier::rlimit(30)]
pub proof fn law_client_request_numbers(c: ClientView, ops: Seq<ClientOp>)
    requires
        c.num_requests + ops.len() <= u32::MAX,
    ensures
        ({
            let (c2, sent) = client_ops(c, ops);
            &&& c2.id == c.id
            &&& sent.len() <= ops.len()
            &&& c2.num_requests == c.num_requests + sent.len()
            &&& forall|i: int|
                0 <= i < sent.len() ==> #[trigger] sent[i] == request_message(
                    c.id,
                    (c.num_requests + i + 1) as u32,
                )
            &&& forall|i: int, j: int|
                0 <= i < j < sent.len() ==> #[trigger] sent[i].txid != #[trigger] sent[j].txid
        }),
    decreases ops.len(),
{
    if ops.len() > 0 {
        let (c1, m) = client_step(c, ops[0]);
        law_client_request_numbers(c1, ops.drop_first());
        let (c2, sent) = client_ops(c, ops);
        let rest = client_ops(c1, ops.drop_first()).1;
        assert forall|i: int| 0 <= i < sent.len() implies #[trigger] sent[i] == request_message(
            c.id,
            (c.num_requests + i + 1) as u32,
        ) by {
            if m is Some && i > 0 {
                assert(sent[i] == rest[i - 1]);
            }
        }
        assert forall|i: int, j: int| 0 <= i < j < sent.len() implies #[trigger] sent[i].txid
            != #[trigger] sent[j].txid by {
            assert(sent[i].txid == request_txid(c.id, (c.num_requests + i + 1) as nat));
            assert(sent[j].txid == request_txid(c.id, (c.num_requests + j + 1) as nat));
            law_txids_unique(c.id, (c.num_requests + i + 1) as nat, (c.num_requests + j + 1) as nat);
        }
    }
}

/// A client's protocol run with every request answered: each request is issued,
/// then the coordinator's result for it with the given outcome is received.
pub open spec fn client_run(c: ClientView, outcomes: Seq<RequestStatus>) -> (ClientView, Seq<MessageView>)
    decreases outcomes.len(),
{
    if outcomes.len() == 0 {
        (c, Seq::empty())
    } else {
        let (c3, rest) = client_run(client_round(c, outcomes[0]), outcomes.drop_first());
        (c3, seq![c.issue(true).1->0] + rest)
    }
}

/// One round of a client's run: it issues a request and receives the
/// coordinator's result for it with outcome `o`.
#[verifier::opaque]
pub open spec fn client_round(c: ClientView, o: RequestStatus) -> ClientView {
    let (c1, m) = c.issue(true);
    c1.received(result_for_client(m->0.with_mtype(MessageType::CoordinatorPropose), o))
}

#[verifier::spinoff_prover]
#[verifier::rlimit(50)]
proof fn lemma_client_round(c: ClientView, o: RequestStatus)
    requires
        c.wf(),
        !c.awaiting,
        c.remaining > 0,
        !c.id.contains('u'),
    ensures
        c.issue(true).1 == Some(request_message(c.id, (c.num_requests + 1) as u32)),
        client_round(c, o).id == c.id,
        client_round(c, o).num_requests == c.num_requests + 1,
        client_round(c, o).tally == c.tally.plus(outcome_tally(o)),
        client_round(c, o).remaining == c.remaining - 1,
        !client_round(c, o).awaiting,
        client_round(c, o).wf(),
{
    reveal(client_round);
    let request = c.issue(true).1->0;
    law_request_txid_not_unknown(c.id, c.num_requests + 1);
    assert(request.txid == request_txid(c.id, c.num_requests + 1));
    lemma_suffix_marks_unknown(request.txid);
}

proof fn lemma_tally_of_prepend(o: RequestStatus, rest: Seq<RequestStatus>)
    ensures
        tally_of(seq![o] + rest) == outcome_tally(o).plus(tally_of(rest)),
    decreases rest.len(),
{
    if rest.len() == 0 {
        assert(seq![o] + rest =~= Seq::<RequestStatus>::empty().push(o));
        lemma_tally_of_push(Seq::<RequestStatus>::empty(), o);
    } else {
        let r = rest.drop_last();
        lemma_tally_of_prepend(o, r);
        assert(seq![o] + rest =~= (seq![o] + r).push(rest.last()));
        assert(rest =~= r.push(rest.last()));
        lemma_tally_of_push(seq![o] + r, rest.last());
        lemma_tally_of_push(r, rest.last());
    }
}

#[verifier::rlimit(30)]
proof fn lemma_client_run_state(c: ClientView, outcomes: Seq<RequestStatus>)
    requires
        c.wf(),
        !c.awaiting,
        c.remaining == outcomes.len(),
        !c.id.contains('u'),
    ensures
        client_run(c, outcomes).0.id == c.id,
        client_run(c, outcomes).0.num_requests == c.num_requests + outcomes.len(),
        client_run(c, outcomes).0.tally == c.tally.plus(tally_of(outcomes)),
        client_run(c, outcomes).0.remaining == 0,
        !client_run(c, outcomes).0.awaiting,
        client_run(c, outcomes).0.wf(),
    decreases outcomes.len(),
{
    if outcomes.len() > 0 {
        let o = outcomes[0];
        let rest = outcomes.drop_first();
        let c2 = client_round(c, o);
        lemma_client_round(c, o);
        lemma_client_run_state(c2, rest);
        let end = client_run(c2, rest).0;
        assert(client_run(c, outcomes).0 == end);
        assert(outcomes =~= seq![o] + rest);
        lemma_tally_of_prepend(o, rest);
        assert(end.tally == c.tally.plus(tally_of(outcomes)));
    }
}

#[verifier::rlimit(30)]
proof fn lemma_client_run_sent(c: ClientView, outcomes: Seq<RequestStatus>)
    requires
        c.wf(),
        !c.awaiting,
        c.remaining == outcomes.len(),
        !c.id.contains('u'),
    ensures
        client_run(c, outcomes).1.len() == outcomes.len(),
        forall|i: int|
            0 <= i < outcomes.len() ==> #[trigger] client_run(c, outcomes).1[i]
                == request_message(c.id, (c.num_requests + i + 1) as u32),
    decreases outcomes.len(),
{
    if outcomes.len() > 0 {
        let o = outcomes[0];
        let rest = outcomes.drop_first();
        let c2 = client_round(c, o);
        lemma_client_round(c, o);
        lemma_client_run_sent(c2, rest);
        let sent = client_run(c, outcomes).1;
        let tail = client_run(c2, rest).1;
        assert(sent == seq![c.issue(true).1->0] + tail);
        assert forall|i: int| 0 <= i < outcomes.len() implies #[trigger] sent[i] == request_message(
            c.id,
            (c.num_requests + i + 1) as u32,
        ) by {
            if i > 0 {
                assert(sent[i] == tail[i - 1]);
            }
        }
    }
}

/// A client's protocol run. A run of `n` requests, started with no result
/// awaited and answered request by request, issues exactly `n` requests, one
/// at a time and numbered after the client's count; it adds exactly the counts
/// of their outcomes, so committed and aborted keep adding up to the requests
/// issued, with the unknown ones among the aborted; and then issues no more.
pub proof fn law_client_run(c: ClientView, outcomes: Seq<RequestStatus>)
    requires
        c.wf(),
        !c.awaiting,
        c.remaining == outcomes.len(),
        !c.id.contains('u'),
    ensures
        ({
            let (c2, sent) = client_run(c, outcomes);
            &&& c2.id == c.id
            &&& c2.num_requests == c.num_requests + outcomes.len()
            &&& c2.tally == c.tally.plus(tally_of(outcomes))
            &&& c2.remaining == 0
            &&& !c2.awaiting
            &&& c2.wf()
            &&& c2.issue(true).1 is None
            &&& sent.len() == outcomes.len()
            &&& forall|i: int|
                0 <= i < sent.len() ==> #[trigger] sent[i] == request_message(
                    c.id,
                    (c.num_requests + i + 1) as u32,
                )
            &&& c.tally.committed + c.tally.aborted == c.num_requests ==> c2.tally.committed
                + c2.tally.aborted == c2.num_requests
            &&& c.tally.unknown <= c.tally.aborted ==> c2.tally.unknown <= c2.tally.aborted
        }),
{
    lemma_tally_of_bounds(outcomes);
    lemma_client_run_state(c, outcomes);
    lemma_client_run_sent(c, outcomes);
}

/// A client's protocol run issues exactly the requests asked for. Starting a
/// run of `n` requests (`Client::protocol`) on a client awaiting no result, and
/// answering request by request, issues exactly `n` requests, numbered after the
/// client's count with the ids `<name>_op_<number>`, and then no more.
pub proof fn law_client_protocol(c: ClientView, outcomes: Seq<RequestStatus>)
    requires
        c.wf(),
        !c.awaiting,
        c.num_requests + outcomes.len() <= u32::MAX,
        !c.id.contains('u'),
    ensures
        ({
            let (c2, sent) = client_run(c.started(outcomes.len()), outcomes);
            &&& sent.len() == outcomes.len()
            &&& c2.num_requests == c.num_requests + outcomes.len()
            &&& forall|i: int|
                0 <= i < sent.len() ==> {
                    &&& (#[trigger] sent[i]).mtype == MessageType::ClientRequest
                    &&& sent[i].opid == c.num_requests + i + 1
                    &&& sent[i].txid == c.id + op_separator() + decimal((c.num_requests + i + 1) as nat)
                    &&& sent[i].senderid == c.id
                }
            &&& c2.issue(true).1 is None
        }),
{
    let c1 = c.started(outcomes.len());
    assert(c1.remaining == outcomes.len());
    law_client_run(c1, outcomes);
}

/// One request at a time. While a result is awaited a client issues nothing;
/// issuing a request makes it await the result; and only a received result
/// ends the wait.
pub proof fn law_one_request_at_a_time(c: ClientView, running: bool, m: MessageView)
    ensures
        c.awaiting ==> c.issue(running) == (c, None::<MessageView>),
        c.issue(running).1 is Some ==> c.issue(running).0.awaiting,
        !c.received(m).awaiting,
        c.started(0).awaiting == c.awaiting,
        c.sent().awaiting == c.awaiting,
{
}

/// The value of a decimal digit character.
pub open spec fn digit_value(ch: char) -> int {
    ch as int - '0' as int
}

/// The number a string of decimal digits denotes.
pub open spec fn numeral_value(s: Seq<char>) -> int
    decreases s.len(),
{
    if s.len() == 0 {
        0
    } else {
        numeral_value(s.drop_last()) * 10 + digit_value(s.last())
    }
}

proof fn lemma_digit(d: nat)
    requires
        d < 10,
    ensures
        digit_value(digit_char(d)) == d,
        '0' <= digit_char(d) <= '9',
        digit_char(d) == '0' <==> d == 0,
{
    assert('0' as int == 48);
    assert('1' as int == 49);
    assert('2' as int == 50);
    assert('3' as int == 51);
    assert('4' as int == 52);
    assert('5' as int == 53);
    assert('6' as int == 54);
    assert('7' as int == 55);
    assert('8' as int == 56);
    assert('9' as int == 57);
}

/// Numerals are the usual decimal ones. The numeral of `n` is made of decimal
/// digits, has no leading zero unless it is `0` itself, and denotes `n`.
pub proof fn law_decimal(n: nat)
    ensures
        decimal(n).len() >= 1,
        forall|i: int| 0 <= i < decimal(n).len() ==> '0' <= #[trigger] decimal(n)[i] <= '9',
        decimal(n).len() > 1 ==> decimal(n)[0] != '0',
        n == 0 <==> decimal(n) == seq!['0'],
        numeral_value(decimal(n)) == n,
    decreases n,
{
    lemma_decimal_len(n);
    let d = decimal(n);
    if n >= 10 {
        law_decimal(n / 10);
        lemma_digit(n % 10);
        assert(d.drop_last() == decimal(n / 10));
        assert(d.last() == digit_char(n % 10));
        assert forall|i: int| 0 <= i < d.len() implies '0' <= #[trigger] d[i] <= '9' by {
            if i < d.len() - 1 {
                assert(d[i] == decimal(n / 10)[i]);
            }
        }
        lemma_decimal_len(n / 10);
        if n / 10 < 10 {
            lemma_digit(n / 10);
            assert(d[0] == digit_char(n / 10));
        } else {
            assert(d[0] == decimal(n / 10)[0]);
        }
        assert(d.len() != seq!['0'].len());
        assert(numeral_value(d) == numeral_value(decimal(n / 10)) * 10 + digit_value(digit_char(n % 10)));
    } else {
        lemma_digit(n);
        assert(d =~= seq![digit_char(n)]);
        assert(d.drop_last() =~= Seq::<char>::empty());
        assert(numeral_value(d) == numeral_value(d.drop_last()) * 10 + digit_value(d.last()));
        if n != 0 {
            assert(d[0] != seq!['0'][0]);
        }
    }
}

/// Fields are padded with blanks. Right-aligning `s` in a field of `width`
/// characters gives the wider of the two lengths, ends with `s` and is blank
/// before it; left-aligning it starts with `s` and is blank after it.
pub proof fn law_padding(s: Seq<char>, width: nat)
    ensures
        pad_left(s, width).len() == if s.len() < width {
            width
        } else {
            s.len()
        },
        pad_right(s, width).len() == pad_left(s, width).len(),
        pad_left(s, width).subrange(pad_left(s, width).len() - s.len(), pad_left(s, width).len() as int)
            == s,
        forall|i: int| 0 <= i < pad_left(s, width).len() - s.len() ==> #[trigger] pad_left(s, width)[i] == ' ',
        pad_right(s, width).subrange(0, s.len() as int) == s,
        forall|i: int| s.len() <= i < pad_right(s, width).len() ==> #[trigger] pad_right(s, width)[i] == ' ',
{
    let l = pad_left(s, width);
    let r = pad_right(s, width);
    assert(l.subrange(l.len() - s.len(), l.len() as int) =~= s);
    assert(r.subrange(0, s.len() as int) =~= s);
}

proof fn lemma_decimal_len(n: nat)
    ensures
        decimal(n).len() >= 1,
        n >= 10 ==> decimal(n).len() >= 2,
    decreases n,
{
    if n >= 10 {
        lemma_decimal_len(n / 10);
    }
}

proof fn lemma_decimal_injective(a: nat, b: nat)
    requires
        decimal(a) == decimal(b),
    ensures
        a == b,
    decreases a,
{
    lemma_decimal_len(a);
    lemma_decimal_len(b);
    if a >= 10 && b >= 10 {
        let da = decimal(a);
        let db = decimal(b);
        assert(da.last() == digit_char(a % 10));
        assert(db.last() == digit_char(b % 10));
        assert(a % 10 == b % 10);
        assert(da.drop_last() == decimal(a / 10));
        assert(db.drop_last() == decimal(b / 10));
        lemma_decimal_injective(a / 10, b / 10);
    } else if a < 10 && b < 10 {
        assert(decimal(a)[0] == digit_char(a));
        assert(decimal(b)[0] == digit_char(b));
    }
}

/// Transaction ids are unique. Distinct requests of a client carry distinct
/// transaction ids.
pub proof fn law_txids_unique(id: Seq<char>, n1: nat, n2: nat)
    requires
        n1 != n2,
    ensures
        request_txid(id, n1) != request_txid(id, n2),
{
    let k = id.len() + op_separator().len();
    if request_txid(id, n1) == request_txid(id, n2) {
        assert(request_txid(id, n1).subrange(k as int, request_txid(id, n1).len() as int)
            =~= decimal(n1));
        assert(request_txid(id, n2).subrange(k as int, request_txid(id, n2).len() as int)
            =~= decimal(n2));
        lemma_decimal_injective(n1, n2);
    }
}

proof fn lemma_decimal_no_u(n: nat)
    ensures
        !decimal(n).contains('u'),
    decreases n,
{
    if n >= 10 {
        lemma_decimal_no_u(n / 10);
        assert forall|i: int| 0 <= i < decimal(n).len() implies decimal(n)[i] != 'u' by {
            if i < decimal(n).len() - 1 {
                assert(decimal(n)[i] == decimal(n / 10)[i]);
            }
        }
    } else {
        assert(decimal(n)[0] == digit_char(n));
    }
}

/// Request ids never look unknown. When a client's name holds no letter `u`, no
/// transaction id it issues carries the unknown marker.
pub proof fn law_request_txid_not_unknown(id: Seq<char>, n: nat)
    requires
        !id.contains('u'),
    ensures
        !marks_unknown(request_txid(id, n)),
{
    let t = request_txid(id, n);
    lemma_decimal_no_u(n);
    assert forall|i: int| 0 <= i < t.len() implies t[i] != 'u' by {
        if i < id.len() {
            assert(t[i] == id[i]);
        } else if i < id.len() + 4 {
            assert(t[i] == op_separator()[i - id.len()]);
        } else {
            assert(t[i] == decimal(n)[i - id.len() - 4]);
        }
    }
    if has_infix(t, crate::message::unknown_marker()) {
        let i = choose|i: int|
            0 <= i && i + 7 <= t.len() && #[trigger] t.subrange(i, i + 7)
                == crate::message::unknown_marker();
        assert(t.subrange(i, i + 7)[0] == t[i]);
    }
}

} // verus!
