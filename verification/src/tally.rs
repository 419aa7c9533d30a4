//! How transactions end, what the coordinator tells each side about them, and
//! the committed / aborted / unknown counts every role keeps.
use crate::message::{
    marks_unknown, unknown_suffix, MessageType, MessageView, ProtocolMessage, RequestStatus,
};
use vstd::prelude::*;

verus! {

/// The counts of committed, aborted and unknown transactions a process keeps.
pub struct Tally {
    pub committed: int,
    pub aborted: int,
    pub unknown: int,
}

impl Tally {
    pub open spec fn zero() -> Tally {
        Tally { committed: 0, aborted: 0, unknown: 0 }
    }

    /// A request is under way: until its outcome is known it counts as unknown.
    pub open spec fn after_request(self) -> Tally {
        Tally { unknown: self.unknown + 1, ..self }
    }

    /// The coordinator has decided a request it counted as under way.
    pub open spec fn after_decision(self, o: RequestStatus) -> Tally {
        match o {
            RequestStatus::Committed => Tally {
                committed: self.committed + 1,
                unknown: self.unknown - 1,
                ..self
            },
            RequestStatus::Aborted => Tally {
                aborted: self.aborted + 1,
                unknown: self.unknown - 1,
                ..self
            },
            RequestStatus::Unknown => Tally { aborted: self.aborted + 1, ..self },
        }
    }

    /// A client has received `m` as the result of its request.
    pub open spec fn after_client_result(self, m: MessageView) -> Tally {
        if m.mtype == MessageType::ClientResultCommit {
            Tally { committed: self.committed + 1, unknown: self.unknown - 1, ..self }
        } else if m.mtype == MessageType::ClientResultAbort {
            if marks_unknown(m.txid) {
                Tally { aborted: self.aborted + 1, ..self }
            } else {
                Tally { aborted: self.aborted + 1, unknown: self.unknown - 1, ..self }
            }
        } else {
            self
        }
    }

    /// A participant has received `m` as the global decision.
    pub open spec fn after_participant_decision(self, m: MessageView) -> Tally {
        if m.mtype == MessageType::CoordinatorCommit {
            Tally { committed: self.committed + 1, ..self }
        } else if m.mtype == MessageType::CoordinatorAbort {
            if marks_unknown(m.txid) {
                Tally { aborted: self.aborted + 1, unknown: self.unknown + 1, ..self }
            } else {
                Tally { aborted: self.aborted + 1, ..self }
            }
        } else {
            self
        }
    }
}

impl Tally {
    pub open spec fn plus(self, other: Tally) -> Tally {
        Tally {
            committed: self.committed + other.committed,
            aborted: self.aborted + other.aborted,
            unknown: self.unknown + other.unknown,
        }
    }
}

/// What one transaction with outcome `o` adds to the counts: a commit, or an
/// abort that is also unknown when a vote went missing.
pub open spec fn outcome_tally(o: RequestStatus) -> Tally {
    match o {
        RequestStatus::Committed => Tally { committed: 1, aborted: 0, unknown: 0 },
        RequestStatus::Aborted => Tally { committed: 0, aborted: 1, unknown: 0 },
        RequestStatus::Unknown => Tally { committed: 0, aborted: 1, unknown: 1 },
    }
}

/// The counts of a sequence of transactions with the given outcomes.
pub open spec fn tally_of(outcomes: Seq<RequestStatus>) -> Tally
    decreases outcomes.len(),
{
    if outcomes.len() == 0 {
        Tally::zero()
    } else {
        tally_of(outcomes.drop_last()).plus(outcome_tally(outcomes.last()))
    }
}

/// Counting one more outcome.
pub proof fn lemma_tally_of_push(outcomes: Seq<RequestStatus>, o: RequestStatus)
    ensures
        tally_of(outcomes.push(o)) == tally_of(outcomes).plus(outcome_tally(o)),
{
    assert(outcomes.push(o).drop_last() =~= outcomes);
}

/// Committed and aborted add up to the number of transactions, and the unknown
/// ones are among the aborted.
pub proof fn lemma_tally_of_bounds(outcomes: Seq<RequestStatus>)
    ensures
        tally_of(outcomes).committed + tally_of(outcomes).aborted == outcomes.len(),
        0 <= tally_of(outcomes).committed,
        0 <= tally_of(outcomes).unknown <= tally_of(outcomes).aborted,
    decreases outcomes.len(),
{
    if outcomes.len() > 0 {
        lemma_tally_of_bounds(outcomes.drop_last());
    }
}

/// The outcome of a proposal to `voters` participants of which `commits` voted to
/// commit; `missing` says whether some vote never arrived.
pub open spec fn decide(commits: nat, voters: nat, missing: bool) -> RequestStatus {
    if commits == voters {
        RequestStatus::Committed
    } else if missing {
        RequestStatus::Unknown
    } else {
        RequestStatus::Aborted
    }
}

/// The global decision the participants receive for proposal `p`.
pub open spec fn decision_for_participants(p: MessageView, o: RequestStatus) -> MessageView {
    match o {
        RequestStatus::Committed => p.with_mtype(MessageType::CoordinatorCommit),
        RequestStatus::Aborted => p.with_mtype(MessageType::CoordinatorAbort),
        RequestStatus::Unknown => p.with_mtype(MessageType::CoordinatorAbort).with_txid(
            p.txid + unknown_suffix(),
        ),
    }
}

/// The result the requesting client receives for proposal `p`.
pub open spec fn result_for_client(p: MessageView, o: RequestStatus) -> MessageView {
    match o {
        RequestStatus::Committed => p.with_mtype(MessageType::ClientResultCommit),
        RequestStatus::Aborted => p.with_mtype(MessageType::ClientResultAbort),
        RequestStatus::Unknown => p.with_mtype(MessageType::ClientResultAbort).with_txid(
            p.txid + unknown_suffix(),
        ),
    }
}

/// The outcome of a proposal to `voters` participants of which `commits` voted to
/// commit, `missing` saying whether some vote never arrived.
pub fn decide_outcome(commits: usize, voters: usize, missing: bool) -> (o: RequestStatus)
    ensures
        o == decide(commits as nat, voters as nat, missing),
{
    if commits == voters {
        RequestStatus::Committed
    } else if missing {
        RequestStatus::Unknown
    } else {
        RequestStatus::Aborted
    }
}

/// The global decision for the participants on proposal `p`.
pub fn participant_decision(p: &ProtocolMessage, o: RequestStatus) -> (m: ProtocolMessage)
    ensures
        m@ == decision_for_participants(p@, o),
{
    match o {
        RequestStatus::Committed => p.with_type(MessageType::CoordinatorCommit),
        RequestStatus::Aborted => p.with_type(MessageType::CoordinatorAbort),
        RequestStatus::Unknown => p.marked_unknown(MessageType::CoordinatorAbort),
    }
}

/// The result for the requesting client of proposal `p`.
pub fn client_result(p: &ProtocolMessage, o: RequestStatus) -> (m: ProtocolMessage)
    ensures
        m@ == result_for_client(p@, o),
{
    match o {
        RequestStatus::Committed => p.with_type(MessageType::ClientResultCommit),
        RequestStatus::Aborted => p.with_type(MessageType::ClientResultAbort),
        RequestStatus::Unknown => p.marked_unknown(MessageType::ClientResultAbort),
    }
}

} // verus!
