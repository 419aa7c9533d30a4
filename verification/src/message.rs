//! The messages that clients, the coordinator and participants exchange.
use crate::text::{contains_str, has_infix};
use vstd::prelude::*;

verus! {

/// What a message asks for or reports.
#[derive(Clone, Copy, Debug, PartialEq, Eq, Structural)]
pub enum MessageType {
    /// A client asks the coordinator to run a transaction.
    ClientRequest,
    /// The coordinator proposes a transaction to the participants (phase one).
    CoordinatorPropose,
    /// A participant votes to commit.
    ParticipantVoteCommit,
    /// A participant votes to abort.
    ParticipantVoteAbort,
    /// The coordinator tells the participants to abort (phase two).
    CoordinatorAbort,
    /// The coordinator tells the participants to commit (phase two).
    CoordinatorCommit,
    /// The coordinator tells the client its transaction committed.
    ClientResultCommit,
    /// The coordinator tells the client its transaction aborted.
    ClientResultAbort,
    /// The coordinator tells a client or participant to exit.
    CoordinatorExit,
}

/// How a transaction ended.
#[derive(Clone, Copy, Debug, PartialEq, Eq, Structural)]
pub enum RequestStatus {
    Committed,
    Aborted,
    /// Aborted because some participant's vote never arrived.
    Unknown,
}

/// A protocol message.
#[derive(Debug)]
pub struct ProtocolMessage {
    pub mtype: MessageType,
    pub uid: u32,
    pub txid: String,
    pub senderid: String,
    pub opid: u32,
}

/// The mathematical value of a protocol message.
pub struct MessageView {
    pub mtype: MessageType,
    pub uid: u32,
    pub txid: Seq<char>,
    pub senderid: Seq<char>,
    pub opid: u32,
}

impl MessageView {
    pub open spec fn with_mtype(self, mtype: MessageType) -> MessageView {
        MessageView { mtype, ..self }
    }

    pub open spec fn with_txid(self, txid: Seq<char>) -> MessageView {
        MessageView { txid, ..self }
    }

    pub open spec fn with_senderid(self, senderid: Seq<char>) -> MessageView {
        MessageView { senderid, ..self }
    }
}

impl View for ProtocolMessage {
    type V = MessageView;

    open spec fn view(&self) -> MessageView {
        MessageView {
            mtype: self.mtype,
            uid: self.uid,
            txid: self.txid@,
            senderid: self.senderid@,
            opid: self.opid,
        }
    }
}

/// The word that marks the transaction id of a transaction aborted for want of a vote.
pub open spec fn unknown_marker() -> Seq<char> {
    seq!['u', 'n', 'k', 'n', 'o', 'w', 'n']
}

/// What the coordinator appends to such a transaction id.
pub open spec fn unknown_suffix() -> Seq<char> {
    seq!['_'] + unknown_marker()
}

/// The transaction id carries the unknown marker.
pub open spec fn marks_unknown(txid: Seq<char>) -> bool {
    has_infix(txid, unknown_marker())
}

/// The exit signal the coordinator sends when all requests are done.
pub open spec fn exit_message() -> MessageView {
    MessageView {
        mtype: MessageType::CoordinatorExit,
        uid: 0,
        txid: Seq::empty(),
        senderid: Seq::empty(),
        opid: 0,
    }
}

/// Appending the suffix marks a transaction id as unknown.
pub proof fn lemma_suffix_marks_unknown(txid: Seq<char>)
    ensures
        marks_unknown(txid + unknown_suffix()),
{
    let s = txid + unknown_suffix();
    let i: int = txid.len() as int + 1;
    assert(s.subrange(i, i + unknown_marker().len()) =~= unknown_marker());
}

impl ProtocolMessage {
    /// A message with every field given.
    pub fn instantiate(t: MessageType, u: u32, tid: String, sid: String, oid: u32) -> (m:
        ProtocolMessage)
        ensures
            m@ == (MessageView { mtype: t, uid: u, txid: tid@, senderid: sid@, opid: oid }),
    {
        ProtocolMessage { mtype: t, uid: u, txid: tid, senderid: sid, opid: oid }
    }

    /// A new message for operation `oid`, which also serves as its unique id.
    pub fn generate(t: MessageType, tid: String, sid: String, oid: u32) -> (m: ProtocolMessage)
        ensures
            m@ == (MessageView { mtype: t, uid: oid, txid: tid@, senderid: sid@, opid: oid }),
    {
        ProtocolMessage { mtype: t, uid: oid, txid: tid, senderid: sid, opid: oid }
    }

    /// A copy of this message.
    pub fn duplicate(&self) -> (m: ProtocolMessage)
        ensures
            m@ == self@,
    {
        ProtocolMessage {
            mtype: self.mtype,
            uid: self.uid,
            txid: self.txid.clone(),
            senderid: self.senderid.clone(),
            opid: self.opid,
        }
    }

    /// A copy of this message with another type.
    pub fn with_type(&self, t: MessageType) -> (m: ProtocolMessage)
        ensures
            m@ == self@.with_mtype(t),
    {
        let mut m = self.duplicate();
        m.mtype = t;
        m
    }

    /// A copy of this message whose transaction id carries the unknown suffix.
    pub fn marked_unknown(&self, t: MessageType) -> (m: ProtocolMessage)
        ensures
            m@ == self@.with_mtype(t).with_txid(self@.txid + unknown_suffix()),
    {
        let mut m = self.with_type(t);
        m.txid.append("_unknown");
        proof {
            reveal_strlit("_unknown");
            assert("_unknown"@ =~= unknown_suffix());
        }
        m
    }

    /// The exit signal.
    pub fn exit() -> (m: ProtocolMessage)
        ensures
            m@ == exit_message(),
    {
        ProtocolMessage::instantiate(
            MessageType::CoordinatorExit,
            0,
            String::new(),
            String::new(),
            0,
        )
    }

    /// Whether the transaction id carries the unknown marker.
    pub fn is_marked_unknown(&self) -> (b: bool)
        ensures
            b == marks_unknown(self@.txid),
    {
        proof {
            reveal_strlit("unknown");
            assert("unknown"@ =~= unknown_marker());
        }
        contains_str(self.txid.as_str(), "unknown")
    }
}

} // verus!
