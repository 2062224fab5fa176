//! The replication protocol: message model and the outbound channel.
//!
//! Systems hand messages to a [`ReplicationChannel`] with a per-send
//! reliability class.  Reliable messages are queued in send order and the
//! transport drains them in that same order; unreliable messages are queued
//! best-effort and the transport may drop or reorder them.  A send never
//! blocks and never waits for an acknowledgement.

use vstd::prelude::*;
use crate::transform::Transform;

verus! {

/// Delivery guarantee, chosen per send call, not carried by the message.
#[derive(Clone, Copy, Debug, PartialEq, Eq, Structural)]
pub enum MessageReliability {
    Reliable,
    Unreliable,
}

/// Addressing mode of a message.
#[derive(Clone, Copy, Debug, PartialEq, Eq, Structural)]
pub enum MessageReceiver {
    Everybody,
}

/// State-sync payload: the named entity's local transform is to be
/// overwritten with the carried transform.
pub struct SyncObjectMessage {
    pub object_name: String,
    pub transform: Transform,
}

/// The payload of a message.
pub enum MessageContents {
    SyncObject(SyncObjectMessage),
    Custom(String),
}

/// One replication message.
pub struct Message {
    pub receiver: MessageReceiver,
    pub system_id: String,
    pub message_id: String,
    pub message: MessageContents,
}

/// The send-failure taxonomy.  The channel itself reports
/// `ConnectionAbsent`; the transport maps its own serialization and
/// addressing failures to the other two.
#[derive(Clone, Copy, Debug, PartialEq, Eq, Structural)]
pub enum NetworkError {
    ConnectionAbsent,
    SerializationFailure,
    ReceiverUnresolvable,
}

/// Which role this process plays.
#[derive(Clone, Copy, Debug, PartialEq, Eq, Structural)]
pub enum NetworkingMode {
    Server,
    Client,
}

/// The outbound half of the replication channel: two queues, one per
/// reliability class.
pub struct ReplicationChannel {
    pub mode: NetworkingMode,
    pub connected: bool,
    pub reliable_out: Vec<Message>,
    pub unreliable_out: Vec<Message>,
}

impl ReplicationChannel {
    /// A channel for the given role with empty queues.
    pub fn new(mode: NetworkingMode, connected: bool) -> (r: ReplicationChannel)
        ensures
            r.mode == mode,
            r.connected == connected,
            r.reliable_out@ == Seq::<Message>::empty(),
            r.unreliable_out@ == Seq::<Message>::empty(),
    {
        ReplicationChannel { mode, connected, reliable_out: Vec::new(), unreliable_out: Vec::new() }
    }

    /// Queues a message for sending.  With a connection present the send
    /// always succeeds at once — it never blocks and never waits for an
    /// acknowledgement; without one it reports `ConnectionAbsent` and queues
    /// nothing.  Reliable messages keep their send order in the queue.
    pub fn send_message(&mut self, reliability: MessageReliability, message: Message) -> (r: Result<
        (),
        NetworkError,
    >)
        ensures
            final(self).mode == old(self).mode,
            final(self).connected == old(self).connected,
            r is Ok <==> old(self).connected,
            !old(self).connected ==> r == Err::<(), NetworkError>(NetworkError::ConnectionAbsent)
                && final(self).reliable_out@ == old(self).reliable_out@
                && final(self).unreliable_out@ == old(self).unreliable_out@,
            old(self).connected && reliability == MessageReliability::Reliable
                ==> final(self).reliable_out@ == old(self).reliable_out@.push(message)
                    && final(self).unreliable_out@ == old(self).unreliable_out@,
            old(self).connected && reliability == MessageReliability::Unreliable
                ==> final(self).unreliable_out@ == old(self).unreliable_out@.push(message)
                    && final(self).reliable_out@ == old(self).reliable_out@,
    {
        if !self.connected {
            return Err(NetworkError::ConnectionAbsent);
        }
        match reliability {
            MessageReliability::Reliable => {
                self.reliable_out.push(message);
            },
            MessageReliability::Unreliable => {
                self.unreliable_out.push(message);
            },
        }
        Ok(())
    }

    /// Hands the queued reliable messages to the transport, in send order,
    /// leaving the queue empty.
    pub fn take_outgoing_reliable(&mut self) -> (r: Vec<Message>)
        ensures
            r@ == old(self).reliable_out@,
            final(self).reliable_out@ == Seq::<Message>::empty(),
            final(self).unreliable_out == old(self).unreliable_out,
            final(self).mode == old(self).mode,
            final(self).connected == old(self).connected,
    {
        let mut out: Vec<Message> = Vec::new();
        while self.reliable_out.len() > 0
            invariant
                out@ + self.reliable_out@ == old(self).reliable_out@,
                self.unreliable_out == old(self).unreliable_out,
                self.mode == old(self).mode,
                self.connected == old(self).connected,
            decreases self.reliable_out.len(),
        {
            let m = self.reliable_out.remove(0);
            out.push(m);
            proof {
                assert(out@ + self.reliable_out@ =~= old(self).reliable_out@);
            }
        }
        proof {
            assert(out@ =~= old(self).reliable_out@);
        }
        out
    }

    /// Hands the queued unreliable messages to the transport, which may
    /// deliver, reorder or drop any of them; the queue is left empty.
    pub fn take_outgoing_unreliable(&mut self) -> (r: Vec<Message>)
        ensures
            r@ == old(self).unreliable_out@,
            final(self).unreliable_out@ == Seq::<Message>::empty(),
            final(self).reliable_out == old(self).reliable_out,
            final(self).mode == old(self).mode,
            final(self).connected == old(self).connected,
    {
        let mut out: Vec<Message> = Vec::new();
        while self.unreliable_out.len() > 0
            invariant
                out@ + self.unreliable_out@ == old(self).unreliable_out@,
                self.reliable_out == old(self).reliable_out,
                self.mode == old(self).mode,
                self.connected == old(self).connected,
            decreases self.unreliable_out.len(),
        {
            let m = self.unreliable_out.remove(0);
            out.push(m);
            proof {
                assert(out@ + self.unreliable_out@ =~= old(self).unreliable_out@);
            }
        }
        proof {
            assert(out@ =~= old(self).unreliable_out@);
        }
        out
    }
}

} // verus!
