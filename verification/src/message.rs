//! The messages that peers exchange.

use vstd::prelude::*;

verus! {

/// A wire message. Every variant names the node it concerns and carries the
/// sender's wall-clock time, which takes no part in any decision.
#[derive(Clone, Copy, PartialEq, Eq, Debug)]
pub enum Message {
    /// Sent at startup to probe for a leader.
    Discovery { sender_id: u32, timestamp: u64 },
    /// The leader's answer to a discovery probe.
    LeaderAnnounce { leader_id: u32, timestamp: u64 },
    /// "I am holding an election."
    Election { sender_id: u32, timestamp: u64 },
    /// "I am alive and higher than you; stand down."
    ElectionOk { sender_id: u32, timestamp: u64 },
    /// Broadcast by the winner of an election.
    Coordinator { leader_id: u32, timestamp: u64 },
    /// Periodic sign of life from the leader, naming its successor.
    Heartbeat { leader_id: u32, successor_id: Option<u32>, timestamp: u64 },
    /// A peer's acknowledgement of a heartbeat.
    HeartbeatAck { sender_id: u32, timestamp: u64 },
}

impl Message {
    /// The node a message comes from: its sender, or the leader it announces.
    pub open spec fn spec_origin(self) -> u32 {
        match self {
            Message::Discovery { sender_id, .. } => sender_id,
            Message::LeaderAnnounce { leader_id, .. } => leader_id,
            Message::Election { sender_id, .. } => sender_id,
            Message::ElectionOk { sender_id, .. } => sender_id,
            Message::Coordinator { leader_id, .. } => leader_id,
            Message::Heartbeat { leader_id, .. } => leader_id,
            Message::HeartbeatAck { sender_id, .. } => sender_id,
        }
    }

    /// The wall-clock stamp a message carries.
    pub open spec fn spec_timestamp(self) -> u64 {
        match self {
            Message::Discovery { timestamp, .. } => timestamp,
            Message::LeaderAnnounce { timestamp, .. } => timestamp,
            Message::Election { timestamp, .. } => timestamp,
            Message::ElectionOk { timestamp, .. } => timestamp,
            Message::Coordinator { timestamp, .. } => timestamp,
            Message::Heartbeat { timestamp, .. } => timestamp,
            Message::HeartbeatAck { timestamp, .. } => timestamp,
        }
    }

    /// The node a message comes from. The first message on an accepted
    /// connection binds that connection to this node.
    #[verifier::when_used_as_spec(spec_origin)]
    pub fn origin(self) -> (id: u32)
        ensures
            id == self.spec_origin(),
    {
        match self {
            Message::Discovery { sender_id, .. } => sender_id,
            Message::LeaderAnnounce { leader_id, .. } => leader_id,
            Message::Election { sender_id, .. } => sender_id,
            Message::ElectionOk { sender_id, .. } => sender_id,
            Message::Coordinator { leader_id, .. } => leader_id,
            Message::Heartbeat { leader_id, .. } => leader_id,
            Message::HeartbeatAck { sender_id, .. } => sender_id,
        }
    }

    /// The wall-clock stamp a message carries.
    #[verifier::when_used_as_spec(spec_timestamp)]
    pub fn timestamp(self) -> (stamp: u64)
        ensures
            stamp == self.spec_timestamp(),
    {
        match self {
            Message::Discovery { timestamp, .. } => timestamp,
            Message::LeaderAnnounce { timestamp, .. } => timestamp,
            Message::Election { timestamp, .. } => timestamp,
            Message::ElectionOk { timestamp, .. } => timestamp,
            Message::Coordinator { timestamp, .. } => timestamp,
            Message::Heartbeat { timestamp, .. } => timestamp,
            Message::HeartbeatAck { timestamp, .. } => timestamp,
        }
    }
}

} // verus!
