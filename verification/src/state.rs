//! The values a node's state is made of, and the mathematical view of that state.

use crate::message::Message;
use vstd::prelude::*;

verus! {

/// What a node takes itself to be.
#[derive(Clone, Copy, PartialEq, Eq, Debug, Structural)]
pub enum Role {
    Follower,
    Candidate,
    Leader,
}

/// Where a node stands in an election of its own. `Idle` means that no
/// election is in progress; the other two name the reply it is waiting for
/// and the instant at which the wait ends.
#[derive(Clone, Copy, PartialEq, Eq, Debug, Structural)]
pub enum ElectionPhase {
    Idle,
    /// Waiting for the designated successor alone.
    AwaitSuccessor { deadline: u64 },
    /// Waiting for any peer with a higher id.
    AwaitHigher { deadline: u64 },
}

/// What a node keeps about one other node of the cluster.
#[derive(Clone, Copy, PartialEq, Eq, Debug)]
pub struct Peer {
    pub id: u32,
    /// Monotonic time of the last sign of life, if there was one since this
    /// node last became leader.
    pub last_seen: Option<u64>,
}

/// The waits that a node asks its driver to time.
#[derive(Clone, Copy, PartialEq, Eq, Debug, Structural)]
pub enum Timer {
    /// The wait for answers to the startup probe.
    Discovery,
    /// The wait for replies during an election.
    ElectionWait,
}

/// What a node asks its driver to do after a step.
#[derive(Clone, Copy, PartialEq, Eq, Debug)]
pub enum Action {
    /// Hand `msg` to the transport for peer `to`.
    Send { to: u32, msg: Message },
    /// Report back when the monotonic clock reaches `deadline`.
    StartTimer { timer: Timer, deadline: u64 },
}

/// What can happen to a node.
#[derive(Clone, Copy, PartialEq, Eq, Debug)]
pub enum Event {
    /// A message arrived.
    Received { msg: Message },
    /// The heartbeat period elapsed.
    HeartbeatTick,
    /// It is time to check on the leader.
    LivenessTick,
    /// An election wait may have run out.
    ElectionWaitExpired,
    /// The wait for discovery answers ran out.
    DiscoveryExpired,
}

/// A node's account of itself, for the operator.
#[derive(Clone, Copy, PartialEq, Eq, Debug)]
pub struct StatusReport {
    pub id: u32,
    pub role: Role,
    pub leader: Option<u32>,
    /// Computed afresh by a leader; the cached hint on any other node.
    pub successor: Option<u32>,
    /// How many peers a leader has seen since it took the lead; `None` on any other node.
    pub seen_peers: Option<usize>,
    /// Milliseconds since the leader was last heard.
    pub since_heartbeat_ms: u64,
}

/// The state of a node as a mathematical value.
#[verifier::ext_equal]
pub struct NodeView {
    pub id: u32,
    /// The other nodes of the cluster, in configuration order.
    pub peers: Seq<Peer>,
    pub role: Role,
    /// The node this one believes to be leader.
    pub leader: Option<u32>,
    /// The node next in line: computed by a leader, cached by the others.
    pub successor: Option<u32>,
    pub election: ElectionPhase,
    /// Monotonic time at which the leader was last heard.
    pub last_heartbeat: u64,
}

/// A step's result: the state after it and the actions it asks for, in order.
#[verifier::ext_equal]
pub struct Outcome {
    pub state: NodeView,
    pub actions: Seq<Action>,
}

/// No two peers share an id.
pub open spec fn distinct_ids(peers: Seq<Peer>) -> bool {
    forall|i: int, j: int| 0 <= i < j < peers.len() ==> peers[i].id != peers[j].id
}

/// `id` is one of the peers.
pub open spec fn knows(peers: Seq<Peer>, id: u32) -> bool {
    exists|i: int| 0 <= i < peers.len() && #[trigger] peers[i].id == id
}

/// No peer has shown a sign of life.
pub open spec fn nobody_seen(peers: Seq<Peer>) -> bool {
    forall|i: int| 0 <= i < peers.len() ==> (#[trigger] peers[i]).last_seen is None
}

impl NodeView {
    /// The invariant of a node's state: peers are distinct and exclude the
    /// node itself; a leader believes in itself; the successor is never the
    /// believed leader; a leader that has seen nobody names no successor.
    pub open spec fn wf(self) -> bool {
        &&& distinct_ids(self.peers)
        &&& !knows(self.peers, self.id)
        &&& (self.role == Role::Leader ==> self.leader == Some(self.id))
        &&& (self.successor is Some ==> self.successor != self.leader)
        &&& (self.role == Role::Leader && nobody_seen(self.peers) ==> self.successor is None)
    }

    /// Whether an election of this node's own is under way.
    pub open spec fn election_in_progress(self) -> bool {
        self.election != ElectionPhase::Idle
    }
}

} // verus!
