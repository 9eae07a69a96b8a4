//! The node's behaviour as mathematics: for each thing that can happen, the
//! state that follows and the actions that are asked for.

use crate::config::NodeInfo;
use crate::message::Message;
use crate::state::{
    Action, ElectionPhase, Event, NodeView, Outcome, Peer, Role, StatusReport, Timer,
};
use crate::timing::{
    deadline_after, elapsed, Moment, ALIVE_WINDOW_MS, DISCOVERY_WAIT_MS, ELECTION_WAIT_MS,
    FAILURE_TIMEOUT_MS, SUCCESSOR_WAIT_MS,
};
use vstd::prelude::*;

verus! {

/// An outcome that changes nothing and asks for nothing.
pub open spec fn unchanged(s: NodeView) -> Outcome {
    Outcome { state: s, actions: Seq::empty() }
}

/// The peers after a sign of life from `id` at time `now`.
pub open spec fn touch(peers: Seq<Peer>, id: u32, now: u64) -> Seq<Peer> {
    peers.map_values(
        |p: Peer|
            if p.id == id {
                Peer { id: p.id, last_seen: Some(now) }
            } else {
                p
            },
    )
}

/// The peers with every sign of life forgotten.
pub open spec fn forget_all(peers: Seq<Peer>) -> Seq<Peer> {
    peers.map_values(|p: Peer| Peer { id: p.id, last_seen: None })
}

/// One copy of `msg` for every peer, in configuration order.
pub open spec fn broadcast(peers: Seq<Peer>, msg: Message) -> Seq<Action> {
    peers.map_values(|p: Peer| Action::Send { to: p.id, msg })
}

/// One copy of `msg` for every peer whose id is above `id`, in configuration order.
pub open spec fn sends_to_higher(peers: Seq<Peer>, id: u32, msg: Message) -> Seq<Action> {
    peers.filter_map(
        |p: Peer|
            if p.id > id {
                Some(Action::Send { to: p.id, msg })
            } else {
                None
            },
    )
}

/// Some peer has an id above `id`.
pub open spec fn has_higher(peers: Seq<Peer>, id: u32) -> bool {
    exists|i: int| 0 <= i < peers.len() && (#[trigger] peers[i]).id > id
}

/// A peer counts as alive at `now` if it was seen within the alive window.
pub open spec fn is_alive(p: Peer, now: u64) -> bool {
    p.last_seen matches Some(seen) && elapsed(seen, now) <= ALIVE_WINDOW_MS
}

/// The highest id among the peers alive at `now`, if any is alive.
pub open spec fn best_alive(peers: Seq<Peer>, now: u64) -> Option<u32>
    decreases peers.len(),
{
    if peers.len() == 0 {
        None
    } else {
        let rest = best_alive(peers.drop_last(), now);
        let p = peers.last();
        if is_alive(p, now) && (rest matches Some(m) ==> m < p.id) {
            Some(p.id)
        } else {
            rest
        }
    }
}

/// The successor hint without the one value it may never take: the leader itself.
pub open spec fn hint_beside(successor: Option<u32>, leader: u32) -> Option<u32> {
    if successor == Some(leader) {
        None
    } else {
        successor
    }
}

/// Whether a coordinator announcement for `leader_id` is accepted: always
/// when no leader is known, else only if it does not lower the leader's id.
pub open spec fn accepts_coordinator(s: NodeView, leader_id: u32) -> bool {
    s.leader matches Some(known) ==> leader_id >= known
}

/// Whether an answer to a discovery probe naming `leader_id` is accepted:
/// when no leader is known, or when it raises the leader's id.
pub open spec fn accepts_announce(s: NodeView, leader_id: u32) -> bool {
    s.leader matches Some(known) ==> leader_id > known
}

/// Whether a liveness check at `now` finds cause for an election: the node
/// is not leader, holds no election, and either has heard nothing for longer
/// than the failure timeout or follows a leader with a lower id than its own.
pub open spec fn suspects_leader(s: NodeView, now: u64) -> bool {
    &&& s.role != Role::Leader
    &&& !s.election_in_progress()
    &&& (elapsed(s.last_heartbeat, now) > FAILURE_TIMEOUT_MS || (s.leader matches Some(l) && l
        < s.id))
}

/// The peer records of a node that starts up: one for every other member of
/// the cluster, in configuration order, none of them seen yet.
pub open spec fn initial_peers(nodes: Seq<NodeInfo>, id: u32) -> Seq<Peer> {
    nodes.filter_map(
        |n: NodeInfo|
            if n.id != id {
                Some(Peer { id: n.id, last_seen: None })
            } else {
                None
            },
    )
}

/// The state in which a node starts up: a follower that knows no leader and
/// no successor, holds no election and has seen none of its peers.
pub open spec fn initial(id: u32, nodes: Seq<NodeInfo>) -> NodeView {
    NodeView {
        id,
        peers: initial_peers(nodes, id),
        role: Role::Follower,
        leader: None,
        successor: None,
        election: ElectionPhase::Idle,
        last_heartbeat: 0,
    }
}

/// The node takes the lead: it believes in itself, forgets who was alive,
/// names no successor, ends its election and announces itself to every peer.
pub open spec fn become_leader(s: NodeView, t: Moment) -> Outcome {
    Outcome {
        state: NodeView {
            peers: forget_all(s.peers),
            role: Role::Leader,
            leader: Some(s.id),
            successor: None,
            election: ElectionPhase::Idle,
            last_heartbeat: t.mono_ms,
            ..s
        },
        actions: broadcast(
            s.peers,
            Message::Coordinator { leader_id: s.id, timestamp: t.unix_secs },
        ),
    }
}

/// The classic round: challenge every higher peer and wait, or take the lead
/// at once when there is none.
pub open spec fn classic_round(s: NodeView, t: Moment) -> Outcome {
    if has_higher(s.peers, s.id) {
        let deadline = deadline_after(t.mono_ms, ELECTION_WAIT_MS);
        Outcome {
            state: NodeView { election: ElectionPhase::AwaitHigher { deadline }, ..s },
            actions: sends_to_higher(
                s.peers,
                s.id,
                Message::Election { sender_id: s.id, timestamp: t.unix_secs },
            ).push(Action::StartTimer { timer: Timer::ElectionWait, deadline }),
        }
    } else {
        become_leader(s, t)
    }
}

/// The short round: challenge the designated successor alone and wait.
pub open spec fn ask_successor(s: NodeView, next: u32, t: Moment) -> Outcome {
    let deadline = deadline_after(t.mono_ms, SUCCESSOR_WAIT_MS);
    Outcome {
        state: NodeView { election: ElectionPhase::AwaitSuccessor { deadline }, ..s },
        actions: seq![
            Action::Send {
                to: next,
                msg: Message::Election { sender_id: s.id, timestamp: t.unix_secs },
            },
            Action::StartTimer { timer: Timer::ElectionWait, deadline },
        ],
    }
}

/// The role with which a node enters an election: a follower turns
/// candidate, the others stay what they are.
pub open spec fn contender(role: Role) -> Role {
    if role == Role::Follower {
        Role::Candidate
    } else {
        role
    }
}

/// The node starts an election, unless one is in progress already. A node
/// that is itself the designated successor takes the lead directly; one that
/// knows a higher successor asks that node alone first; every other node
/// holds the classic round.
pub open spec fn start_election(s: NodeView, t: Moment) -> Outcome {
    if s.election_in_progress() {
        unchanged(s)
    } else {
        let c = NodeView { role: contender(s.role), ..s };
        match c.successor {
            Some(next) => if next == c.id {
                become_leader(c, t)
            } else if next > c.id {
                ask_successor(c, next, t)
            } else {
                classic_round(c, t)
            },
            None => classic_round(c, t),
        }
    }
}

/// A discovery probe arrived: the sender is alive, and a leader answers it.
pub open spec fn on_discovery(s: NodeView, sender_id: u32, t: Moment) -> Outcome {
    Outcome {
        state: NodeView { peers: touch(s.peers, sender_id, t.mono_ms), ..s },
        actions: if s.role == Role::Leader {
            seq![
                Action::Send {
                    to: sender_id,
                    msg: Message::LeaderAnnounce { leader_id: s.id, timestamp: t.unix_secs },
                },
            ]
        } else {
            Seq::empty()
        },
    }
}

/// An answer to the discovery probe arrived.
pub open spec fn on_leader_announce(s: NodeView, leader_id: u32, t: Moment) -> Outcome {
    if accepts_announce(s, leader_id) {
        Outcome {
            state: NodeView {
                role: Role::Follower,
                leader: Some(leader_id),
                successor: hint_beside(s.successor, leader_id),
                last_heartbeat: t.mono_ms,
                ..s
            },
            actions: Seq::empty(),
        }
    } else {
        unchanged(s)
    }
}

/// An election message arrived. A lower sender is told to stand down, and
/// the node starts an election of its own; any other sender is ignored.
pub open spec fn on_election(s: NodeView, sender_id: u32, t: Moment) -> Outcome {
    if sender_id < s.id {
        let seen = NodeView { peers: touch(s.peers, sender_id, t.mono_ms), ..s };
        let own = start_election(seen, t);
        Outcome {
            state: own.state,
            actions: seq![
                Action::Send {
                    to: sender_id,
                    msg: Message::ElectionOk { sender_id: s.id, timestamp: t.unix_secs },
                },
            ] + own.actions,
        }
    } else {
        unchanged(s)
    }
}

/// A reply to an election message arrived: a candidate stands down before a higher peer.
pub open spec fn on_election_ok(s: NodeView, sender_id: u32) -> Outcome {
    if s.role == Role::Candidate && sender_id > s.id {
        Outcome { state: NodeView { role: Role::Follower, ..s }, actions: Seq::empty() }
    } else {
        unchanged(s)
    }
}

/// A coordinator announcement arrived.
pub open spec fn on_coordinator(s: NodeView, leader_id: u32, t: Moment) -> Outcome {
    if accepts_coordinator(s, leader_id) {
        Outcome {
            state: NodeView {
                role: if leader_id == s.id {
                    s.role
                } else {
                    Role::Follower
                },
                leader: Some(leader_id),
                successor: hint_beside(s.successor, leader_id),
                election: ElectionPhase::Idle,
                last_heartbeat: t.mono_ms,
                ..s
            },
            actions: Seq::empty(),
        }
    } else {
        unchanged(s)
    }
}

/// A heartbeat arrived. A node that is not leader and follows the sender
/// notes the time and the successor, and acknowledges.
pub open spec fn on_heartbeat(
    s: NodeView,
    leader_id: u32,
    successor_id: Option<u32>,
    t: Moment,
) -> Outcome {
    if s.role != Role::Leader && s.leader == Some(leader_id) {
        Outcome {
            state: NodeView {
                successor: hint_beside(successor_id, leader_id),
                last_heartbeat: t.mono_ms,
                ..s
            },
            actions: seq![
                Action::Send {
                    to: leader_id,
                    msg: Message::HeartbeatAck { sender_id: s.id, timestamp: t.unix_secs },
                },
            ],
        }
    } else {
        unchanged(s)
    }
}

/// An acknowledgement arrived: a leader notes that the sender is alive.
pub open spec fn on_heartbeat_ack(s: NodeView, sender_id: u32, t: Moment) -> Outcome {
    if s.role == Role::Leader {
        Outcome {
            state: NodeView { peers: touch(s.peers, sender_id, t.mono_ms), ..s },
            actions: Seq::empty(),
        }
    } else {
        unchanged(s)
    }
}

/// A message arrived.
pub open spec fn on_message(s: NodeView, msg: Message, t: Moment) -> Outcome {
    match msg {
        Message::Discovery { sender_id, .. } => on_discovery(s, sender_id, t),
        Message::LeaderAnnounce { leader_id, .. } => on_leader_announce(s, leader_id, t),
        Message::Election { sender_id, .. } => on_election(s, sender_id, t),
        Message::ElectionOk { sender_id, .. } => on_election_ok(s, sender_id),
        Message::Coordinator { leader_id, .. } => on_coordinator(s, leader_id, t),
        Message::Heartbeat { leader_id, successor_id, .. } => on_heartbeat(
            s,
            leader_id,
            successor_id,
            t,
        ),
        Message::HeartbeatAck { sender_id, .. } => on_heartbeat_ack(s, sender_id, t),
    }
}

/// The heartbeat period elapsed: a leader names the highest peer alive as
/// its successor and tells every peer.
pub open spec fn on_heartbeat_tick(s: NodeView, t: Moment) -> Outcome {
    if s.role == Role::Leader {
        let next = best_alive(s.peers, t.mono_ms);
        Outcome {
            state: NodeView { successor: next, ..s },
            actions: broadcast(
                s.peers,
                Message::Heartbeat { leader_id: s.id, successor_id: next, timestamp: t.unix_secs },
            ),
        }
    } else {
        unchanged(s)
    }
}

/// The leader is checked on: with cause, the node gives up its leader and starts an election.
pub open spec fn on_liveness_tick(s: NodeView, t: Moment) -> Outcome {
    if suspects_leader(s, t.mono_ms) {
        start_election(NodeView { leader: None, ..s }, t)
    } else {
        unchanged(s)
    }
}

/// An election wait may have run out. Before the deadline, or with no
/// election in progress, nothing happens. At the deadline a node that stood
/// down ends its election; one that heard nothing from the successor moves
/// on to the classic round; one that heard nothing from any higher peer
/// takes the lead.
pub open spec fn on_election_wait_expired(s: NodeView, t: Moment) -> Outcome {
    match s.election {
        ElectionPhase::Idle => unchanged(s),
        ElectionPhase::AwaitSuccessor { deadline } => {
            if t.mono_ms < deadline {
                unchanged(s)
            } else if s.role == Role::Follower {
                Outcome {
                    state: NodeView { election: ElectionPhase::Idle, ..s },
                    actions: Seq::empty(),
                }
            } else {
                classic_round(s, t)
            }
        },
        ElectionPhase::AwaitHigher { deadline } => {
            if t.mono_ms < deadline {
                unchanged(s)
            } else if s.role == Role::Follower {
                Outcome {
                    state: NodeView { election: ElectionPhase::Idle, ..s },
                    actions: Seq::empty(),
                }
            } else {
                become_leader(s, t)
            }
        },
    }
}

/// The node starts up: it notes the time, probes every peer and waits for answers.
pub open spec fn begin_discovery(s: NodeView, t: Moment) -> Outcome {
    Outcome {
        state: NodeView { last_heartbeat: t.mono_ms, ..s },
        actions: broadcast(
            s.peers,
            Message::Discovery { sender_id: s.id, timestamp: t.unix_secs },
        ).push(
            Action::StartTimer {
                timer: Timer::Discovery,
                deadline: deadline_after(t.mono_ms, DISCOVERY_WAIT_MS),
            },
        ),
    }
}

/// The wait for discovery answers ran out: with no leader known, an election starts.
pub open spec fn on_discovery_expired(s: NodeView, t: Moment) -> Outcome {
    if s.leader is None {
        start_election(s, t)
    } else {
        unchanged(s)
    }
}

/// One step of the node: what follows from `event` at time `t`.
pub open spec fn step(s: NodeView, event: Event, t: Moment) -> Outcome {
    match event {
        Event::Received { msg } => on_message(s, msg, t),
        Event::HeartbeatTick => on_heartbeat_tick(s, t),
        Event::LivenessTick => on_liveness_tick(s, t),
        Event::ElectionWaitExpired => on_election_wait_expired(s, t),
        Event::DiscoveryExpired => on_discovery_expired(s, t),
    }
}

/// The number of peers of which there has been a sign of life.
pub open spec fn seen_count(peers: Seq<Peer>) -> nat {
    peers.filter(|p: Peer| p.last_seen is Some).len()
}

/// What a node reports of itself at `now`. A leader reports the successor it
/// would name at `now` and how many peers it has seen; any other node
/// reports the successor it was told of.
pub open spec fn status(s: NodeView, now: u64) -> StatusReport {
    StatusReport {
        id: s.id,
        role: s.role,
        leader: s.leader,
        successor: if s.role == Role::Leader {
            best_alive(s.peers, now)
        } else {
            s.successor
        },
        seen_peers: if s.role == Role::Leader {
            Some(seen_count(s.peers) as usize)
        } else {
            None
        },
        since_heartbeat_ms: elapsed(s.last_heartbeat, now) as u64,
    }
}

} // verus!
