//! A node of the cluster: its state, and the steps that change it.
//!
//! A node performs no input or output. Each step takes what happened and a
//! reading of the clocks, changes the state, and returns the actions that the
//! driver is asked to carry out.

use crate::config::{lists, unique_ids, Config, ConfigError, NodeInfo};
use crate::message::Message;
use crate::model;
use crate::peers::{broadcast_to, calculate_successor, challenge_higher, forget_peers, touch_peer};
use crate::state::{Action, ElectionPhase, Event, NodeView, Peer, Role, StatusReport, Timer};
use crate::timing::{
    deadline, elapsed_ms, Moment, DISCOVERY_WAIT_MS, ELECTION_WAIT_MS, FAILURE_TIMEOUT_MS,
    SUCCESSOR_WAIT_MS,
};
use vstd::prelude::*;

verus! {

/// The state record of one node.
pub struct Node {
    id: u32,
    peers: Vec<Peer>,
    role: Role,
    leader: Option<u32>,
    successor: Option<u32>,
    election: ElectionPhase,
    last_heartbeat: u64,
}

impl View for Node {
    type V = NodeView;

    closed spec fn view(&self) -> NodeView {
        NodeView {
            id: self.id,
            peers: self.peers@,
            role: self.role,
            leader: self.leader,
            successor: self.successor,
            election: self.election,
            last_heartbeat: self.last_heartbeat,
        }
    }
}

impl Node {
    /// The state's invariant; see [`NodeView::wf`].
    pub open spec fn wf(&self) -> bool {
        self@.wf()
    }

    /// Creates the node `my_id` of the cluster that `config` lists. This
    /// fails if `config` has no entry for `my_id`, or if two of its entries
    /// share an id; otherwise the node starts as [`model::initial`] says.
    pub fn new(my_id: u32, config: Config) -> (made: Result<Node, ConfigError>)
        ensures
            (match made {
                Ok(node) => {
                    &&& lists(config.nodes@, my_id)
                    &&& unique_ids(config.nodes@)
                    &&& node@ == model::initial(my_id, config.nodes@)
                    &&& node.wf()
                },
                Err(ConfigError::UnknownNode { id }) => id == my_id && !lists(config.nodes@, my_id),
                Err(ConfigError::DuplicateId) => lists(config.nodes@, my_id) && !unique_ids(
                    config.nodes@,
                ),
            }),
    {
        if !config.contains(my_id) {
            return Err(ConfigError::UnknownNode { id: my_id });
        }
        if !config.has_unique_ids() {
            return Err(ConfigError::DuplicateId);
        }
        let ghost nodes = config.nodes@;
        let ghost pick = |n: NodeInfo|
            if n.id != my_id {
                Some(Peer { id: n.id, last_seen: None })
            } else {
                None
            };
        let mut peers: Vec<Peer> = Vec::new();
        let n = config.nodes.len();
        let mut i: usize = 0;
        assert(nodes.take(0).filter_map(pick) =~= Seq::<Peer>::empty());
        while i < n
            invariant
                i <= n,
                n == nodes.len(),
                nodes == config.nodes@,
                unique_ids(nodes),
                pick == |n: NodeInfo|
                    if n.id != my_id {
                        Some(Peer { id: n.id, last_seen: None })
                    } else {
                        None
                    },
                peers@ == nodes.take(i as int).filter_map(pick),
                forall|k: int|
                    0 <= k < peers@.len() ==> (#[trigger] peers@[k]).id != my_id && exists|j: int|
                        0 <= j < i && (#[trigger] nodes[j]).id == peers@[k].id,
                forall|a: int, b: int|
                    0 <= a < b < peers@.len() ==> (#[trigger] peers@[a]).id != (
                    #[trigger] peers@[b]).id,
            decreases n - i,
        {
            let id = config.nodes[i].id;
            proof {
                nodes.lemma_filter_map_take_succ(pick, i as int);
            }
            if id != my_id {
                proof {
                    assert forall|k: int| 0 <= k < peers@.len() implies (#[trigger] peers@[k]).id
                        != id by {
                        let j = choose|j: int|
                            0 <= j < i && (#[trigger] nodes[j]).id == peers@[k].id;
                        assert(nodes[j].id != nodes[i as int].id);
                    }
                }
                peers.push(Peer { id, last_seen: None });
                assert(nodes[i as int].id == id);
            }
            i += 1;
        }
        assert(nodes.take(n as int) =~= nodes);
        let node = Node {
            id: my_id,
            peers,
            role: Role::Follower,
            leader: None,
            successor: None,
            election: ElectionPhase::Idle,
            last_heartbeat: 0,
        };
        assert(node@ =~= model::initial(my_id, config.nodes@));
        Ok(node)
    }

    /// Takes the lead and announces it to every peer.
    pub fn become_leader(&mut self, t: Moment) -> (actions: Vec<Action>)
        ensures
            final(self)@ == model::become_leader(old(self)@, t).state,
            actions@ == model::become_leader(old(self)@, t).actions,
            old(self).wf() ==> final(self).wf(),
    {
        proof {
            if self.wf() {
                crate::laws::lemma_become_leader_wf(self@, t);
            }
        }
        let actions = broadcast_to(
            &self.peers,
            Message::Coordinator { leader_id: self.id, timestamp: t.unix_secs },
        );
        forget_peers(&mut self.peers);
        self.role = Role::Leader;
        self.leader = Some(self.id);
        self.successor = None;
        self.election = ElectionPhase::Idle;
        self.last_heartbeat = t.mono_ms;
        actions
    }

    /// Challenges every higher peer and waits, or takes the lead at once when there is none.
    fn classic_round(&mut self, t: Moment) -> (actions: Vec<Action>)
        ensures
            final(self)@ == model::classic_round(old(self)@, t).state,
            actions@ == model::classic_round(old(self)@, t).actions,
    {
        let mut actions = challenge_higher(
            &self.peers,
            self.id,
            Message::Election { sender_id: self.id, timestamp: t.unix_secs },
        );
        if actions.len() > 0 {
            let until = deadline(t.mono_ms, ELECTION_WAIT_MS);
            self.election = ElectionPhase::AwaitHigher { deadline: until };
            actions.push(Action::StartTimer { timer: Timer::ElectionWait, deadline: until });
            actions
        } else {
            self.become_leader(t)
        }
    }

    /// Starts an election, unless one is in progress already.
    pub fn start_election(&mut self, t: Moment) -> (actions: Vec<Action>)
        ensures
            final(self)@ == model::start_election(old(self)@, t).state,
            actions@ == model::start_election(old(self)@, t).actions,
            old(self).wf() ==> final(self).wf(),
    {
        proof {
            if self.wf() {
                crate::laws::lemma_start_election_wf(self@, t);
            }
        }
        match self.election {
            ElectionPhase::Idle => {},
            _ => {
                return Vec::new();
            },
        }
        match self.role {
            Role::Follower => {
                self.role = Role::Candidate;
            },
            _ => {},
        }
        match self.successor {
            Some(next) => {
                if next == self.id {
                    self.become_leader(t)
                } else if next > self.id {
                    let until = deadline(t.mono_ms, SUCCESSOR_WAIT_MS);
                    self.election = ElectionPhase::AwaitSuccessor { deadline: until };
                    let mut actions: Vec<Action> = Vec::new();
                    actions.push(
                        Action::Send {
                            to: next,
                            msg: Message::Election { sender_id: self.id, timestamp: t.unix_secs },
                        },
                    );
                    actions.push(
                        Action::StartTimer { timer: Timer::ElectionWait, deadline: until },
                    );
                    assert(actions@ =~= model::ask_successor(
                        NodeView { role: model::contender(old(self)@.role), ..old(self)@ },
                        next,
                        t,
                    ).actions);
                    actions
                } else {
                    self.classic_round(t)
                }
            },
            None => self.classic_round(t),
        }
    }
}

impl Node {
    /// Handles a discovery probe.
    fn on_discovery(&mut self, sender_id: u32, t: Moment) -> (actions: Vec<Action>)
        ensures
            final(self)@ == model::on_discovery(old(self)@, sender_id, t).state,
            actions@ == model::on_discovery(old(self)@, sender_id, t).actions,
    {
        touch_peer(&mut self.peers, sender_id, t.mono_ms);
        let mut actions: Vec<Action> = Vec::new();
        match self.role {
            Role::Leader => {
                actions.push(
                    Action::Send {
                        to: sender_id,
                        msg: Message::LeaderAnnounce {
                            leader_id: self.id,
                            timestamp: t.unix_secs,
                        },
                    },
                );
                assert(actions@ =~= model::on_discovery(old(self)@, sender_id, t).actions);
            },
            _ => {},
        }
        actions
    }

    /// Handles an answer to the discovery probe.
    fn on_leader_announce(&mut self, leader_id: u32, t: Moment) -> (actions: Vec<Action>)
        ensures
            final(self)@ == model::on_leader_announce(old(self)@, leader_id, t).state,
            actions@ == model::on_leader_announce(old(self)@, leader_id, t).actions,
    {
        let accepted = match self.leader {
            Some(known) => leader_id > known,
            None => true,
        };
        if accepted {
            self.role = Role::Follower;
            self.leader = Some(leader_id);
            self.successor = hint_beside(self.successor, leader_id);
            self.last_heartbeat = t.mono_ms;
        }
        Vec::new()
    }

    /// Handles an election message.
    fn on_election(&mut self, sender_id: u32, t: Moment) -> (actions: Vec<Action>)
        ensures
            final(self)@ == model::on_election(old(self)@, sender_id, t).state,
            actions@ == model::on_election(old(self)@, sender_id, t).actions,
    {
        if sender_id < self.id {
            touch_peer(&mut self.peers, sender_id, t.mono_ms);
            let mut actions: Vec<Action> = Vec::new();
            actions.push(
                Action::Send {
                    to: sender_id,
                    msg: Message::ElectionOk { sender_id: self.id, timestamp: t.unix_secs },
                },
            );
            let mut own = self.start_election(t);
            actions.append(&mut own);
            assert(actions@ =~= model::on_election(old(self)@, sender_id, t).actions);
            actions
        } else {
            Vec::new()
        }
    }

    /// Handles a reply to an election message.
    fn on_election_ok(&mut self, sender_id: u32) -> (actions: Vec<Action>)
        ensures
            final(self)@ == model::on_election_ok(old(self)@, sender_id).state,
            actions@ == model::on_election_ok(old(self)@, sender_id).actions,
    {
        match self.role {
            Role::Candidate => {
                if sender_id > self.id {
                    self.role = Role::Follower;
                }
            },
            _ => {},
        }
        Vec::new()
    }

    /// Handles a coordinator announcement.
    fn on_coordinator(&mut self, leader_id: u32, t: Moment) -> (actions: Vec<Action>)
        ensures
            final(self)@ == model::on_coordinator(old(self)@, leader_id, t).state,
            actions@ == model::on_coordinator(old(self)@, leader_id, t).actions,
    {
        let accepted = match self.leader {
            Some(known) => leader_id >= known,
            None => true,
        };
        if accepted {
            if leader_id != self.id {
                self.role = Role::Follower;
            }
            self.leader = Some(leader_id);
            self.successor = hint_beside(self.successor, leader_id);
            self.election = ElectionPhase::Idle;
            self.last_heartbeat = t.mono_ms;
        }
        Vec::new()
    }

    /// Handles a heartbeat.
    fn on_heartbeat(
        &mut self,
        leader_id: u32,
        successor_id: Option<u32>,
        t: Moment,
    ) -> (actions: Vec<Action>)
        ensures
            final(self)@ == model::on_heartbeat(old(self)@, leader_id, successor_id, t).state,
            actions@ == model::on_heartbeat(old(self)@, leader_id, successor_id, t).actions,
    {
        let leading = match self.role {
            Role::Leader => true,
            _ => false,
        };
        let follows = match self.leader {
            Some(known) => known == leader_id,
            None => false,
        };
        let mut actions: Vec<Action> = Vec::new();
        if !leading && follows {
            self.successor = hint_beside(successor_id, leader_id);
            self.last_heartbeat = t.mono_ms;
            actions.push(
                Action::Send {
                    to: leader_id,
                    msg: Message::HeartbeatAck { sender_id: self.id, timestamp: t.unix_secs },
                },
            );
            assert(actions@ =~= model::on_heartbeat(
                old(self)@,
                leader_id,
                successor_id,
                t,
            ).actions);
        }
        actions
    }

    /// Handles an acknowledgement of a heartbeat.
    fn on_heartbeat_ack(&mut self, sender_id: u32, t: Moment) -> (actions: Vec<Action>)
        ensures
            final(self)@ == model::on_heartbeat_ack(old(self)@, sender_id, t).state,
            actions@ == model::on_heartbeat_ack(old(self)@, sender_id, t).actions,
    {
        match self.role {
            Role::Leader => {
                touch_peer(&mut self.peers, sender_id, t.mono_ms);
            },
            _ => {},
        }
        Vec::new()
    }

    /// Handles a message from a peer, received at time `t`.
    pub fn handle_message(&mut self, msg: Message, t: Moment) -> (actions: Vec<Action>)
        ensures
            final(self)@ == model::on_message(old(self)@, msg, t).state,
            actions@ == model::on_message(old(self)@, msg, t).actions,
            old(self).wf() ==> final(self).wf(),
    {
        proof {
            if self.wf() {
                crate::laws::law_step_preserves_wf(self@, Event::Received { msg }, t);
            }
        }
        match msg {
            Message::Discovery { sender_id, .. } => self.on_discovery(sender_id, t),
            Message::LeaderAnnounce { leader_id, .. } => self.on_leader_announce(leader_id, t),
            Message::Election { sender_id, .. } => self.on_election(sender_id, t),
            Message::ElectionOk { sender_id, .. } => self.on_election_ok(sender_id),
            Message::Coordinator { leader_id, .. } => self.on_coordinator(leader_id, t),
            Message::Heartbeat { leader_id, successor_id, .. } => self.on_heartbeat(
                leader_id,
                successor_id,
                t,
            ),
            Message::HeartbeatAck { sender_id, .. } => self.on_heartbeat_ack(sender_id, t),
        }
    }
}

impl Node {
    /// The heartbeat period elapsed: a leader names its successor and tells every peer.
    pub fn send_heartbeats(&mut self, t: Moment) -> (actions: Vec<Action>)
        ensures
            final(self)@ == model::on_heartbeat_tick(old(self)@, t).state,
            actions@ == model::on_heartbeat_tick(old(self)@, t).actions,
            old(self).wf() ==> final(self).wf(),
    {
        proof {
            if self.wf() {
                crate::laws::law_step_preserves_wf(self@, Event::HeartbeatTick, t);
            }
        }
        match self.role {
            Role::Leader => {
                let next = calculate_successor(&self.peers, t.mono_ms);
                self.successor = next;
                broadcast_to(
                    &self.peers,
                    Message::Heartbeat {
                        leader_id: self.id,
                        successor_id: next,
                        timestamp: t.unix_secs,
                    },
                )
            },
            _ => Vec::new(),
        }
    }

    /// Whether a liveness check at `now` finds cause for an election.
    pub fn suspects_leader(&self, now: u64) -> (suspicious: bool)
        ensures
            suspicious == model::suspects_leader(self@, now),
    {
        let leading = match self.role {
            Role::Leader => true,
            _ => false,
        };
        let electing = match self.election {
            ElectionPhase::Idle => false,
            _ => true,
        };
        let outranks = match self.leader {
            Some(known) => known < self.id,
            None => false,
        };
        !leading && !electing && (elapsed_ms(self.last_heartbeat, now) > FAILURE_TIMEOUT_MS
            || outranks)
    }

    /// Checks on the leader: with cause, gives it up and starts an election.
    pub fn monitor_leader(&mut self, t: Moment) -> (actions: Vec<Action>)
        ensures
            final(self)@ == model::on_liveness_tick(old(self)@, t).state,
            actions@ == model::on_liveness_tick(old(self)@, t).actions,
            old(self).wf() ==> final(self).wf(),
    {
        proof {
            if self.wf() {
                crate::laws::law_step_preserves_wf(self@, Event::LivenessTick, t);
            }
        }
        if self.suspects_leader(t.mono_ms) {
            self.leader = None;
            self.start_election(t)
        } else {
            Vec::new()
        }
    }

    /// An election wait may have run out: moves the election on if it has.
    pub fn election_wait_expired(&mut self, t: Moment) -> (actions: Vec<Action>)
        ensures
            final(self)@ == model::on_election_wait_expired(old(self)@, t).state,
            actions@ == model::on_election_wait_expired(old(self)@, t).actions,
            old(self).wf() ==> final(self).wf(),
    {
        proof {
            if self.wf() {
                crate::laws::law_step_preserves_wf(self@, Event::ElectionWaitExpired, t);
            }
        }
        let stood_down = match self.role {
            Role::Follower => true,
            _ => false,
        };
        match self.election {
            ElectionPhase::Idle => Vec::new(),
            ElectionPhase::AwaitSuccessor { deadline } => {
                if t.mono_ms < deadline {
                    Vec::new()
                } else if stood_down {
                    self.election = ElectionPhase::Idle;
                    Vec::new()
                } else {
                    self.classic_round(t)
                }
            },
            ElectionPhase::AwaitHigher { deadline } => {
                if t.mono_ms < deadline {
                    Vec::new()
                } else if stood_down {
                    self.election = ElectionPhase::Idle;
                    Vec::new()
                } else {
                    self.become_leader(t)
                }
            },
        }
    }

    /// Starts the node up: notes the time, probes every peer and asks for the discovery wait.
    pub fn discover_cluster(&mut self, t: Moment) -> (actions: Vec<Action>)
        ensures
            final(self)@ == model::begin_discovery(old(self)@, t).state,
            actions@ == model::begin_discovery(old(self)@, t).actions,
            old(self).wf() ==> final(self).wf(),
    {
        self.last_heartbeat = t.mono_ms;
        let mut actions = broadcast_to(
            &self.peers,
            Message::Discovery { sender_id: self.id, timestamp: t.unix_secs },
        );
        actions.push(
            Action::StartTimer {
                timer: Timer::Discovery,
                deadline: deadline(t.mono_ms, DISCOVERY_WAIT_MS),
            },
        );
        actions
    }

    /// The wait for discovery answers ran out: with no leader known, starts an election.
    pub fn discovery_expired(&mut self, t: Moment) -> (actions: Vec<Action>)
        ensures
            final(self)@ == model::on_discovery_expired(old(self)@, t).state,
            actions@ == model::on_discovery_expired(old(self)@, t).actions,
            old(self).wf() ==> final(self).wf(),
    {
        proof {
            if self.wf() {
                crate::laws::law_step_preserves_wf(self@, Event::DiscoveryExpired, t);
            }
        }
        match self.leader {
            None => self.start_election(t),
            Some(_) => Vec::new(),
        }
    }

    /// Performs one step: handles `event` at time `t` and returns what the
    /// driver is asked to do, in order.
    pub fn handle_event(&mut self, event: Event, t: Moment) -> (actions: Vec<Action>)
        ensures
            final(self)@ == model::step(old(self)@, event, t).state,
            actions@ == model::step(old(self)@, event, t).actions,
            old(self).wf() ==> final(self).wf(),
    {
        proof {
            if self.wf() {
                crate::laws::law_step_preserves_wf(self@, event, t);
            }
        }
        match event {
            Event::Received { msg } => self.handle_message(msg, t),
            Event::HeartbeatTick => self.send_heartbeats(t),
            Event::LivenessTick => self.monitor_leader(t),
            Event::ElectionWaitExpired => self.election_wait_expired(t),
            Event::DiscoveryExpired => self.discovery_expired(t),
        }
    }
}

impl Node {
    /// This node's id.
    pub fn id(&self) -> (id: u32)
        ensures
            id == self@.id,
    {
        self.id
    }

    /// What this node takes itself to be.
    pub fn role(&self) -> (role: Role)
        ensures
            role == self@.role,
    {
        self.role
    }

    /// The node that this one believes to be leader.
    pub fn current_leader(&self) -> (leader: Option<u32>)
        ensures
            leader == self@.leader,
    {
        self.leader
    }

    /// The node next in line, as far as this one knows.
    pub fn successor(&self) -> (successor: Option<u32>)
        ensures
            successor == self@.successor,
    {
        self.successor
    }

    /// Where this node stands in an election of its own.
    pub fn election(&self) -> (phase: ElectionPhase)
        ensures
            phase == self@.election,
    {
        self.election
    }

    /// Whether an election of this node's own is under way.
    pub fn election_in_progress(&self) -> (electing: bool)
        ensures
            electing == self@.election_in_progress(),
    {
        match self.election {
            ElectionPhase::Idle => false,
            _ => true,
        }
    }

    /// Monotonic time at which the leader was last heard.
    pub fn last_heartbeat(&self) -> (at: u64)
        ensures
            at == self@.last_heartbeat,
    {
        self.last_heartbeat
    }

    /// The peer records, in configuration order.
    pub fn peers(&self) -> (peers: Vec<Peer>)
        ensures
            peers@ == self@.peers,
    {
        let mut out: Vec<Peer> = Vec::new();
        let n = self.peers.len();
        let mut i: usize = 0;
        while i < n
            invariant
                i <= n,
                n == self.peers@.len(),
                out@ == self.peers@.take(i as int),
            decreases n - i,
        {
            out.push(self.peers[i]);
            assert(self.peers@.take(i + 1) =~= self.peers@.take(i as int).push(
                self.peers@[i as int],
            ));
            i += 1;
        }
        assert(self.peers@.take(n as int) =~= self.peers@);
        out
    }

    /// The ids of the peers, in configuration order.
    pub fn known_peers(&self) -> (ids: Vec<u32>)
        ensures
            ids@ == self@.peers.map_values(|p: Peer| p.id),
    {
        let mut out: Vec<u32> = Vec::new();
        let n = self.peers.len();
        let mut i: usize = 0;
        while i < n
            invariant
                i <= n,
                n == self.peers@.len(),
                out@.len() == i,
                forall|j: int| 0 <= j < i ==> out@[j] == self.peers@[j].id,
            decreases n - i,
        {
            out.push(self.peers[i].id);
            i += 1;
        }
        assert(out@ =~= self@.peers.map_values(|p: Peer| p.id));
        out
    }

    /// The successor that a leader would name at `now`: the highest id among the peers alive.
    pub fn calculate_successor(&self, now: u64) -> (next: Option<u32>)
        ensures
            next == model::best_alive(self@.peers, now),
            next matches Some(m) ==> ({
                &&& exists|i: int|
                    0 <= i < self@.peers.len() && (#[trigger] self@.peers[i]).id == m
                        && model::is_alive(self@.peers[i], now)
                &&& forall|i: int|
                    0 <= i < self@.peers.len() && model::is_alive(#[trigger] self@.peers[i], now)
                        ==> self@.peers[i].id <= m
            }),
            next is None ==> forall|i: int|
                0 <= i < self@.peers.len() ==> !model::is_alive(#[trigger] self@.peers[i], now),
    {
        proof {
            crate::laws::law_successor_is_highest_alive(self@.peers, now);
        }
        calculate_successor(&self.peers, now)
    }

    /// This node's account of itself at `now`.
    pub fn report_status(&self, now: u64) -> (report: StatusReport)
        ensures
            report == model::status(self@, now),
    {
        let since_heartbeat_ms = elapsed_ms(self.last_heartbeat, now);
        match self.role {
            Role::Leader => {
                let ghost seen = |p: Peer| p.last_seen is Some;
                let n = self.peers.len();
                let mut count: usize = 0;
                let mut i: usize = 0;
                assert(self.peers@.take(0).filter(seen) =~= Seq::<Peer>::empty()) by {
                    reveal(Seq::filter);
                }
                while i < n
                    invariant
                        i <= n,
                        n == self.peers@.len(),
                        seen == |p: Peer| p.last_seen is Some,
                        count <= i,
                        count == self.peers@.take(i as int).filter(seen).len(),
                    decreases n - i,
                {
                    proof {
                        self.peers@.lemma_take_succ_push(i as int);
                        self.peers@.take(i as int).lemma_filter_len_push(
                            seen,
                            self.peers@[i as int],
                        );
                    }
                    if self.peers[i].last_seen.is_some() {
                        count += 1;
                    }
                    i += 1;
                }
                assert(self.peers@.take(n as int) =~= self.peers@);
                StatusReport {
                    id: self.id,
                    role: self.role,
                    leader: self.leader,
                    successor: calculate_successor(&self.peers, now),
                    seen_peers: Some(count),
                    since_heartbeat_ms,
                }
            },
            _ => StatusReport {
                id: self.id,
                role: self.role,
                leader: self.leader,
                successor: self.successor,
                seen_peers: None,
                since_heartbeat_ms,
            },
        }
    }
}

/// Computes [`model::hint_beside`].
fn hint_beside(successor: Option<u32>, leader: u32) -> (hint: Option<u32>)
    ensures
        hint == model::hint_beside(successor, leader),
{
    match successor {
        Some(next) => if next == leader {
            None
        } else {
            Some(next)
        },
        None => None,
    }
}

} // verus!
