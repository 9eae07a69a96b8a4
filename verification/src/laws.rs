//! What holds of the node's behaviour, proved over [`crate::model`].

use crate::message::Message;
use crate::model::{
    accepts_coordinator, become_leader, best_alive, broadcast, classic_round, contender,
    forget_all, has_higher, is_alive, on_coordinator, on_election, on_election_ok,
    on_election_wait_expired, on_liveness_tick, on_message, sends_to_higher, start_election,
    step, suspects_leader, touch, unchanged,
};
use crate::state::{
    distinct_ids, knows, nobody_seen, Action, ElectionPhase, Event, NodeView, Peer, Role, Timer,
};
use crate::timing::{
    deadline_after, elapsed, Moment, ELECTION_WAIT_MS, FAILURE_TIMEOUT_MS, LIVENESS_INTERVAL_MS,
    SUCCESSOR_WAIT_MS,
};
use vstd::prelude::*;

verus! {

/// A sign of life changes no peer's id: the peers stay distinct, and the
/// same ids are known before and after.
pub proof fn lemma_touch_keeps_ids(peers: Seq<Peer>, id: u32, now: u64)
    ensures
        touch(peers, id, now).len() == peers.len(),
        forall|i: int|
            0 <= i < peers.len() ==> (#[trigger] touch(peers, id, now)[i]).id == peers[i].id,
        distinct_ids(peers) ==> distinct_ids(touch(peers, id, now)),
        forall|other: u32| knows(touch(peers, id, now), other) <==> knows(peers, other),
        knows(peers, id) ==> !nobody_seen(touch(peers, id, now)),
        !knows(peers, id) ==> touch(peers, id, now) == peers,
{
    let after = touch(peers, id, now);
    assert forall|other: u32| knows(after, other) <==> knows(peers, other) by {
        if knows(after, other) {
            let i = choose|i: int| 0 <= i < after.len() && #[trigger] after[i].id == other;
            assert(peers[i].id == other);
        }
        if knows(peers, other) {
            let i = choose|i: int| 0 <= i < peers.len() && #[trigger] peers[i].id == other;
            assert(after[i].id == other);
        }
    }
    if knows(peers, id) {
        let i = choose|i: int| 0 <= i < peers.len() && #[trigger] peers[i].id == id;
        assert(after[i].last_seen is Some);
    } else {
        assert(after =~= peers);
    }
}

/// Forgetting changes no peer's id and leaves no sign of life.
pub proof fn lemma_forget_keeps_ids(peers: Seq<Peer>)
    ensures
        forget_all(peers).len() == peers.len(),
        forall|i: int| 0 <= i < peers.len() ==> (#[trigger] forget_all(peers)[i]).id == peers[i].id,
        distinct_ids(peers) ==> distinct_ids(forget_all(peers)),
        forall|other: u32| knows(forget_all(peers), other) <==> knows(peers, other),
        nobody_seen(forget_all(peers)),
{
    let after = forget_all(peers);
    assert forall|other: u32| knows(after, other) <==> knows(peers, other) by {
        if knows(after, other) {
            let i = choose|i: int| 0 <= i < after.len() && #[trigger] after[i].id == other;
            assert(peers[i].id == other);
        }
        if knows(peers, other) {
            let i = choose|i: int| 0 <= i < peers.len() && #[trigger] peers[i].id == other;
            assert(after[i].id == other);
        }
    }
}

/// The successor a leader names is the highest id among the peers alive: it
/// is the id of a peer that is alive, no peer alive has a higher id, and
/// none is named exactly when no peer is alive.
pub proof fn law_successor_is_highest_alive(peers: Seq<Peer>, now: u64)
    ensures
        (match best_alive(peers, now) {
            Some(m) => {
                &&& exists|i: int|
                    0 <= i < peers.len() && (#[trigger] peers[i]).id == m && is_alive(peers[i], now)
                &&& forall|i: int|
                    0 <= i < peers.len() && is_alive(#[trigger] peers[i], now) ==> peers[i].id
                        <= m
            },
            None => forall|i: int| 0 <= i < peers.len() ==> !is_alive(#[trigger] peers[i], now),
        }),
    decreases peers.len(),
{
    if peers.len() > 0 {
        let shorter = peers.drop_last();
        law_successor_is_highest_alive(shorter, now);
        let p = peers.last();
        assert(forall|i: int| 0 <= i < shorter.len() ==> shorter[i] == peers[i]);
        match best_alive(peers, now) {
            Some(m) => {
                if is_alive(p, now) && (best_alive(shorter, now) matches Some(r) ==> r < p.id) {
                    assert(peers[peers.len() - 1].id == m);
                } else {
                    let i = choose|i: int|
                        0 <= i < shorter.len() && (#[trigger] shorter[i]).id == m && is_alive(
                            shorter[i],
                            now,
                        );
                    assert(peers[i].id == m && is_alive(peers[i], now));
                }
                assert forall|i: int|
                    0 <= i < peers.len() && is_alive(#[trigger] peers[i], now) implies peers[i].id
                    <= m by {
                    if i < shorter.len() {
                        assert(is_alive(shorter[i], now));
                    }
                }
            },
            None => {
                assert forall|i: int| 0 <= i < peers.len() implies !is_alive(
                    #[trigger] peers[i],
                    now,
                ) by {
                    if i < shorter.len() {
                        assert(!is_alive(shorter[i], now));
                    }
                }
            },
        }
    }
}

/// The successor a leader names is one of its peers, and so never the leader itself.
pub proof fn lemma_successor_is_a_peer(peers: Seq<Peer>, now: u64)
    ensures
        best_alive(peers, now) matches Some(m) ==> knows(peers, m),
        nobody_seen(peers) ==> best_alive(peers, now) is None,
{
    law_successor_is_highest_alive(peers, now);
    if best_alive(peers, now) is Some && nobody_seen(peers) {
        let m = best_alive(peers, now)->0;
        let i = choose|i: int|
            0 <= i < peers.len() && (#[trigger] peers[i]).id == m && is_alive(peers[i], now);
        assert(peers[i].last_seen is None);
    }
}

/// Taking the lead keeps the invariant.
pub proof fn lemma_become_leader_wf(s: NodeView, t: Moment)
    requires
        s.wf(),
    ensures
        become_leader(s, t).state.wf(),
{
    lemma_forget_keeps_ids(s.peers);
}

/// Starting an election keeps the invariant.
pub proof fn lemma_start_election_wf(s: NodeView, t: Moment)
    requires
        s.wf(),
    ensures
        start_election(s, t).state.wf(),
{
    let c = NodeView { role: contender(s.role), ..s };
    lemma_become_leader_wf(c, t);
}

/// Every step keeps the invariant of the node's state.
pub proof fn law_step_preserves_wf(s: NodeView, event: Event, t: Moment)
    requires
        s.wf(),
    ensures
        step(s, event, t).state.wf(),
{
    lemma_become_leader_wf(s, t);
    lemma_start_election_wf(s, t);
    match event {
        Event::Received { msg } => {
            match msg {
                Message::Discovery { sender_id, .. } => {
                    lemma_touch_keeps_ids(s.peers, sender_id, t.mono_ms);
                },
                Message::Election { sender_id, .. } => {
                    lemma_touch_keeps_ids(s.peers, sender_id, t.mono_ms);
                    let seen = NodeView { peers: touch(s.peers, sender_id, t.mono_ms), ..s };
                    if sender_id < s.id {
                        assert(seen.wf());
                        lemma_start_election_wf(seen, t);
                    }
                },
                Message::HeartbeatAck { sender_id, .. } => {
                    lemma_touch_keeps_ids(s.peers, sender_id, t.mono_ms);
                },
                _ => {},
            }
        },
        Event::HeartbeatTick => {
            lemma_successor_is_a_peer(s.peers, t.mono_ms);
        },
        Event::LivenessTick => {
            if suspects_leader(s, t.mono_ms) {
                lemma_start_election_wf(NodeView { leader: None, ..s }, t);
            }
        },
        Event::ElectionWaitExpired => {},
        Event::DiscoveryExpired => {},
    }
}

/// Receiving the same coordinator announcement twice changes nothing the
/// second time but the time at which the leader was last heard, and asks for
/// no action. Received at the same instant, the second leaves the state as it is.
pub proof fn law_coordinator_idempotent(s: NodeView, leader_id: u32, first: Moment, second: Moment)
    ensures
        ({
            let once = on_coordinator(s, leader_id, first).state;
            let twice = on_coordinator(once, leader_id, second);
            &&& twice.actions == Seq::<Action>::empty()
            &&& twice.state == NodeView { last_heartbeat: twice.state.last_heartbeat, ..once }
            &&& twice.state.last_heartbeat == if accepts_coordinator(s, leader_id) {
                second.mono_ms
            } else {
                once.last_heartbeat
            }
            &&& first.mono_ms == second.mono_ms ==> twice.state == once
        }),
{
}

/// A message that is delivered twice does no more than once: but for a
/// challenge to an election, which is answered each time, handling the same
/// message again at the same instant leaves the state as it is.
pub proof fn law_duplicate_delivery_is_harmless(s: NodeView, msg: Message, t: Moment)
    requires
        !(msg is Election),
    ensures
        on_message(on_message(s, msg, t).state, msg, t).state == on_message(s, msg, t).state,
{
    let once = on_message(s, msg, t).state;
    match msg {
        Message::Discovery { sender_id, .. } => {
            assert(touch(touch(s.peers, sender_id, t.mono_ms), sender_id, t.mono_ms) =~= touch(
                s.peers,
                sender_id,
                t.mono_ms,
            ));
        },
        Message::HeartbeatAck { sender_id, .. } => {
            assert(touch(touch(s.peers, sender_id, t.mono_ms), sender_id, t.mono_ms) =~= touch(
                s.peers,
                sender_id,
                t.mono_ms,
            ));
        },
        _ => {},
    }
}

/// An announcement never lowers the id of the leader a node believes in.
pub proof fn law_announcement_never_lowers_leader(s: NodeView, leader_id: u32, t: Moment)
    ensures
        ({
            let after = on_coordinator(s, leader_id, t).state;
            &&& after.leader is Some
            &&& s.leader matches Some(known) ==> after.leader->0 >= known
            &&& accepts_coordinator(s, leader_id) ==> after.leader == Some(leader_id)
            &&& !accepts_coordinator(s, leader_id) ==> after == s
        }),
{
}

/// After two coordinator announcements, for `a` and then for `b`, the node
/// believes in a leader whose id is at least the higher of the two; where
/// both were accepted, that leader is `b`, and `b` is not below `a`.
pub proof fn law_leader_id_monotone(s: NodeView, a: u32, b: u32, first: Moment, second: Moment)
    ensures
        ({
            let mid = on_coordinator(s, a, first).state;
            let end = on_coordinator(mid, b, second).state;
            &&& end.leader matches Some(l) && l >= a && l >= b
            &&& accepts_coordinator(s, a) && accepts_coordinator(mid, b) ==> end.leader == Some(b)
                && b >= a
        }),
{
}

/// A leader that learns of a coordinator with a higher id gives up the lead and follows it.
pub proof fn law_lower_leader_yields(s: NodeView, higher: u32, t: Moment)
    requires
        s.wf(),
        s.role == Role::Leader,
        higher > s.id,
    ensures
        on_coordinator(s, higher, t).state.role == Role::Follower,
        on_coordinator(s, higher, t).state.leader == Some(higher),
{
}

/// A leader ignores the announcement of a coordinator with a lower id.
pub proof fn law_leader_ignores_lower(s: NodeView, lower: u32, t: Moment)
    requires
        s.wf(),
        s.role == Role::Leader,
        lower < s.id,
    ensures
        on_coordinator(s, lower, t) == unchanged(s),
{
}

/// A node with no higher peer, and with no hint of a successor above
/// itself, wins its election at once: it takes the lead and announces itself
/// to every peer, without waiting.
pub proof fn law_highest_wins_at_once(s: NodeView, t: Moment)
    requires
        s.wf(),
        !s.election_in_progress(),
        !has_higher(s.peers, s.id),
        s.successor matches Some(next) ==> next <= s.id,
    ensures
        start_election(s, t).state.role == Role::Leader,
        start_election(s, t).state.leader == Some(s.id),
        !start_election(s, t).state.election_in_progress(),
        start_election(s, t).actions == broadcast(
            s.peers,
            Message::Coordinator { leader_id: s.id, timestamp: t.unix_secs },
        ),
{
}

/// Fast failover: when the liveness check gives cause, the designated
/// successor takes the lead directly. It announces itself to every peer and
/// does nothing else: it challenges no higher peer and starts no wait.
pub proof fn law_successor_takes_over_directly(s: NodeView, t: Moment)
    requires
        s.wf(),
        s.successor == Some(s.id),
        suspects_leader(s, t.mono_ms),
    ensures
        on_liveness_tick(s, t).state.role == Role::Leader,
        on_liveness_tick(s, t).state.leader == Some(s.id),
        !on_liveness_tick(s, t).state.election_in_progress(),
        on_liveness_tick(s, t).actions == broadcast(
            s.peers,
            Message::Coordinator { leader_id: s.id, timestamp: t.unix_secs },
        ),
{
}

/// Fast failover between a follower and the designated successor. A
/// follower below the successor that suspects the leader challenges the
/// successor alone. The successor, thus challenged, tells it to stand down
/// and takes the lead in the same step, announcing itself to every peer.
/// With the reply and the announcement the follower follows the successor
/// and its election is over. Neither of them challenges all higher peers or
/// waits for them.
pub proof fn law_fast_failover_on_challenge(
    follower: NodeView,
    successor: NodeView,
    check: Moment,
    challenged: Moment,
    answered: Moment,
)
    requires
        follower.wf(),
        successor.wf(),
        follower.id < successor.id,
        follower.successor == Some(successor.id),
        suspects_leader(follower, check.mono_ms),
        successor.successor == Some(successor.id),
        successor.role != Role::Leader,
        !successor.election_in_progress(),
    ensures
        ({
            let asked = on_liveness_tick(follower, check);
            let taken = on_election(successor, follower.id, challenged);
            let stood_down = on_election_ok(asked.state, successor.id).state;
            let joined = on_coordinator(stood_down, successor.id, answered).state;
            &&& asked.actions == seq![
                Action::Send {
                    to: successor.id,
                    msg: Message::Election { sender_id: follower.id, timestamp: check.unix_secs },
                },
                Action::StartTimer {
                    timer: Timer::ElectionWait,
                    deadline: deadline_after(check.mono_ms, SUCCESSOR_WAIT_MS),
                },
            ]
            &&& asked.state.election is AwaitSuccessor
            &&& taken.state.role == Role::Leader
            &&& taken.state.leader == Some(successor.id)
            &&& !taken.state.election_in_progress()
            &&& taken.actions == seq![
                Action::Send {
                    to: follower.id,
                    msg: Message::ElectionOk {
                        sender_id: successor.id,
                        timestamp: challenged.unix_secs,
                    },
                },
            ] + broadcast(
                successor.peers,
                Message::Coordinator { leader_id: successor.id, timestamp: challenged.unix_secs },
            )
            &&& follows(joined, successor.id)
        }),
{
    let asked = on_liveness_tick(follower, check);
    lemma_start_election_wf(NodeView { leader: None, ..follower }, check);
    let stood_down = on_election_ok(asked.state, successor.id).state;
    law_step_preserves_wf(
        stood_down,
        Event::Received {
            msg: Message::Coordinator { leader_id: successor.id, timestamp: 0 },
        },
        answered,
    );
    lemma_touch_keeps_ids(successor.peers, follower.id, challenged.mono_ms);
    let seen = NodeView {
        peers: touch(successor.peers, follower.id, challenged.mono_ms),
        ..successor
    };
    assert(broadcast(
        seen.peers,
        Message::Coordinator { leader_id: successor.id, timestamp: challenged.unix_secs },
    ) =~= broadcast(
        successor.peers,
        Message::Coordinator { leader_id: successor.id, timestamp: challenged.unix_secs },
    ));
}

/// Without the successor hint, a node that suspects its leader and has
/// higher peers challenges them and waits: it does not take the lead in that step.
pub proof fn law_classic_round_waits(s: NodeView, t: Moment)
    requires
        s.wf(),
        s.successor is None,
        has_higher(s.peers, s.id),
        suspects_leader(s, t.mono_ms),
    ensures
        on_liveness_tick(s, t).state.role == Role::Candidate,
        on_liveness_tick(s, t).state.leader is None,
        on_liveness_tick(s, t).state.election matches ElectionPhase::AwaitHigher { .. },
{
}

/// A node that was not leader before a step and is leader after it has
/// announced itself: the step's actions end with one coordinator
/// announcement for every peer, in configuration order.
pub proof fn law_new_leader_announces(s: NodeView, event: Event, t: Moment)
    requires
        s.wf(),
        s.role != Role::Leader,
        step(s, event, t).state.role == Role::Leader,
    ensures
        step(s, event, t).state.leader == Some(s.id),
        step(s, event, t).actions.len() >= s.peers.len(),
        step(s, event, t).actions.skip(step(s, event, t).actions.len() - s.peers.len())
            == broadcast(s.peers, Message::Coordinator { leader_id: s.id, timestamp: t.unix_secs }),
{
    let out = step(s, event, t);
    let announce = broadcast(
        s.peers,
        Message::Coordinator { leader_id: s.id, timestamp: t.unix_secs },
    );
    match event {
        Event::Received { msg } => {
            match msg {
                Message::Election { sender_id, .. } => {
                    lemma_touch_keeps_ids(s.peers, sender_id, t.mono_ms);
                    let seen = NodeView { peers: touch(s.peers, sender_id, t.mono_ms), ..s };
                    let own = start_election(seen, t);
                    assert(own.actions =~= broadcast(
                        seen.peers,
                        Message::Coordinator { leader_id: s.id, timestamp: t.unix_secs },
                    ));
                    assert(own.actions =~= announce);
                    assert(out.actions.skip(out.actions.len() - s.peers.len()) =~= announce);
                },
                _ => {},
            }
        },
        _ => {
            assert(out.actions =~= announce);
            assert(out.actions.skip(0) =~= out.actions);
        },
    }
}

/// The traffic of a cluster that has settled on the leader `top`: every
/// message but a challenge to an election, as long as those that name a
/// leader name `top`.
pub open spec fn routine(msg: Message, top: u32) -> bool {
    match msg {
        Message::Discovery { .. } => true,
        Message::LeaderAnnounce { leader_id, .. } => leader_id == top,
        Message::Election { .. } => false,
        Message::ElectionOk { .. } => true,
        Message::Coordinator { leader_id, .. } => leader_id == top,
        Message::Heartbeat { leader_id, .. } => leader_id == top,
        Message::HeartbeatAck { .. } => true,
    }
}

/// What can happen to the node `s` in a stable period of a cluster led by
/// `top`: routine traffic arrives, and a liveness check comes only while the
/// last heartbeat is no older than the failure timeout.
pub open spec fn calm(s: NodeView, event: Event, top: u32, t: Moment) -> bool {
    match event {
        Event::Received { msg } => routine(msg, top),
        Event::LivenessTick => elapsed(s.last_heartbeat, t.mono_ms) <= FAILURE_TIMEOUT_MS,
        _ => true,
    }
}

/// The node is a follower of the higher node `top` and holds no election.
pub open spec fn follows(s: NodeView, top: u32) -> bool {
    &&& s.wf()
    &&& s.id < top
    &&& s.role == Role::Follower
    &&& s.leader == Some(top)
    &&& !s.election_in_progress()
}

/// The node is leader and holds no election.
pub open spec fn leads(s: NodeView) -> bool {
    &&& s.wf()
    &&& s.role == Role::Leader
    &&& !s.election_in_progress()
}

/// The cluster has settled: the node at `top` leads, and every other node follows it.
pub open spec fn settled(nodes: Seq<NodeView>, top: int) -> bool {
    &&& 0 <= top < nodes.len()
    &&& leads(nodes[top])
    &&& forall|i: int|
        0 <= i < nodes.len() && i != top ==> follows(#[trigger] nodes[i], nodes[top].id)
}

/// The actions start no timer and send routine messages only.
pub open spec fn quiet(actions: Seq<Action>, top: u32) -> bool {
    forall|k: int|
        0 <= k < actions.len() ==> ((#[trigger] actions[k]) matches Action::Send { msg, .. }
            && routine(msg, top))
}

/// The nodes of a cluster after the announcement of node `from` has reached every other node.
pub open spec fn after_announcement(nodes: Seq<NodeView>, from: int, t: Moment) -> Seq<NodeView> {
    Seq::new(
        nodes.len(),
        |i: int|
            if i == from {
                nodes[i]
            } else {
                on_coordinator(nodes[i], nodes[from].id, t).state
            },
    )
}

/// Once the announcement of a leader with the highest id has reached every
/// other node, the cluster has settled: that node alone leads and every
/// other node follows it. This holds of nodes of which none believes in a
/// leader above the highest id.
pub proof fn law_single_leader_after_announcement(nodes: Seq<NodeView>, top: int, t: Moment)
    requires
        0 <= top < nodes.len(),
        leads(nodes[top]),
        forall|i: int| 0 <= i < nodes.len() ==> (#[trigger] nodes[i]).wf(),
        forall|i: int|
            0 <= i < nodes.len() && i != top ==> (#[trigger] nodes[i]).id < nodes[top].id,
        forall|i: int|
            0 <= i < nodes.len() ==> ((#[trigger] nodes[i]).leader matches Some(l) ==> l
                <= nodes[top].id),
    ensures
        after_announcement(nodes, top, t).len() == nodes.len(),
        settled(after_announcement(nodes, top, t), top),
        forall|i: int|
            0 <= i < nodes.len() ==> ((#[trigger] after_announcement(nodes, top, t)[i]).role
                == Role::Leader <==> i == top),
        forall|i: int|
            0 <= i < nodes.len() ==> (#[trigger] after_announcement(nodes, top, t)[i]).leader
                == Some(nodes[top].id),
{
    let after = after_announcement(nodes, top, t);
    assert forall|i: int| 0 <= i < nodes.len() && i != top implies follows(
        #[trigger] after[i],
        after[top].id,
    ) by {
        assert(nodes[i].wf());
        law_step_preserves_wf(
            nodes[i],
            Event::Received {
                msg: Message::Coordinator { leader_id: nodes[top].id, timestamp: 0 },
            },
            t,
        );
    }
    assert forall|i: int| 0 <= i < nodes.len() implies ((#[trigger] after[i]).role
        == Role::Leader <==> i == top) && after[i].leader == Some(nodes[top].id) by {
        if i != top {
            assert(follows(after[i], after[top].id));
        }
    }
}

/// The highest node's election settles the cluster. When the node with
/// the highest id starts an election, it takes the lead in that step and
/// announces itself to every peer; once the announcement has reached every
/// other node, all of them follow it and it alone leads. This holds of a
/// cluster of which no node believes in a leader above the highest id, and
/// whose highest node holds no election yet and no hint of a successor above itself.
pub proof fn law_highest_node_election_settles_cluster(
    nodes: Seq<NodeView>,
    top: int,
    started: Moment,
    delivered: Moment,
)
    requires
        0 <= top < nodes.len(),
        forall|i: int| 0 <= i < nodes.len() ==> (#[trigger] nodes[i]).wf(),
        forall|i: int|
            0 <= i < nodes.len() && i != top ==> (#[trigger] nodes[i]).id < nodes[top].id,
        forall|i: int|
            0 <= i < nodes.len() ==> ((#[trigger] nodes[i]).leader matches Some(l) ==> l
                <= nodes[top].id),
        !nodes[top].election_in_progress(),
        !has_higher(nodes[top].peers, nodes[top].id),
        nodes[top].successor matches Some(next) ==> next <= nodes[top].id,
    ensures
        start_election(nodes[top], started).actions == broadcast(
            nodes[top].peers,
            Message::Coordinator { leader_id: nodes[top].id, timestamp: started.unix_secs },
        ),
        settled(
            after_announcement(
                nodes.update(top, start_election(nodes[top], started).state),
                top,
                delivered,
            ),
            top,
        ),
        forall|i: int|
            0 <= i < nodes.len() ==> (#[trigger] after_announcement(
                nodes.update(top, start_election(nodes[top], started).state),
                top,
                delivered,
            )[i]).leader == Some(nodes[top].id),
{
    let won = start_election(nodes[top], started).state;
    lemma_start_election_wf(nodes[top], started);
    let running = nodes.update(top, won);
    assert(leads(running[top]));
    assert forall|i: int| 0 <= i < running.len() implies (#[trigger] running[i]).wf() by {
        if i != top {
            assert(nodes[i].wf());
        }
    }
    assert forall|i: int| 0 <= i < running.len() && i != top implies (#[trigger] running[i]).id
        < running[top].id by {
        assert(nodes[i].id < nodes[top].id);
    }
    assert forall|i: int| 0 <= i < running.len() implies (
    (#[trigger] running[i]).leader matches Some(l) ==> l <= running[top].id) by {
        if i != top {
            assert(nodes[i].leader matches Some(l) ==> l <= nodes[top].id);
        }
    }
    law_single_leader_after_announcement(running, top, delivered);
}

/// In a stable period a follower stays a follower of the same leader, and what it sends is routine.
pub proof fn lemma_follower_stays(s: NodeView, event: Event, top: u32, t: Moment)
    requires
        follows(s, top),
        calm(s, event, top, t),
    ensures
        follows(step(s, event, t).state, top),
        quiet(step(s, event, t).actions, top),
{
    law_step_preserves_wf(s, event, t);
}

/// In a stable period the leader stays leader, and what it sends is routine.
pub proof fn lemma_leader_stays(s: NodeView, event: Event, t: Moment)
    requires
        leads(s),
        calm(s, event, s.id, t),
    ensures
        leads(step(s, event, t).state),
        step(s, event, t).state.id == s.id,
        quiet(step(s, event, t).actions, s.id),
{
    law_step_preserves_wf(s, event, t);
}

/// Safety in a stable period. In a cluster that has settled on one leader,
/// whatever happens to whichever node, as long as it is calm (routine
/// traffic, and liveness checks only while heartbeats are fresh), leaves the
/// cluster settled on the same leader: exactly one node leads, before and
/// after, and the step sends only routine traffic in turn.
pub proof fn law_stable_period_keeps_one_leader(
    nodes: Seq<NodeView>,
    top: int,
    k: int,
    event: Event,
    t: Moment,
)
    requires
        settled(nodes, top),
        0 <= k < nodes.len(),
        calm(nodes[k], event, nodes[top].id, t),
    ensures
        settled(nodes.update(k, step(nodes[k], event, t).state), top),
        quiet(step(nodes[k], event, t).actions, nodes[top].id),
        forall|i: int|
            0 <= i < nodes.len() ==> ((#[trigger] nodes.update(
                k,
                step(nodes[k], event, t).state,
            )[i]).role == Role::Leader <==> i == top),
{
    let after = nodes.update(k, step(nodes[k], event, t).state);
    if k == top {
        lemma_leader_stays(nodes[k], event, t);
    } else {
        assert(follows(nodes[k], nodes[top].id));
        lemma_follower_stays(nodes[k], event, nodes[top].id, t);
    }
    assert forall|i: int| 0 <= i < after.len() && i != top implies follows(
        #[trigger] after[i],
        after[top].id,
    ) by {
        if i != k {
            assert(follows(nodes[i], nodes[top].id));
        }
    }
    assert forall|i: int| 0 <= i < nodes.len() implies ((#[trigger] after[i]).role
        == Role::Leader <==> i == top) by {
        if i != top {
            assert(follows(after[i], after[top].id));
        }
    }
}

/// Something that happens to one node of a cluster: which node, what, and when.
pub struct Happening {
    /// The node's position in the cluster.
    pub node: int,
    pub event: Event,
    pub at: Moment,
}

/// The nodes of a cluster after a sequence of happenings, each handled by the node it names.
pub open spec fn after_steps(nodes: Seq<NodeView>, steps: Seq<Happening>) -> Seq<NodeView>
    decreases steps.len(),
{
    if steps.len() == 0 {
        nodes
    } else {
        let before = after_steps(nodes, steps.drop_last());
        let last = steps.last();
        if 0 <= last.node < before.len() {
            before.update(last.node, step(before[last.node], last.event, last.at).state)
        } else {
            before
        }
    }
}

/// Every happening of the sequence is calm for the node it reaches, in the
/// state in which it reaches it.
pub open spec fn calm_steps(nodes: Seq<NodeView>, top: u32, steps: Seq<Happening>) -> bool
    decreases steps.len(),
{
    steps.len() == 0 || {
        let before = after_steps(nodes, steps.drop_last());
        let last = steps.last();
        &&& calm_steps(nodes, top, steps.drop_last())
        &&& 0 <= last.node < before.len() ==> calm(before[last.node], last.event, top, last.at)
    }
}

/// Safety over a stable period. Throughout a period in which all that
/// happens is calm, however long it lasts and in whatever order the nodes
/// take their steps, a cluster that had settled on a leader stays settled on
/// it: at every moment exactly one node leads.
pub proof fn law_stable_period_has_one_leader(nodes: Seq<NodeView>, top: int, steps: Seq<Happening>)
    requires
        settled(nodes, top),
        calm_steps(nodes, nodes[top].id, steps),
    ensures
        after_steps(nodes, steps).len() == nodes.len(),
        after_steps(nodes, steps)[top].id == nodes[top].id,
        settled(after_steps(nodes, steps), top),
        forall|i: int|
            0 <= i < nodes.len() ==> ((#[trigger] after_steps(nodes, steps)[i]).role
                == Role::Leader <==> i == top),
    decreases steps.len(),
{
    if steps.len() > 0 {
        let earlier = steps.drop_last();
        law_stable_period_has_one_leader(nodes, top, earlier);
        let before = after_steps(nodes, earlier);
        let last = steps.last();
        if 0 <= last.node < before.len() {
            law_stable_period_keeps_one_leader(before, top, last.node, last.event, last.at);
            if last.node == top {
                lemma_leader_stays(before[top], last.event, last.at);
            }
        }
    }
    let end = after_steps(nodes, steps);
    assert forall|i: int| 0 <= i < nodes.len() implies ((#[trigger] end[i]).role == Role::Leader
        <==> i == top) by {
        if i != top {
            assert(follows(end[i], end[top].id));
        }
    }
}

/// An election ends: when the wait for the higher peers has run out, the
/// node is leader or has stood down, and holds no election any more.
pub proof fn law_election_wait_ends(s: NodeView, t: Moment)
    requires
        s.wf(),
        s.election matches ElectionPhase::AwaitHigher { deadline } && t.mono_ms >= deadline,
    ensures
        !on_election_wait_expired(s, t).state.election_in_progress(),
        on_election_wait_expired(s, t).state.role == if s.role == Role::Follower {
            Role::Follower
        } else {
            Role::Leader
        },
{
}

/// When the wait for the successor has run out, the node has stood down, or
/// has taken the lead, or waits for the higher peers: it waits for the
/// successor no longer.
pub proof fn law_successor_wait_ends(s: NodeView, t: Moment)
    requires
        s.wf(),
        s.election matches ElectionPhase::AwaitSuccessor { deadline } && t.mono_ms >= deadline,
    ensures
        !(on_election_wait_expired(s, t).state.election is AwaitSuccessor),
        s.role == Role::Follower ==> on_election_wait_expired(s, t).state == (NodeView {
            election: ElectionPhase::Idle,
            ..s
        }),
        s.role != Role::Follower ==> on_election_wait_expired(s, t) == classic_round(s, t),
{
}

/// The node `s` once the waits of its election have run out with no message
/// in between, and the time at which the last of them did. Each wait is
/// reported at its own deadline; `stamp` is the wall clock's reading then.
pub open spec fn after_waits(s: NodeView, stamp: u64) -> (NodeView, u64) {
    match s.election {
        ElectionPhase::Idle => (s, 0),
        ElectionPhase::AwaitSuccessor { deadline } => {
            let next = on_election_wait_expired(
                s,
                Moment { mono_ms: deadline, unix_secs: stamp },
            ).state;
            match next.election {
                ElectionPhase::AwaitHigher { deadline: second } => (
                    on_election_wait_expired(
                        next,
                        Moment { mono_ms: second, unix_secs: stamp },
                    ).state,
                    second,
                ),
                _ => (next, deadline),
            }
        },
        ElectionPhase::AwaitHigher { deadline } => (
            on_election_wait_expired(s, Moment { mono_ms: deadline, unix_secs: stamp }).state,
            deadline,
        ),
    }
}

/// An election that nobody answers is won. A node whose liveness check at
/// `check` gives cause either takes the lead in that very step, or holds an
/// election; if no message reaches it before its waits have run out, it is
/// leader then, no later than the successor wait and the election wait after
/// the check. With a check that comes within one liveness interval of the
/// failure timeout, that is less than two failure timeouts after the last heartbeat.
pub proof fn law_unanswered_election_is_won(s: NodeView, check: Moment, stamp: u64)
    requires
        s.wf(),
        suspects_leader(s, check.mono_ms),
        check.mono_ms + SUCCESSOR_WAIT_MS + ELECTION_WAIT_MS <= u64::MAX,
    ensures
        ({
            let started = on_liveness_tick(s, check).state;
            let (end, when) = after_waits(started, stamp);
            &&& end.wf()
            &&& end.role == Role::Leader
            &&& end.leader == Some(s.id)
            &&& !end.election_in_progress()
            &&& started.election_in_progress() ==> check.mono_ms <= when <= check.mono_ms
                + SUCCESSOR_WAIT_MS + ELECTION_WAIT_MS
            &&& started.election_in_progress() && elapsed(s.last_heartbeat, check.mono_ms)
                <= FAILURE_TIMEOUT_MS + LIVENESS_INTERVAL_MS ==> when - s.last_heartbeat < 2
                * FAILURE_TIMEOUT_MS
        }),
{
    let given_up = NodeView { leader: None, ..s };
    lemma_start_election_wf(given_up, check);
    let started = on_liveness_tick(s, check).state;
    assert(started.wf());
    match started.election {
        ElectionPhase::Idle => {},
        ElectionPhase::AwaitSuccessor { deadline } => {
            let first = Moment { mono_ms: deadline, unix_secs: stamp };
            law_step_preserves_wf(started, Event::ElectionWaitExpired, first);
            let next = on_election_wait_expired(started, first).state;
            assert(started.role == Role::Candidate);
            match next.election {
                ElectionPhase::AwaitHigher { deadline: second } => {
                    law_step_preserves_wf(
                        next,
                        Event::ElectionWaitExpired,
                        Moment { mono_ms: second, unix_secs: stamp },
                    );
                },
                _ => {},
            }
        },
        ElectionPhase::AwaitHigher { deadline } => {
            law_step_preserves_wf(
                started,
                Event::ElectionWaitExpired,
                Moment { mono_ms: deadline, unix_secs: stamp },
            );
        },
    }
}

/// Every id that the message names is at most `top`.
pub open spec fn names_within(msg: Message, top: u32) -> bool {
    match msg {
        Message::Heartbeat { leader_id, successor_id, .. } => leader_id <= top && (
        successor_id matches Some(next) ==> next <= top),
        other => other.origin() <= top,
    }
}

/// Every id that the node holds is at most `top`: its own, its peers', and
/// those of the leader and the successor it believes in.
pub open spec fn ids_within(s: NodeView, top: u32) -> bool {
    &&& s.id <= top
    &&& forall|i: int| 0 <= i < s.peers.len() ==> (#[trigger] s.peers[i]).id <= top
    &&& (s.leader matches Some(l) ==> l <= top)
    &&& (s.successor matches Some(next) ==> next <= top)
}

/// Every message that the actions send names ids of at most `top` only, and goes to such an id.
pub open spec fn sends_within(actions: Seq<Action>, top: u32) -> bool {
    forall|k: int|
        0 <= k < actions.len() ==> ((#[trigger] actions[k]) matches Action::Send { to, msg }
            ==> to <= top && names_within(msg, top))
}

/// A cluster keeps to its own ids. A node that holds no id above `top`, and
/// receives only messages that name no id above `top`, holds no such id
/// after the step and sends no message that names one. So where all
/// messages come from the nodes of the cluster, no node ever believes in a
/// leader above the cluster's highest id.
pub proof fn law_ids_stay_within(s: NodeView, event: Event, top: u32, t: Moment)
    requires
        ids_within(s, top),
        event matches Event::Received { msg } ==> names_within(msg, top),
    ensures
        ids_within(step(s, event, t).state, top),
        sends_within(step(s, event, t).actions, top),
{
    let out = step(s, event, t);
    lemma_rounds_within(s, top, t);
    match event {
        Event::Received { msg } => {
            match msg {
                Message::Election { sender_id, .. } => {
                    if sender_id < s.id {
                        lemma_touch_keeps_ids(s.peers, sender_id, t.mono_ms);
                        let seen = NodeView { peers: touch(s.peers, sender_id, t.mono_ms), ..s };
                        lemma_rounds_within(seen, top, t);
                    }
                },
                Message::Discovery { sender_id, .. } => {
                    lemma_touch_keeps_ids(s.peers, sender_id, t.mono_ms);
                },
                Message::HeartbeatAck { sender_id, .. } => {
                    lemma_touch_keeps_ids(s.peers, sender_id, t.mono_ms);
                },
                _ => {},
            }
        },
        Event::HeartbeatTick => {
            law_successor_is_highest_alive(s.peers, t.mono_ms);
        },
        Event::LivenessTick => {
            lemma_rounds_within(NodeView { leader: None, ..s }, top, t);
        },
        _ => {},
    }
}

/// The rounds of an election keep to the ids that the node holds.
proof fn lemma_rounds_within(s: NodeView, top: u32, t: Moment)
    requires
        ids_within(s, top),
    ensures
        ids_within(become_leader(s, t).state, top),
        sends_within(become_leader(s, t).actions, top),
        ids_within(classic_round(s, t).state, top),
        sends_within(classic_round(s, t).actions, top),
        ids_within(start_election(s, t).state, top),
        sends_within(start_election(s, t).actions, top),
{
    lemma_forget_keeps_ids(s.peers);
    let challenge = Message::Election { sender_id: s.id, timestamp: t.unix_secs };
    lemma_challenges_within(s.peers, s.id, challenge, top);
    let c = NodeView { role: contender(s.role), ..s };
    lemma_forget_keeps_ids(c.peers);
}

/// The challenges of the classic round go to peers only.
proof fn lemma_challenges_within(peers: Seq<Peer>, id: u32, msg: Message, top: u32)
    requires
        forall|i: int| 0 <= i < peers.len() ==> (#[trigger] peers[i]).id <= top,
        names_within(msg, top),
    ensures
        sends_within(sends_to_higher(peers, id, msg), top),
    decreases peers.len(),
{
    reveal_with_fuel(Seq::filter_map, 2);
    if peers.len() > 0 {
        let shorter = peers.drop_last();
        assert(forall|i: int| 0 <= i < shorter.len() ==> shorter[i] == peers[i]);
        lemma_challenges_within(shorter, id, msg, top);
        assert(peers[peers.len() - 1].id <= top);
    }
}

} // verus!
