use cloud_node::config::{Config, NodeInfo};
use cloud_node::message::Message;
use cloud_node::node::Node;
use cloud_node::state::{Action, ElectionPhase, Event, Peer, Role, StatusReport, Timer};
use cloud_node::timing::Moment;

fn cluster(ids: &[u32]) -> Config {
    Config {
        nodes: ids
            .iter()
            .map(|id| NodeInfo { id: *id, address: format!("127.0.0.1:{}", 8080 + id) })
            .collect(),
    }
}

fn node(id: u32) -> Node {
    Node::new(id, cluster(&[0, 1, 2])).unwrap()
}

fn at(mono_ms: u64) -> Moment {
    Moment { mono_ms, unix_secs: 1_700_000_000 + mono_ms / 1000 }
}

fn coordinator(leader_id: u32, t: Moment) -> Message {
    Message::Coordinator { leader_id, timestamp: t.unix_secs }
}

fn send(to: u32, msg: Message) -> Action {
    Action::Send { to, msg }
}

#[test]
fn become_leader_announces_to_every_peer() {
    let mut n = node(1);
    n.handle_message(Message::Discovery { sender_id: 0, timestamp: 1 }, at(50));
    let t = at(100);
    let actions = n.become_leader(t);
    assert_eq!(actions, vec![send(0, coordinator(1, t)), send(2, coordinator(1, t))]);
    assert_eq!(n.role(), Role::Leader);
    assert_eq!(n.current_leader(), Some(1));
    assert_eq!(n.successor(), None);
    assert_eq!(n.last_heartbeat(), 100);
    assert!(!n.election_in_progress());
    assert_eq!(n.peers(), vec![Peer { id: 0, last_seen: None }, Peer { id: 2, last_seen: None }]);
}

#[test]
fn election_without_higher_peers_is_won_at_once() {
    let mut n = node(2);
    let t = at(2000);
    let actions = n.start_election(t);
    assert_eq!(actions, vec![send(0, coordinator(2, t)), send(1, coordinator(2, t))]);
    assert_eq!(n.role(), Role::Leader);
    assert_eq!(n.current_leader(), Some(2));
    assert_eq!(n.election(), ElectionPhase::Idle);
}

#[test]
fn election_challenges_every_higher_peer() {
    let mut n = node(0);
    let t = at(2000);
    let actions = n.start_election(t);
    let election = Message::Election { sender_id: 0, timestamp: t.unix_secs };
    assert_eq!(
        actions,
        vec![
            send(1, election),
            send(2, election),
            Action::StartTimer { timer: Timer::ElectionWait, deadline: 3500 },
        ]
    );
    assert_eq!(n.role(), Role::Candidate);
    assert_eq!(n.election(), ElectionPhase::AwaitHigher { deadline: 3500 });
    assert!(n.election_in_progress());
    assert_eq!(n.current_leader(), None);
}

#[test]
fn election_is_not_reentrant() {
    let mut n = node(0);
    n.start_election(at(2000));
    let again = n.start_election(at(2100));
    assert_eq!(again, vec![]);
    assert_eq!(n.election(), ElectionPhase::AwaitHigher { deadline: 3500 });
    assert_eq!(n.role(), Role::Candidate);
}

#[test]
fn election_asks_a_higher_successor_first() {
    let mut n = node(0);
    n.handle_message(coordinator(2, at(10)), at(10));
    n.handle_message(
        Message::Heartbeat { leader_id: 2, successor_id: Some(1), timestamp: 0 },
        at(20),
    );
    assert_eq!(n.successor(), Some(1));
    let t = at(9000);
    let actions = n.start_election(t);
    assert_eq!(
        actions,
        vec![
            send(1, Message::Election { sender_id: 0, timestamp: t.unix_secs }),
            Action::StartTimer { timer: Timer::ElectionWait, deadline: 9800 },
        ]
    );
    assert_eq!(n.election(), ElectionPhase::AwaitSuccessor { deadline: 9800 });
    assert_eq!(n.role(), Role::Candidate);
}

#[test]
fn designated_successor_takes_the_lead_directly() {
    let mut n = node(1);
    n.handle_message(coordinator(2, at(10)), at(10));
    n.handle_message(
        Message::Heartbeat { leader_id: 2, successor_id: Some(1), timestamp: 0 },
        at(20),
    );
    assert_eq!(n.successor(), Some(1));
    let t = at(9000);
    let actions = n.start_election(t);
    assert_eq!(actions, vec![send(0, coordinator(1, t)), send(2, coordinator(1, t))]);
    assert_eq!(n.role(), Role::Leader);
    assert_eq!(n.current_leader(), Some(1));
    assert_eq!(n.successor(), None);
}

#[test]
fn lower_successor_hint_gives_the_classic_round() {
    let mut n = node(1);
    n.handle_message(coordinator(2, at(10)), at(10));
    n.handle_message(
        Message::Heartbeat { leader_id: 2, successor_id: Some(0), timestamp: 0 },
        at(20),
    );
    let t = at(9000);
    let actions = n.start_election(t);
    assert_eq!(
        actions,
        vec![
            send(2, Message::Election { sender_id: 1, timestamp: t.unix_secs }),
            Action::StartTimer { timer: Timer::ElectionWait, deadline: 10500 },
        ]
    );
}

#[test]
fn election_deadline_is_capped() {
    let mut n = node(0);
    let actions = n.start_election(at(u64::MAX - 5));
    assert_eq!(
        actions[2],
        Action::StartTimer { timer: Timer::ElectionWait, deadline: u64::MAX }
    );
}

#[test]
fn discovery_is_answered_by_the_leader_only() {
    let mut follower = node(1);
    let t = at(300);
    let probe = Message::Discovery { sender_id: 0, timestamp: 5 };
    assert_eq!(follower.handle_message(probe, t), vec![]);
    assert_eq!(
        follower.peers(),
        vec![Peer { id: 0, last_seen: Some(300) }, Peer { id: 2, last_seen: None }]
    );

    let mut leader = node(2);
    leader.become_leader(at(100));
    assert_eq!(
        leader.handle_message(probe, t),
        vec![send(0, Message::LeaderAnnounce { leader_id: 2, timestamp: t.unix_secs })]
    );
    assert_eq!(
        leader.peers(),
        vec![Peer { id: 0, last_seen: Some(300) }, Peer { id: 1, last_seen: None }]
    );
}

#[test]
fn discovery_from_a_stranger_leaves_the_peers_alone() {
    let mut n = node(1);
    n.handle_message(Message::Discovery { sender_id: 9, timestamp: 5 }, at(300));
    assert_eq!(n.peers(), vec![Peer { id: 0, last_seen: None }, Peer { id: 2, last_seen: None }]);
}

#[test]
fn leader_announce_is_taken_when_it_raises_the_leader() {
    let mut n = node(0);
    assert_eq!(
        n.handle_message(Message::LeaderAnnounce { leader_id: 1, timestamp: 0 }, at(100)),
        vec![]
    );
    assert_eq!(n.current_leader(), Some(1));
    assert_eq!(n.last_heartbeat(), 100);
    n.handle_message(Message::LeaderAnnounce { leader_id: 1, timestamp: 0 }, at(200));
    assert_eq!(n.last_heartbeat(), 100);
    n.handle_message(Message::LeaderAnnounce { leader_id: 0, timestamp: 0 }, at(300));
    assert_eq!(n.current_leader(), Some(1));
    n.handle_message(Message::LeaderAnnounce { leader_id: 2, timestamp: 0 }, at(400));
    assert_eq!(n.current_leader(), Some(2));
    assert_eq!(n.last_heartbeat(), 400);
    assert_eq!(n.role(), Role::Follower);
}

#[test]
fn leader_announce_demotes_a_lower_leader() {
    let mut n = node(1);
    n.become_leader(at(100));
    n.handle_message(Message::LeaderAnnounce { leader_id: 2, timestamp: 0 }, at(200));
    assert_eq!(n.role(), Role::Follower);
    assert_eq!(n.current_leader(), Some(2));
}

#[test]
fn election_from_a_lower_node_is_answered_and_taken_up() {
    let mut n = node(1);
    let t = at(500);
    let actions = n.handle_message(Message::Election { sender_id: 0, timestamp: 3 }, t);
    assert_eq!(
        actions,
        vec![
            send(0, Message::ElectionOk { sender_id: 1, timestamp: t.unix_secs }),
            send(2, Message::Election { sender_id: 1, timestamp: t.unix_secs }),
            Action::StartTimer { timer: Timer::ElectionWait, deadline: 2000 },
        ]
    );
    assert_eq!(n.role(), Role::Candidate);
    assert_eq!(n.peers()[0], Peer { id: 0, last_seen: Some(500) });
    // A second challenge is answered, but starts nothing new.
    let again = n.handle_message(Message::Election { sender_id: 0, timestamp: 3 }, at(600));
    assert_eq!(
        again,
        vec![send(0, Message::ElectionOk { sender_id: 1, timestamp: at(600).unix_secs })]
    );
    assert_eq!(n.election(), ElectionPhase::AwaitHigher { deadline: 2000 });
}

#[test]
fn election_from_a_lower_node_makes_the_highest_node_leader() {
    let mut n = node(2);
    let t = at(500);
    let actions = n.handle_message(Message::Election { sender_id: 1, timestamp: 3 }, t);
    assert_eq!(
        actions,
        vec![
            send(1, Message::ElectionOk { sender_id: 2, timestamp: t.unix_secs }),
            send(0, coordinator(2, t)),
            send(1, coordinator(2, t)),
        ]
    );
    assert_eq!(n.role(), Role::Leader);
}

#[test]
fn election_from_an_equal_or_higher_node_is_ignored() {
    let mut n = node(1);
    assert_eq!(n.handle_message(Message::Election { sender_id: 1, timestamp: 3 }, at(500)), vec![]);
    assert_eq!(n.handle_message(Message::Election { sender_id: 2, timestamp: 3 }, at(500)), vec![]);
    assert_eq!(n.role(), Role::Follower);
    assert!(!n.election_in_progress());
    assert_eq!(n.peers(), vec![Peer { id: 0, last_seen: None }, Peer { id: 2, last_seen: None }]);
}

#[test]
fn leader_challenged_from_below_stays_leader() {
    let mut n = node(1);
    n.become_leader(at(100));
    let t = at(500);
    let actions = n.handle_message(Message::Election { sender_id: 0, timestamp: 3 }, t);
    assert_eq!(
        actions,
        vec![
            send(0, Message::ElectionOk { sender_id: 1, timestamp: t.unix_secs }),
            send(2, Message::Election { sender_id: 1, timestamp: t.unix_secs }),
            Action::StartTimer { timer: Timer::ElectionWait, deadline: 2000 },
        ]
    );
    assert_eq!(n.role(), Role::Leader);
    assert_eq!(n.current_leader(), Some(1));
    // No higher node answers: the leader announces itself again.
    let t2 = at(2000);
    let actions = n.election_wait_expired(t2);
    assert_eq!(actions, vec![send(0, coordinator(1, t2)), send(2, coordinator(1, t2))]);
    assert_eq!(n.role(), Role::Leader);
    assert!(!n.election_in_progress());
}

#[test]
fn candidate_stands_down_before_a_higher_node() {
    let mut n = node(1);
    n.start_election(at(100));
    assert_eq!(n.role(), Role::Candidate);
    assert_eq!(n.handle_message(Message::ElectionOk { sender_id: 0, timestamp: 0 }, at(200)), vec![]);
    assert_eq!(n.role(), Role::Candidate);
    assert_eq!(n.handle_message(Message::ElectionOk { sender_id: 1, timestamp: 0 }, at(200)), vec![]);
    assert_eq!(n.role(), Role::Candidate);
    assert_eq!(n.handle_message(Message::ElectionOk { sender_id: 2, timestamp: 0 }, at(200)), vec![]);
    assert_eq!(n.role(), Role::Follower);
    assert!(n.election_in_progress());
}

#[test]
fn election_ok_does_not_touch_a_leader_or_a_follower() {
    let mut leader = node(1);
    leader.become_leader(at(100));
    leader.handle_message(Message::ElectionOk { sender_id: 2, timestamp: 0 }, at(200));
    assert_eq!(leader.role(), Role::Leader);
    let mut follower = node(1);
    follower.handle_message(Message::ElectionOk { sender_id: 2, timestamp: 0 }, at(200));
    assert_eq!(follower.role(), Role::Follower);
}

#[test]
fn coordinator_is_accepted_without_a_leader() {
    let mut n = node(2);
    assert_eq!(n.handle_message(coordinator(1, at(100)), at(100)), vec![]);
    assert_eq!(n.current_leader(), Some(1));
    assert_eq!(n.role(), Role::Follower);
    assert_eq!(n.last_heartbeat(), 100);
}

#[test]
fn coordinator_with_a_lower_id_is_ignored_once_a_leader_is_known() {
    let mut n = node(0);
    n.handle_message(coordinator(2, at(100)), at(100));
    n.handle_message(coordinator(1, at(200)), at(200));
    assert_eq!(n.current_leader(), Some(2));
    assert_eq!(n.last_heartbeat(), 100);
}

#[test]
fn coordinator_with_a_higher_id_supersedes() {
    let mut n = node(0);
    n.handle_message(coordinator(1, at(100)), at(100));
    n.handle_message(coordinator(2, at(200)), at(200));
    assert_eq!(n.current_leader(), Some(2));
    assert_eq!(n.last_heartbeat(), 200);
}

#[test]
fn coordinator_ends_an_election() {
    let mut n = node(0);
    n.start_election(at(100));
    assert!(n.election_in_progress());
    n.handle_message(coordinator(2, at(200)), at(200));
    assert!(!n.election_in_progress());
    assert_eq!(n.role(), Role::Follower);
    // The wait that was started has nothing left to do.
    assert_eq!(n.election_wait_expired(at(1600)), vec![]);
    assert_eq!(n.role(), Role::Follower);
    assert_eq!(n.current_leader(), Some(2));
}

#[test]
fn coordinator_demotes_a_lower_leader() {
    let mut n = node(1);
    n.become_leader(at(100));
    n.handle_message(coordinator(0, at(200)), at(200));
    assert_eq!(n.role(), Role::Leader);
    assert_eq!(n.current_leader(), Some(1));
    n.handle_message(coordinator(2, at(300)), at(300));
    assert_eq!(n.role(), Role::Follower);
    assert_eq!(n.current_leader(), Some(2));
}

#[test]
fn coordinator_naming_the_node_itself_keeps_its_role() {
    let mut leader = node(1);
    leader.become_leader(at(100));
    leader.handle_message(coordinator(1, at(300)), at(300));
    assert_eq!(leader.role(), Role::Leader);
    assert_eq!(leader.last_heartbeat(), 300);
    let mut follower = node(1);
    follower.handle_message(coordinator(1, at(300)), at(300));
    assert_eq!(follower.role(), Role::Follower);
    assert_eq!(follower.current_leader(), Some(1));
}

#[test]
fn coordinator_drops_a_hint_that_names_the_new_leader() {
    let mut n = node(0);
    n.handle_message(coordinator(2, at(10)), at(10));
    n.handle_message(
        Message::Heartbeat { leader_id: 2, successor_id: Some(1), timestamp: 0 },
        at(20),
    );
    assert_eq!(n.successor(), Some(1));
    n.monitor_leader(at(6000));
    n.handle_message(coordinator(1, at(6100)), at(6100));
    assert_eq!(n.current_leader(), Some(1));
    assert_eq!(n.successor(), None);
}

#[test]
fn heartbeat_from_the_leader_is_noted_and_acknowledged() {
    let mut n = node(0);
    n.handle_message(coordinator(2, at(10)), at(10));
    let t = at(2010);
    let actions = n.handle_message(
        Message::Heartbeat { leader_id: 2, successor_id: Some(1), timestamp: 77 },
        t,
    );
    assert_eq!(actions, vec![send(2, Message::HeartbeatAck { sender_id: 0, timestamp: t.unix_secs })]);
    assert_eq!(n.last_heartbeat(), 2010);
    assert_eq!(n.successor(), Some(1));
    n.handle_message(Message::Heartbeat { leader_id: 2, successor_id: None, timestamp: 77 }, at(4010));
    assert_eq!(n.successor(), None);
    assert_eq!(n.last_heartbeat(), 4010);
}

#[test]
fn heartbeat_from_anyone_else_is_ignored() {
    let mut n = node(0);
    let beat = Message::Heartbeat { leader_id: 1, successor_id: Some(0), timestamp: 77 };
    assert_eq!(n.handle_message(beat, at(500)), vec![]);
    assert_eq!(n.last_heartbeat(), 0);
    n.handle_message(coordinator(2, at(600)), at(600));
    assert_eq!(n.handle_message(beat, at(700)), vec![]);
    assert_eq!(n.last_heartbeat(), 600);
    assert_eq!(n.successor(), None);
}

#[test]
fn heartbeat_never_names_the_leader_as_successor() {
    let mut n = node(0);
    n.handle_message(coordinator(2, at(10)), at(10));
    n.handle_message(
        Message::Heartbeat { leader_id: 2, successor_id: Some(2), timestamp: 77 },
        at(20),
    );
    assert_eq!(n.successor(), None);
    assert_eq!(n.last_heartbeat(), 20);
}

#[test]
fn leader_ignores_heartbeats() {
    let mut n = node(1);
    n.become_leader(at(100));
    let beat = Message::Heartbeat { leader_id: 1, successor_id: Some(0), timestamp: 77 };
    assert_eq!(n.handle_message(beat, at(500)), vec![]);
    assert_eq!(n.successor(), None);
    assert_eq!(n.last_heartbeat(), 100);
}

#[test]
fn acknowledgements_are_counted_by_the_leader_only() {
    let mut follower = node(1);
    follower.handle_message(Message::HeartbeatAck { sender_id: 0, timestamp: 0 }, at(100));
    assert_eq!(follower.peers()[0], Peer { id: 0, last_seen: None });
    let mut leader = node(1);
    leader.become_leader(at(100));
    assert_eq!(leader.handle_message(Message::HeartbeatAck { sender_id: 0, timestamp: 0 }, at(200)), vec![]);
    assert_eq!(
        leader.peers(),
        vec![Peer { id: 0, last_seen: Some(200) }, Peer { id: 2, last_seen: None }]
    );
}

#[test]
fn heartbeats_name_the_highest_peer_alive() {
    let mut n = Node::new(5, cluster(&[1, 9, 5, 3, 7])).unwrap();
    n.become_leader(at(0));
    let t = at(2000);
    let beat = |successor_id| Message::Heartbeat { leader_id: 5, successor_id, timestamp: t.unix_secs };
    assert_eq!(
        n.send_heartbeats(t),
        vec![send(1, beat(None)), send(9, beat(None)), send(3, beat(None)), send(7, beat(None))]
    );
    assert_eq!(n.successor(), None);
    n.handle_message(Message::HeartbeatAck { sender_id: 3, timestamp: 0 }, at(2100));
    n.handle_message(Message::HeartbeatAck { sender_id: 7, timestamp: 0 }, at(2200));
    n.handle_message(Message::HeartbeatAck { sender_id: 1, timestamp: 0 }, at(2300));
    let t = at(4000);
    let beat = |successor_id| Message::Heartbeat { leader_id: 5, successor_id, timestamp: t.unix_secs };
    assert_eq!(
        n.send_heartbeats(t),
        vec![
            send(1, beat(Some(7))),
            send(9, beat(Some(7))),
            send(3, beat(Some(7))),
            send(7, beat(Some(7))),
        ]
    );
    assert_eq!(n.successor(), Some(7));
    assert_eq!(n.calculate_successor(4000), Some(7));
}

#[test]
fn peers_not_heard_of_for_two_periods_are_not_alive() {
    let mut n = node(2);
    n.become_leader(at(0));
    n.handle_message(Message::HeartbeatAck { sender_id: 1, timestamp: 0 }, at(1000));
    n.handle_message(Message::HeartbeatAck { sender_id: 0, timestamp: 0 }, at(3000));
    assert_eq!(n.calculate_successor(3000), Some(1));
    assert_eq!(n.calculate_successor(5000), Some(1));
    assert_eq!(n.calculate_successor(5001), Some(0));
    assert_eq!(n.calculate_successor(7000), Some(0));
    assert_eq!(n.calculate_successor(7001), None);
    // A clock that reads earlier than the sign of life counts as no time passed.
    assert_eq!(n.calculate_successor(500), Some(1));
    n.send_heartbeats(at(7001));
    assert_eq!(n.successor(), None);
}

#[test]
fn followers_send_no_heartbeats() {
    let mut n = node(1);
    assert_eq!(n.send_heartbeats(at(2000)), vec![]);
    n.start_election(at(2000));
    assert_eq!(n.send_heartbeats(at(2500)), vec![]);
}

#[test]
fn silence_beyond_the_timeout_starts_an_election() {
    let mut n = node(1);
    n.handle_message(coordinator(2, at(1000)), at(1000));
    assert!(!n.suspects_leader(6000));
    assert_eq!(n.monitor_leader(at(6000)), vec![]);
    assert_eq!(n.current_leader(), Some(2));
    assert!(n.suspects_leader(6001));
    let t = at(6001);
    let actions = n.monitor_leader(t);
    assert_eq!(
        actions,
        vec![
            send(2, Message::Election { sender_id: 1, timestamp: t.unix_secs }),
            Action::StartTimer { timer: Timer::ElectionWait, deadline: 7501 },
        ]
    );
    assert_eq!(n.current_leader(), None);
    assert_eq!(n.role(), Role::Candidate);
    // While the election runs, the check finds nothing more to do.
    assert!(!n.suspects_leader(7000));
    assert_eq!(n.monitor_leader(at(7000)), vec![]);
}

#[test]
fn leader_is_never_suspected_by_itself() {
    let mut n = node(2);
    n.become_leader(at(0));
    assert!(!n.suspects_leader(1_000_000));
    assert_eq!(n.monitor_leader(at(1_000_000)), vec![]);
    assert_eq!(n.role(), Role::Leader);
}

#[test]
fn higher_node_challenges_a_lower_leader() {
    let mut n = node(2);
    n.handle_message(Message::LeaderAnnounce { leader_id: 1, timestamp: 0 }, at(100));
    assert_eq!(n.current_leader(), Some(1));
    assert!(n.suspects_leader(1000));
    let t = at(1000);
    let actions = n.monitor_leader(t);
    assert_eq!(actions, vec![send(0, coordinator(2, t)), send(1, coordinator(2, t))]);
    assert_eq!(n.role(), Role::Leader);
    assert_eq!(n.current_leader(), Some(2));
}

#[test]
fn lower_node_does_not_challenge_a_live_higher_leader() {
    let mut n = node(0);
    n.handle_message(coordinator(1, at(100)), at(100));
    assert!(!n.suspects_leader(1000));
    assert_eq!(n.monitor_leader(at(1000)), vec![]);
}

#[test]
fn election_wait_before_its_deadline_changes_nothing() {
    let mut n = node(1);
    n.start_election(at(1000));
    assert_eq!(n.election_wait_expired(at(2499)), vec![]);
    assert_eq!(n.election(), ElectionPhase::AwaitHigher { deadline: 2500 });
    assert_eq!(n.role(), Role::Candidate);
}

#[test]
fn election_without_a_reply_is_won() {
    let mut n = node(1);
    n.start_election(at(1000));
    let t = at(2500);
    let actions = n.election_wait_expired(t);
    assert_eq!(actions, vec![send(0, coordinator(1, t)), send(2, coordinator(1, t))]);
    assert_eq!(n.role(), Role::Leader);
    assert_eq!(n.current_leader(), Some(1));
    assert_eq!(n.successor(), None);
    assert!(!n.election_in_progress());
    assert_eq!(n.last_heartbeat(), 2500);
}

#[test]
fn election_with_a_reply_is_given_up() {
    let mut n = node(1);
    n.start_election(at(1000));
    n.handle_message(Message::ElectionOk { sender_id: 2, timestamp: 0 }, at(1100));
    assert_eq!(n.election_wait_expired(at(2500)), vec![]);
    assert_eq!(n.role(), Role::Follower);
    assert_eq!(n.current_leader(), None);
    assert!(!n.election_in_progress());
}

#[test]
fn silent_successor_leads_to_the_classic_round() {
    let mut n = node(0);
    n.handle_message(coordinator(2, at(10)), at(10));
    n.handle_message(
        Message::Heartbeat { leader_id: 2, successor_id: Some(1), timestamp: 0 },
        at(20),
    );
    n.monitor_leader(at(6000));
    assert_eq!(n.election(), ElectionPhase::AwaitSuccessor { deadline: 6800 });
    assert_eq!(n.election_wait_expired(at(6799)), vec![]);
    let t = at(6800);
    let actions = n.election_wait_expired(t);
    let election = Message::Election { sender_id: 0, timestamp: t.unix_secs };
    assert_eq!(
        actions,
        vec![
            send(1, election),
            send(2, election),
            Action::StartTimer { timer: Timer::ElectionWait, deadline: 8300 },
        ]
    );
    assert_eq!(n.election(), ElectionPhase::AwaitHigher { deadline: 8300 });
    let t = at(8300);
    assert_eq!(
        n.election_wait_expired(t),
        vec![send(1, coordinator(0, t)), send(2, coordinator(0, t))]
    );
    assert_eq!(n.role(), Role::Leader);
}

#[test]
fn successor_that_answers_ends_the_short_round() {
    let mut n = node(0);
    n.handle_message(coordinator(2, at(10)), at(10));
    n.handle_message(
        Message::Heartbeat { leader_id: 2, successor_id: Some(1), timestamp: 0 },
        at(20),
    );
    n.monitor_leader(at(6000));
    n.handle_message(Message::ElectionOk { sender_id: 1, timestamp: 0 }, at(6100));
    assert_eq!(n.role(), Role::Follower);
    assert_eq!(n.election_wait_expired(at(6800)), vec![]);
    assert!(!n.election_in_progress());
}

#[test]
fn election_wait_without_an_election_changes_nothing() {
    let mut n = node(1);
    assert_eq!(n.election_wait_expired(at(5000)), vec![]);
    assert_eq!(n.role(), Role::Follower);
}

#[test]
fn startup_probes_every_peer() {
    let mut n = node(1);
    let t = at(500);
    let probe = Message::Discovery { sender_id: 1, timestamp: t.unix_secs };
    assert_eq!(
        n.discover_cluster(t),
        vec![
            send(0, probe),
            send(2, probe),
            Action::StartTimer { timer: Timer::Discovery, deadline: 2500 },
        ]
    );
    assert_eq!(n.last_heartbeat(), 500);
    assert_eq!(n.role(), Role::Follower);
}

#[test]
fn discovery_without_an_answer_starts_an_election() {
    let mut n = node(1);
    n.discover_cluster(at(500));
    let t = at(2500);
    assert_eq!(
        n.discovery_expired(t),
        vec![
            send(2, Message::Election { sender_id: 1, timestamp: t.unix_secs }),
            Action::StartTimer { timer: Timer::ElectionWait, deadline: 4000 },
        ]
    );
}

#[test]
fn discovery_with_an_answer_starts_nothing() {
    let mut n = node(1);
    n.discover_cluster(at(500));
    n.handle_message(Message::LeaderAnnounce { leader_id: 2, timestamp: 0 }, at(600));
    assert_eq!(n.discovery_expired(at(2500)), vec![]);
    assert_eq!(n.role(), Role::Follower);
    assert_eq!(n.current_leader(), Some(2));
}

#[test]
fn events_are_dispatched_to_their_handlers() {
    let t = at(7000);
    let mut by_event = node(1);
    let mut by_call = node(1);
    assert_eq!(
        by_event.handle_event(Event::Received { msg: coordinator(2, t) }, t),
        by_call.handle_message(coordinator(2, t), t)
    );
    assert_eq!(by_event.current_leader(), Some(2));
    let t = at(20000);
    assert_eq!(by_event.handle_event(Event::LivenessTick, t), by_call.monitor_leader(t));
    assert!(by_event.election_in_progress());
    let t = at(21500);
    assert_eq!(
        by_event.handle_event(Event::ElectionWaitExpired, t),
        by_call.election_wait_expired(t)
    );
    assert_eq!(by_event.role(), Role::Leader);
    let t = at(22000);
    assert_eq!(by_event.handle_event(Event::HeartbeatTick, t), by_call.send_heartbeats(t));
    let mut fresh_event = node(0);
    let mut fresh_call = node(0);
    assert_eq!(
        fresh_event.handle_event(Event::DiscoveryExpired, t),
        fresh_call.discovery_expired(t)
    );
    assert_eq!(fresh_event.election(), fresh_call.election());
    assert_eq!(by_event.peers(), by_call.peers());
}

#[test]
fn status_of_a_follower_shows_the_hint() {
    let mut n = node(0);
    n.handle_message(coordinator(2, at(1000)), at(1000));
    n.handle_message(
        Message::Heartbeat { leader_id: 2, successor_id: Some(1), timestamp: 0 },
        at(3000),
    );
    assert_eq!(
        n.report_status(4500),
        StatusReport {
            id: 0,
            role: Role::Follower,
            leader: Some(2),
            successor: Some(1),
            seen_peers: None,
            since_heartbeat_ms: 1500,
        }
    );
}

#[test]
fn status_of_a_leader_shows_what_it_computes() {
    let mut n = node(2);
    n.become_leader(at(1000));
    assert_eq!(
        n.report_status(1500),
        StatusReport {
            id: 2,
            role: Role::Leader,
            leader: Some(2),
            successor: None,
            seen_peers: Some(0),
            since_heartbeat_ms: 500,
        }
    );
    n.handle_message(Message::HeartbeatAck { sender_id: 0, timestamp: 0 }, at(2000));
    n.handle_message(Message::HeartbeatAck { sender_id: 1, timestamp: 0 }, at(2100));
    assert_eq!(
        n.report_status(3000),
        StatusReport {
            id: 2,
            role: Role::Leader,
            leader: Some(2),
            successor: Some(1),
            seen_peers: Some(2),
            since_heartbeat_ms: 2000,
        }
    );
    // Peers that fell silent are still counted as seen, but are no successor.
    assert_eq!(n.report_status(60_000).successor, None);
    assert_eq!(n.report_status(60_000).seen_peers, Some(2));
}

#[test]
fn duplicate_delivery_changes_nothing_more() {
    let t = at(3000);
    let messages = [
        Message::Discovery { sender_id: 0, timestamp: 1 },
        Message::LeaderAnnounce { leader_id: 2, timestamp: 1 },
        Message::ElectionOk { sender_id: 2, timestamp: 1 },
        coordinator(2, t),
        Message::Heartbeat { leader_id: 2, successor_id: Some(0), timestamp: 1 },
        Message::HeartbeatAck { sender_id: 0, timestamp: 1 },
    ];
    let prepared: Vec<fn(&mut Node)> = vec![
        |_| {},
        |n| {
            n.start_election(at(100));
        },
        |n| {
            n.become_leader(at(100));
        },
        |n| {
            n.handle_message(coordinator(2, at(100)), at(100));
        },
    ];
    for prepare in prepared {
        for msg in messages {
            let mut n = node(1);
            prepare(&mut n);
            n.handle_message(msg, t);
            let once = (
                n.role(),
                n.current_leader(),
                n.successor(),
                n.election(),
                n.last_heartbeat(),
                n.peers(),
            );
            n.handle_message(msg, t);
            let twice = (
                n.role(),
                n.current_leader(),
                n.successor(),
                n.election(),
                n.last_heartbeat(),
                n.peers(),
            );
            assert_eq!(once, twice);
        }
    }
}

#[test]
fn nodes_name_only_ids_of_their_cluster() {
    let mut n = Node::new(3, cluster(&[1, 3, 5, 7])).unwrap();
    let mut all: Vec<Action> = Vec::new();
    all.extend(n.discover_cluster(at(0)));
    all.extend(n.handle_message(Message::Election { sender_id: 1, timestamp: 0 }, at(10)));
    all.extend(n.election_wait_expired(at(1510)));
    all.extend(n.handle_message(Message::HeartbeatAck { sender_id: 1, timestamp: 0 }, at(1600)));
    all.extend(n.send_heartbeats(at(2000)));
    all.extend(n.handle_message(Message::Discovery { sender_id: 7, timestamp: 0 }, at(2100)));
    all.extend(n.handle_message(coordinator(7, at(2200)), at(2200)));
    all.extend(n.handle_message(
        Message::Heartbeat { leader_id: 7, successor_id: Some(5), timestamp: 0 },
        at(2300),
    ));
    assert!(!all.is_empty());
    for action in all {
        if let Action::Send { to, msg } = action {
            assert!(to <= 7);
            assert!(msg.origin() <= 7);
            if let Message::Heartbeat { successor_id: Some(next), .. } = msg {
                assert!(next <= 7);
            }
        }
    }
    assert_eq!(n.current_leader(), Some(7));
    assert_eq!(n.successor(), Some(5));
}
