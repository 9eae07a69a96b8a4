//! What a node knows of its connections: where it listens, which peers it
//! is connected to, whom it dials and whose connections it accepts.
//!
//! Between two nodes the one with the lower id dials and the one with the
//! higher id accepts, so that each pair ends up with one connection.

use crate::message::Message;
use crate::state::Action;
use vstd::prelude::*;

verus! {

/// The address a node listens on.
#[derive(Clone, Debug)]
pub struct NetworkLayer {
    listen_addr: String,
}

impl View for NetworkLayer {
    type V = Seq<char>;

    closed spec fn view(&self) -> Seq<char> {
        self.listen_addr@
    }
}

impl NetworkLayer {
    /// A network layer that listens on `listen_addr`.
    pub fn new(listen_addr: String) -> (net: Self)
        ensures
            net@ == listen_addr@,
    {
        Self { listen_addr }
    }

    /// The address this layer listens on.
    pub fn listen_addr(&self) -> (addr: &str)
        ensures
            addr@ == self@,
    {
        self.listen_addr.as_str()
    }
}

/// The state of the connection to one peer.
#[derive(Clone, Copy, PartialEq, Eq, Debug)]
pub struct Link {
    pub peer: u32,
    pub connected: bool,
}

/// The connection bookkeeping of a node as a mathematical value.
#[verifier::ext_equal]
pub struct LinksView {
    pub self_id: u32,
    /// One link per peer, in configuration order.
    pub links: Seq<Link>,
}

/// Whether the node `self_id` is the one that dials `peer`.
pub open spec fn dials(self_id: u32, peer: u32) -> bool {
    peer > self_id
}

/// `peer` has a link.
pub open spec fn has_link(links: Seq<Link>, peer: u32) -> bool {
    exists|i: int| 0 <= i < links.len() && (#[trigger] links[i]).peer == peer
}

/// `peer` has a link that is connected.
pub open spec fn connected_to(links: Seq<Link>, peer: u32) -> bool {
    exists|i: int| 0 <= i < links.len() && (#[trigger] links[i]).peer == peer && links[i].connected
}

/// The links with that of `peer` set to `up`.
pub open spec fn with_link(links: Seq<Link>, peer: u32, up: bool) -> Seq<Link> {
    links.map_values(
        |l: Link|
            if l.peer == peer {
                Link { peer: l.peer, connected: up }
            } else {
                l
            },
    )
}

/// The peers to dial: those with a higher id that are not connected, in configuration order.
pub open spec fn to_dial(v: LinksView) -> Seq<u32> {
    v.links.filter_map(
        |l: Link|
            if dials(v.self_id, l.peer) && !l.connected {
                Some(l.peer)
            } else {
                None
            },
    )
}

/// Whether a connection that `from` opened is taken: `from` must be a
/// peer, and either has no connection yet or is the side that dials.
pub open spec fn takes_inbound(v: LinksView, from: u32) -> bool {
    has_link(v.links, from) && (!connected_to(v.links, from) || dials(from, v.self_id))
}

/// Of two different nodes exactly one dials the other, so each pair gets one connection.
pub proof fn law_one_dialer_per_pair(a: u32, b: u32)
    requires
        a != b,
    ensures
        dials(a, b) != dials(b, a),
        !dials(a, a),
{
}

/// Why a message cannot be handed to the transport.
#[derive(Clone, Copy, PartialEq, Eq, Debug)]
pub enum TransportError {
    /// There is no connection to the peer.
    Disconnected,
}

/// One copy of `msg` for every connected peer, in configuration order.
pub open spec fn reachable_sends(links: Seq<Link>, msg: Message) -> Seq<Action> {
    links.filter_map(
        |l: Link|
            if l.connected {
                Some(Action::Send { to: l.peer, msg })
            } else {
                None
            },
    )
}

/// Whether `self_id` is the one that dials `peer`.
pub fn should_dial(self_id: u32, peer: u32) -> (dial: bool)
    ensures
        dial == dials(self_id, peer),
{
    peer > self_id
}

/// The connection bookkeeping of a node.
pub struct PeerManager {
    self_id: u32,
    links: Vec<Link>,
}

impl View for PeerManager {
    type V = LinksView;

    closed spec fn view(&self) -> LinksView {
        LinksView { self_id: self.self_id, links: self.links@ }
    }
}

impl PeerManager {
    /// Bookkeeping for the node `self_id` with the peers `peer_ids`, none of them connected.
    pub fn new(self_id: u32, peer_ids: &Vec<u32>) -> (made: Self)
        ensures
            made@.self_id == self_id,
            made@.links == peer_ids@.map_values(|id: u32| Link { peer: id, connected: false }),
    {
        let mut links: Vec<Link> = Vec::new();
        let n = peer_ids.len();
        let mut i: usize = 0;
        while i < n
            invariant
                i <= n,
                n == peer_ids@.len(),
                links@.len() == i,
                forall|j: int|
                    0 <= j < i ==> links@[j] == (Link { peer: peer_ids@[j], connected: false }),
            decreases n - i,
        {
            links.push(Link { peer: peer_ids[i], connected: false });
            i += 1;
        }
        assert(links@ =~= peer_ids@.map_values(|id: u32| Link { peer: id, connected: false }));
        PeerManager { self_id, links }
    }

    /// The ids of the peers, in configuration order.
    pub fn known_peers(&self) -> (ids: Vec<u32>)
        ensures
            ids@ == self@.links.map_values(|l: Link| l.peer),
    {
        let mut out: Vec<u32> = Vec::new();
        let n = self.links.len();
        let mut i: usize = 0;
        while i < n
            invariant
                i <= n,
                n == self.links@.len(),
                out@.len() == i,
                forall|j: int| 0 <= j < i ==> out@[j] == self.links@[j].peer,
            decreases n - i,
        {
            out.push(self.links[i].peer);
            i += 1;
        }
        assert(out@ =~= self@.links.map_values(|l: Link| l.peer));
        out
    }

    /// Whether `peer` is one of the peers.
    pub fn is_known(&self, peer: u32) -> (known: bool)
        ensures
            known == has_link(self@.links, peer),
    {
        let n = self.links.len();
        let mut i: usize = 0;
        while i < n
            invariant
                i <= n,
                n == self.links@.len(),
                forall|j: int| 0 <= j < i ==> (#[trigger] self.links@[j]).peer != peer,
            decreases n - i,
        {
            if self.links[i].peer == peer {
                return true;
            }
            i += 1;
        }
        false
    }

    /// Whether there is a connection to `peer`. A message for a peer without one cannot be sent.
    pub fn is_connected(&self, peer: u32) -> (up: bool)
        ensures
            up == connected_to(self@.links, peer),
    {
        let n = self.links.len();
        let mut i: usize = 0;
        while i < n
            invariant
                i <= n,
                n == self.links@.len(),
                forall|j: int|
                    0 <= j < i ==> !((#[trigger] self.links@[j]).peer == peer
                        && self.links@[j].connected),
            decreases n - i,
        {
            if self.links[i].peer == peer && self.links[i].connected {
                return true;
            }
            i += 1;
        }
        false
    }

    /// Addresses `msg` to `peer`. This fails when there is no connection to `peer`.
    pub fn send_to(&self, peer: u32, msg: Message) -> (sent: Result<Action, TransportError>)
        ensures
            (match sent {
                Ok(action) => connected_to(self@.links, peer) && action == (Action::Send {
                    to: peer,
                    msg,
                }),
                Err(TransportError::Disconnected) => !connected_to(self@.links, peer),
            }),
    {
        if self.is_connected(peer) {
            Ok(Action::Send { to: peer, msg })
        } else {
            Err(TransportError::Disconnected)
        }
    }

    /// Addresses one copy of `msg` to every peer that is connected; the others are passed over.
    pub fn broadcast(&self, msg: Message) -> (out: Vec<Action>)
        ensures
            out@ == reachable_sends(self@.links, msg),
    {
        let ghost pick = |l: Link|
            if l.connected {
                Some(Action::Send { to: l.peer, msg })
            } else {
                None
            };
        let mut out: Vec<Action> = Vec::new();
        let n = self.links.len();
        let mut i: usize = 0;
        assert(self.links@.take(0).filter_map(pick) =~= Seq::<Action>::empty());
        while i < n
            invariant
                i <= n,
                n == self.links@.len(),
                pick == |l: Link|
                    if l.connected {
                        Some(Action::Send { to: l.peer, msg })
                    } else {
                        None
                    },
                out@ == self.links@.take(i as int).filter_map(pick),
            decreases n - i,
        {
            let l = self.links[i];
            proof {
                self.links@.lemma_filter_map_take_succ(pick, i as int);
            }
            if l.connected {
                out.push(Action::Send { to: l.peer, msg });
            }
            i += 1;
        }
        assert(self.links@.take(n as int) =~= self.links@);
        out
    }

    /// Notes that the connection to `peer` is up or down.
    fn set_link(&mut self, peer: u32, up: bool)
        ensures
            final(self)@.self_id == old(self)@.self_id,
            final(self)@.links == with_link(old(self)@.links, peer, up),
    {
        let ghost before = self.links@;
        let n = self.links.len();
        let mut i: usize = 0;
        while i < n
            invariant
                i <= n,
                n == before.len(),
                self.links@.len() == n,
                self.self_id == old(self).self_id,
                forall|j: int| 0 <= j < i ==> self.links@[j] == with_link(before, peer, up)[j],
                forall|j: int| i <= j < n ==> self.links@[j] == before[j],
            decreases n - i,
        {
            let l = self.links[i];
            if l.peer == peer {
                self.links.set(i, Link { peer: l.peer, connected: up });
            }
            i += 1;
        }
        assert(self.links@ =~= with_link(before, peer, up));
    }

    /// Notes that a connection to `peer` was made.
    pub fn mark_connected(&mut self, peer: u32)
        ensures
            final(self)@.self_id == old(self)@.self_id,
            final(self)@.links == with_link(old(self)@.links, peer, true),
    {
        self.set_link(peer, true);
    }

    /// Notes that the connection to `peer` was lost.
    pub fn mark_disconnected(&mut self, peer: u32)
        ensures
            final(self)@.self_id == old(self)@.self_id,
            final(self)@.links == with_link(old(self)@.links, peer, false),
    {
        self.set_link(peer, false);
    }

    /// The peers to dial now: those with a higher id than this node's that
    /// have no connection, in configuration order.
    pub fn dial_targets(&self) -> (targets: Vec<u32>)
        ensures
            targets@ == to_dial(self@),
    {
        let ghost pick = |l: Link|
            if dials(self.self_id, l.peer) && !l.connected {
                Some(l.peer)
            } else {
                None
            };
        let mut out: Vec<u32> = Vec::new();
        let n = self.links.len();
        let mut i: usize = 0;
        assert(self.links@.take(0).filter_map(pick) =~= Seq::<u32>::empty());
        while i < n
            invariant
                i <= n,
                n == self.links@.len(),
                pick == |l: Link|
                    if dials(self.self_id, l.peer) && !l.connected {
                        Some(l.peer)
                    } else {
                        None
                    },
                out@ == self.links@.take(i as int).filter_map(pick),
            decreases n - i,
        {
            let l = self.links[i];
            proof {
                self.links@.lemma_filter_map_take_succ(pick, i as int);
            }
            if l.peer > self.self_id && !l.connected {
                out.push(l.peer);
            }
            i += 1;
        }
        assert(self.links@.take(n as int) =~= self.links@);
        out
    }

    /// Decides on a connection that another node opened, by the first
    /// message that came over it. The connection is bound to the node the
    /// message comes from and that node's id is returned, if it is a peer
    /// that either has no connection yet or is the side that dials;
    /// otherwise nothing changes and the connection is to be dropped.
    pub fn bind_inbound(&mut self, first: Message) -> (bound: Option<u32>)
        ensures
            final(self)@.self_id == old(self)@.self_id,
            takes_inbound(old(self)@, first.origin()) ==> bound == Some(first.origin())
                && final(self)@.links == with_link(old(self)@.links, first.origin(), true),
            !takes_inbound(old(self)@, first.origin()) ==> bound is None && final(self)@ == old(
                self,
            )@,
    {
        let from = first.origin();
        if self.is_known(from) && (!self.is_connected(from) || should_dial(from, self.self_id)) {
            self.set_link(from, true);
            Some(from)
        } else {
            None
        }
    }
}

} // verus!
