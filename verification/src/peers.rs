//! Walks over a node's peer records.

use crate::message::Message;
use crate::model::{best_alive, broadcast, forget_all, has_higher, is_alive, sends_to_higher, touch};
use crate::state::{Action, Peer};
use crate::timing::{elapsed_ms, ALIVE_WINDOW_MS};
use vstd::prelude::*;

verus! {

/// Notes a sign of life from `id` at time `now`.
pub(crate) fn touch_peer(peers: &mut Vec<Peer>, id: u32, now: u64)
    ensures
        final(peers)@ == touch(old(peers)@, id, now),
{
    let ghost before = peers@;
    let n = peers.len();
    let mut i: usize = 0;
    while i < n
        invariant
            i <= n,
            n == before.len(),
            peers@.len() == n,
            forall|j: int| 0 <= j < i ==> peers@[j] == touch(before, id, now)[j],
            forall|j: int| i <= j < n ==> peers@[j] == before[j],
        decreases n - i,
    {
        let p = peers[i];
        if p.id == id {
            peers.set(i, Peer { id: p.id, last_seen: Some(now) });
        }
        i += 1;
    }
    assert(peers@ =~= touch(before, id, now));
}

/// Forgets every sign of life.
pub(crate) fn forget_peers(peers: &mut Vec<Peer>)
    ensures
        final(peers)@ == forget_all(old(peers)@),
{
    let ghost before = peers@;
    let n = peers.len();
    let mut i: usize = 0;
    while i < n
        invariant
            i <= n,
            n == before.len(),
            peers@.len() == n,
            forall|j: int| 0 <= j < i ==> peers@[j] == forget_all(before)[j],
            forall|j: int| i <= j < n ==> peers@[j] == before[j],
        decreases n - i,
    {
        let p = peers[i];
        peers.set(i, Peer { id: p.id, last_seen: None });
        i += 1;
    }
    assert(peers@ =~= forget_all(before));
}

/// Addresses one copy of `msg` to every peer.
pub(crate) fn broadcast_to(peers: &Vec<Peer>, msg: Message) -> (out: Vec<Action>)
    ensures
        out@ == broadcast(peers@, msg),
{
    let mut out: Vec<Action> = Vec::new();
    let n = peers.len();
    let mut i: usize = 0;
    while i < n
        invariant
            i <= n,
            n == peers@.len(),
            out@.len() == i,
            forall|j: int| 0 <= j < i ==> out@[j] == broadcast(peers@, msg)[j],
        decreases n - i,
    {
        out.push(Action::Send { to: peers[i].id, msg });
        i += 1;
    }
    assert(out@ =~= broadcast(peers@, msg));
    out
}

/// Addresses one copy of `msg` to every peer with an id above `id`.
pub(crate) fn challenge_higher(peers: &Vec<Peer>, id: u32, msg: Message) -> (out: Vec<Action>)
    ensures
        out@ == sends_to_higher(peers@, id, msg),
        out@.len() > 0 <==> has_higher(peers@, id),
{
    let ghost pick = |p: Peer|
        if p.id > id {
            Some(Action::Send { to: p.id, msg })
        } else {
            None
        };
    let mut out: Vec<Action> = Vec::new();
    let n = peers.len();
    let mut i: usize = 0;
    assert(peers@.take(0).filter_map(pick) =~= Seq::<Action>::empty());
    while i < n
        invariant
            i <= n,
            n == peers@.len(),
            pick == |p: Peer|
                if p.id > id {
                    Some(Action::Send { to: p.id, msg })
                } else {
                    None
                },
            out@ == peers@.take(i as int).filter_map(pick),
            out@.len() > 0 <==> has_higher(peers@.take(i as int), id),
        decreases n - i,
    {
        let p = peers[i];
        proof {
            peers@.lemma_filter_map_take_succ(pick, i as int);
            let shorter = peers@.take(i as int);
            let longer = peers@.take(i + 1);
            assert(longer[i as int] == p);
            if has_higher(shorter, id) {
                let k = choose|k: int| 0 <= k < shorter.len() && (#[trigger] shorter[k]).id > id;
                assert(longer[k] == shorter[k]);
            }
            if has_higher(longer, id) && p.id <= id {
                let k = choose|k: int| 0 <= k < longer.len() && (#[trigger] longer[k]).id > id;
                assert(shorter[k] == longer[k]);
            }
        }
        if p.id > id {
            out.push(Action::Send { to: p.id, msg });
        }
        i += 1;
    }
    assert(peers@.take(n as int) =~= peers@);
    out
}

/// The highest id among the peers alive at `now`.
pub(crate) fn calculate_successor(peers: &Vec<Peer>, now: u64) -> (next: Option<u32>)
    ensures
        next == best_alive(peers@, now),
{
    let mut next: Option<u32> = None;
    let n = peers.len();
    let mut i: usize = 0;
    while i < n
        invariant
            i <= n,
            n == peers@.len(),
            next == best_alive(peers@.take(i as int), now),
        decreases n - i,
    {
        let p = peers[i];
        assert(peers@.take(i + 1).drop_last() =~= peers@.take(i as int));
        assert(peers@.take(i + 1).last() == p);
        let alive = match p.last_seen {
            Some(seen) => elapsed_ms(seen, now) <= ALIVE_WINDOW_MS,
            None => false,
        };
        assert(alive == is_alive(p, now));
        if alive {
            let better = match next {
                Some(m) => m < p.id,
                None => true,
            };
            if better {
                next = Some(p.id);
            }
        }
        i += 1;
    }
    assert(peers@.take(n as int) =~= peers@);
    next
}

} // verus!
