//! The tunnels to each peer, and the choice among them.

use dashmap::DashMap;
use vstd::prelude::*;

use crate::common::identity::{SpiffeId, SpiffeParts};
use crate::index;
use crate::index::AddressKey;
use crate::net::{IpAddress, SocketAddress};

verus! {

/// The number of live streams at which a tunnel counts as full. It is well below the 512 streams
/// that a session allows.
pub const STREAMS_PER_TUNNEL: usize = 200;

/// The number of tunnels to one peer.
pub const MAX_TUNNELS_PER_PEER: usize = 16;

/// A tunnel to a peer.
#[derive(Debug)]
pub struct Tunnel {
    /// Tells tunnels apart: the end of an old tunnel must not evict its replacement.
    pub id: u64,
    /// The streams that are open or being opened.
    pub live: usize,
    /// The identity that the peer presented when the tunnel was established.
    pub peer_identity: SpiffeId,
}

/// A tunnel as a value.
pub struct TunnelState {
    pub id: u64,
    pub live: usize,
    pub peer: SpiffeParts,
}

impl View for Tunnel {
    type V = TunnelState;

    open spec fn view(&self) -> TunnelState {
        TunnelState { id: self.id, live: self.live, peer: self.peer_identity@ }
    }
}

impl Clone for Tunnel {
    fn clone(&self) -> (copy: Self)
        ensures
            copy == *self,
    {
        Tunnel { id: self.id, live: self.live, peer_identity: self.peer_identity.clone() }
    }
}

/// The tunnels of a list, as values.
pub open spec fn states(tunnels: Seq<Tunnel>) -> Seq<TunnelState> {
    tunnels.map_values(|t: Tunnel| t@)
}

/// The index of the first tunnel with the fewest streams, among those with fewer than `cap`.
pub open spec fn least_loaded(tunnels: Seq<TunnelState>, cap: nat) -> Option<int>
    decreases tunnels.len(),
{
    if tunnels.len() == 0 {
        None
    } else {
        let before = least_loaded(tunnels.drop_last(), cap);
        let last = tunnels.last();
        if last.live < cap && (before is None || last.live < tunnels[before->0].live) {
            Some(tunnels.len() - 1)
        } else {
            before
        }
    }
}

/// The tunnels without the one of an id.
pub open spec fn without(tunnels: Seq<TunnelState>, id: u64) -> Seq<TunnelState>
    decreases tunnels.len(),
{
    if tunnels.len() == 0 {
        Seq::empty()
    } else if tunnels.last().id == id {
        without(tunnels.drop_last(), id)
    } else {
        without(tunnels.drop_last(), id).push(tunnels.last())
    }
}

/// The tunnels with the stream count of one changed.
pub open spec fn recounted(tunnels: Seq<TunnelState>, id: u64, opened: bool) -> Seq<TunnelState> {
    tunnels.map_values(
        |t: TunnelState|
            if t.id == id {
                TunnelState {
                    live: if opened {
                        t.live.wrapping_add(1)
                    } else {
                        t.live.wrapping_sub(1)
                    },
                    ..t
                }
            } else {
                t
            },
    )
}

/// An address as the key of the map.
pub open spec fn address_key(address: SocketAddress) -> AddressKey {
    match address.ip {
        IpAddress::V4(bits) => (
            false,
            bits as u128,
            address.port,
            address.flowinfo,
            address.scope_id,
        ),
        IpAddress::V6(bits) => (true, bits, address.port, address.flowinfo, address.scope_id),
    }
}

fn key_of(address: &SocketAddress) -> (key: AddressKey)
    ensures
        key == address_key(*address),
{
    match address.ip {
        IpAddress::V4(bits) => (
            false,
            bits as u128,
            address.port,
            address.flowinfo,
            address.scope_id,
        ),
        IpAddress::V6(bits) => (true, bits, address.port, address.flowinfo, address.scope_id),
    }
}

/// The tunnels to every peer.
pub struct Pool {
    pub peers: Map<SocketAddress, Seq<TunnelState>>,
    pub next_id: u64,
}

impl Pool {
    /// The tunnels to one peer.
    pub open spec fn tunnels(self, peer: SocketAddress) -> Seq<TunnelState> {
        if self.peers.contains_key(peer) {
            self.peers[peer]
        } else {
            Seq::empty()
        }
    }

    /// The tunnel with the fewest streams to a peer, among those with fewer than `cap`.
    pub open spec fn pick(self, peer: SocketAddress, cap: nat) -> Option<TunnelState> {
        match least_loaded(self.tunnels(peer), cap) {
            Some(i) => Some(self.tunnels(peer)[i]),
            None => None,
        }
    }

    /// Whether another tunnel to a peer may be opened.
    pub open spec fn can_grow(self, peer: SocketAddress) -> bool {
        self.tunnels(peer).len() < MAX_TUNNELS_PER_PEER
    }

    /// The pool with the tunnels to one peer replaced, where there are any.
    pub open spec fn with_tunnels(self, peer: SocketAddress, tunnels: Seq<TunnelState>) -> Pool {
        if self.peers.contains_key(peer) {
            Pool { peers: self.peers.insert(peer, tunnels), ..self }
        } else {
            self
        }
    }

    /// The pool without a tunnel.
    pub open spec fn evicted(self, peer: SocketAddress, id: u64) -> Pool {
        self.with_tunnels(peer, without(self.tunnels(peer), id))
    }

    /// The pool with one more stream, or one fewer, on a tunnel.
    pub open spec fn streams_changed(self, peer: SocketAddress, id: u64, opened: bool) -> Pool {
        self.with_tunnels(peer, recounted(self.tunnels(peer), id, opened))
    }

    /// The pool with a new tunnel, behind the others to its peer.
    pub open spec fn registered(self, peer: SocketAddress, identity: SpiffeParts) -> Pool {
        Pool {
            peers: self.peers.insert(
                peer,
                self.tunnels(peer).push(TunnelState { id: self.next_id, live: 0, peer: identity }),
            ),
            next_id: self.next_id.wrapping_add(1),
        }
    }
}

/// The client side of the tunnels: a set per upstream peer, over which streams are spread.
pub struct MuxPool {
    /// Which entry of `tunnels` a peer has.
    peer_slots: DashMap<AddressKey, usize>,
    tunnels: Vec<Vec<Tunnel>>,
    next_id: u64,
}

impl View for MuxPool {
    type V = Pool;

    closed spec fn view(&self) -> Pool {
        let slots = index::address_slots(self.peer_slots);
        Pool {
            peers: Map::new(
                |peer: SocketAddress| slots.contains_key(address_key(peer)),
                |peer: SocketAddress| states(self.tunnels@[slots[address_key(peer)] as int]@),
            ),
            next_id: self.next_id,
        }
    }
}

impl MuxPool {
    /// Every peer has an entry of its own.
    pub closed spec fn well_formed(&self) -> bool {
        let slots = index::address_slots(self.peer_slots);
        &&& forall|key: AddressKey| #[trigger]
            slots.contains_key(key) ==> slots[key] < self.tunnels@.len()
        &&& forall|a: AddressKey, b: AddressKey| #[trigger]
            slots.contains_key(a) && #[trigger] slots.contains_key(b) && a != b ==> slots[a]
                != slots[b]
    }

    /// A pool without tunnels.
    pub fn new() -> (pool: Self)
        ensures
            pool.well_formed(),
            pool@.peers =~= Map::empty(),
            pool@.next_id == 0,
    {
        MuxPool { peer_slots: index::address_index_new(), tunnels: Vec::new(), next_id: 0 }
    }

    /// The least loaded tunnel to a peer that is not full. None means that every tunnel is full,
    /// or that there is none.
    pub fn pick_under_cap(&self, peer: &SocketAddress) -> (tunnel: Option<Tunnel>)
        requires
            self.well_formed(),
        ensures
            match self@.pick(*peer, STREAMS_PER_TUNNEL as nat) {
                Some(state) => tunnel matches Some(t) && t@ == state,
                None => tunnel is None,
            },
    {
        match index::address_index_get(&self.peer_slots, key_of(peer)) {
            Some(slot) => least_loaded_tunnel(&self.tunnels[slot], Some(STREAMS_PER_TUNNEL)),
            None => None,
        }
    }

    /// The least loaded tunnel to a peer, full or not.
    pub fn pick_any(&self, peer: &SocketAddress) -> (tunnel: Option<Tunnel>)
        requires
            self.well_formed(),
        ensures
            match self@.pick(*peer, usize::MAX as nat + 1) {
                Some(state) => tunnel matches Some(t) && t@ == state,
                None => tunnel is None,
            },
    {
        match index::address_index_get(&self.peer_slots, key_of(peer)) {
            Some(slot) => least_loaded_tunnel(&self.tunnels[slot], None),
            None => None,
        }
    }

    /// Whether another tunnel to a peer may be opened.
    pub fn can_grow(&self, peer: &SocketAddress) -> (grows: bool)
        requires
            self.well_formed(),
        ensures
            grows == self@.can_grow(*peer),
    {
        match index::address_index_get(&self.peer_slots, key_of(peer)) {
            Some(slot) => self.tunnels[slot].len() < MAX_TUNNELS_PER_PEER,
            None => true,
        }
    }

    /// Takes a tunnel out of the pool.
    pub fn evict(&mut self, peer: &SocketAddress, id: u64)
        requires
            old(self).well_formed(),
        ensures
            final(self).well_formed(),
            final(self)@ == old(self)@.evicted(*peer, id),
    {
        if let Some(slot) = index::address_index_get(&self.peer_slots, key_of(peer)) {
            let mut kept: Vec<Tunnel> = Vec::new();
            std::mem::swap(&mut kept, &mut self.tunnels[slot]);
            remove_id(&mut kept, id);
            self.tunnels[slot] = kept;
        }
        assert(self@.peers =~= old(self)@.evicted(*peer, id).peers);
    }

    /// Counts a stream on a tunnel: one that is being opened, or one that has ended.
    pub fn count_stream(&mut self, peer: &SocketAddress, id: u64, opened: bool)
        requires
            old(self).well_formed(),
        ensures
            final(self).well_formed(),
            final(self)@ == old(self)@.streams_changed(*peer, id, opened),
    {
        if let Some(slot) = index::address_index_get(&self.peer_slots, key_of(peer)) {
            let mut changed: Vec<Tunnel> = Vec::new();
            std::mem::swap(&mut changed, &mut self.tunnels[slot]);
            recount(&mut changed, id, opened);
            self.tunnels[slot] = changed;
        }
        assert(self@.peers =~= old(self)@.streams_changed(*peer, id, opened).peers);
    }

    /// Adds a freshly established tunnel, and gives it an id.
    pub fn register(&mut self, peer: &SocketAddress, peer_identity: SpiffeId) -> (id: u64)
        requires
            old(self).well_formed(),
        ensures
            final(self).well_formed(),
            id == old(self)@.next_id,
            final(self)@ == old(self)@.registered(*peer, peer_identity@),
    {
        let id: u64 = self.next_id;
        let tunnel: Tunnel = Tunnel { id, live: 0, peer_identity };
        let ghost state = tunnel@;
        self.next_id = id.wrapping_add(1);
        match index::address_index_get(&self.peer_slots, key_of(peer)) {
            Some(slot) => {
                self.tunnels[slot].push(tunnel);
            },
            None => {
                let slot: usize = self.tunnels.len();
                let mut list: Vec<Tunnel> = Vec::new();
                list.push(tunnel);
                self.tunnels.push(list);
                index::address_index_insert(&mut self.peer_slots, key_of(peer), slot);
            },
        }
        proof {
            assert(self@.tunnels(*peer) =~= old(self)@.tunnels(*peer).push(state));
            assert(self@.peers =~= old(self)@.registered(*peer, state.peer).peers);
        }
        id
    }
}

/// The first tunnel with the fewest streams, among those with fewer than `cap`.
fn least_loaded_tunnel(tunnels: &Vec<Tunnel>, cap: Option<usize>) -> (best: Option<Tunnel>)
    ensures
        match least_loaded(
            states(tunnels@),
            match cap {
                Some(cap) => cap as nat,
                None => usize::MAX as nat + 1,
            },
        ) {
            Some(i) => {
                &&& 0 <= i < tunnels@.len()
                &&& best matches Some(t)
                &&& t@ == states(tunnels@)[i]
            },
            None => best is None,
        },
{
    let ghost limit = match cap {
        Some(cap) => cap as nat,
        None => usize::MAX as nat + 1,
    };
    let ghost all = states(tunnels@);
    let mut best: Option<usize> = None;
    let mut i: usize = 0;
    while i < tunnels.len()
        invariant
            i <= tunnels@.len(),
            all == states(tunnels@),
            limit == match cap {
                Some(cap) => cap as nat,
                None => usize::MAX as nat + 1,
            },
            match least_loaded(all.take(i as int), limit) {
                Some(k) => 0 <= k < i && best == Some(k as usize),
                None => best is None,
            },
        decreases tunnels@.len() - i,
    {
        let live: usize = tunnels[i].live;
        proof {
            let longer = all.take(i + 1);
            assert(longer.drop_last() =~= all.take(i as int));
            assert(longer.last() == all[i as int]);
        }
        let fits: bool = match cap {
            Some(cap) => live < cap,
            None => true,
        };
        if fits {
            let better: bool = match best {
                Some(b) => live < tunnels[b].live,
                None => true,
            };
            if better {
                best = Some(i);
            }
        }
        i = i + 1;
    }
    assert(all.take(tunnels@.len() as int) =~= all);
    match best {
        Some(b) => Some(tunnels[b].clone()),
        None => None,
    }
}

/// Drops the tunnels with an id.
fn remove_id(tunnels: &mut Vec<Tunnel>, id: u64)
    ensures
        states(final(tunnels)@) == without(states(old(tunnels)@), id),
{
    let ghost all = states(tunnels@);
    let ghost mut seen: int = 0;
    let mut i: usize = 0;
    assert(all.skip(0) =~= all);
    assert(without(all.take(0), id) =~= Seq::<TunnelState>::empty());
    while i < tunnels.len()
        invariant
            0 <= seen <= all.len(),
            i == without(all.take(seen), id).len(),
            i <= tunnels@.len(),
            states(tunnels@) =~= without(all.take(seen), id) + all.skip(seen),
        decreases tunnels@.len() - i,
    {
        proof {
            assert(states(tunnels@)[i as int] == all[seen]);
            assert(all.take(seen + 1).drop_last() =~= all.take(seen));
            assert(all.take(seen + 1).last() == all[seen]);
        }
        let ghost before = tunnels@;
        if tunnels[i].id == id {
            tunnels.remove(i);
            assert(states(tunnels@) =~= states(before).remove(i as int));
            assert(states(tunnels@) =~= without(all.take(seen + 1), id) + all.skip(seen + 1));
        } else {
            i = i + 1;
            assert(states(tunnels@) =~= without(all.take(seen + 1), id) + all.skip(seen + 1));
        }
        proof {
            seen = seen + 1;
        }
    }
    proof {
        assert(all.skip(seen).len() == 0);
        assert(all.take(seen) =~= all);
    }
}

/// Counts a stream on the tunnels with an id.
fn recount(tunnels: &mut Vec<Tunnel>, id: u64, opened: bool)
    ensures
        states(final(tunnels)@) == recounted(states(old(tunnels)@), id, opened),
{
    let ghost all = states(tunnels@);
    let ghost wanted = recounted(all, id, opened);
    let mut i: usize = 0;
    while i < tunnels.len()
        invariant
            i <= tunnels@.len(),
            all == states(old(tunnels)@),
            wanted == recounted(all, id, opened),
            tunnels@.len() == all.len(),
            forall|j: int| 0 <= j < i ==> (#[trigger] tunnels@[j])@ == wanted[j],
            forall|j: int| i <= j < all.len() ==> (#[trigger] tunnels@[j])@ == all[j],
        decreases tunnels@.len() - i,
    {
        assert(tunnels@[i as int]@ == all[i as int]);
        if tunnels[i].id == id {
            let live: usize = if opened {
                tunnels[i].live.wrapping_add(1)
            } else {
                tunnels[i].live.wrapping_sub(1)
            };
            let peer_identity: SpiffeId = tunnels[i].peer_identity.clone();
            tunnels[i] = Tunnel { id, live, peer_identity };
        }
        i = i + 1;
    }
    assert(states(tunnels@) =~= wanted);
}

} // verus!
