//! Per-participant transforms, and on a host the address of each participant.
use vstd::prelude::*;
use std::collections::HashMap;
use vstd::std_specs::iter::IteratorSpec;
use crate::message::PlayerEntry;
use crate::types::{PeerAddr, QuatBits, Vec3Bits};

verus! {

broadcast use vstd::std_specs::hash::group_hash_axioms;

/// The ids of a map, each once, in the order in which the map walks them.
fn ids_of<V>(m: &HashMap<u32, V>) -> (r: Vec<u32>)
    ensures
        r@.no_duplicates(),
        r@.to_set() == m@.dom(),
        r@.len() == m@.dom().len(),
{
    let mut r: Vec<u32> = Vec::new();
    let ghost g = vstd::std_specs::hash::spec_keys_iter(m).remaining();
    for k in it: m.keys()
        invariant
            it.seq() == g,
            r@.len() == it.index(),
            forall|i: int| 0 <= i < it.index() ==> r@[i] == *it.seq()[i],
    {
        r.push(*k);
    }
    proof {
        assert(r@ =~= g.unref());
    }
    r
}

/// Where a datagram is sent.
#[derive(Debug, Clone, Copy, PartialEq, Eq, Structural)]
pub enum Destination {
    /// One peer, by address.
    Peer(PeerAddr),
    /// The host this process joined (its socket is connected to it).
    Host,
    /// Every machine on the local subnet, at the given port.
    Broadcast(u16),
}

/// One participant's replicated state.
#[derive(Debug, Clone, Copy, PartialEq, Eq, Structural)]
pub struct PlayerData {
    pub id: u32,
    pub position: Vec3Bits,
    pub rotation: QuatBits,
    /// Handle of the representation a collaborator spawned for it, if any.
    pub entity: Option<u64>,
}

/// A fresh record, with no spawned representation yet.
pub open spec fn record(id: u32, position: Vec3Bits, rotation: QuatBits) -> PlayerData {
    PlayerData { id, position, rotation, entity: None }
}

/// The participants table after a movement sample for `id`: an existing record
/// keeps its representation handle, an unknown id gets a fresh record.
pub open spec fn moved(players: Map<u32, PlayerData>, id: u32, position: Vec3Bits, rotation: QuatBits) -> Map<u32, PlayerData> {
    if players.contains_key(id) {
        players.insert(id, PlayerData { id: players[id].id, position, rotation, entity: players[id].entity })
    } else {
        players.insert(id, record(id, position, rotation))
    }
}

/// The participants table after a snapshot from the host, skipping the entry for `own`.
pub open spec fn with_replicas(players: Map<u32, PlayerData>, es: Seq<PlayerEntry>, own: u32) -> Map<u32, PlayerData>
    decreases es.len(),
{
    if es.len() == 0 {
        players
    } else {
        let p = with_replicas(players, es.drop_last(), own);
        let e = es.last();
        if e.0 != own {
            p.insert(e.0, record(e.0, e.1, e.2))
        } else {
            p
        }
    }
}

/// `ids` lists, each once, exactly the keys of `m` other than `exclude`.
pub open spec fn enumerates<V>(ids: Seq<u32>, m: Map<u32, V>, exclude: Option<u32>) -> bool {
    &&& ids.no_duplicates()
    &&& forall|x: u32| #[trigger] ids.contains(x) <==> (m.contains_key(x) && exclude != Some(x))
}

/// `recipients` holds the address of every participant but `exclude`, each once.
pub open spec fn is_fanout(recipients: Seq<Destination>, addrs: Map<u32, PeerAddr>, exclude: u32) -> bool {
    exists|ids: Seq<u32>|
        enumerates(ids, addrs, Some(exclude)) && recipients == ids.map_values(
            |id: u32| Destination::Peer(addrs[id]),
        )
}

pub open spec fn entry_of(players: Map<u32, PlayerData>, id: u32) -> PlayerEntry {
    (id, players[id].position, players[id].rotation)
}

/// `es` holds one entry for every participant, in some order.
pub open spec fn is_snapshot(es: Seq<PlayerEntry>, players: Map<u32, PlayerData>) -> bool {
    exists|ids: Seq<u32>|
        enumerates(ids, players, None) && es == ids.map_values(|id: u32| entry_of(players, id))
}

/// The participants table, and on a host the address of each participant.
pub struct PlayerRegistry {
    pub players: HashMap<u32, PlayerData>,
    pub client_addresses: HashMap<u32, PeerAddr>,
    /// The id the host gives the next participant that joins.
    pub next_id: u32,
}

pub struct RegistryView {
    pub players: Map<u32, PlayerData>,
    pub addresses: Map<u32, PeerAddr>,
    pub next_id: u32,
}

impl View for PlayerRegistry {
    type V = RegistryView;

    open spec fn view(&self) -> RegistryView {
        RegistryView {
            players: self.players@,
            addresses: self.client_addresses@,
            next_id: self.next_id,
        }
    }
}

impl RegistryView {
    /// Each record is filed under its own id.
    pub open spec fn wf(self) -> bool {
        forall|id: u32| #[trigger] self.players.contains_key(id) ==> self.players[id].id == id
    }

    /// On a host: every participant has an address and the other way round, and
    /// every id handed out so far lies below `next_id`.
    pub open spec fn host_wf(self) -> bool {
        &&& self.players.dom() == self.addresses.dom()
        &&& 1 <= self.next_id
        &&& forall|id: u32| #[trigger] self.players.contains_key(id) ==> 1 <= id < self.next_id
    }

    /// The host has an id left to hand out.
    pub open spec fn has_free_id(self) -> bool {
        self.next_id < u32::MAX
    }

    /// The registry after the host takes in a participant that wrote from `addr`.
    pub open spec fn with_joined(self, addr: PeerAddr) -> RegistryView {
        RegistryView {
            players: self.players.insert(
                self.next_id,
                record(self.next_id, Vec3Bits { x: 0, y: 0, z: 0 }, QuatBits { x: 0, y: 0, z: 0, w: crate::types::ONE_BITS }),
            ),
            addresses: self.addresses.insert(self.next_id, addr),
            next_id: (self.next_id + 1) as u32,
        }
    }

    /// The registry without participant `id`.
    pub open spec fn without(self, id: u32) -> RegistryView {
        RegistryView {
            players: self.players.remove(id),
            addresses: self.addresses.remove(id),
            next_id: self.next_id,
        }
    }
}

impl Default for PlayerRegistry {
    fn default() -> (r: PlayerRegistry)
        ensures
            r@.players == Map::<u32, PlayerData>::empty(),
            r@.addresses == Map::<u32, PeerAddr>::empty(),
            r@.next_id == 1,
    {
        PlayerRegistry::new()
    }
}

impl PlayerRegistry {
    /// An empty registry; the first participant to join gets id 1.
    pub fn new() -> (r: PlayerRegistry)
        ensures
            r@.players == Map::<u32, PlayerData>::empty(),
            r@.addresses == Map::<u32, PeerAddr>::empty(),
            r@.next_id == 1,
    {
        PlayerRegistry { players: HashMap::new(), client_addresses: HashMap::new(), next_id: 1 }
    }

    /// Number of participants.
    pub fn len(&self) -> (r: usize)
        ensures
            r == self@.players.len(),
    {
        self.players.len()
    }

    /// The record of participant `id`.
    pub fn get(&self, id: u32) -> (r: Option<PlayerData>)
        ensures
            r is Some <==> self@.players.contains_key(id),
            r matches Some(p) ==> p == self@.players[id],
    {
        match self.players.get(&id) {
            Some(p) => Some(*p),
            None => None,
        }
    }

    /// The address of participant `id`, as known to a host.
    pub fn address_of(&self, id: u32) -> (r: Option<PeerAddr>)
        ensures
            r is Some <==> self@.addresses.contains_key(id),
            r matches Some(a) ==> a == self@.addresses[id],
    {
        match self.client_addresses.get(&id) {
            Some(a) => Some(*a),
            None => None,
        }
    }

    /// Records that a collaborator spawned representation `entity` for participant `id`.
    pub fn set_entity(&mut self, id: u32, entity: u64)
        ensures
            final(self)@.addresses == old(self)@.addresses,
            final(self)@.next_id == old(self)@.next_id,
            final(self)@.players == if old(self)@.players.contains_key(id) {
                old(self)@.players.insert(
                    id,
                    PlayerData { entity: Some(entity), ..old(self)@.players[id] },
                )
            } else {
                old(self)@.players
            },
    {
        match self.players.get(&id) {
            Some(p) => {
                let mut q = *p;
                q.entity = Some(entity);
                self.players.insert(id, q);
            },
            None => {},
        }
    }

    /// Applies a movement sample for `id`, creating the record if the id is new.
    pub fn apply_move(&mut self, id: u32, position: Vec3Bits, rotation: QuatBits)
        ensures
            final(self)@.addresses == old(self)@.addresses,
            final(self)@.next_id == old(self)@.next_id,
            final(self)@.players == moved(old(self)@.players, id, position, rotation),
    {
        match self.players.get(&id) {
            Some(p) => {
                let mut q = *p;
                q.position = position;
                q.rotation = rotation;
                self.players.insert(id, q);
            },
            None => {
                self.players.insert(id, PlayerData { id, position, rotation, entity: None });
            },
        }
    }

    /// Inserts a fresh record for `id`, replacing any earlier one.
    pub fn insert_replica(&mut self, id: u32, position: Vec3Bits, rotation: QuatBits)
        ensures
            final(self)@.addresses == old(self)@.addresses,
            final(self)@.next_id == old(self)@.next_id,
            final(self)@.players == old(self)@.players.insert(id, record(id, position, rotation)),
    {
        self.players.insert(id, PlayerData { id, position, rotation, entity: None });
    }

    /// Hands out the next id to a participant that wrote from `addr`.
    pub fn add_participant(&mut self, addr: PeerAddr) -> (id: u32)
        requires
            old(self)@.has_free_id(),
        ensures
            id == old(self)@.next_id,
            final(self)@ == old(self)@.with_joined(addr),
    {
        let id = self.next_id;
        self.client_addresses.insert(id, addr);
        self.players.insert(
            id,
            PlayerData {
                id,
                position: Vec3Bits::zero(),
                rotation: QuatBits::identity(),
                entity: None,
            },
        );
        self.next_id = id + 1;
        id
    }

    /// Forgets participant `id`; nothing happens if it is unknown.
    pub fn remove(&mut self, id: u32)
        ensures
            final(self)@ == old(self)@.without(id),
    {
        self.players.remove(&id);
        self.client_addresses.remove(&id);
    }

    /// The position and orientation of every participant, in the order the table walks them.
    pub fn snapshot(&self) -> (r: Vec<PlayerEntry>)
        ensures
            is_snapshot(r@, self@.players),
    {
        let ids = ids_of(&self.players);
        let ghost players = self@.players;
        let mut r: Vec<PlayerEntry> = Vec::new();
        let mut i: usize = 0;
        while i < ids.len()
            invariant
                i <= ids@.len(),
                ids@.to_set() == players.dom(),
                players == self@.players,
                r@ == ids@.subrange(0, i as int).map_values(|id: u32| entry_of(players, id)),
            decreases ids@.len() - i,
        {
            let id = ids[i];
            assert(ids@.to_set().contains(id));
            let p = self.players.get(&id).unwrap();
            r.push((id, p.position, p.rotation));
            assert(r@ =~= ids@.subrange(0, i + 1).map_values(|id: u32| entry_of(players, id)));
            i = i + 1;
        }
        assert(ids@.subrange(0, i as int) =~= ids@);
        assert forall|x: u32| #[trigger] ids@.contains(x) <==> players.contains_key(x) by {
            assert(ids@.to_set().contains(x) <==> ids@.contains(x));
        }
        assert(enumerates(ids@, players, None));
        r
    }

    /// The address of every participant but `exclude`, in the order the table walks them.
    pub fn relay_targets(&self, exclude: u32) -> (r: Vec<Destination>)
        ensures
            is_fanout(r@, self@.addresses, exclude),
    {
        let ids = ids_of(&self.client_addresses);
        let ghost addrs = self@.addresses;
        let mut r: Vec<Destination> = Vec::new();
        let ghost chosen: Seq<u32> = Seq::empty();
        let mut i: usize = 0;
        while i < ids.len()
            invariant
                i <= ids@.len(),
                ids@.to_set() == addrs.dom(),
                ids@.no_duplicates(),
                addrs == self@.addresses,
                chosen.no_duplicates(),
                forall|x: u32| #[trigger] chosen.contains(x) <==> (ids@.subrange(0, i as int).contains(x) && x != exclude),
                r@ == chosen.map_values(|id: u32| Destination::Peer(addrs[id])),
            decreases ids@.len() - i,
        {
            let id = ids[i];
            let ghost before = ids@.subrange(0, i as int);
            let ghost after = ids@.subrange(0, i + 1);
            assert forall|x: u32| #[trigger] after.contains(x) <==> (before.contains(x) || x == id) by {
                if after.contains(x) {
                    let j = choose|j: int| 0 <= j < after.len() && after[j] == x;
                    if j < i {
                        assert(before[j] == x);
                    }
                }
                if before.contains(x) {
                    let j = choose|j: int| 0 <= j < before.len() && before[j] == x;
                    assert(after[j] == x);
                }
                if x == id {
                    assert(after[i as int] == x);
                }
            }
            if id != exclude {
                assert(ids@.to_set().contains(id));
                let a = *self.client_addresses.get(&id).unwrap();
                r.push(Destination::Peer(a));
                proof {
                    assert(!before.contains(id)) by {
                        if before.contains(id) {
                            let j = choose|j: int| 0 <= j < before.len() && before[j] == id;
                            assert(ids@[j] == ids@[i as int]);
                        }
                    }
                    let c2 = chosen.push(id);
                    assert(!chosen.contains(id));
                    assert forall|a: int, b: int| 0 <= a < b < c2.len() implies c2[a] != c2[b] by {
                        if b == chosen.len() {
                            assert(chosen.contains(c2[a]));
                        } else {
                            assert(chosen[a] != chosen[b]);
                        }
                    }
                    assert forall|x: u32| #[trigger] c2.contains(x) <==> (chosen.contains(x) || x == id) by {
                        if c2.contains(x) {
                            let j = choose|j: int| 0 <= j < c2.len() && c2[j] == x;
                            if j < chosen.len() {
                                assert(chosen[j] == x);
                            }
                        }
                        if chosen.contains(x) {
                            let j = choose|j: int| 0 <= j < chosen.len() && chosen[j] == x;
                            assert(c2[j] == x);
                        }
                        if x == id {
                            assert(c2[chosen.len() as int] == x);
                        }
                    }
                    assert(r@ =~= c2.map_values(|id: u32| Destination::Peer(addrs[id])));
                    chosen = c2;
                }
            }
            i = i + 1;
        }
        assert(ids@.subrange(0, i as int) =~= ids@);
        assert forall|x: u32| #[trigger] chosen.contains(x) <==> (addrs.contains_key(x) && Some(exclude) != Some(x)) by {
            assert(ids@.to_set().contains(x) <==> ids@.contains(x));
        }
        assert(enumerates(chosen, addrs, Some(exclude)));
        r
    }
}

} // verus!
