//! Hosts discovered on the local network, kept while their announcements are recent.
use vstd::prelude::*;
use crate::types::PeerAddr;

verus! {

/// Milliseconds after which a host that has not announced itself again is forgotten.
pub const STALE_AFTER_MS: u128 = 5000;

/// What a host announced about itself, and when it was last heard from.
#[derive(Debug, Clone)]
pub struct ServerInfo {
    pub name: String,
    pub player_count: u8,
    pub max_players: u8,
    pub last_seen: u128,
}

pub struct ServerInfoView {
    pub name: Seq<char>,
    pub player_count: u8,
    pub max_players: u8,
    pub last_seen: u128,
}

impl View for ServerInfo {
    type V = ServerInfoView;

    open spec fn view(&self) -> ServerInfoView {
        ServerInfoView {
            name: self.name@,
            player_count: self.player_count,
            max_players: self.max_players,
            last_seen: self.last_seen,
        }
    }
}

pub type CatalogEntry = (PeerAddr, ServerInfoView);

/// An entry is kept at time `now` while no more than the staleness window has
/// passed since it was last seen.
pub open spec fn is_fresh(last_seen: u128, now: u128) -> bool {
    now <= last_seen + STALE_AFTER_MS
}

/// The entries of `s` that are still fresh at `now`, in their order.
pub open spec fn keep_fresh(s: Seq<CatalogEntry>, now: u128) -> Seq<CatalogEntry>
    decreases s.len(),
{
    if s.len() == 0 {
        s
    } else if is_fresh(s.last().1.last_seen, now) {
        keep_fresh(s.drop_last(), now).push(s.last())
    } else {
        keep_fresh(s.drop_last(), now)
    }
}

pub open spec fn has_host(s: Seq<CatalogEntry>, addr: PeerAddr) -> bool {
    exists|i: int| 0 <= i < s.len() && #[trigger] s[i].0 == addr
}

pub open spec fn unique_hosts(s: Seq<CatalogEntry>) -> bool {
    forall|i: int, j: int| 0 <= i < j < s.len() ==> #[trigger] s[i].0 != #[trigger] s[j].0
}

/// The catalog after hearing from `addr`: its entry is replaced in place, or
/// appended when the host is new.
pub open spec fn upsert_host(s: Seq<CatalogEntry>, addr: PeerAddr, info: ServerInfoView) -> Seq<
    CatalogEntry,
> {
    if has_host(s, addr) {
        let i = choose|i: int| 0 <= i < s.len() && #[trigger] s[i].0 == addr;
        s.update(i, (addr, info))
    } else {
        s.push((addr, info))
    }
}

/// The catalog of discovered hosts, one entry per address.
pub struct ServerList {
    servers: Vec<(PeerAddr, ServerInfo)>,
}

impl View for ServerList {
    type V = Seq<CatalogEntry>;

    closed spec fn view(&self) -> Seq<CatalogEntry> {
        self.servers@.map_values(|e: (PeerAddr, ServerInfo)| (e.0, e.1@))
    }
}

impl ServerInfo {
    fn copy(&self) -> (r: ServerInfo)
        ensures
            r@ == self@,
    {
        ServerInfo {
            name: self.name.clone(),
            player_count: self.player_count,
            max_players: self.max_players,
            last_seen: self.last_seen,
        }
    }
}

/// Pruning keeps exactly the fresh entries of the sequence it is given.
proof fn lemma_keep_fresh_members(s: Seq<CatalogEntry>, now: u128)
    ensures
        forall|e: CatalogEntry| #[trigger] keep_fresh(s, now).contains(e) <==> (s.contains(e) && is_fresh(e.1.last_seen, now)),
    decreases s.len(),
{
    if s.len() > 0 {
        lemma_keep_fresh_members(s.drop_last(), now);
        assert forall|e: CatalogEntry| #[trigger] s.contains(e) <==> (s.drop_last().contains(e) || e == s.last()) by {
            if s.contains(e) {
                let i = choose|i: int| 0 <= i < s.len() && s[i] == e;
                if i < s.len() - 1 {
                    assert(s.drop_last()[i] == e);
                }
            }
            if s.drop_last().contains(e) {
                let i = choose|i: int| 0 <= i < s.drop_last().len() && s.drop_last()[i] == e;
                assert(s[i] == e);
            }
            if e == s.last() {
                assert(s[s.len() - 1] == e);
            }
        }
        let k = keep_fresh(s.drop_last(), now);
        assert forall|e: CatalogEntry| #[trigger] k.push(s.last()).contains(e) <==> (k.contains(e) || e == s.last()) by {
            if k.push(s.last()).contains(e) {
                let i = choose|i: int| 0 <= i < k.len() + 1 && k.push(s.last())[i] == e;
                if i < k.len() {
                    assert(k[i] == e);
                }
            }
            if k.contains(e) {
                let i = choose|i: int| 0 <= i < k.len() && k[i] == e;
                assert(k.push(s.last())[i] == e);
            }
            if e == s.last() {
                assert(k.push(s.last())[k.len() as int] == e);
            }
        }
    }
}

proof fn lemma_keep_fresh_unique(s: Seq<CatalogEntry>, now: u128)
    requires
        unique_hosts(s),
    ensures
        unique_hosts(keep_fresh(s, now)),
    decreases s.len(),
{
    if s.len() > 0 {
        let init = s.drop_last();
        assert(unique_hosts(init));
        lemma_keep_fresh_unique(init, now);
        lemma_keep_fresh_members(init, now);
        let k = keep_fresh(init, now);
        if is_fresh(s.last().1.last_seen, now) {
            assert forall|i: int| 0 <= i < k.len() implies #[trigger] k[i].0 != s.last().0 by {
                assert(k.contains(k[i]));
                let j = choose|j: int| 0 <= j < init.len() && init[j] == k[i];
                assert(s[j].0 != s[s.len() - 1].0);
            }
        }
    }
}

proof fn lemma_upsert_facts(s: Seq<CatalogEntry>, addr: PeerAddr, info: ServerInfoView)
    requires
        unique_hosts(s),
    ensures
        unique_hosts(upsert_host(s, addr, info)),
        upsert_host(s, addr, info).contains((addr, info)),
{
    let u = upsert_host(s, addr, info);
    if has_host(s, addr) {
        let i = choose|i: int| 0 <= i < s.len() && #[trigger] s[i].0 == addr;
        assert(u[i] == (addr, info));
        assert forall|j: int, k: int| 0 <= j < k < u.len() implies #[trigger] u[j].0 != #[trigger] u[k].0 by {
            if j == i {
                assert(s[i].0 != s[k].0);
            } else if k == i {
                assert(s[j].0 != s[i].0);
            } else {
                assert(s[j].0 != s[k].0);
            }
        }
    } else {
        assert(u[s.len() as int] == (addr, info));
        assert forall|j: int, k: int| 0 <= j < k < u.len() implies #[trigger] u[j].0 != #[trigger] u[k].0 by {
            if k == s.len() {
                assert(s[j].0 != addr);
            } else {
                assert(s[j].0 != s[k].0);
            }
        }
    }
}

/// A host heard from at time `t` and not heard from again stays in the catalog
/// when it is pruned at any time up to `t` plus the staleness window, and is
/// gone when it is pruned at any later time.
pub proof fn lemma_catalog_expiry(s: Seq<CatalogEntry>, addr: PeerAddr, info: ServerInfoView, now: u128)
    requires
        unique_hosts(s),
    ensures
        has_host(keep_fresh(upsert_host(s, addr, info), now), addr) <==> now <= info.last_seen
            + STALE_AFTER_MS,
{
    let u = upsert_host(s, addr, info);
    lemma_upsert_facts(s, addr, info);
    lemma_keep_fresh_members(u, now);
    let k = keep_fresh(u, now);
    if now <= info.last_seen + STALE_AFTER_MS {
        assert(k.contains((addr, info)));
        let i = choose|i: int| 0 <= i < k.len() && k[i] == (addr, info);
        assert(k[i].0 == addr);
    }
    if has_host(k, addr) {
        let i = choose|i: int| 0 <= i < k.len() && #[trigger] k[i].0 == addr;
        assert(k.contains(k[i]));
        assert(u.contains(k[i]));
        let a = choose|a: int| 0 <= a < u.len() && u[a] == k[i];
        let b = choose|b: int| 0 <= b < u.len() && u[b] == (addr, info);
        if a != b {
            if a < b {
                assert(u[a].0 != u[b].0);
            } else {
                assert(u[b].0 != u[a].0);
            }
        }
    }
}

/// Pruning at `t1` and then at a later `t2` leaves what pruning once at `t2` leaves.
pub proof fn lemma_prune_twice(s: Seq<CatalogEntry>, t1: u128, t2: u128)
    requires
        t1 <= t2,
    ensures
        keep_fresh(keep_fresh(s, t1), t2) == keep_fresh(s, t2),
    decreases s.len(),
{
    if s.len() > 0 {
        lemma_prune_twice(s.drop_last(), t1, t2);
        let k1 = keep_fresh(s, t1);
        if is_fresh(s.last().1.last_seen, t1) {
            assert(k1.drop_last() =~= keep_fresh(s.drop_last(), t1));
        }
    }
}

impl Default for ServerList {
    fn default() -> (r: ServerList)
        ensures
            r@ == Seq::<CatalogEntry>::empty(),
            r.wf(),
    {
        ServerList::new()
    }
}

impl ServerList {
    pub open spec fn wf(&self) -> bool {
        unique_hosts(self@)
    }

    /// An empty catalog.
    pub fn new() -> (r: ServerList)
        ensures
            r@ == Seq::<CatalogEntry>::empty(),
            r.wf(),
    {
        let r = ServerList { servers: Vec::new() };
        assert(r@ =~= Seq::<CatalogEntry>::empty());
        r
    }

    pub fn len(&self) -> (r: usize)
        ensures
            r == self@.len(),
    {
        self.servers.len()
    }

    /// The entries, in the order in which the hosts were first heard from.
    pub fn entries(&self) -> (r: &Vec<(PeerAddr, ServerInfo)>)
        ensures
            r@.map_values(|e: (PeerAddr, ServerInfo)| (e.0, e.1@)) == self@,
    {
        &self.servers
    }

    fn find(&self, addr: PeerAddr) -> (r: Option<usize>)
        ensures
            r is Some <==> has_host(self@, addr),
            r matches Some(i) ==> i < self@.len() && self@[i as int].0 == addr,
    {
        let mut i: usize = 0;
        while i < self.servers.len()
            invariant
                i <= self.servers@.len(),
                forall|j: int| 0 <= j < i ==> #[trigger] self.servers@[j].0 != addr,
            decreases self.servers@.len() - i,
        {
            if self.servers[i].0 == addr {
                return Some(i);
            }
            i = i + 1;
        }
        assert forall|j: int| 0 <= j < self@.len() implies #[trigger] self@[j].0 != addr by {
            assert(self.servers@[j].0 != addr);
        }
        None
    }

    /// Whether the catalog holds an entry for `addr`.
    pub fn contains(&self, addr: PeerAddr) -> (r: bool)
        ensures
            r == has_host(self@, addr),
    {
        self.find(addr).is_some()
    }

    /// Records an announcement from `addr` heard at `now`.
    pub fn upsert(&mut self, addr: PeerAddr, name: String, player_count: u8, max_players: u8, now: u128)
        requires
            old(self).wf(),
        ensures
            final(self).wf(),
            final(self)@ == upsert_host(
                old(self)@,
                addr,
                ServerInfoView { name: name@, player_count, max_players, last_seen: now },
            ),
    {
        let info = ServerInfo { name, player_count, max_players, last_seen: now };
        let ghost iv = info@;
        match self.find(addr) {
            Some(i) => {
                proof {
                    let k = choose|k: int| 0 <= k < old(self)@.len() && #[trigger] old(self)@[k].0 == addr;
                    if k != i {
                        if k < i {
                            assert(old(self)@[k].0 != old(self)@[i as int].0);
                        } else {
                            assert(old(self)@[i as int].0 != old(self)@[k].0);
                        }
                    }
                }
                self.servers.set(i, (addr, info));
                assert(self@ =~= old(self)@.update(i as int, (addr, iv)));
            },
            None => {
                self.servers.push((addr, info));
                assert(self@ =~= old(self)@.push((addr, iv)));
            },
        }
    }

    /// Forgets every host not heard from within the staleness window before `now`.
    pub fn prune(&mut self, now: u128)
        requires
            old(self).wf(),
        ensures
            final(self).wf(),
            final(self)@ == keep_fresh(old(self)@, now),
    {
        let ghost s = self@;
        let mut kept: Vec<(PeerAddr, ServerInfo)> = Vec::new();
        let mut i: usize = 0;
        while i < self.servers.len()
            invariant
                i <= self.servers@.len(),
                self@ == s,
                unique_hosts(s),
                kept@.map_values(|e: (PeerAddr, ServerInfo)| (e.0, e.1@)) == keep_fresh(
                    s.subrange(0, i as int),
                    now,
                ),
            decreases self.servers@.len() - i,
        {
            proof {
                assert(s.subrange(0, i + 1).drop_last() =~= s.subrange(0, i as int));
            }
            let ls = self.servers[i].1.last_seen;
            if now <= ls || now - ls <= STALE_AFTER_MS {
                let e = &self.servers[i];
                kept.push((e.0, e.1.copy()));
            }
            i = i + 1;
        }
        assert(s.subrange(0, i as int) =~= s);
        proof {
            lemma_keep_fresh_unique(s, now);
        }
        self.servers = kept;
    }
}

} // verus!
