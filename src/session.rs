//! The session: this process's role, the message pump that reacts to inbound
//! datagrams, and the periodic outbound traffic.
use vstd::prelude::*;
use crate::catalog::{
    has_host, keep_fresh, unique_hosts, upsert_host, CatalogEntry, ServerInfoView, ServerList,
};
use crate::codec::parse;
use crate::message::{MessageView, NetworkMessage, PlayerEntry};
use crate::registry::{
    enumerates, is_fanout, is_snapshot, moved, record, with_replicas, Destination,
    PlayerRegistry, RegistryView,
};
use crate::types::{PeerAddr, QuatBits, Vec3Bits, ONE_BITS};

verus! {

/// Port a host listens on.
pub const HOST_PORT: u16 = 7878;

/// Port a discovering process listens on for announcements.
pub const DISCOVERY_PORT: u16 = 7879;

/// A host announces itself on the subnet at most this often.
pub const ANNOUNCE_EVERY_MS: u128 = 2000;

/// A joined process pings its host at most this often.
pub const PING_EVERY_MS: u128 = 500;

/// Capacity a host advertises.
pub const MAX_PLAYERS: u8 = 8;

/// This process's role in a session.
#[derive(Debug, Clone, Copy, PartialEq, Eq, Structural)]
pub enum NetworkMode {
    /// Not in a session; possibly listening for announcements.
    Inactive,
    /// Hosting a session.
    Server,
    /// Joined a host's session.
    Client,
}

/// The role of this process and what goes with it.
#[derive(Debug, Clone, Copy, PartialEq, Eq, Structural)]
pub struct NetworkState {
    pub mode: NetworkMode,
    /// The host this process joined; set exactly when `mode` is `Client`.
    pub server_addr: Option<PeerAddr>,
    /// The id the host gave this process; 0 until it is known.
    pub local_player_id: u32,
    /// When the last announcement was broadcast, in milliseconds.
    pub last_discovery: u128,
    /// Last measured round-trip time to the host, in milliseconds.
    pub ping_ms: u128,
    /// When the last ping was sent, in milliseconds.
    pub last_ping_sent: u128,
}

/// A lifecycle notification for the collaborators that spawn, move and remove
/// the representations of participants.
#[derive(Debug, Clone, Copy, PartialEq, Eq, Structural)]
pub enum NetworkEvent {
    ConnectedToServer(PeerAddr),
    PlayerJoined(u32),
    PlayerLeft(u32),
    PlayerMoved(u32, Vec3Bits, QuatBits),
}

/// One message to be sent to each of a list of destinations.
#[derive(Debug)]
pub struct Outgoing {
    pub recipients: Vec<Destination>,
    pub msg: NetworkMessage,
}

pub struct OutgoingView {
    pub recipients: Seq<Destination>,
    pub msg: MessageView,
}

impl View for Outgoing {
    type V = OutgoingView;

    open spec fn view(&self) -> OutgoingView {
        OutgoingView { recipients: self.recipients@, msg: self.msg@ }
    }
}

/// What handling one inbound message produced.
#[derive(Debug)]
pub struct Reaction {
    pub sends: Vec<Outgoing>,
    pub events: Vec<NetworkEvent>,
}

pub open spec fn sends_view(sends: Seq<Outgoing>) -> Seq<OutgoingView> {
    sends.map_values(|o: Outgoing| o@)
}

/// The name a host announces.
pub open spec fn host_name() -> Seq<char> {
    "LAN Server"@
}

/// The display name a joining process sends.
pub open spec fn guest_name() -> Seq<char> {
    "Player"@
}

/// A host's announcement of itself, with its current participant count
/// truncated to a byte.
pub open spec fn announcement(r: RegistryView) -> MessageView {
    MessageView::ServerAnnounce {
        name: host_name(),
        player_count: (r.players.len() % 256) as u8,
        max_players: MAX_PLAYERS,
    }
}

/// Round-trip time from a ping sent at `sent` and answered at `now`; a clock
/// that went backwards gives 0.
pub open spec fn latency(now: u128, sent: u128) -> u128 {
    if now >= sent {
        (now - sent) as u128
    } else {
        0
    }
}

pub open spec fn zero_vec() -> Vec3Bits {
    Vec3Bits { x: 0, y: 0, z: 0 }
}

pub open spec fn identity_quat() -> QuatBits {
    QuatBits { x: 0, y: 0, z: 0, w: ONE_BITS }
}

impl Default for NetworkState {
    fn default() -> (r: NetworkState)
        ensures
            r == NetworkState::inactive_at(0),
    {
        NetworkState::new()
    }
}

impl NetworkState {
    /// The state of a process that is in no session.
    pub open spec fn inactive_at(now: u128) -> NetworkState {
        NetworkState {
            mode: NetworkMode::Inactive,
            server_addr: None,
            local_player_id: 0,
            last_discovery: now,
            ping_ms: 0,
            last_ping_sent: now,
        }
    }

    /// The state of a process that started hosting at `now`.
    pub open spec fn hosting_at(now: u128) -> NetworkState {
        NetworkState { mode: NetworkMode::Server, ..NetworkState::inactive_at(now) }
    }

    /// Where a message goes in the current role: hosts broadcast to listening
    /// peers, joined processes send to their host, others send nothing.
    pub open spec fn route(self) -> Option<Destination> {
        match self.mode {
            NetworkMode::Server => Some(Destination::Broadcast(DISCOVERY_PORT)),
            NetworkMode::Client => Some(Destination::Host),
            NetworkMode::Inactive => None,
        }
    }

    /// State of a process that is in no session.
    pub fn new() -> (r: NetworkState)
        ensures
            r == NetworkState::inactive_at(0),
    {
        NetworkState {
            mode: NetworkMode::Inactive,
            server_addr: None,
            local_player_id: 0,
            last_discovery: 0,
            ping_ms: 0,
            last_ping_sent: 0,
        }
    }

    /// State of a process that starts hosting at `now`, once its socket is
    /// bound to [`HOST_PORT`].
    pub fn create_server(now: u128) -> (r: NetworkState)
        ensures
            r == NetworkState::hosting_at(now),
    {
        NetworkState {
            mode: NetworkMode::Server,
            server_addr: None,
            local_player_id: 0,
            last_discovery: now,
            ping_ms: 0,
            last_ping_sent: now,
        }
    }

    /// State of a process that starts listening for hosts at `now`, once its
    /// socket is bound to [`DISCOVERY_PORT`], with the request to broadcast.
    pub fn start_discovery(now: u128) -> (r: (NetworkState, Outgoing))
        ensures
            r.0 == NetworkState::inactive_at(now),
            r.1@ == (OutgoingView {
                recipients: seq![Destination::Broadcast(HOST_PORT)],
                msg: MessageView::DiscoveryRequest,
            }),
    {
        let state = NetworkState {
            mode: NetworkMode::Inactive,
            server_addr: None,
            local_player_id: 0,
            last_discovery: now,
            ping_ms: 0,
            last_ping_sent: now,
        };
        let out = Outgoing {
            recipients: vec![Destination::Broadcast(HOST_PORT)],
            msg: NetworkMessage::DiscoveryRequest,
        };
        assert(out.recipients@ =~= seq![Destination::Broadcast(HOST_PORT)]);
        (state, out)
    }

    /// Joins the host at `server_addr`, once a socket is connected to it; the
    /// id stays as it is until the host accepts. Returns the join request.
    pub fn connect_to_server(&mut self, server_addr: PeerAddr) -> (r: Outgoing)
        ensures
            *final(self) == (NetworkState {
                mode: NetworkMode::Client,
                server_addr: Some(server_addr),
                ..*old(self)
            }),
            r@ == (OutgoingView {
                recipients: seq![Destination::Host],
                msg: MessageView::JoinRequest { player_name: guest_name() },
            }),
    {
        let player_name = String::from_str("Player");
        proof {
            reveal_strlit("Player");
        }
        let r = Outgoing {
            recipients: vec![Destination::Host],
            msg: NetworkMessage::JoinRequest { player_name },
        };
        assert(r.recipients@ =~= seq![Destination::Host]);
        self.server_addr = Some(server_addr);
        self.mode = NetworkMode::Client;
        r
    }

    /// Leaves the session.
    pub fn shutdown(&mut self)
        ensures
            *final(self) == (NetworkState {
                mode: NetworkMode::Inactive,
                server_addr: None,
                local_player_id: 0,
                ping_ms: 0,
                ..*old(self)
            }),
    {
        self.mode = NetworkMode::Inactive;
        self.server_addr = None;
        self.local_player_id = 0;
        self.ping_ms = 0;
    }

    /// `msg` addressed as the current role sends it: `None` when not in a session.
    pub fn send_message(&self, msg: NetworkMessage) -> (r: Option<Outgoing>)
        ensures
            r is Some <==> self.route() is Some,
            r matches Some(o) ==> o@ == (OutgoingView {
                recipients: seq![self.route().unwrap()],
                msg: msg@,
            }),
    {
        let dest = match self.mode {
            NetworkMode::Server => Destination::Broadcast(DISCOVERY_PORT),
            NetworkMode::Client => Destination::Host,
            NetworkMode::Inactive => {
                return None;
            },
        };
        let recipients = vec![dest];
        assert(recipients@ =~= seq![self.route().unwrap()]);
        Some(Outgoing { recipients, msg })
    }
}

/// Everything one process knows about the network: its role, the hosts it has
/// discovered, and the participants of its session.
pub struct Session {
    pub state: NetworkState,
    pub servers: ServerList,
    pub registry: PlayerRegistry,
}

pub struct SessionView {
    pub state: NetworkState,
    pub servers: Seq<CatalogEntry>,
    pub registry: RegistryView,
}

impl View for Session {
    type V = SessionView;

    open spec fn view(&self) -> SessionView {
        SessionView { state: self.state, servers: self.servers@, registry: self.registry@ }
    }
}

/// `PlayerJoined` for each entry of a host's snapshot but the one for `own`, in order.
pub open spec fn joined_events(es: Seq<PlayerEntry>, own: u32) -> Seq<NetworkEvent>
    decreases es.len(),
{
    if es.len() == 0 {
        Seq::empty()
    } else {
        let p = joined_events(es.drop_last(), own);
        if es.last().0 != own {
            p.push(NetworkEvent::PlayerJoined(es.last().0))
        } else {
            p
        }
    }
}

impl SessionView {
    pub open spec fn wf(self) -> bool {
        &&& unique_hosts(self.servers)
        &&& self.registry.wf()
        &&& (self.state.mode == NetworkMode::Server ==> self.registry.host_wf())
        &&& (self.state.server_addr is Some <==> self.state.mode == NetworkMode::Client)
    }

    pub open spec fn is_host(self) -> bool {
        self.state.mode == NetworkMode::Server
    }

    pub open spec fn is_joined(self) -> bool {
        self.state.mode == NetworkMode::Client
    }

    /// `id` names another participant than this joined process.
    pub open spec fn is_foreign(self, id: u32) -> bool {
        id != self.state.local_player_id
    }

    /// The session after reacting to `m`, received from `from` at `now`.
    pub open spec fn after(self, m: MessageView, from: PeerAddr, now: u128) -> SessionView {
        let reg = self.registry;
        match m {
            MessageView::ServerAnnounce { name, player_count, max_players } => {
                if self.state.mode == NetworkMode::Inactive {
                    SessionView {
                        servers: upsert_host(
                            self.servers,
                            from,
                            ServerInfoView { name, player_count, max_players, last_seen: now },
                        ),
                        ..self
                    }
                } else {
                    self
                }
            },
            MessageView::JoinRequest { .. } => {
                if self.is_host() && reg.has_free_id() {
                    SessionView { registry: reg.with_joined(from), ..self }
                } else {
                    self
                }
            },
            MessageView::JoinAccept { player_id, existing_players } => {
                if self.is_joined() {
                    SessionView {
                        state: NetworkState { local_player_id: player_id, ..self.state },
                        registry: RegistryView {
                            players: with_replicas(reg.players, existing_players, player_id),
                            ..reg
                        },
                        ..self
                    }
                } else {
                    self
                }
            },
            MessageView::PlayerSpawn { player_id, position, rotation } => {
                if self.is_joined() && self.is_foreign(player_id) {
                    SessionView {
                        registry: RegistryView {
                            players: reg.players.insert(player_id, record(player_id, position, rotation)),
                            ..reg
                        },
                        ..self
                    }
                } else {
                    self
                }
            },
            MessageView::PlayerUpdate { player_id, position, rotation } => {
                if (self.is_host() && reg.players.contains_key(player_id)) || (self.is_joined()
                    && self.is_foreign(player_id)) {
                    SessionView {
                        registry: RegistryView {
                            players: moved(reg.players, player_id, position, rotation),
                            ..reg
                        },
                        ..self
                    }
                } else {
                    self
                }
            },
            MessageView::PlayerDisconnect { player_id } => {
                SessionView { registry: reg.without(player_id), ..self }
            },
            MessageView::Pong { timestamp } => {
                if self.is_joined() {
                    SessionView {
                        state: NetworkState { ping_ms: latency(now, timestamp), ..self.state },
                        ..self
                    }
                } else {
                    self
                }
            },
            _ => self,
        }
    }

    /// The lifecycle events that reacting to `m` from `from` emits, in order.
    pub open spec fn events(self, m: MessageView, from: PeerAddr) -> Seq<NetworkEvent> {
        match m {
            MessageView::JoinRequest { .. } => {
                if self.is_host() && self.registry.has_free_id() {
                    seq![NetworkEvent::PlayerJoined(self.registry.next_id)]
                } else {
                    Seq::empty()
                }
            },
            MessageView::JoinAccept { player_id, existing_players } => {
                if self.is_joined() {
                    joined_events(existing_players, player_id).push(
                        NetworkEvent::ConnectedToServer(from),
                    )
                } else {
                    Seq::empty()
                }
            },
            MessageView::PlayerSpawn { player_id, .. } => {
                if self.is_joined() && self.is_foreign(player_id) {
                    seq![NetworkEvent::PlayerJoined(player_id)]
                } else {
                    Seq::empty()
                }
            },
            MessageView::PlayerUpdate { player_id, position, rotation } => {
                if self.is_joined() && self.is_foreign(player_id) {
                    seq![NetworkEvent::PlayerMoved(player_id, position, rotation)]
                } else {
                    Seq::empty()
                }
            },
            MessageView::PlayerDisconnect { player_id } => seq![NetworkEvent::PlayerLeft(player_id)],
            _ => Seq::empty(),
        }
    }

    /// `sends` is what reacting to `m` from `from` sends. Fan-outs list their
    /// recipients in the order the address table is walked, which is left open.
    pub open spec fn sends_ok(self, m: MessageView, from: PeerAddr, sends: Seq<OutgoingView>) -> bool {
        let reg = self.registry;
        match m {
            MessageView::DiscoveryRequest => if self.is_host() {
                sends == seq![
                    OutgoingView { recipients: seq![Destination::Peer(from)], msg: announcement(reg) },
                ]
            } else {
                sends.len() == 0
            },
            MessageView::JoinRequest { .. } => if self.is_host() && reg.has_free_id() {
                let id = reg.next_id;
                &&& sends.len() == 2
                &&& sends[0].recipients == seq![Destination::Peer(from)]
                &&& sends[0].msg matches MessageView::JoinAccept { player_id, existing_players }
                    && player_id == id && is_snapshot(existing_players, reg.players)
                &&& is_fanout(sends[1].recipients, reg.with_joined(from).addresses, id)
                &&& sends[1].msg == MessageView::PlayerSpawn {
                    player_id: id,
                    position: zero_vec(),
                    rotation: identity_quat(),
                }
            } else {
                sends.len() == 0
            },
            MessageView::PlayerUpdate { player_id, .. } => if self.is_host()
                && reg.players.contains_key(player_id) {
                &&& sends.len() == 1
                &&& is_fanout(sends[0].recipients, reg.addresses, player_id)
                &&& sends[0].msg == m
            } else {
                sends.len() == 0
            },
            MessageView::Ping { timestamp } => if self.is_host() {
                sends == seq![
                    OutgoingView {
                        recipients: seq![Destination::Peer(from)],
                        msg: MessageView::Pong { timestamp },
                    },
                ]
            } else {
                sends.len() == 0
            },
            _ => sends.len() == 0,
        }
    }
}

/// Files a replica for every entry of a host's snapshot but the one for `own`,
/// and records a `PlayerJoined` for each.
fn add_replicas(reg: &mut PlayerRegistry, es: &Vec<PlayerEntry>, own: u32, events: &mut Vec<NetworkEvent>)
    requires
        old(reg)@.wf(),
    ensures
        final(reg)@ == (RegistryView { players: with_replicas(old(reg)@.players, es@, own), ..old(reg)@ }),
        final(reg)@.wf(),
        final(events)@ == old(events)@ + joined_events(es@, own),
{
    let mut i: usize = 0;
    while i < es.len()
        invariant
            i <= es@.len(),
            reg@.wf(),
            reg@ == (RegistryView {
                players: with_replicas(old(reg)@.players, es@.subrange(0, i as int), own),
                ..old(reg)@
            }),
            events@ == old(events)@ + joined_events(es@.subrange(0, i as int), own),
        decreases es@.len() - i,
    {
        let (id, position, rotation) = es[i];
        proof {
            assert(es@.subrange(0, i + 1).drop_last() =~= es@.subrange(0, i as int));
        }
        if id != own {
            reg.insert_replica(id, position, rotation);
            events.push(NetworkEvent::PlayerJoined(id));
        }
        assert(events@ =~= old(events)@ + joined_events(es@.subrange(0, i + 1), own));
        i = i + 1;
    }
    assert(es@.subrange(0, i as int) =~= es@);
}

impl Session {
    /// A process in no session, with nothing discovered and nobody known.
    pub fn new() -> (r: Session)
        ensures
            r@.state == NetworkState::inactive_at(0),
            r@.servers == Seq::<CatalogEntry>::empty(),
            r@.registry == (RegistryView {
                players: Map::empty(),
                addresses: Map::empty(),
                next_id: 1,
            }),
            r@.wf(),
    {
        let r = Session {
            state: NetworkState::new(),
            servers: ServerList::new(),
            registry: PlayerRegistry::new(),
        };
        assert(r@.registry =~= (RegistryView {
            players: Map::empty(),
            addresses: Map::empty(),
            next_id: 1,
        }));
        r
    }

    /// The announcement this host sends, with its current participant count.
    fn announcement(&self) -> (r: NetworkMessage)
        ensures
            r@ == announcement(self@.registry),
    {
        let name = String::from_str("LAN Server");
        proof {
            reveal_strlit("LAN Server");
        }
        NetworkMessage::ServerAnnounce {
            name,
            player_count: (self.registry.len() % 256) as u8,
            max_players: MAX_PLAYERS,
        }
    }

    /// Reacts to `msg`, received from `from` at `now`, according to the role.
    pub fn handle_message(&mut self, msg: NetworkMessage, from: PeerAddr, now: u128) -> (r: Reaction)
        requires
            old(self)@.wf(),
        ensures
            final(self)@.wf(),
            final(self)@ == old(self)@.after(msg@, from, now),
            r.events@ == old(self)@.events(msg@, from),
            old(self)@.sends_ok(msg@, from, sends_view(r.sends@)),
    {
        let ghost m = msg@;
        let mut sends: Vec<Outgoing> = Vec::new();
        let mut events: Vec<NetworkEvent> = Vec::new();
        match msg {
            NetworkMessage::ServerAnnounce { name, player_count, max_players } => {
                if self.state.mode == NetworkMode::Inactive {
                    self.servers.upsert(from, name, player_count, max_players, now);
                }
            },
            NetworkMessage::DiscoveryRequest => {
                if self.state.mode == NetworkMode::Server {
                    let recipients = vec![Destination::Peer(from)];
                    assert(recipients@ =~= seq![Destination::Peer(from)]);
                    sends.push(Outgoing { recipients, msg: self.announcement() });
                    assert(sends_view(sends@) =~= seq![sends@[0]@]);
                }
            },
            NetworkMessage::JoinRequest { .. } => {
                if self.state.mode == NetworkMode::Server && self.registry.next_id < u32::MAX {
                    let existing_players = self.registry.snapshot();
                    let id = self.registry.add_participant(from);
                    proof {
                        let r = self@.registry;
                        assert(r.players.dom() =~= r.addresses.dom());
                    }
                    let recipients = vec![Destination::Peer(from)];
                    assert(recipients@ =~= seq![Destination::Peer(from)]);
                    sends.push(Outgoing {
                        recipients,
                        msg: NetworkMessage::JoinAccept { player_id: id, existing_players },
                    });
                    let targets = self.registry.relay_targets(id);
                    sends.push(Outgoing {
                        recipients: targets,
                        msg: NetworkMessage::PlayerSpawn {
                            player_id: id,
                            position: Vec3Bits::zero(),
                            rotation: QuatBits::identity(),
                        },
                    });
                    events.push(NetworkEvent::PlayerJoined(id));
                    assert(sends_view(sends@) =~= seq![sends@[0]@, sends@[1]@]);
                }
            },
            NetworkMessage::JoinAccept { player_id, existing_players } => {
                if self.state.mode == NetworkMode::Client {
                    self.state.local_player_id = player_id;
                    add_replicas(&mut self.registry, &existing_players, player_id, &mut events);
                    events.push(NetworkEvent::ConnectedToServer(from));
                }
            },
            NetworkMessage::PlayerSpawn { player_id, position, rotation } => {
                if self.state.mode == NetworkMode::Client && player_id != self.state.local_player_id {
                    self.registry.insert_replica(player_id, position, rotation);
                    events.push(NetworkEvent::PlayerJoined(player_id));
                }
            },
            NetworkMessage::PlayerUpdate { player_id, position, rotation } => {
                if self.state.mode == NetworkMode::Server {
                    if self.registry.get(player_id).is_some() {
                        self.registry.apply_move(player_id, position, rotation);
                        let targets = self.registry.relay_targets(player_id);
                        sends.push(Outgoing {
                            recipients: targets,
                            msg: NetworkMessage::PlayerUpdate { player_id, position, rotation },
                        });
                        assert(sends_view(sends@) =~= seq![sends@[0]@]);
                        assert(self@.registry.players.dom() =~= old(self)@.registry.players.dom());
                    }
                } else if self.state.mode == NetworkMode::Client && player_id
                    != self.state.local_player_id {
                    self.registry.apply_move(player_id, position, rotation);
                    events.push(NetworkEvent::PlayerMoved(player_id, position, rotation));
                }
            },
            NetworkMessage::PlayerDisconnect { player_id } => {
                self.registry.remove(player_id);
                events.push(NetworkEvent::PlayerLeft(player_id));
                if self.state.mode == NetworkMode::Server {
                    assert(self@.registry.players.dom() =~= self@.registry.addresses.dom());
                }
            },
            NetworkMessage::Ping { timestamp } => {
                if self.state.mode == NetworkMode::Server {
                    let recipients = vec![Destination::Peer(from)];
                    assert(recipients@ =~= seq![Destination::Peer(from)]);
                    sends.push(Outgoing { recipients, msg: NetworkMessage::Pong { timestamp } });
                    assert(sends_view(sends@) =~= seq![sends@[0]@]);
                }
            },
            NetworkMessage::Pong { timestamp } => {
                if self.state.mode == NetworkMode::Client {
                    self.state.ping_ms = if now >= timestamp {
                        now - timestamp
                    } else {
                        0
                    };
                }
            },
        }
        assert(events@ =~= old(self)@.events(m, from));
        Reaction { sends, events }
    }

    /// Starts hosting at `now`, once the socket is bound to [`HOST_PORT`]: a
    /// new session, with nobody in it yet.
    pub fn create_server(&mut self, now: u128)
        requires
            old(self)@.wf(),
        ensures
            final(self)@.wf(),
            final(self)@.state == NetworkState::hosting_at(now),
            final(self)@.servers == old(self)@.servers,
            final(self)@.registry == (RegistryView {
                players: Map::empty(),
                addresses: Map::empty(),
                next_id: 1,
            }),
    {
        self.state = NetworkState::create_server(now);
        self.registry = PlayerRegistry::new();
        assert(self@.registry.players.dom() =~= self@.registry.addresses.dom());
    }

    /// Starts looking for hosts at `now`, once the socket is bound to
    /// [`DISCOVERY_PORT`]; hosts already discovered stay listed. Returns the
    /// request to broadcast.
    pub fn start_discovery(&mut self, now: u128) -> (r: Outgoing)
        requires
            old(self)@.wf(),
        ensures
            final(self)@.wf(),
            final(self)@ == (SessionView { state: NetworkState::inactive_at(now), ..old(self)@ }),
            r@ == (OutgoingView {
                recipients: seq![Destination::Broadcast(HOST_PORT)],
                msg: MessageView::DiscoveryRequest,
            }),
    {
        let (state, out) = NetworkState::start_discovery(now);
        self.state = state;
        out
    }

    /// Joins the host at `server_addr`, once a socket is connected to it.
    /// Returns the join request.
    pub fn connect_to_server(&mut self, server_addr: PeerAddr) -> (r: Outgoing)
        requires
            old(self)@.wf(),
        ensures
            final(self)@.wf(),
            final(self)@ == (SessionView {
                state: NetworkState {
                    mode: NetworkMode::Client,
                    server_addr: Some(server_addr),
                    ..old(self)@.state
                },
                ..old(self)@
            }),
            r@ == (OutgoingView {
                recipients: seq![Destination::Host],
                msg: MessageView::JoinRequest { player_name: guest_name() },
            }),
    {
        self.state.connect_to_server(server_addr)
    }

    /// Leaves the session; what was discovered and replicated stays.
    pub fn shutdown(&mut self)
        requires
            old(self)@.wf(),
        ensures
            final(self)@.wf(),
            final(self)@.state == (NetworkState {
                mode: NetworkMode::Inactive,
                server_addr: None,
                local_player_id: 0,
                ping_ms: 0,
                ..old(self)@.state
            }),
            final(self)@.servers == old(self)@.servers,
            final(self)@.registry == old(self)@.registry,
    {
        self.state.shutdown();
    }

    /// Reacts to one inbound datagram: a payload that does not decode is
    /// dropped without any effect.
    pub fn handle_datagram(&mut self, payload: &[u8], from: PeerAddr, now: u128) -> (r: Reaction)
        requires
            old(self)@.wf(),
        ensures
            final(self)@.wf(),
            match parse(payload@) {
                Some(m) => {
                    &&& final(self)@ == old(self)@.after(m, from, now)
                    &&& r.events@ == old(self)@.events(m, from)
                    &&& old(self)@.sends_ok(m, from, sends_view(r.sends@))
                },
                None => {
                    &&& final(self)@ == old(self)@
                    &&& r.sends@.len() == 0
                    &&& r.events@.len() == 0
                },
            },
    {
        match NetworkMessage::decode(payload) {
            Some(msg) => self.handle_message(msg, from, now),
            None => Reaction { sends: Vec::new(), events: Vec::new() },
        }
    }

    /// Periodic discovery upkeep at `now`: a host re-announces itself once the
    /// announcement interval has passed, and stale hosts leave the catalog.
    pub fn update_server_discovery(&mut self, now: u128) -> (r: Option<Outgoing>)
        requires
            old(self)@.wf(),
        ensures
            final(self)@.wf(),
            ({
                let pre = old(self)@;
                let due = pre.is_host() && now > pre.state.last_discovery + ANNOUNCE_EVERY_MS;
                &&& r is Some <==> due
                &&& r matches Some(o) ==> o@ == (OutgoingView {
                    recipients: seq![Destination::Broadcast(DISCOVERY_PORT)],
                    msg: announcement(pre.registry),
                })
                &&& final(self)@.state == if due {
                    NetworkState { last_discovery: now, ..pre.state }
                } else {
                    pre.state
                }
                &&& final(self)@.servers == keep_fresh(pre.servers, now)
                &&& final(self)@.registry == pre.registry
            }),
    {
        let mut out: Option<Outgoing> = None;
        if self.state.mode == NetworkMode::Server && now > self.state.last_discovery
            && now - self.state.last_discovery > ANNOUNCE_EVERY_MS {
            out = self.state.send_message(self.announcement());
            self.state.last_discovery = now;
        }
        self.servers.prune(now);
        out
    }

    /// This tick's movement sample of the local participant, if it has one:
    /// a host relays it to every participant, a joined process sends it to
    /// its host, and a process in no session sends nothing.
    pub fn sync_players(&self, local: Option<(Vec3Bits, QuatBits)>) -> (r: Option<Outgoing>)
        requires
            self@.wf(),
        ensures
            r is Some <==> (self@.state.mode != NetworkMode::Inactive && local is Some),
            r matches Some(o) ==> {
                &&& o@.msg == (MessageView::PlayerUpdate {
                    player_id: self@.state.local_player_id,
                    position: local.unwrap().0,
                    rotation: local.unwrap().1,
                })
                &&& self@.is_host() ==> is_fanout(
                    o@.recipients,
                    self@.registry.addresses,
                    self@.state.local_player_id,
                )
                &&& self@.is_joined() ==> o@.recipients == seq![Destination::Host]
            },
    {
        match local {
            None => None,
            Some((position, rotation)) => {
                let msg = NetworkMessage::PlayerUpdate {
                    player_id: self.state.local_player_id,
                    position,
                    rotation,
                };
                if self.state.mode == NetworkMode::Server {
                    let recipients = self.registry.relay_targets(self.state.local_player_id);
                    Some(Outgoing { recipients, msg })
                } else {
                    self.state.send_message(msg)
                }
            },
        }
    }

    /// A ping to the host at `now`, when joined and the ping interval has passed.
    pub fn send_ping(&mut self, now: u128) -> (r: Option<Outgoing>)
        requires
            old(self)@.wf(),
        ensures
            final(self)@.wf(),
            ({
                let pre = old(self)@;
                let due = pre.is_joined() && now >= pre.state.last_ping_sent + PING_EVERY_MS;
                &&& r is Some <==> due
                &&& r matches Some(o) ==> o@ == (OutgoingView {
                    recipients: seq![Destination::Host],
                    msg: MessageView::Ping { timestamp: now },
                })
                &&& final(self)@ == if due {
                    SessionView { state: NetworkState { last_ping_sent: now, ..pre.state }, ..pre }
                } else {
                    pre
                }
            }),
    {
        if self.state.mode != NetworkMode::Client || now < self.state.last_ping_sent
            || now - self.state.last_ping_sent < PING_EVERY_MS {
            return None;
        }
        let out = self.state.send_message(NetworkMessage::Ping { timestamp: now });
        self.state.last_ping_sent = now;
        out
    }
}

proof fn lemma_enumeration_len<V>(ids: Seq<u32>, m: Map<u32, V>, exclude: Option<u32>)
    requires
        enumerates(ids, m, exclude),
    ensures
        exclude matches Some(x) && m.contains_key(x) ==> ids.len() == m.dom().len() - 1,
        !(exclude matches Some(x) && m.contains_key(x)) ==> ids.len() == m.dom().len(),
{
    ids.unique_seq_to_set();
    match exclude {
        Some(x) => {
            assert(ids.to_set() =~= m.dom().remove(x));
            if m.contains_key(x) {
                assert(m.dom().remove(x).insert(x) =~= m.dom());
            } else {
                assert(m.dom().remove(x) =~= m.dom());
            }
        },
        None => {
            assert(ids.to_set() =~= m.dom());
        },
    }
}

/// A host with `N` participants that takes in a join request ends up with
/// `N + 1`: the newcomer gets an id that no participant holds and that is
/// above every id handed out before, and is answered with a snapshot of the
/// `N` participants it had.
pub proof fn lemma_join(s: SessionView, player_name: Seq<char>, from: PeerAddr, now: u128, sends: Seq<OutgoingView>)
    requires
        s.wf(),
        s.is_host(),
        s.registry.has_free_id(),
        s.sends_ok(MessageView::JoinRequest { player_name }, from, sends),
    ensures
        ({
            let m = MessageView::JoinRequest { player_name };
            let id = s.registry.next_id;
            let post = s.after(m, from, now);
            &&& post.registry.players.dom().len() == s.registry.players.dom().len() + 1
            &&& !s.registry.players.contains_key(id)
            &&& post.registry.players.contains_key(id)
            &&& forall|old_id: u32| #[trigger] s.registry.players.contains_key(old_id) ==> old_id < id
            &&& id < post.registry.next_id
            &&& post.wf()
            &&& sends[0].msg matches MessageView::JoinAccept { player_id, existing_players }
                && player_id == id && existing_players.len() == s.registry.players.dom().len()
            &&& s.events(m, from) == seq![NetworkEvent::PlayerJoined(id)]
        }),
{
    let id = s.registry.next_id;
    let pre = s.registry.players;
    assert(pre.dom().finite()) by {
        if let MessageView::JoinAccept { existing_players, .. } = sends[0].msg {
            let ids = choose|ids: Seq<u32>|
                enumerates(ids, pre, None) && existing_players == ids.map_values(
                    |i: u32| crate::registry::entry_of(pre, i),
                );
            assert(ids.to_set() =~= pre.dom());
        }
    }
    if let MessageView::JoinAccept { existing_players, .. } = sends[0].msg {
        let ids = choose|ids: Seq<u32>|
            enumerates(ids, pre, None) && existing_players == ids.map_values(
                |i: u32| crate::registry::entry_of(pre, i),
            );
        lemma_enumeration_len(ids, pre, None);
    }
    assert(s.registry.with_joined(from).players.dom() =~= pre.dom().insert(id));
}

/// A host relays an update from a known participant to every other
/// participant exactly once, and to nobody else; in particular it never goes
/// back to its sender, when no other participant shares the sender's address.
pub proof fn lemma_relay_excludes_sender(
    s: SessionView,
    player_id: u32,
    position: Vec3Bits,
    rotation: QuatBits,
    from: PeerAddr,
    sends: Seq<OutgoingView>,
)
    requires
        s.wf(),
        s.is_host(),
        s.registry.players.contains_key(player_id),
        s.sends_ok(MessageView::PlayerUpdate { player_id, position, rotation }, from, sends),
    ensures
        ({
            let addrs = s.registry.addresses;
            let to = sends[0].recipients;
            &&& sends.len() == 1
            &&& to.len() == addrs.dom().len() - 1
            &&& forall|other: u32| #[trigger] addrs.contains_key(other) && other != player_id
                ==> to.contains(Destination::Peer(addrs[other]))
            &&& forall|d: Destination| #[trigger] to.contains(d) ==> exists|other: u32|
                addrs.contains_key(other) && other != player_id && d == Destination::Peer(
                    #[trigger] addrs[other],
                )
            &&& (forall|other: u32| #[trigger] addrs.contains_key(other) && other != player_id
                ==> addrs[other] != addrs[player_id]) ==> !to.contains(
                Destination::Peer(addrs[player_id]),
            )
        }),
{
    let addrs = s.registry.addresses;
    let to = sends[0].recipients;
    let ids = choose|ids: Seq<u32>|
        enumerates(ids, addrs, Some(player_id)) && to == ids.map_values(
            |id: u32| Destination::Peer(addrs[id]),
        );
    lemma_enumeration_len(ids, addrs, Some(player_id));
    assert forall|other: u32| #[trigger] addrs.contains_key(other) && other != player_id implies to.contains(
        Destination::Peer(addrs[other]),
    ) by {
        assert(ids.contains(other));
        let j = choose|j: int| 0 <= j < ids.len() && ids[j] == other;
        assert(to[j] == Destination::Peer(addrs[other]));
    }
    assert forall|d: Destination| #[trigger] to.contains(d) implies exists|other: u32|
        addrs.contains_key(other) && other != player_id && d == Destination::Peer(
            #[trigger] addrs[other],
        ) by {
        let j = choose|j: int| 0 <= j < to.len() && to[j] == d;
        assert(ids.contains(ids[j]));
    }
}

/// A joined process that gets the answer to a ping sent at `sent` at a time
/// `now` no earlier stores `now - sent` milliseconds as its latency.
pub proof fn lemma_latency(s: SessionView, sent: u128, from: PeerAddr, now: u128)
    requires
        s.is_joined(),
        sent <= now,
    ensures
        s.after(MessageView::Pong { timestamp: sent }, from, now).state.ping_ms == now - sent,
{
}

/// Removing a participant twice leaves the session as removing it once: the
/// second notice changes nothing.
pub proof fn lemma_disconnect_idempotent(s: SessionView, player_id: u32, from1: PeerAddr, now1: u128, from2: PeerAddr, now2: u128)
    ensures
        ({
            let m = MessageView::PlayerDisconnect { player_id };
            let once = s.after(m, from1, now1);
            once.after(m, from2, now2) == once
        }),
{
    let once = s.after(MessageView::PlayerDisconnect { player_id }, from1, now1);
    assert(once.registry.players.remove(player_id) =~= once.registry.players);
    assert(once.registry.addresses.remove(player_id) =~= once.registry.addresses);
}

} // verus!
