use lspire::catalog::ServerList;
use lspire::message::NetworkMessage;
use lspire::registry::{Destination, PlayerRegistry};
use lspire::session::{
    NetworkEvent, NetworkMode, NetworkState, Session, DISCOVERY_PORT, HOST_PORT,
};
use lspire::types::{PeerAddr, QuatBits, Vec3Bits};
use lspire::world::WeatherState;

fn addr(n: u32) -> PeerAddr {
    PeerAddr::V4 { ip: 0x0a00_0000 + n, port: 40000 }
}

fn v3(x: f32, y: f32, z: f32) -> Vec3Bits {
    Vec3Bits { x: x.to_bits(), y: y.to_bits(), z: z.to_bits() }
}

fn identity() -> QuatBits {
    QuatBits { x: 0.0f32.to_bits(), y: 0.0f32.to_bits(), z: 0.0f32.to_bits(), w: 1.0f32.to_bits() }
}

fn join_request() -> NetworkMessage {
    NetworkMessage::JoinRequest { player_name: "Player".to_string() }
}

fn host() -> Session {
    let mut s = Session::new();
    s.create_server(0);
    s
}

fn joined(host_addr: PeerAddr) -> Session {
    let mut s = Session::new();
    let _ = s.connect_to_server(host_addr);
    s
}

fn sorted_peers(recipients: &[Destination]) -> Vec<PeerAddr> {
    let mut v: Vec<PeerAddr> = recipients
        .iter()
        .map(|d| match d {
            Destination::Peer(a) => *a,
            other => panic!("unexpected destination {:?}", other),
        })
        .collect();
    v.sort_by_key(|a| format!("{:?}", a));
    v
}

#[test]
fn end_to_end_host_scenario() {
    let mut s = host();
    assert_eq!(s.state.mode, NetworkMode::Server);
    assert_eq!(s.registry.len(), 0);

    let x = addr(1);
    let r = s.handle_message(join_request(), x, 10);
    assert_eq!(r.events, vec![NetworkEvent::PlayerJoined(1)]);
    assert_eq!(s.registry.len(), 1);
    let p1 = s.registry.get(1).unwrap();
    assert_eq!(p1.position, v3(0.0, 0.0, 0.0));
    assert_eq!(s.registry.address_of(1), Some(x));

    let update = NetworkMessage::PlayerUpdate { player_id: 1, position: v3(1.0, 2.0, 3.0), rotation: identity() };
    let r = s.handle_message(update, x, 20);
    assert_eq!(s.registry.get(1).unwrap().position, v3(1.0, 2.0, 3.0));
    assert_eq!(r.sends.len(), 1);
    assert!(r.sends[0].recipients.is_empty());

    let y = addr(2);
    let r = s.handle_message(join_request(), y, 30);
    assert_eq!(r.events, vec![NetworkEvent::PlayerJoined(2)]);
    assert_eq!(r.sends.len(), 2);
    assert_eq!(r.sends[0].recipients, vec![Destination::Peer(y)]);
    assert_eq!(r.sends[1].recipients, vec![Destination::Peer(x)]);
    assert_eq!(
        r.sends[1].msg,
        NetworkMessage::PlayerSpawn { player_id: 2, position: v3(0.0, 0.0, 0.0), rotation: identity() }
    );
}

#[test]
fn join_answers_with_snapshot_of_existing_participants() {
    let mut s = host();
    let _ = s.handle_message(join_request(), addr(1), 1);
    let _ = s.handle_message(join_request(), addr(2), 2);
    let before = s.registry.len();
    let r = s.handle_message(join_request(), addr(3), 3);
    assert_eq!(s.registry.len(), before + 1);
    match &r.sends[0].msg {
        NetworkMessage::JoinAccept { player_id, existing_players } => {
            assert_eq!(*player_id, 3);
            assert_eq!(existing_players.len(), before);
            let mut ids: Vec<u32> = existing_players.iter().map(|e| e.0).collect();
            ids.sort();
            assert_eq!(ids, vec![1, 2]);
        }
        other => panic!("expected a join accept, got {:?}", other),
    }
    assert_eq!(sorted_peers(&r.sends[1].recipients), sorted_peers(&[Destination::Peer(addr(1)), Destination::Peer(addr(2))]));
}

#[test]
fn ids_are_not_reused_after_a_disconnect() {
    let mut s = host();
    let _ = s.handle_message(join_request(), addr(1), 1);
    let _ = s.handle_message(join_request(), addr(2), 2);
    let r = s.handle_message(NetworkMessage::PlayerDisconnect { player_id: 2 }, addr(2), 3);
    assert_eq!(r.events, vec![NetworkEvent::PlayerLeft(2)]);
    assert_eq!(s.registry.address_of(2), None);
    let r = s.handle_message(join_request(), addr(3), 4);
    assert_eq!(r.events, vec![NetworkEvent::PlayerJoined(3)]);
    assert!(s.registry.get(2).is_none());
}

#[test]
fn relay_goes_to_every_other_participant() {
    let mut s = host();
    for n in 1..=3 {
        let _ = s.handle_message(join_request(), addr(n), n as u128);
    }
    let update = NetworkMessage::PlayerUpdate { player_id: 1, position: v3(5.0, 0.0, 0.0), rotation: identity() };
    let r = s.handle_message(update.clone(), addr(1), 10);
    assert_eq!(r.sends.len(), 1);
    assert_eq!(r.sends[0].msg, update);
    assert_eq!(
        sorted_peers(&r.sends[0].recipients),
        sorted_peers(&[Destination::Peer(addr(2)), Destination::Peer(addr(3))])
    );
    assert!(r.events.is_empty());
}

#[test]
fn host_ignores_update_for_unknown_id() {
    let mut s = host();
    let _ = s.handle_message(join_request(), addr(1), 1);
    let update = NetworkMessage::PlayerUpdate { player_id: 42, position: v3(5.0, 0.0, 0.0), rotation: identity() };
    let r = s.handle_message(update, addr(9), 2);
    assert!(r.sends.is_empty());
    assert_eq!(s.registry.len(), 1);
}

#[test]
fn disconnect_twice_is_same_as_once() {
    let mut s = host();
    for n in 1..=3 {
        let _ = s.handle_message(join_request(), addr(n), n as u128);
    }
    let _ = s.handle_message(NetworkMessage::PlayerDisconnect { player_id: 2 }, addr(2), 5);
    let after_once: Vec<Option<_>> = (0..5).map(|id| s.registry.get(id)).collect();
    let r = s.handle_message(NetworkMessage::PlayerDisconnect { player_id: 2 }, addr(2), 6);
    let after_twice: Vec<Option<_>> = (0..5).map(|id| s.registry.get(id)).collect();
    assert_eq!(after_once, after_twice);
    assert_eq!(s.registry.len(), 2);
    assert_eq!(r.events, vec![NetworkEvent::PlayerLeft(2)]);
}

#[test]
fn pong_sets_latency() {
    let mut s = joined(addr(100));
    let ping = s.send_ping(1_000).unwrap();
    assert_eq!(ping.recipients, vec![Destination::Host]);
    assert_eq!(ping.msg, NetworkMessage::Ping { timestamp: 1_000 });
    let _ = s.handle_message(NetworkMessage::Pong { timestamp: 1_000 }, addr(100), 1_037);
    assert_eq!(s.state.ping_ms, 37);
}

#[test]
fn pong_from_the_future_gives_zero_latency() {
    let mut s = joined(addr(100));
    let _ = s.handle_message(NetworkMessage::Pong { timestamp: 500 }, addr(100), 400);
    assert_eq!(s.state.ping_ms, 0);
}

#[test]
fn ping_waits_for_its_interval() {
    let mut s = joined(addr(100));
    assert!(s.send_ping(499).is_none());
    assert!(s.send_ping(500).is_some());
    assert_eq!(s.state.last_ping_sent, 500);
    assert!(s.send_ping(999).is_none());
    assert!(s.send_ping(1000).is_some());
}

#[test]
fn host_does_not_ping() {
    let mut s = host();
    assert!(s.send_ping(10_000).is_none());
}

#[test]
fn host_answers_ping_with_same_timestamp() {
    let mut s = host();
    let r = s.handle_message(NetworkMessage::Ping { timestamp: 77 }, addr(5), 100);
    assert_eq!(r.sends.len(), 1);
    assert_eq!(r.sends[0].recipients, vec![Destination::Peer(addr(5))]);
    assert_eq!(r.sends[0].msg, NetworkMessage::Pong { timestamp: 77 });
}

#[test]
fn host_answers_discovery_with_announcement() {
    let mut s = host();
    let _ = s.handle_message(join_request(), addr(1), 1);
    let r = s.handle_message(NetworkMessage::DiscoveryRequest, addr(7), 2);
    assert_eq!(r.sends.len(), 1);
    assert_eq!(r.sends[0].recipients, vec![Destination::Peer(addr(7))]);
    assert_eq!(
        r.sends[0].msg,
        NetworkMessage::ServerAnnounce { name: "LAN Server".to_string(), player_count: 1, max_players: 8 }
    );
}

#[test]
fn joiner_ignores_discovery_and_join_requests() {
    let mut s = joined(addr(100));
    let r = s.handle_message(NetworkMessage::DiscoveryRequest, addr(7), 2);
    assert!(r.sends.is_empty());
    let r = s.handle_message(join_request(), addr(7), 3);
    assert!(r.sends.is_empty() && r.events.is_empty());
    assert_eq!(s.registry.len(), 0);
}

#[test]
fn joiner_adopts_id_and_replicas_from_join_accept() {
    let host_addr = addr(100);
    let mut s = joined(host_addr);
    assert_eq!(s.state.local_player_id, 0);
    let accept = NetworkMessage::JoinAccept {
        player_id: 3,
        existing_players: vec![(1, v3(1.0, 0.0, 0.0), identity()), (3, v3(9.0, 9.0, 9.0), identity()), (2, v3(2.0, 0.0, 0.0), identity())],
    };
    let r = s.handle_message(accept, host_addr, 5);
    assert_eq!(s.state.local_player_id, 3);
    assert_eq!(
        r.events,
        vec![NetworkEvent::PlayerJoined(1), NetworkEvent::PlayerJoined(2), NetworkEvent::ConnectedToServer(host_addr)]
    );
    assert_eq!(s.registry.len(), 2);
    assert_eq!(s.registry.get(2).unwrap().position, v3(2.0, 0.0, 0.0));
    assert!(s.registry.get(3).is_none());
}

#[test]
fn joiner_spawns_and_moves_foreign_participants_only() {
    let host_addr = addr(100);
    let mut s = joined(host_addr);
    let _ = s.handle_message(NetworkMessage::JoinAccept { player_id: 4, existing_players: vec![] }, host_addr, 1);
    let r = s.handle_message(NetworkMessage::PlayerSpawn { player_id: 4, position: v3(0.0, 0.0, 0.0), rotation: identity() }, host_addr, 2);
    assert!(r.events.is_empty());
    let r = s.handle_message(NetworkMessage::PlayerSpawn { player_id: 5, position: v3(0.0, 0.0, 0.0), rotation: identity() }, host_addr, 3);
    assert_eq!(r.events, vec![NetworkEvent::PlayerJoined(5)]);
    s.registry.set_entity(5, 99);
    let r = s.handle_message(NetworkMessage::PlayerUpdate { player_id: 5, position: v3(1.0, 1.0, 1.0), rotation: identity() }, host_addr, 4);
    assert_eq!(r.events, vec![NetworkEvent::PlayerMoved(5, v3(1.0, 1.0, 1.0), identity())]);
    let p5 = s.registry.get(5).unwrap();
    assert_eq!(p5.position, v3(1.0, 1.0, 1.0));
    assert_eq!(p5.entity, Some(99));
    let r = s.handle_message(NetworkMessage::PlayerUpdate { player_id: 4, position: v3(1.0, 1.0, 1.0), rotation: identity() }, host_addr, 5);
    assert!(r.events.is_empty());
    assert!(s.registry.get(4).is_none());
}

#[test]
fn joiner_inserts_replica_on_update_before_spawn() {
    let host_addr = addr(100);
    let mut s = joined(host_addr);
    let r = s.handle_message(NetworkMessage::PlayerUpdate { player_id: 8, position: v3(3.0, 0.0, 0.0), rotation: identity() }, host_addr, 4);
    assert_eq!(r.events, vec![NetworkEvent::PlayerMoved(8, v3(3.0, 0.0, 0.0), identity())]);
    assert_eq!(s.registry.get(8).unwrap().entity, None);
}

#[test]
fn discovering_process_lists_announcing_hosts() {
    let mut s = Session::new();
    let req = s.start_discovery(1_000);
    assert_eq!(req.recipients, vec![Destination::Broadcast(HOST_PORT)]);
    assert_eq!(req.msg, NetworkMessage::DiscoveryRequest);
    let ann = NetworkMessage::ServerAnnounce { name: "LAN Server".to_string(), player_count: 2, max_players: 8 };
    let _ = s.handle_message(ann.clone(), addr(50), 1_100);
    let _ = s.handle_message(ann, addr(51), 1_200);
    assert_eq!(s.servers.len(), 2);
    assert!(s.servers.contains(addr(50)));
    let info = &s.servers.entries()[0].1;
    assert_eq!(info.name, "LAN Server");
    assert_eq!(info.player_count, 2);
    assert_eq!(info.last_seen, 1_100);
}

#[test]
fn host_does_not_list_announcements() {
    let mut s = host();
    let ann = NetworkMessage::ServerAnnounce { name: "Other".to_string(), player_count: 0, max_players: 8 };
    let _ = s.handle_message(ann, addr(50), 1);
    assert_eq!(s.servers.len(), 0);
}

#[test]
fn catalog_entry_expires_after_five_seconds() {
    let mut s = Session::new();
    let _ = s.start_discovery(0);
    let ann = NetworkMessage::ServerAnnounce { name: "LAN Server".to_string(), player_count: 0, max_players: 8 };
    let _ = s.handle_message(ann, addr(50), 1_000);
    assert!(s.update_server_discovery(3_000).is_none());
    assert!(s.servers.contains(addr(50)));
    let _ = s.update_server_discovery(6_000);
    assert!(s.servers.contains(addr(50)));
    let _ = s.update_server_discovery(6_001);
    assert!(!s.servers.contains(addr(50)));
}

#[test]
fn refreshed_entry_stays_in_place() {
    let mut list = ServerList::new();
    list.upsert(addr(1), "A".to_string(), 0, 8, 100);
    list.upsert(addr(2), "B".to_string(), 0, 8, 200);
    list.upsert(addr(1), "A2".to_string(), 3, 8, 7_000);
    assert_eq!(list.len(), 2);
    assert_eq!(list.entries()[0].0, addr(1));
    assert_eq!(list.entries()[0].1.name, "A2");
    list.prune(7_000);
    assert_eq!(list.len(), 1);
    assert!(list.contains(addr(1)));
    assert!(!list.contains(addr(2)));
}

#[test]
fn host_announces_every_two_seconds() {
    let mut s = host();
    let _ = s.handle_message(join_request(), addr(1), 1);
    assert!(s.update_server_discovery(2_000).is_none());
    let out = s.update_server_discovery(2_001).unwrap();
    assert_eq!(out.recipients, vec![Destination::Broadcast(DISCOVERY_PORT)]);
    assert_eq!(
        out.msg,
        NetworkMessage::ServerAnnounce { name: "LAN Server".to_string(), player_count: 1, max_players: 8 }
    );
    assert_eq!(s.state.last_discovery, 2_001);
    assert!(s.update_server_discovery(4_001).is_none());
    assert!(s.update_server_discovery(4_002).is_some());
}

#[test]
fn sync_sends_local_sample_by_role() {
    let sample = Some((v3(1.0, 2.0, 3.0), identity()));
    let idle = Session::new();
    assert!(idle.sync_players(sample).is_none());

    let c = joined(addr(100));
    let out = c.sync_players(sample).unwrap();
    assert_eq!(out.recipients, vec![Destination::Host]);
    assert_eq!(out.msg, NetworkMessage::PlayerUpdate { player_id: 0, position: v3(1.0, 2.0, 3.0), rotation: identity() });
    assert!(c.sync_players(None).is_none());

    let mut h = host();
    let _ = h.handle_message(join_request(), addr(1), 1);
    let _ = h.handle_message(join_request(), addr(2), 2);
    let out = h.sync_players(sample).unwrap();
    assert_eq!(
        sorted_peers(&out.recipients),
        sorted_peers(&[Destination::Peer(addr(1)), Destination::Peer(addr(2))])
    );
}

#[test]
fn undecodable_datagram_changes_nothing() {
    let mut s = host();
    let r = s.handle_datagram(&[0xff, 0xff], addr(1), 5);
    assert!(r.sends.is_empty() && r.events.is_empty());
    assert_eq!(s.registry.len(), 0);
    let r = s.handle_datagram(&join_request().encode(), addr(1), 6);
    assert_eq!(r.events, vec![NetworkEvent::PlayerJoined(1)]);
}

#[test]
fn send_message_routes_by_role() {
    let idle = NetworkState::new();
    assert!(idle.send_message(NetworkMessage::DiscoveryRequest).is_none());
    let h = NetworkState::create_server(0);
    let out = h.send_message(NetworkMessage::DiscoveryRequest).unwrap();
    assert_eq!(out.recipients, vec![Destination::Broadcast(DISCOVERY_PORT)]);
    let mut c = NetworkState::new();
    let req = c.connect_to_server(addr(9));
    assert_eq!(req.msg, join_request());
    assert_eq!(c.mode, NetworkMode::Client);
    assert_eq!(c.server_addr, Some(addr(9)));
    let out = c.send_message(NetworkMessage::Ping { timestamp: 1 }).unwrap();
    assert_eq!(out.recipients, vec![Destination::Host]);
}

#[test]
fn shutdown_returns_to_inactive() {
    let mut s = joined(addr(100));
    s.shutdown();
    assert_eq!(s.state.mode, NetworkMode::Inactive);
    assert_eq!(s.state.server_addr, None);
}

#[test]
fn create_server_starts_an_empty_session() {
    let mut s = joined(addr(100));
    let _ = s.handle_message(NetworkMessage::PlayerSpawn { player_id: 5, position: v3(0.0, 0.0, 0.0), rotation: identity() }, addr(100), 1);
    s.create_server(50);
    assert_eq!(s.registry.len(), 0);
    let r = s.handle_message(join_request(), addr(1), 60);
    assert_eq!(r.events, vec![NetworkEvent::PlayerJoined(1)]);
}

#[test]
fn registry_starts_empty() {
    let r = PlayerRegistry::new();
    assert_eq!(r.len(), 0);
    assert_eq!(r.next_id, 1);
}

#[test]
fn weather_states_compare() {
    let w = WeatherState::LightFog;
    assert_eq!(w, WeatherState::LightFog);
    assert_ne!(w, WeatherState::HeavyFog);
    assert_ne!(WeatherState::Clear, WeatherState::HeavyFog);
}
