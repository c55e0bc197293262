use lspire::message::NetworkMessage;
use lspire::types::{QuatBits, Vec3Bits};

fn v3(x: f32, y: f32, z: f32) -> Vec3Bits {
    Vec3Bits { x: x.to_bits(), y: y.to_bits(), z: z.to_bits() }
}

fn quat(x: f32, y: f32, z: f32, w: f32) -> QuatBits {
    QuatBits { x: x.to_bits(), y: y.to_bits(), z: z.to_bits(), w: w.to_bits() }
}

fn all_kinds() -> Vec<NetworkMessage> {
    vec![
        NetworkMessage::ServerAnnounce { name: "LAN Server".to_string(), player_count: 3, max_players: 8 },
        NetworkMessage::DiscoveryRequest,
        NetworkMessage::JoinRequest { player_name: "Jürgen ✓".to_string() },
        NetworkMessage::JoinAccept {
            player_id: 4,
            existing_players: vec![
                (1, v3(1.0, 2.0, 3.0), quat(0.0, 0.0, 0.0, 1.0)),
                (3, v3(-4.5, 0.25, 1e9), quat(0.5, 0.5, 0.5, 0.5)),
            ],
        },
        NetworkMessage::JoinAccept { player_id: 1, existing_players: vec![] },
        NetworkMessage::PlayerSpawn { player_id: 7, position: v3(0.0, 0.0, 0.0), rotation: quat(0.0, 0.0, 0.0, 1.0) },
        NetworkMessage::PlayerUpdate { player_id: 2, position: v3(1.0, 2.0, 3.0), rotation: quat(0.0, 1.0, 0.0, 0.0) },
        NetworkMessage::PlayerDisconnect { player_id: u32::MAX },
        NetworkMessage::Ping { timestamp: 1_700_000_000_123 },
        NetworkMessage::Pong { timestamp: u128::MAX },
    ]
}

#[test]
fn round_trip_every_kind() {
    for m in all_kinds() {
        let bytes = m.encode();
        assert_eq!(NetworkMessage::decode(&bytes), Some(m.clone()));
    }
}

#[test]
fn round_trip_ignores_trailing_bytes() {
    for m in all_kinds() {
        let mut bytes = m.encode();
        bytes.extend_from_slice(&[0xde, 0xad, 0xbe, 0xef]);
        assert_eq!(NetworkMessage::decode(&bytes), Some(m));
    }
}

#[test]
fn layout_of_discovery_request() {
    assert_eq!(NetworkMessage::DiscoveryRequest.encode(), vec![1, 0, 0, 0]);
}

#[test]
fn layout_of_disconnect() {
    let m = NetworkMessage::PlayerDisconnect { player_id: 0x0102_0304 };
    assert_eq!(m.encode(), vec![6, 0, 0, 0, 4, 3, 2, 1]);
}

#[test]
fn layout_of_join_request() {
    let m = NetworkMessage::JoinRequest { player_name: "Player".to_string() };
    let mut expected = vec![2, 0, 0, 0, 6, 0, 0, 0, 0, 0, 0, 0];
    expected.extend_from_slice(b"Player");
    assert_eq!(m.encode(), expected);
}

#[test]
fn same_bytes_as_bincode_for_announce() {
    let m = NetworkMessage::ServerAnnounce { name: "LAN Server".to_string(), player_count: 2, max_players: 8 };
    let expected = bincode::serialize(&(0u32, "LAN Server".to_string(), 2u8, 8u8)).unwrap();
    assert_eq!(m.encode(), expected);
}

#[test]
fn same_bytes_as_bincode_for_update() {
    let m = NetworkMessage::PlayerUpdate { player_id: 9, position: v3(1.0, -2.0, 3.5), rotation: quat(0.0, 0.0, 0.0, 1.0) };
    let expected =
        bincode::serialize(&(5u32, 9u32, (1.0f32, -2.0f32, 3.5f32), (0.0f32, 0.0f32, 0.0f32, 1.0f32))).unwrap();
    assert_eq!(m.encode(), expected);
}

#[test]
fn same_bytes_as_bincode_for_join_accept() {
    let m = NetworkMessage::JoinAccept {
        player_id: 3,
        existing_players: vec![(1, v3(1.0, 2.0, 3.0), quat(0.0, 0.0, 0.0, 1.0)), (2, v3(0.0, 0.0, 0.0), quat(1.0, 0.0, 0.0, 0.0))],
    };
    let expected = bincode::serialize(&(
        3u32,
        3u32,
        vec![
            (1u32, (1.0f32, 2.0f32, 3.0f32), (0.0f32, 0.0f32, 0.0f32, 1.0f32)),
            (2u32, (0.0f32, 0.0f32, 0.0f32), (1.0f32, 0.0f32, 0.0f32, 0.0f32)),
        ],
    ))
    .unwrap();
    assert_eq!(m.encode(), expected);
}

#[test]
fn same_bytes_as_bincode_for_ping() {
    let m = NetworkMessage::Ping { timestamp: 1_234_567_890_123 };
    let expected = bincode::serialize(&(7u32, 1_234_567_890_123u128)).unwrap();
    assert_eq!(m.encode(), expected);
}

#[test]
fn decode_rejects_empty_payload() {
    assert_eq!(NetworkMessage::decode(&[]), None);
}

#[test]
fn decode_rejects_unknown_tag() {
    assert_eq!(NetworkMessage::decode(&[9, 0, 0, 0]), None);
}

#[test]
fn decode_rejects_truncated_messages() {
    for m in all_kinds() {
        let bytes = m.encode();
        if bytes.len() > 4 {
            assert_eq!(NetworkMessage::decode(&bytes[..bytes.len() - 1]), None);
        }
    }
}

#[test]
fn decode_rejects_invalid_utf8_name() {
    let bytes = vec![2, 0, 0, 0, 2, 0, 0, 0, 0, 0, 0, 0, 0xc3, 0x28];
    assert_eq!(NetworkMessage::decode(&bytes), None);
}

#[test]
fn decode_reads_the_name_characters() {
    let mut bytes = vec![2, 0, 0, 0, 3, 0, 0, 0, 0, 0, 0, 0];
    bytes.extend_from_slice("añ".as_bytes());
    assert_eq!(
        NetworkMessage::decode(&bytes),
        Some(NetworkMessage::JoinRequest { player_name: "añ".to_string() })
    );
}

#[test]
fn decode_rejects_length_beyond_payload() {
    let bytes = vec![3, 0, 0, 0, 1, 0, 0, 0, 0xff, 0xff, 0xff, 0xff, 0xff, 0xff, 0xff, 0xff];
    assert_eq!(NetworkMessage::decode(&bytes), None);
}
