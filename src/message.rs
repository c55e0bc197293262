use vstd::prelude::*;
use crate::types::{QuatBits, Vec3Bits};

verus! {

/// One participant in a join snapshot: its id, position and orientation.
pub type PlayerEntry = (u32, Vec3Bits, QuatBits);

/// The closed set of messages exchanged between peers; one per datagram.
#[derive(Debug, Clone, PartialEq, Eq)]
pub enum NetworkMessage {
    ServerAnnounce { name: String, player_count: u8, max_players: u8 },
    DiscoveryRequest,
    JoinRequest { player_name: String },
    JoinAccept { player_id: u32, existing_players: Vec<PlayerEntry> },
    PlayerSpawn { player_id: u32, position: Vec3Bits, rotation: QuatBits },
    PlayerUpdate { player_id: u32, position: Vec3Bits, rotation: QuatBits },
    PlayerDisconnect { player_id: u32 },
    Ping { timestamp: u128 },
    Pong { timestamp: u128 },
}

/// Mathematical model of a [`NetworkMessage`]: strings as characters, lists as sequences.
pub enum MessageView {
    ServerAnnounce { name: Seq<char>, player_count: u8, max_players: u8 },
    DiscoveryRequest,
    JoinRequest { player_name: Seq<char> },
    JoinAccept { player_id: u32, existing_players: Seq<PlayerEntry> },
    PlayerSpawn { player_id: u32, position: Vec3Bits, rotation: QuatBits },
    PlayerUpdate { player_id: u32, position: Vec3Bits, rotation: QuatBits },
    PlayerDisconnect { player_id: u32 },
    Ping { timestamp: u128 },
    Pong { timestamp: u128 },
}

impl View for NetworkMessage {
    type V = MessageView;

    open spec fn view(&self) -> MessageView {
        match self {
            NetworkMessage::ServerAnnounce { name, player_count, max_players } =>
                MessageView::ServerAnnounce {
                    name: name@,
                    player_count: *player_count,
                    max_players: *max_players,
                },
            NetworkMessage::DiscoveryRequest => MessageView::DiscoveryRequest,
            NetworkMessage::JoinRequest { player_name } =>
                MessageView::JoinRequest { player_name: player_name@ },
            NetworkMessage::JoinAccept { player_id, existing_players } =>
                MessageView::JoinAccept {
                    player_id: *player_id,
                    existing_players: existing_players@,
                },
            NetworkMessage::PlayerSpawn { player_id, position, rotation } =>
                MessageView::PlayerSpawn {
                    player_id: *player_id,
                    position: *position,
                    rotation: *rotation,
                },
            NetworkMessage::PlayerUpdate { player_id, position, rotation } =>
                MessageView::PlayerUpdate {
                    player_id: *player_id,
                    position: *position,
                    rotation: *rotation,
                },
            NetworkMessage::PlayerDisconnect { player_id } =>
                MessageView::PlayerDisconnect { player_id: *player_id },
            NetworkMessage::Ping { timestamp } => MessageView::Ping { timestamp: *timestamp },
            NetworkMessage::Pong { timestamp } => MessageView::Pong { timestamp: *timestamp },
        }
    }
}

} // verus!
