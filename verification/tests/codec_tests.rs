use replication::codec::{
    decode_client_message, decode_server_message, encode_client_message, encode_server_message,
};
use replication::protocol::{
    ClientMessage, NetworkTransform, NetworkedEntityType, PeerSession, QuatBits, ServerMessage,
    Transform, Vec3Bits,
};

fn v3(x: f32, y: f32, z: f32) -> Vec3Bits {
    Vec3Bits { x: x.to_bits(), y: y.to_bits(), z: z.to_bits() }
}

fn q4(x: f32, y: f32, z: f32, w: f32) -> QuatBits {
    QuatBits { x: x.to_bits(), y: y.to_bits(), z: z.to_bits(), w: w.to_bits() }
}

fn sample_transform() -> Transform {
    Transform { translation: v3(1.5, -2.25, 3.0), rotation: q4(0.0, 0.7071, 0.0, 0.7071), scale: v3(1.0, 1.0, 1.0) }
}

fn sample_snapshot() -> NetworkTransform {
    NetworkTransform {
        position: v3(10.0, 20.0, -30.5),
        rotation: q4(0.5, 0.5, 0.5, 0.5),
        scale: v3(2.0, 2.0, 2.0),
        velocity: v3(0.0, -9.81, 0.25),
    }
}

fn client_round_trip(m: ClientMessage) {
    let bytes = encode_client_message(&m);
    assert_eq!(decode_client_message(&bytes), Some(m));
}

fn server_round_trip(m: ServerMessage) {
    let bytes = encode_server_message(&m);
    assert_eq!(decode_server_message(&bytes), Some(m));
}

#[test]
fn round_trip_join() {
    client_round_trip(ClientMessage::Join { display_name: String::from("Alice") });
}

#[test]
fn round_trip_join_empty_name() {
    client_round_trip(ClientMessage::Join { display_name: String::new() });
}

#[test]
fn round_trip_join_unicode_name() {
    client_round_trip(ClientMessage::Join { display_name: String::from("Ålïçé 🦀 名前") });
}

#[test]
fn round_trip_disconnect() {
    client_round_trip(ClientMessage::Disconnect);
}

#[test]
fn round_trip_update_self() {
    client_round_trip(ClientMessage::UpdateSelf {
        transform: sample_transform(),
        velocity: v3(0.1, 0.2, 0.3),
    });
}

#[test]
fn round_trip_update_self_zero_vectors() {
    client_round_trip(ClientMessage::UpdateSelf {
        transform: Transform { translation: v3(0.0, 0.0, 0.0), rotation: q4(0.0, 0.0, 0.0, 0.0), scale: v3(0.0, 0.0, 0.0) },
        velocity: v3(0.0, 0.0, 0.0),
    });
}

#[test]
fn round_trip_update_self_max_magnitude() {
    client_round_trip(ClientMessage::UpdateSelf {
        transform: Transform {
            translation: v3(f32::MAX, f32::MIN, f32::MAX),
            rotation: q4(f32::MAX, f32::MIN, f32::MAX, f32::MIN),
            scale: v3(f32::MIN, f32::MAX, f32::MIN),
        },
        velocity: v3(f32::MAX, f32::MIN, f32::MAX),
    });
}

#[test]
fn round_trip_spawn_entity() {
    client_round_trip(ClientMessage::SpawnEntity {
        entity_id: u64::MAX,
        entity_type: NetworkedEntityType::Bullet(2),
        transform: sample_snapshot(),
    });
}

#[test]
fn round_trip_spawn_entity_portal() {
    client_round_trip(ClientMessage::SpawnEntity {
        entity_id: 0,
        entity_type: NetworkedEntityType::Portal(1),
        transform: sample_snapshot(),
    });
}

#[test]
fn round_trip_update_entity() {
    client_round_trip(ClientMessage::UpdateEntity { entity_id: 7, transform: sample_snapshot() });
}

#[test]
fn round_trip_despawn_entity() {
    client_round_trip(ClientMessage::DespawnEntity { entity_id: 42 });
}

#[test]
fn round_trip_peer_joined() {
    server_round_trip(ServerMessage::PeerJoined { peer_id: 2, display_name: String::from("Bob") });
}

#[test]
fn round_trip_peer_left() {
    server_round_trip(ServerMessage::PeerLeft { peer_id: 1 });
}

#[test]
fn round_trip_self_update() {
    server_round_trip(ServerMessage::SelfUpdate {
        peer_id: 3,
        transform: sample_transform(),
        velocity: v3(-1.0, 0.0, 1.0),
    });
}

#[test]
fn round_trip_entity_spawned() {
    server_round_trip(ServerMessage::EntitySpawned {
        owner_peer_id: 1,
        entity_id: 7,
        entity_type: NetworkedEntityType::Bullet(1),
        transform: sample_snapshot(),
    });
}

#[test]
fn round_trip_entity_updated() {
    server_round_trip(ServerMessage::EntityUpdated {
        owner_peer_id: 1,
        entity_id: 7,
        transform: sample_snapshot(),
    });
}

#[test]
fn round_trip_entity_despawned() {
    server_round_trip(ServerMessage::EntityDespawned { owner_peer_id: 1, entity_id: 7 });
}

#[test]
fn round_trip_welcome_empty() {
    server_round_trip(ServerMessage::Welcome { peer_id: 1, known_peers: vec![] });
}

#[test]
fn round_trip_welcome_with_peers() {
    server_round_trip(ServerMessage::Welcome {
        peer_id: 3,
        known_peers: vec![
            PeerSession { peer_id: 1, display_name: String::from("Alice") },
            PeerSession { peer_id: 2, display_name: String::new() },
        ],
    });
}

#[test]
fn decode_rejects_empty_buffer() {
    assert_eq!(decode_client_message(&vec![]), None);
    assert_eq!(decode_server_message(&vec![]), None);
}

#[test]
fn decode_rejects_unknown_tag() {
    assert_eq!(decode_client_message(&vec![9u8]), None);
    assert_eq!(decode_server_message(&vec![250u8]), None);
}

#[test]
fn decode_rejects_trailing_bytes() {
    let mut bytes = encode_client_message(&ClientMessage::Disconnect);
    bytes.push(0);
    assert_eq!(decode_client_message(&bytes), None);
}

#[test]
fn decode_rejects_truncated_payload() {
    let bytes = encode_client_message(&ClientMessage::DespawnEntity { entity_id: 42 });
    let truncated: Vec<u8> = bytes[..bytes.len() - 1].to_vec();
    assert_eq!(decode_client_message(&truncated), None);
}

#[test]
fn decode_rejects_surrogate_code_point() {
    // A Join whose single character claims the code point 0xD800, which no
    // character may carry.
    let mut bytes: Vec<u8> = vec![0u8];
    bytes.extend_from_slice(&1u64.to_le_bytes());
    bytes.extend_from_slice(&0xD800u32.to_le_bytes());
    assert_eq!(decode_client_message(&bytes), None);
}

#[test]
fn encoding_is_deterministic() {
    let m = ServerMessage::Welcome {
        peer_id: 9,
        known_peers: vec![PeerSession { peer_id: 1, display_name: String::from("Alice") }],
    };
    assert_eq!(encode_server_message(&m), encode_server_message(&m));
}

#[test]
fn encoding_layout_of_peer_left() {
    // Tag byte, then the peer id in little-endian order.
    let bytes = encode_server_message(&ServerMessage::PeerLeft { peer_id: 0x0102030405060708 });
    assert_eq!(bytes, vec![1u8, 0x08, 0x07, 0x06, 0x05, 0x04, 0x03, 0x02, 0x01]);
}
