use replication::protocol::{
    ClientMessage, NetworkTransform, NetworkedEntityType, PeerSession, ProtocolError, QuatBits,
    ServerMessage, Transform, Vec3Bits,
};
use replication::server::{Envelope, Server};

fn v3(x: f32, y: f32, z: f32) -> Vec3Bits {
    Vec3Bits { x: x.to_bits(), y: y.to_bits(), z: z.to_bits() }
}

fn snapshot(px: f32) -> NetworkTransform {
    NetworkTransform {
        position: v3(px, 0.0, 0.0),
        rotation: QuatBits { x: 0, y: 0, z: 0, w: 1.0f32.to_bits() },
        scale: v3(1.0, 1.0, 1.0),
        velocity: v3(0.0, 0.0, 0.0),
    }
}

fn plain_transform() -> Transform {
    Transform {
        translation: v3(5.0, 1.0, -2.0),
        rotation: QuatBits { x: 0, y: 0, z: 0, w: 1.0f32.to_bits() },
        scale: v3(1.0, 1.0, 1.0),
    }
}

#[test]
fn first_join_gets_empty_welcome() {
    let mut srv = Server::new();
    let out = srv.on_join(1, String::from("Alice")).unwrap();
    assert_eq!(
        out,
        vec![Envelope {
            to: 1,
            message: ServerMessage::Welcome { peer_id: 1, known_peers: vec![] },
        }]
    );
}

#[test]
fn duplicate_join_is_rejected_unchanged() {
    let mut srv = Server::new();
    srv.on_join(1, String::from("Alice")).unwrap();
    let sessions_before = srv.sessions.clone();
    assert_eq!(srv.on_join(1, String::from("Impostor")), Err(ProtocolError::DuplicateJoin));
    assert_eq!(srv.sessions, sessions_before);
}

#[test]
fn second_join_welcomes_and_notifies() {
    let mut srv = Server::new();
    srv.on_join(1, String::from("Alice")).unwrap();
    let out = srv.on_join(2, String::from("Bob")).unwrap();
    assert_eq!(
        out,
        vec![
            Envelope {
                to: 2,
                message: ServerMessage::Welcome {
                    peer_id: 2,
                    known_peers: vec![PeerSession { peer_id: 1, display_name: String::from("Alice") }],
                },
            },
            Envelope {
                to: 1,
                message: ServerMessage::PeerJoined { peer_id: 2, display_name: String::from("Bob") },
            },
        ]
    );
}

#[test]
fn welcome_carries_live_entities_as_spawns() {
    let mut srv = Server::new();
    srv.on_join(1, String::from("Alice")).unwrap();
    srv.on_spawn_entity(1, 7, NetworkedEntityType::Bullet(1), snapshot(1.0)).unwrap();
    srv.on_spawn_entity(1, 8, NetworkedEntityType::Portal(0), snapshot(2.0)).unwrap();
    let out = srv.on_join(2, String::from("Bob")).unwrap();
    assert_eq!(out.len(), 4);
    assert_eq!(
        out[1],
        Envelope {
            to: 2,
            message: ServerMessage::EntitySpawned {
                owner_peer_id: 1,
                entity_id: 7,
                entity_type: NetworkedEntityType::Bullet(1),
                transform: snapshot(1.0),
            },
        }
    );
    assert_eq!(
        out[2],
        Envelope {
            to: 2,
            message: ServerMessage::EntitySpawned {
                owner_peer_id: 1,
                entity_id: 8,
                entity_type: NetworkedEntityType::Portal(0),
                transform: snapshot(2.0),
            },
        }
    );
}

#[test]
fn update_self_without_session_is_dropped() {
    let srv = Server::new();
    assert_eq!(
        srv.on_update_self(5, plain_transform(), v3(0.0, 0.0, 0.0)),
        Err(ProtocolError::SessionAbsent)
    );
}

#[test]
fn update_self_relays_to_others_only() {
    let mut srv = Server::new();
    srv.on_join(1, String::from("Alice")).unwrap();
    srv.on_join(2, String::from("Bob")).unwrap();
    srv.on_join(3, String::from("Cleo")).unwrap();
    let out = srv.on_update_self(2, plain_transform(), v3(1.0, 0.0, 0.0)).unwrap();
    let expected = ServerMessage::SelfUpdate {
        peer_id: 2,
        transform: plain_transform(),
        velocity: v3(1.0, 0.0, 0.0),
    };
    assert_eq!(
        out,
        vec![
            Envelope { to: 1, message: expected.clone() },
            Envelope { to: 3, message: expected },
        ]
    );
}

#[test]
fn spawn_duplicate_key_is_rejected() {
    let mut srv = Server::new();
    srv.on_join(1, String::from("Alice")).unwrap();
    srv.on_spawn_entity(1, 7, NetworkedEntityType::Bullet(0), snapshot(0.0)).unwrap();
    assert_eq!(
        srv.on_spawn_entity(1, 7, NetworkedEntityType::Bullet(2), snapshot(9.0)),
        Err(ProtocolError::DuplicateSpawn)
    );
    assert_eq!(srv.entities.len(), 1);
    assert_eq!(srv.entities[0].entity_type, NetworkedEntityType::Bullet(0));
}

#[test]
fn same_entity_id_under_two_owners_is_fine() {
    let mut srv = Server::new();
    srv.on_join(1, String::from("Alice")).unwrap();
    srv.on_join(2, String::from("Bob")).unwrap();
    srv.on_spawn_entity(1, 7, NetworkedEntityType::Bullet(0), snapshot(0.0)).unwrap();
    srv.on_spawn_entity(2, 7, NetworkedEntityType::Bullet(1), snapshot(1.0)).unwrap();
    assert_eq!(srv.entities.len(), 2);
}

#[test]
fn update_entity_unknown_key_is_stale() {
    let mut srv = Server::new();
    srv.on_join(1, String::from("Alice")).unwrap();
    assert_eq!(
        srv.on_update_entity(1, 99, snapshot(3.0)),
        Err(ProtocolError::StaleReference)
    );
}

#[test]
fn update_entity_replaces_snapshot_and_keeps_kind() {
    let mut srv = Server::new();
    srv.on_join(1, String::from("Alice")).unwrap();
    srv.on_join(2, String::from("Bob")).unwrap();
    srv.on_spawn_entity(1, 7, NetworkedEntityType::Portal(1), snapshot(0.0)).unwrap();
    let out = srv.on_update_entity(1, 7, snapshot(4.0)).unwrap();
    assert_eq!(srv.entities[0].transform, snapshot(4.0));
    assert_eq!(srv.entities[0].entity_type, NetworkedEntityType::Portal(1));
    assert_eq!(
        out,
        vec![Envelope {
            to: 2,
            message: ServerMessage::EntityUpdated {
                owner_peer_id: 1,
                entity_id: 7,
                transform: snapshot(4.0),
            },
        }]
    );
}

#[test]
fn despawn_removes_record_and_relays() {
    let mut srv = Server::new();
    srv.on_join(1, String::from("Alice")).unwrap();
    srv.on_join(2, String::from("Bob")).unwrap();
    srv.on_spawn_entity(1, 7, NetworkedEntityType::Bullet(0), snapshot(0.0)).unwrap();
    let out = srv.on_despawn_entity(1, 7).unwrap();
    assert!(srv.entities.is_empty());
    assert_eq!(
        out,
        vec![Envelope {
            to: 2,
            message: ServerMessage::EntityDespawned { owner_peer_id: 1, entity_id: 7 },
        }]
    );
    assert_eq!(srv.on_despawn_entity(1, 7), Err(ProtocolError::StaleReference));
}

#[test]
fn disconnect_cascades_and_is_idempotent() {
    let mut srv = Server::new();
    srv.on_join(1, String::from("Alice")).unwrap();
    srv.on_join(2, String::from("Bob")).unwrap();
    srv.on_spawn_entity(1, 7, NetworkedEntityType::Bullet(0), snapshot(0.0)).unwrap();
    srv.on_spawn_entity(1, 8, NetworkedEntityType::Bullet(1), snapshot(1.0)).unwrap();
    srv.on_spawn_entity(2, 9, NetworkedEntityType::Portal(0), snapshot(2.0)).unwrap();

    let out = srv.on_disconnect_or_lost(1);
    // exactly the two records of peer 1 are despawned, then the leave notice
    assert_eq!(
        out,
        vec![
            Envelope {
                to: 2,
                message: ServerMessage::EntityDespawned { owner_peer_id: 1, entity_id: 7 },
            },
            Envelope {
                to: 2,
                message: ServerMessage::EntityDespawned { owner_peer_id: 1, entity_id: 8 },
            },
            Envelope { to: 2, message: ServerMessage::PeerLeft { peer_id: 1 } },
        ]
    );
    assert_eq!(srv.entities.len(), 1);
    assert_eq!(srv.entities[0].owner_peer_id, 2);
    assert_eq!(srv.sessions.len(), 1);

    // the second signal is a no-op
    let sessions_before = srv.sessions.clone();
    let entities_before = srv.entities.clone();
    let out2 = srv.on_disconnect_or_lost(1);
    assert!(out2.is_empty());
    assert_eq!(srv.sessions, sessions_before);
    assert_eq!(srv.entities, entities_before);
}

#[test]
fn no_relay_ever_echoes_to_its_subject() {
    let mut srv = Server::new();
    let mut all: Vec<Envelope> = Vec::new();
    all.extend(srv.on_join(1, String::from("Alice")).unwrap());
    all.extend(srv.on_join(2, String::from("Bob")).unwrap());
    all.extend(srv.on_join(3, String::from("Cleo")).unwrap());
    all.extend(srv.on_spawn_entity(1, 7, NetworkedEntityType::Bullet(0), snapshot(0.0)).unwrap());
    all.extend(srv.on_update_entity(1, 7, snapshot(1.0)).unwrap());
    all.extend(srv.on_update_self(2, plain_transform(), v3(0.0, 0.0, 0.0)).unwrap());
    all.extend(srv.on_despawn_entity(1, 7).unwrap());
    all.extend(srv.on_spawn_entity(3, 5, NetworkedEntityType::Portal(1), snapshot(5.0)).unwrap());
    all.extend(srv.on_disconnect_or_lost(3));
    for env in &all {
        let subject = match &env.message {
            ServerMessage::SelfUpdate { peer_id, .. } => Some(*peer_id),
            ServerMessage::EntitySpawned { owner_peer_id, .. } => Some(*owner_peer_id),
            ServerMessage::EntityUpdated { owner_peer_id, .. } => Some(*owner_peer_id),
            ServerMessage::EntityDespawned { owner_peer_id, .. } => Some(*owner_peer_id),
            _ => None,
        };
        if let Some(p) = subject {
            assert_ne!(env.to, p, "relay echoed back to its subject: {:?}", env);
        }
    }
}

#[test]
fn dispatcher_routes_like_the_operations() {
    let mut srv = Server::new();
    assert!(srv.process_client_messages(1, ClientMessage::Join { display_name: String::from("Alice") }).is_ok());
    assert!(srv
        .process_client_messages(
            1,
            ClientMessage::SpawnEntity {
                entity_id: 7,
                entity_type: NetworkedEntityType::Bullet(0),
                transform: snapshot(0.0),
            },
        )
        .is_ok());
    assert_eq!(
        srv.process_client_messages(2, ClientMessage::UpdateSelf {
            transform: plain_transform(),
            velocity: v3(0.0, 0.0, 0.0),
        }),
        Err(ProtocolError::SessionAbsent)
    );
    let out = srv.process_client_messages(1, ClientMessage::Disconnect).unwrap();
    assert!(out.is_empty(), "no other peer was joined, nothing to notify");
    assert!(srv.sessions.is_empty());
    assert!(srv.entities.is_empty());
}
