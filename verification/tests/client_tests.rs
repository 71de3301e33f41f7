use replication::client::{Client, LocalNetworkedEntity, RemoteEntityMapping};
use replication::protocol::{
    ClientMessage, NetworkTransform, NetworkedEntityType, PeerSession, ProtocolError, QuatBits,
    ServerMessage, Transform, Vec3Bits,
};

fn v3(x: f32, y: f32, z: f32) -> Vec3Bits {
    Vec3Bits { x: x.to_bits(), y: y.to_bits(), z: z.to_bits() }
}

fn snapshot(px: f32) -> NetworkTransform {
    NetworkTransform {
        position: v3(px, 0.0, 0.0),
        rotation: QuatBits { x: 0, y: 0, z: 0, w: 1.0f32.to_bits() },
        scale: v3(1.0, 1.0, 1.0),
        velocity: v3(0.0, 0.0, 0.0),
    }
}

fn plain_transform() -> Transform {
    Transform {
        translation: v3(5.0, 1.0, -2.0),
        rotation: QuatBits { x: 0, y: 0, z: 0, w: 1.0f32.to_bits() },
        scale: v3(1.0, 1.0, 1.0),
    }
}

#[test]
fn welcome_installs_directory_and_self_id() {
    let mut c = Client::new();
    c.handle_welcome(
        3,
        vec![
            PeerSession { peer_id: 1, display_name: String::from("Alice") },
            PeerSession { peer_id: 2, display_name: String::from("Bob") },
        ],
    );
    assert_eq!(c.self_id, Some(3));
    assert_eq!(c.players.len(), 2);
    assert_eq!(c.players[0].peer_id, 1);
    assert_eq!(c.players[0].username, "Alice");
    assert_eq!(c.players[1].peer_id, 2);
    assert_eq!(c.players[1].username, "Bob");
}

#[test]
fn peer_joined_adds_directory_entry() {
    let mut c = Client::new();
    c.handle_welcome(3, vec![]);
    assert_eq!(c.handle_peer_joined(4, String::from("Dana")), Ok(()));
    assert_eq!(c.players.len(), 1);
    assert_eq!(c.players[0].username, "Dana");
    assert_eq!(
        c.handle_peer_joined(4, String::from("Dana")),
        Err(ProtocolError::DuplicateJoin)
    );
    assert_eq!(c.players.len(), 1);
}

#[test]
fn self_update_replaces_avatar_state() {
    let mut c = Client::new();
    c.handle_welcome(3, vec![PeerSession { peer_id: 1, display_name: String::from("Alice") }]);
    assert_eq!(c.handle_self_update(1, plain_transform(), v3(0.0, 1.0, 0.0)), Ok(()));
    assert_eq!(c.players[0].transform, plain_transform());
    assert_eq!(c.players[0].velocity, v3(0.0, 1.0, 0.0));
    assert_eq!(
        c.handle_self_update(9, plain_transform(), v3(0.0, 0.0, 0.0)),
        Err(ProtocolError::UnknownPeer)
    );
}

#[test]
fn entity_spawned_creates_one_mirror() {
    let mut c = Client::new();
    assert_eq!(
        c.handle_entity_spawned(1, 7, NetworkedEntityType::Bullet(1), snapshot(0.0)),
        Ok(())
    );
    assert_eq!(
        c.networked_entitys,
        vec![RemoteEntityMapping {
            owner_peer_id: 1,
            entity_id: 7,
            entity_type: NetworkedEntityType::Bullet(1),
            transform: snapshot(0.0),
        }]
    );
    // a duplicate spawn for a live key is dropped
    assert_eq!(
        c.handle_entity_spawned(1, 7, NetworkedEntityType::Bullet(2), snapshot(9.0)),
        Err(ProtocolError::DuplicateSpawn)
    );
    assert_eq!(c.networked_entitys.len(), 1);
    assert_eq!(c.networked_entitys[0].entity_type, NetworkedEntityType::Bullet(1));
}

#[test]
fn entity_updated_replaces_snapshot_and_keeps_kind() {
    let mut c = Client::new();
    c.handle_entity_spawned(1, 7, NetworkedEntityType::Portal(1), snapshot(0.0)).unwrap();
    assert_eq!(c.handle_entity_updated(1, 7, snapshot(5.0)), Ok(()));
    assert_eq!(c.networked_entitys[0].transform, snapshot(5.0));
    assert_eq!(c.networked_entitys[0].entity_type, NetworkedEntityType::Portal(1));
    assert_eq!(c.handle_entity_updated(2, 7, snapshot(5.0)), Err(ProtocolError::StaleReference));
}

#[test]
fn entity_despawned_destroys_the_mirror() {
    let mut c = Client::new();
    c.handle_entity_spawned(1, 7, NetworkedEntityType::Bullet(0), snapshot(0.0)).unwrap();
    assert_eq!(c.handle_entity_despawned(1, 7), Ok(()));
    assert!(c.networked_entitys.is_empty());
    assert_eq!(c.handle_entity_despawned(1, 7), Err(ProtocolError::StaleReference));
}

#[test]
fn peer_left_destroys_exactly_the_owners_mirrors() {
    let mut c = Client::new();
    c.handle_welcome(
        9,
        vec![
            PeerSession { peer_id: 1, display_name: String::from("Alice") },
            PeerSession { peer_id: 2, display_name: String::from("Bob") },
        ],
    );
    c.handle_entity_spawned(1, 7, NetworkedEntityType::Bullet(0), snapshot(0.0)).unwrap();
    c.handle_entity_spawned(1, 8, NetworkedEntityType::Bullet(1), snapshot(1.0)).unwrap();
    c.handle_entity_spawned(2, 7, NetworkedEntityType::Portal(0), snapshot(2.0)).unwrap();
    let removed = c.handle_peer_left(1);
    assert_eq!(removed, 2);
    assert_eq!(c.players.len(), 1);
    assert_eq!(c.players[0].peer_id, 2);
    assert_eq!(c.networked_entitys.len(), 1);
    assert_eq!(c.networked_entitys[0].owner_peer_id, 2);
    // a second notice for the same peer removes nothing
    assert_eq!(c.handle_peer_left(1), 0);
}

#[test]
fn convergence_replaying_a_welcome_set() {
    // a server with two sessions and three live records welcomes peer 3;
    // replaying the message set addressed to 3 on an empty client yields
    // exactly two directory entries and three mirrors
    let mut srv = replication::server::Server::new();
    srv.on_join(1, String::from("Alice")).unwrap();
    srv.on_join(2, String::from("Bob")).unwrap();
    srv.on_spawn_entity(1, 7, NetworkedEntityType::Bullet(0), snapshot(0.0)).unwrap();
    srv.on_spawn_entity(1, 8, NetworkedEntityType::Bullet(1), snapshot(1.0)).unwrap();
    srv.on_spawn_entity(2, 7, NetworkedEntityType::Portal(0), snapshot(2.0)).unwrap();
    let out = srv.on_join(3, String::from("Cleo")).unwrap();

    let mut c = Client::new();
    for env in out {
        if env.to == 3 {
            c.handle_server_messages(env.message).unwrap();
        }
    }
    assert_eq!(c.self_id, Some(3));
    assert_eq!(c.players.len(), 2);
    assert_eq!(c.networked_entitys.len(), 3);
    assert_eq!(c.networked_entitys[0].owner_peer_id, 1);
    assert_eq!(c.networked_entitys[0].entity_id, 7);
    assert_eq!(c.networked_entitys[2].owner_peer_id, 2);
}

#[test]
fn tick_spawns_then_updates_then_despawns() {
    let mut c = Client::new();
    let bullet = LocalNetworkedEntity {
        entity_id: 100,
        entity_type: NetworkedEntityType::Bullet(1),
        transform: snapshot(0.0),
    };
    let portal = LocalNetworkedEntity {
        entity_id: 200,
        entity_type: NetworkedEntityType::Portal(0),
        transform: snapshot(1.0),
    };

    // first tick: both objects are new
    let msgs = c.update_networked_entitys(&vec![bullet, portal]);
    assert_eq!(
        msgs,
        vec![
            ClientMessage::SpawnEntity {
                entity_id: 100,
                entity_type: NetworkedEntityType::Bullet(1),
                transform: snapshot(0.0),
            },
            ClientMessage::SpawnEntity {
                entity_id: 200,
                entity_type: NetworkedEntityType::Portal(0),
                transform: snapshot(1.0),
            },
        ]
    );
    assert_eq!(c.local_networked_entitys, vec![100, 200]);

    // second tick: both already registered
    let moved = LocalNetworkedEntity { transform: snapshot(9.0), ..bullet };
    let msgs = c.update_networked_entitys(&vec![moved, portal]);
    assert_eq!(
        msgs,
        vec![
            ClientMessage::UpdateEntity { entity_id: 100, transform: snapshot(9.0) },
            ClientMessage::UpdateEntity { entity_id: 200, transform: snapshot(1.0) },
        ]
    );

    // third tick: the bullet is gone
    let msgs = c.update_networked_entitys(&vec![portal]);
    assert_eq!(
        msgs,
        vec![
            ClientMessage::UpdateEntity { entity_id: 200, transform: snapshot(1.0) },
            ClientMessage::DespawnEntity { entity_id: 100 },
        ]
    );
    assert_eq!(c.local_networked_entitys, vec![200]);
}

#[test]
fn tick_on_empty_supply_despawns_everything() {
    let mut c = Client::new();
    let obj = LocalNetworkedEntity {
        entity_id: 1,
        entity_type: NetworkedEntityType::Bullet(0),
        transform: snapshot(0.0),
    };
    c.update_networked_entitys(&vec![obj]);
    let msgs = c.update_networked_entitys(&vec![]);
    assert_eq!(msgs, vec![ClientMessage::DespawnEntity { entity_id: 1 }]);
    assert!(c.local_networked_entitys.is_empty());
}

#[test]
fn update_player_builds_the_self_update() {
    let c = Client::new();
    let m = c.update_player(plain_transform(), v3(1.0, 2.0, 3.0));
    assert_eq!(
        m,
        ClientMessage::UpdateSelf { transform: plain_transform(), velocity: v3(1.0, 2.0, 3.0) }
    );
}
