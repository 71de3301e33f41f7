//! One full session, played end to end: two peers join, one spawns an
//! entity, then leaves; every message travels as wire bytes through the
//! codec, as it would over a real channel.

use replication::client::Client;
use replication::codec::{decode_server_message, encode_server_message};
use replication::protocol::{
    NetworkTransform, NetworkedEntityType, PeerSession, QuatBits, ServerMessage, Vec3Bits,
};
use replication::server::{Envelope, Server};

fn v3(x: f32, y: f32, z: f32) -> Vec3Bits {
    Vec3Bits { x: x.to_bits(), y: y.to_bits(), z: z.to_bits() }
}

fn bullet_snapshot() -> NetworkTransform {
    NetworkTransform {
        position: v3(1.0, 2.0, 3.0),
        rotation: QuatBits { x: 0, y: 0, z: 0, w: 1.0f32.to_bits() },
        scale: v3(1.0, 1.0, 1.0),
        velocity: v3(0.0, 0.0, -50.0),
    }
}

fn deliver(client: &mut Client, own_id: u64, out: &[Envelope]) {
    for env in out {
        if env.to == own_id {
            // over the wire and back, exactly as sent
            let bytes = encode_server_message(&env.message);
            let msg = decode_server_message(&bytes).expect("wire bytes must parse");
            assert_eq!(msg, env.message);
            client.handle_server_messages(msg).unwrap();
        }
    }
}

#[test]
fn two_peers_spawn_and_leave() {
    let mut srv = Server::new();
    let mut alice = Client::new();
    let mut bob = Client::new();

    // Alice joins: her welcome knows nobody
    let out = srv.on_join(1, String::from("Alice")).unwrap();
    assert_eq!(
        out,
        vec![Envelope {
            to: 1,
            message: ServerMessage::Welcome { peer_id: 1, known_peers: vec![] },
        }]
    );
    deliver(&mut alice, 1, &out);
    assert_eq!(alice.self_id, Some(1));
    assert!(alice.players.is_empty());

    // Bob joins: his welcome lists Alice; Alice hears of Bob
    let out = srv.on_join(2, String::from("Bob")).unwrap();
    assert_eq!(
        out,
        vec![
            Envelope {
                to: 2,
                message: ServerMessage::Welcome {
                    peer_id: 2,
                    known_peers: vec![PeerSession {
                        peer_id: 1,
                        display_name: String::from("Alice"),
                    }],
                },
            },
            Envelope {
                to: 1,
                message: ServerMessage::PeerJoined {
                    peer_id: 2,
                    display_name: String::from("Bob"),
                },
            },
        ]
    );
    deliver(&mut bob, 2, &out);
    deliver(&mut alice, 1, &out);
    assert_eq!(bob.self_id, Some(2));
    assert_eq!(bob.players.len(), 1);
    assert_eq!(bob.players[0].username, "Alice");
    assert_eq!(alice.players.len(), 1);
    assert_eq!(alice.players[0].username, "Bob");

    // Alice spawns a bullet: relayed to Bob only
    let out = srv
        .on_spawn_entity(1, 7, NetworkedEntityType::Bullet(1), bullet_snapshot())
        .unwrap();
    assert_eq!(
        out,
        vec![Envelope {
            to: 2,
            message: ServerMessage::EntitySpawned {
                owner_peer_id: 1,
                entity_id: 7,
                entity_type: NetworkedEntityType::Bullet(1),
                transform: bullet_snapshot(),
            },
        }]
    );
    deliver(&mut bob, 2, &out);
    deliver(&mut alice, 1, &out);
    assert_eq!(bob.networked_entitys.len(), 1);
    assert!(alice.networked_entitys.is_empty(), "no self-echo: Alice gets no mirror of her own bullet");

    // Alice disconnects: Bob hears the despawn and the leave, in that order
    let out = srv.on_disconnect_or_lost(1);
    assert_eq!(
        out,
        vec![
            Envelope {
                to: 2,
                message: ServerMessage::EntityDespawned { owner_peer_id: 1, entity_id: 7 },
            },
            Envelope { to: 2, message: ServerMessage::PeerLeft { peer_id: 1 } },
        ]
    );
    deliver(&mut bob, 2, &out);
    assert!(bob.networked_entitys.is_empty(), "the mirror for (1, 7) is destroyed");
    assert!(bob.players.is_empty(), "the directory no longer lists peer 1");
}
