//! The wire protocol: the value types carried over the network and the two
//! closed message sets exchanged between client and server.
//!
//! Scalar components (positions, rotations, scales, velocities) travel as the
//! raw 32-bit patterns of their single-precision values; the protocol never
//! interprets them, it only stores and relays them, so they are held here as
//! plain `u32` fields.

use vstd::prelude::*;

verus! {

/// Bit pattern of the single-precision value one, used by the identity
/// transform (unit scale, identity rotation).
pub const ONE_BITS: u32 = 0x3F80_0000;

/// A three-component vector, each component a raw 32-bit scalar pattern.
#[derive(Clone, Copy, Debug, PartialEq, Eq, Structural)]
pub struct Vec3Bits {
    pub x: u32,
    pub y: u32,
    pub z: u32,
}

impl Vec3Bits {
    /// The zero vector.
    pub fn zero() -> (r: Vec3Bits)
        ensures
            r == (Vec3Bits { x: 0u32, y: 0u32, z: 0u32 }),
    {
        Vec3Bits { x: 0, y: 0, z: 0 }
    }
}

/// A quaternion, each component a raw 32-bit scalar pattern.
#[derive(Clone, Copy, Debug, PartialEq, Eq, Structural)]
pub struct QuatBits {
    pub x: u32,
    pub y: u32,
    pub z: u32,
    pub w: u32,
}

impl QuatBits {
    /// The identity rotation.
    pub fn identity() -> (r: QuatBits)
        ensures
            r == (QuatBits { x: 0u32, y: 0u32, z: 0u32, w: ONE_BITS }),
    {
        QuatBits { x: 0, y: 0, z: 0, w: ONE_BITS }
    }
}

/// A local placement: where an object stands in the scene.
#[derive(Clone, Copy, Debug, PartialEq, Eq, Structural)]
pub struct Transform {
    pub translation: Vec3Bits,
    pub rotation: QuatBits,
    pub scale: Vec3Bits,
}

/// The identity transform: zero translation, identity rotation, unit scale.
pub open spec fn identity_transform() -> Transform {
    Transform {
        translation: Vec3Bits { x: 0u32, y: 0u32, z: 0u32 },
        rotation: QuatBits { x: 0u32, y: 0u32, z: 0u32, w: ONE_BITS },
        scale: Vec3Bits { x: ONE_BITS, y: ONE_BITS, z: ONE_BITS },
    }
}

impl Default for Transform {
    fn default() -> (r: Transform)
        ensures
            r == identity_transform(),
    {
        Transform {
            translation: Vec3Bits { x: 0, y: 0, z: 0 },
            rotation: QuatBits { x: 0, y: 0, z: 0, w: ONE_BITS },
            scale: Vec3Bits { x: ONE_BITS, y: ONE_BITS, z: ONE_BITS },
        }
    }
}

/// The tag distinguishing what kind of object a replicated entity is; the
/// payload selects a sub-variety (a bullet style, a portal side). The kind is
/// immutable for the lifetime of the entity.
#[derive(Clone, Copy, Debug, PartialEq, Eq, Structural)]
pub enum NetworkedEntityType {
    Bullet(u32),
    Portal(u32),
}

/// The full replicated state of one entity: placement plus velocity. A
/// snapshot has no identity and always replaces the previous one whole.
#[derive(Clone, Copy, Debug, PartialEq, Eq, Structural)]
pub struct NetworkTransform {
    pub position: Vec3Bits,
    pub rotation: QuatBits,
    pub scale: Vec3Bits,
    pub velocity: Vec3Bits,
}

impl NetworkTransform {
    /// Pack a placement and a velocity into one snapshot.
    pub fn from_transform(transform: &Transform, velocity: Vec3Bits) -> (r: NetworkTransform)
        ensures
            r == (NetworkTransform {
                position: transform.translation,
                rotation: transform.rotation,
                scale: transform.scale,
                velocity,
            }),
    {
        NetworkTransform {
            position: transform.translation,
            rotation: transform.rotation,
            scale: transform.scale,
            velocity,
        }
    }

    /// The placement part of the snapshot, without the velocity.
    pub fn to_transform(&self) -> (r: Transform)
        ensures
            r == (Transform {
                translation: self.position,
                rotation: self.rotation,
                scale: self.scale,
            }),
    {
        Transform { translation: self.position, rotation: self.rotation, scale: self.scale }
    }
}

/// One joined peer as the server records it and as the `Welcome` message
/// lists it: the transport-assigned id and the display name given on join.
#[derive(Clone, Debug, PartialEq)]
pub struct PeerSession {
    pub peer_id: u64,
    pub display_name: String,
}

/// The mathematical value of a [`PeerSession`]: the name as a character
/// sequence.
pub ghost struct PeerSessionV {
    pub peer_id: u64,
    pub display_name: Seq<char>,
}

impl View for PeerSession {
    type V = PeerSessionV;

    open spec fn view(&self) -> PeerSessionV {
        PeerSessionV { peer_id: self.peer_id, display_name: self.display_name@ }
    }
}

impl PeerSession {
    /// A fresh session value equal to this one.
    pub fn duplicate(&self) -> (r: PeerSession)
        ensures
            r == *self,
    {
        PeerSession { peer_id: self.peer_id, display_name: self.display_name.clone() }
    }
}

/// Everything a client may say to the server.
#[derive(Clone, Debug, PartialEq)]
pub enum ClientMessage {
    /// Ask to enter the session under a display name.
    Join { display_name: String },
    /// Ask to leave the session.
    Disconnect,
    /// Replace the sender's own avatar state.
    UpdateSelf { transform: Transform, velocity: Vec3Bits },
    /// Announce a new entity owned by the sender. The id is chosen by the
    /// sender and is only meaningful together with the sender's peer id.
    SpawnEntity { entity_id: u64, entity_type: NetworkedEntityType, transform: NetworkTransform },
    /// Replace the snapshot of an entity owned by the sender.
    UpdateEntity { entity_id: u64, transform: NetworkTransform },
    /// Retire an entity owned by the sender.
    DespawnEntity { entity_id: u64 },
}

/// The mathematical value of a [`ClientMessage`].
pub ghost enum ClientMessageV {
    Join { display_name: Seq<char> },
    Disconnect,
    UpdateSelf { transform: Transform, velocity: Vec3Bits },
    SpawnEntity { entity_id: u64, entity_type: NetworkedEntityType, transform: NetworkTransform },
    UpdateEntity { entity_id: u64, transform: NetworkTransform },
    DespawnEntity { entity_id: u64 },
}

impl View for ClientMessage {
    type V = ClientMessageV;

    open spec fn view(&self) -> ClientMessageV {
        match self {
            ClientMessage::Join { display_name } => ClientMessageV::Join {
                display_name: display_name@,
            },
            ClientMessage::Disconnect => ClientMessageV::Disconnect,
            ClientMessage::UpdateSelf { transform, velocity } => ClientMessageV::UpdateSelf {
                transform: *transform,
                velocity: *velocity,
            },
            ClientMessage::SpawnEntity { entity_id, entity_type, transform } => {
                ClientMessageV::SpawnEntity {
                    entity_id: *entity_id,
                    entity_type: *entity_type,
                    transform: *transform,
                }
            },
            ClientMessage::UpdateEntity { entity_id, transform } => ClientMessageV::UpdateEntity {
                entity_id: *entity_id,
                transform: *transform,
            },
            ClientMessage::DespawnEntity { entity_id } => ClientMessageV::DespawnEntity {
                entity_id: *entity_id,
            },
        }
    }
}

/// Everything the server may say to a client.
#[derive(Clone, Debug, PartialEq)]
pub enum ServerMessage {
    /// Another peer entered the session.
    PeerJoined { peer_id: u64, display_name: String },
    /// A peer left; all its entities are gone too.
    PeerLeft { peer_id: u64 },
    /// Another peer's avatar state, relayed.
    SelfUpdate { peer_id: u64, transform: Transform, velocity: Vec3Bits },
    /// An entity of another peer appeared; `owner_peer_id` names the true
    /// owner, rewritten by the server.
    EntitySpawned {
        owner_peer_id: u64,
        entity_id: u64,
        entity_type: NetworkedEntityType,
        transform: NetworkTransform,
    },
    /// A new snapshot for another peer's entity.
    EntityUpdated { owner_peer_id: u64, entity_id: u64, transform: NetworkTransform },
    /// Another peer's entity was retired.
    EntityDespawned { owner_peer_id: u64, entity_id: u64 },
    /// The reply to a successful join: the id the transport assigned to the
    /// new peer, and every peer already in the session, in join order.
    Welcome { peer_id: u64, known_peers: Vec<PeerSession> },
}

/// The mathematical value of a [`ServerMessage`].
pub ghost enum ServerMessageV {
    PeerJoined { peer_id: u64, display_name: Seq<char> },
    PeerLeft { peer_id: u64 },
    SelfUpdate { peer_id: u64, transform: Transform, velocity: Vec3Bits },
    EntitySpawned {
        owner_peer_id: u64,
        entity_id: u64,
        entity_type: NetworkedEntityType,
        transform: NetworkTransform,
    },
    EntityUpdated { owner_peer_id: u64, entity_id: u64, transform: NetworkTransform },
    EntityDespawned { owner_peer_id: u64, entity_id: u64 },
    Welcome { peer_id: u64, known_peers: Seq<PeerSessionV> },
}

impl View for ServerMessage {
    type V = ServerMessageV;

    open spec fn view(&self) -> ServerMessageV {
        match self {
            ServerMessage::PeerJoined { peer_id, display_name } => ServerMessageV::PeerJoined {
                peer_id: *peer_id,
                display_name: display_name@,
            },
            ServerMessage::PeerLeft { peer_id } => ServerMessageV::PeerLeft { peer_id: *peer_id },
            ServerMessage::SelfUpdate { peer_id, transform, velocity } => {
                ServerMessageV::SelfUpdate {
                    peer_id: *peer_id,
                    transform: *transform,
                    velocity: *velocity,
                }
            },
            ServerMessage::EntitySpawned { owner_peer_id, entity_id, entity_type, transform } => {
                ServerMessageV::EntitySpawned {
                    owner_peer_id: *owner_peer_id,
                    entity_id: *entity_id,
                    entity_type: *entity_type,
                    transform: *transform,
                }
            },
            ServerMessage::EntityUpdated { owner_peer_id, entity_id, transform } => {
                ServerMessageV::EntityUpdated {
                    owner_peer_id: *owner_peer_id,
                    entity_id: *entity_id,
                    transform: *transform,
                }
            },
            ServerMessage::EntityDespawned { owner_peer_id, entity_id } => {
                ServerMessageV::EntityDespawned {
                    owner_peer_id: *owner_peer_id,
                    entity_id: *entity_id,
                }
            },
            ServerMessage::Welcome { peer_id, known_peers } => ServerMessageV::Welcome {
                peer_id: *peer_id,
                known_peers: known_peers@.map_values(|p: PeerSession| p@),
            },
        }
    }
}

/// Why an inbound message was dropped. None of these is fatal: the message is
/// discarded and the state it addressed is left unchanged.
#[derive(Clone, Copy, Debug, PartialEq, Eq, Structural)]
pub enum ProtocolError {
    /// A `Join` for a peer that already has a live session.
    DuplicateJoin,
    /// A `SpawnEntity` or `EntitySpawned` for a key that is already live.
    DuplicateSpawn,
    /// A client-originated message from a peer with no active session.
    SessionAbsent,
    /// An update or despawn for a key that is not live; expected under
    /// races between despawn and late updates, treated as a no-op.
    StaleReference,
    /// A `SelfUpdate` for a peer the client has no directory entry for.
    UnknownPeer,
}

} // verus!
