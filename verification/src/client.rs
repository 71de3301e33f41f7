//! The client replication manager: the directory of remote peers, the
//! mirrors of their replicated entities, and the outbound three-way diff
//! that announces locally owned objects.
//!
//! Inbound handling mutates only through the `handle_*` operations; the only
//! place mirrors die outside an explicit despawn is a peer's departure, and
//! that cleanup is exhaustive.

use vstd::prelude::*;
use crate::tables::{
    lemma_filter_all_true, lemma_filter_append, lemma_filter_elems, lemma_filter_partition_len,
    lemma_filter_push, lemma_filter_unique_by, lemma_unique_by_push, unique_by,
};
use crate::protocol::{
    identity_transform, ClientMessage, NetworkTransform, NetworkedEntityType, PeerSession,
    ProtocolError, ServerMessage, Transform, Vec3Bits,
};
use crate::server::{
    disconnect_contract, lemma_cascade_on_leave, owned_by, records_unique, session_key,
    sessions_unique, Envelope, NetworkedEntityRecord, Server,
};

verus! {

/// A mirror of another peer's replicated entity, keyed by the only stable
/// identity there is: the owner's peer id together with the owner-chosen
/// entity id.
#[derive(Clone, Copy, Debug, PartialEq, Eq, Structural)]
pub struct RemoteEntityMapping {
    pub owner_peer_id: u64,
    pub entity_id: u64,
    pub entity_type: NetworkedEntityType,
    pub transform: NetworkTransform,
}

/// What the client knows of one remote peer: name and avatar state.
#[derive(Clone, Debug, PartialEq)]
pub struct ClientPlayerData {
    pub peer_id: u64,
    pub username: String,
    pub transform: Transform,
    pub velocity: Vec3Bits,
}

/// One locally owned replicable object as the scene supplies it each tick.
#[derive(Clone, Copy, Debug, PartialEq, Eq, Structural)]
pub struct LocalNetworkedEntity {
    pub entity_id: u64,
    pub entity_type: NetworkedEntityType,
    pub transform: NetworkTransform,
}

// ---------------------------------------------------------------------------
// The state, mathematically
// ---------------------------------------------------------------------------
pub open spec fn player_key() -> spec_fn(ClientPlayerData) -> u64 {
    |p: ClientPlayerData| p.peer_id
}

pub open spec fn mapping_key() -> spec_fn(RemoteEntityMapping) -> (u64, u64) {
    |m: RemoteEntityMapping| (m.owner_peer_id, m.entity_id)
}

pub open spec fn id_key() -> spec_fn(u64) -> u64 {
    |x: u64| x
}

pub open spec fn has_player(players: Seq<ClientPlayerData>, peer_id: u64) -> bool {
    exists|i: int| 0 <= i < players.len() && #[trigger] players[i].peer_id == peer_id
}

pub open spec fn has_mapping(
    mappings: Seq<RemoteEntityMapping>,
    owner: u64,
    entity_id: u64,
) -> bool {
    exists|i: int|
        0 <= i < mappings.len() && #[trigger] mappings[i].owner_peer_id == owner
            && mappings[i].entity_id == entity_id
}

/// The test for a directory entry of another peer.
pub open spec fn other_player(peer_id: u64) -> spec_fn(ClientPlayerData) -> bool {
    |p: ClientPlayerData| p.peer_id != peer_id
}

/// The test for a mirror owned by another peer.
pub open spec fn other_mirror_owner(peer_id: u64) -> spec_fn(RemoteEntityMapping) -> bool {
    |m: RemoteEntityMapping| m.owner_peer_id != peer_id
}

/// The test for a mirror owned by a given peer.
pub open spec fn mirror_owner_is(peer_id: u64) -> spec_fn(RemoteEntityMapping) -> bool {
    |m: RemoteEntityMapping| m.owner_peer_id == peer_id
}

/// The test for a mirror under any other key.
pub open spec fn other_mirror_key(owner: u64, entity_id: u64) -> spec_fn(
    RemoteEntityMapping,
) -> bool {
    |m: RemoteEntityMapping| !(m.owner_peer_id == owner && m.entity_id == entity_id)
}

/// The directory entry a freshly announced peer gets: the sent name and the
/// identity placement, until its first update arrives.
pub open spec fn player_from() -> spec_fn(PeerSession) -> ClientPlayerData {
    |s: PeerSession|
        ClientPlayerData {
            peer_id: s.peer_id,
            username: s.display_name,
            transform: identity_transform(),
            velocity: Vec3Bits { x: 0u32, y: 0u32, z: 0u32 },
        }
}

/// The directory a `Welcome` installs: one entry per listed peer, in order.
pub open spec fn welcome_players(known_peers: Seq<PeerSession>) -> Seq<ClientPlayerData> {
    known_peers.map_values(player_from())
}

/// The mirror a server-side record gives rise to on a client.
pub open spec fn mirror_from() -> spec_fn(NetworkedEntityRecord) -> RemoteEntityMapping {
    |r: NetworkedEntityRecord|
        RemoteEntityMapping {
            owner_peer_id: r.owner_peer_id,
            entity_id: r.entity_id,
            entity_type: r.entity_type,
            transform: r.transform,
        }
}

/// The directory with one peer's avatar state replaced.
pub open spec fn update_player_entry(
    players: Seq<ClientPlayerData>,
    peer_id: u64,
    transform: Transform,
    velocity: Vec3Bits,
) -> Seq<ClientPlayerData> {
    Seq::new(
        players.len(),
        |i: int|
            if players[i].peer_id == peer_id {
                ClientPlayerData { transform, velocity, ..players[i] }
            } else {
                players[i]
            },
    )
}

/// The mirror table with one key's snapshot replaced; kinds and keys stay.
pub open spec fn update_mirror(
    mappings: Seq<RemoteEntityMapping>,
    owner: u64,
    entity_id: u64,
    transform: NetworkTransform,
) -> Seq<RemoteEntityMapping> {
    Seq::new(
        mappings.len(),
        |i: int|
            if mappings[i].owner_peer_id == owner && mappings[i].entity_id == entity_id {
                RemoteEntityMapping { transform, ..mappings[i] }
            } else {
                mappings[i]
            },
    )
}

pub open spec fn remove_player(players: Seq<ClientPlayerData>, peer_id: u64) -> Seq<
    ClientPlayerData,
> {
    players.filter(other_player(peer_id))
}

pub open spec fn remove_mirrors_of(mappings: Seq<RemoteEntityMapping>, peer_id: u64) -> Seq<
    RemoteEntityMapping,
> {
    mappings.filter(other_mirror_owner(peer_id))
}

pub open spec fn mirrors_of(mappings: Seq<RemoteEntityMapping>, peer_id: u64) -> Seq<
    RemoteEntityMapping,
> {
    mappings.filter(mirror_owner_is(peer_id))
}

pub open spec fn remove_mirror(
    mappings: Seq<RemoteEntityMapping>,
    owner: u64,
    entity_id: u64,
) -> Seq<RemoteEntityMapping> {
    mappings.filter(other_mirror_key(owner, entity_id))
}

// ---------------------------------------------------------------------------
// The client state
// ---------------------------------------------------------------------------
/// Everything one client holds about the shared session: its own id once the
/// `Welcome` arrived, the peer directory, the mirrors of remote entities, and
/// the ids of locally owned objects it has announced to the server.
pub struct Client {
    pub self_id: Option<u64>,
    pub players: Vec<ClientPlayerData>,
    pub networked_entitys: Vec<RemoteEntityMapping>,
    pub local_networked_entitys: Vec<u64>,
}

impl Client {
    /// The tables' invariant: peers, mirror keys and announced ids are each
    /// unique.
    pub open spec fn wf(&self) -> bool {
        &&& unique_by(self.players@, player_key())
        &&& unique_by(self.networked_entitys@, mapping_key())
        &&& unique_by(self.local_networked_entitys@, id_key())
    }

    /// A fresh client: not yet welcomed, nothing mirrored, nothing announced.
    pub fn new() -> (c: Client)
        ensures
            c.self_id is None,
            c.players@ == Seq::<ClientPlayerData>::empty(),
            c.networked_entitys@ == Seq::<RemoteEntityMapping>::empty(),
            c.local_networked_entitys@ == Seq::<u64>::empty(),
            c.wf(),
    {
        Client {
            self_id: None,
            players: Vec::new(),
            networked_entitys: Vec::new(),
            local_networked_entitys: Vec::new(),
        }
    }

    /// Whether a peer is in the directory.
    pub fn contains_player(&self, peer_id: u64) -> (b: bool)
        ensures
            b == has_player(self.players@, peer_id),
    {
        let mut i: usize = 0;
        while i < self.players.len()
            invariant
                i <= self.players@.len(),
                forall|k: int| 0 <= k < i ==> #[trigger] self.players@[k].peer_id != peer_id,
            decreases self.players@.len() - i,
        {
            if self.players[i].peer_id == peer_id {
                return true;
            }
            i = i + 1;
        }
        false
    }

    /// Whether a mirror is live under the given key.
    pub fn contains_mapping(&self, owner: u64, entity_id: u64) -> (b: bool)
        ensures
            b == has_mapping(self.networked_entitys@, owner, entity_id),
    {
        let mut i: usize = 0;
        while i < self.networked_entitys.len()
            invariant
                i <= self.networked_entitys@.len(),
                forall|k: int|
                    0 <= k < i ==> !(#[trigger] self.networked_entitys@[k].owner_peer_id == owner
                        && self.networked_entitys@[k].entity_id == entity_id),
            decreases self.networked_entitys@.len() - i,
        {
            if self.networked_entitys[i].owner_peer_id == owner && self.networked_entitys[i].entity_id
                == entity_id {
                return true;
            }
            i = i + 1;
        }
        false
    }
}

// ---------------------------------------------------------------------------
// Operation contracts
// ---------------------------------------------------------------------------
pub open spec fn welcome_contract(
    pre: Client,
    post: Client,
    peer_id: u64,
    known_peers: Seq<PeerSession>,
) -> bool {
    &&& post.self_id == Some(peer_id)
    &&& post.players@ == welcome_players(known_peers)
    &&& post.networked_entitys@ == pre.networked_entitys@
    &&& post.local_networked_entitys@ == pre.local_networked_entitys@
}

pub open spec fn peer_joined_contract(
    pre: Client,
    post: Client,
    result: Result<(), ProtocolError>,
    peer_id: u64,
    display_name: String,
) -> bool {
    &&& post.self_id == pre.self_id
    &&& post.networked_entitys@ == pre.networked_entitys@
    &&& post.local_networked_entitys@ == pre.local_networked_entitys@
    &&& if has_player(pre.players@, peer_id) {
        result == Err::<(), ProtocolError>(ProtocolError::DuplicateJoin) && post.players@
            == pre.players@
    } else {
        result == Ok::<(), ProtocolError>(()) && post.players@ == pre.players@.push(
            player_from()(PeerSession { peer_id, display_name }),
        )
    }
}

pub open spec fn peer_left_contract(pre: Client, post: Client, peer_id: u64) -> bool {
    &&& post.self_id == pre.self_id
    &&& post.players@ == remove_player(pre.players@, peer_id)
    &&& post.networked_entitys@ == remove_mirrors_of(pre.networked_entitys@, peer_id)
    &&& post.local_networked_entitys@ == pre.local_networked_entitys@
}

pub open spec fn self_update_contract(
    pre: Client,
    post: Client,
    result: Result<(), ProtocolError>,
    peer_id: u64,
    transform: Transform,
    velocity: Vec3Bits,
) -> bool {
    &&& post.self_id == pre.self_id
    &&& post.networked_entitys@ == pre.networked_entitys@
    &&& post.local_networked_entitys@ == pre.local_networked_entitys@
    &&& if has_player(pre.players@, peer_id) {
        result == Ok::<(), ProtocolError>(()) && post.players@ == update_player_entry(
            pre.players@,
            peer_id,
            transform,
            velocity,
        )
    } else {
        result == Err::<(), ProtocolError>(ProtocolError::UnknownPeer) && post.players@
            == pre.players@
    }
}

pub open spec fn entity_spawned_contract(
    pre: Client,
    post: Client,
    result: Result<(), ProtocolError>,
    owner_peer_id: u64,
    entity_id: u64,
    entity_type: NetworkedEntityType,
    transform: NetworkTransform,
) -> bool {
    &&& post.self_id == pre.self_id
    &&& post.players@ == pre.players@
    &&& post.local_networked_entitys@ == pre.local_networked_entitys@
    &&& if has_mapping(pre.networked_entitys@, owner_peer_id, entity_id) {
        result == Err::<(), ProtocolError>(ProtocolError::DuplicateSpawn) && post.networked_entitys@
            == pre.networked_entitys@
    } else {
        result == Ok::<(), ProtocolError>(()) && post.networked_entitys@
            == pre.networked_entitys@.push(
            RemoteEntityMapping { owner_peer_id, entity_id, entity_type, transform },
        )
    }
}

pub open spec fn entity_updated_contract(
    pre: Client,
    post: Client,
    result: Result<(), ProtocolError>,
    owner_peer_id: u64,
    entity_id: u64,
    transform: NetworkTransform,
) -> bool {
    &&& post.self_id == pre.self_id
    &&& post.players@ == pre.players@
    &&& post.local_networked_entitys@ == pre.local_networked_entitys@
    &&& if has_mapping(pre.networked_entitys@, owner_peer_id, entity_id) {
        result == Ok::<(), ProtocolError>(()) && post.networked_entitys@ == update_mirror(
            pre.networked_entitys@,
            owner_peer_id,
            entity_id,
            transform,
        )
    } else {
        result == Err::<(), ProtocolError>(ProtocolError::StaleReference) && post.networked_entitys@
            == pre.networked_entitys@
    }
}

pub open spec fn entity_despawned_contract(
    pre: Client,
    post: Client,
    result: Result<(), ProtocolError>,
    owner_peer_id: u64,
    entity_id: u64,
) -> bool {
    &&& post.self_id == pre.self_id
    &&& post.players@ == pre.players@
    &&& post.local_networked_entitys@ == pre.local_networked_entitys@
    &&& if has_mapping(pre.networked_entitys@, owner_peer_id, entity_id) {
        result == Ok::<(), ProtocolError>(()) && post.networked_entitys@ == remove_mirror(
            pre.networked_entitys@,
            owner_peer_id,
            entity_id,
        )
    } else {
        result == Err::<(), ProtocolError>(ProtocolError::StaleReference) && post.networked_entitys@
            == pre.networked_entitys@
    }
}

// ---------------------------------------------------------------------------
// Inbound handling
// ---------------------------------------------------------------------------
/// A fresh directory entry equal to the given one.
fn duplicate_player(p: &ClientPlayerData) -> (r: ClientPlayerData)
    ensures
        r == *p,
{
    ClientPlayerData {
        peer_id: p.peer_id,
        username: p.username.clone(),
        transform: p.transform,
        velocity: p.velocity,
    }
}

impl Client {
    /// The `Welcome` reply: learn the own id and install the peer directory;
    /// the catch-up `EntitySpawned` messages that follow it are handled
    /// exactly as in steady state.
    pub fn handle_welcome(&mut self, peer_id: u64, known_peers: Vec<PeerSession>)
        requires
            old(self).wf(),
            sessions_unique(known_peers@),
        ensures
            final(self).wf(),
            welcome_contract(*old(self), *final(self), peer_id, known_peers@),
    {
        self.self_id = Some(peer_id);
        let mut players: Vec<ClientPlayerData> = Vec::new();
        let mut i: usize = 0;
        while i < known_peers.len()
            invariant
                i <= known_peers@.len(),
                players@ == welcome_players(known_peers@.take(i as int)),
            decreases known_peers@.len() - i,
        {
            let entry = ClientPlayerData {
                peer_id: known_peers[i].peer_id,
                username: known_peers[i].display_name.clone(),
                transform: Transform::default(),
                velocity: Vec3Bits::zero(),
            };
            players.push(entry);
            proof {
                let pre = known_peers@.take(i as int);
                let x = known_peers@[i as int];
                assert(known_peers@.take(i + 1 as int) =~= pre.push(x));
                assert(welcome_players(pre.push(x)) =~= welcome_players(pre).push(
                    player_from()(x),
                ));
                assert(entry == player_from()(x));
            }
            i = i + 1;
        }
        proof {
            assert(known_peers@.take(known_peers@.len() as int) =~= known_peers@);
        }
        self.players = players;
        proof {
            assert forall|a: int, b: int| 0 <= a < b < self.players@.len() implies player_key()(
                #[trigger] self.players@[a],
            ) != player_key()(#[trigger] self.players@[b]) by {
                assert(self.players@[a] == player_from()(known_peers@[a]));
                assert(self.players@[b] == player_from()(known_peers@[b]));
                assert(session_key()(known_peers@[a]) != session_key()(known_peers@[b]));
            }
        }
    }

    /// Another peer entered: a directory entry with the identity placement
    /// until its first update. A duplicate is a protocol violation, dropped.
    pub fn handle_peer_joined(&mut self, peer_id: u64, display_name: String) -> (result: Result<
        (),
        ProtocolError,
    >)
        requires
            old(self).wf(),
        ensures
            final(self).wf(),
            peer_joined_contract(*old(self), *final(self), result, peer_id, display_name),
    {
        if self.contains_player(peer_id) {
            return Err(ProtocolError::DuplicateJoin);
        }
        let entry = ClientPlayerData {
            peer_id,
            username: display_name,
            transform: Transform::default(),
            velocity: Vec3Bits::zero(),
        };
        self.players.push(entry);
        proof {
            assert forall|k: int| 0 <= k < old(self).players@.len() implies player_key()(
                #[trigger] old(self).players@[k],
            ) != player_key()(entry) by {}
            lemma_unique_by_push(old(self).players@, player_key(), entry);
        }
        Ok(())
    }

    /// A peer left: its directory entry goes, and every mirror it owned is
    /// destroyed — the only cleanup of mirrors outside an explicit despawn,
    /// and an exhaustive one. The count of destroyed mirrors is returned.
    pub fn handle_peer_left(&mut self, peer_id: u64) -> (removed: usize)
        requires
            old(self).wf(),
        ensures
            final(self).wf(),
            peer_left_contract(*old(self), *final(self), peer_id),
            removed == mirrors_of(old(self).networked_entitys@, peer_id).len(),
    {
        let mut keep_players: Vec<ClientPlayerData> = Vec::new();
        let mut i: usize = 0;
        while i < self.players.len()
            invariant
                i <= self.players@.len(),
                keep_players@ == self.players@.take(i as int).filter(other_player(peer_id)),
            decreases self.players@.len() - i,
        {
            if self.players[i].peer_id != peer_id {
                keep_players.push(duplicate_player(&self.players[i]));
            }
            proof {
                let pre = self.players@.take(i as int);
                let x = self.players@[i as int];
                assert(self.players@.take(i + 1 as int) =~= pre.push(x));
                lemma_filter_push(pre, other_player(peer_id), x);
            }
            i = i + 1;
        }
        proof {
            assert(self.players@.take(self.players@.len() as int) =~= self.players@);
        }
        let mut keep_maps: Vec<RemoteEntityMapping> = Vec::new();
        let mut removed_count: usize = 0;
        let mut j: usize = 0;
        while j < self.networked_entitys.len()
            invariant
                j <= self.networked_entitys@.len(),
                keep_maps@ == self.networked_entitys@.take(j as int).filter(
                    other_mirror_owner(peer_id),
                ),
                removed_count == mirrors_of(self.networked_entitys@.take(j as int), peer_id).len(),
                removed_count <= j,
            decreases self.networked_entitys@.len() - j,
        {
            let m = self.networked_entitys[j];
            if m.owner_peer_id != peer_id {
                keep_maps.push(m);
            } else {
                removed_count = removed_count + 1;
            }
            proof {
                let pre = self.networked_entitys@.take(j as int);
                let x = self.networked_entitys@[j as int];
                assert(self.networked_entitys@.take(j + 1 as int) =~= pre.push(x));
                lemma_filter_push(pre, other_mirror_owner(peer_id), x);
                lemma_filter_push(pre, mirror_owner_is(peer_id), x);
            }
            j = j + 1;
        }
        proof {
            assert(self.networked_entitys@.take(self.networked_entitys@.len() as int)
                =~= self.networked_entitys@);
        }
        self.players = keep_players;
        self.networked_entitys = keep_maps;
        proof {
            lemma_filter_unique_by(old(self).players@, other_player(peer_id), player_key());
            lemma_filter_unique_by(
                old(self).networked_entitys@,
                other_mirror_owner(peer_id),
                mapping_key(),
            );
        }
        removed_count
    }

    /// Another peer's avatar state: replace its directory entry's placement
    /// in place. An unknown peer id is logged upstream and dropped.
    pub fn handle_self_update(&mut self, peer_id: u64, transform: Transform, velocity: Vec3Bits)
        -> (result: Result<(), ProtocolError>)
        requires
            old(self).wf(),
        ensures
            final(self).wf(),
            self_update_contract(*old(self), *final(self), result, peer_id, transform, velocity),
    {
        let mut i: usize = 0;
        while i < self.players.len()
            invariant
                i <= self.players@.len(),
                old(self).wf(),
                *self == *old(self),
                forall|k: int| 0 <= k < i ==> #[trigger] self.players@[k].peer_id != peer_id,
            decreases self.players@.len() - i,
        {
            if self.players[i].peer_id == peer_id {
                self.players[i].transform = transform;
                self.players[i].velocity = velocity;
                proof {
                    assert forall|k: int|
                        0 <= k < self.players@.len() implies self.players@[k]
                        == update_player_entry(
                        old(self).players@,
                        peer_id,
                        transform,
                        velocity,
                    )[k] by {
                        if k != i {
                            assert(player_key()(old(self).players@[k]) != player_key()(
                                old(self).players@[i as int],
                            ));
                        }
                    }
                    assert(self.players@ =~= update_player_entry(
                        old(self).players@,
                        peer_id,
                        transform,
                        velocity,
                    ));
                    assert forall|a: int, b: int|
                        0 <= a < b < self.players@.len() implies player_key()(
                        #[trigger] self.players@[a],
                    ) != player_key()(#[trigger] self.players@[b]) by {
                        assert(player_key()(self.players@[a]) == player_key()(
                            old(self).players@[a],
                        ));
                        assert(player_key()(self.players@[b]) == player_key()(
                            old(self).players@[b],
                        ));
                    }
                }
                return Ok(());
            }
            i = i + 1;
        }
        Err(ProtocolError::UnknownPeer)
    }

    /// A new remote entity: create its mirror. A live key is a duplicate
    /// spawn — a protocol violation, dropped with the mapping unchanged.
    pub fn handle_entity_spawned(
        &mut self,
        owner_peer_id: u64,
        entity_id: u64,
        entity_type: NetworkedEntityType,
        transform: NetworkTransform,
    ) -> (result: Result<(), ProtocolError>)
        requires
            old(self).wf(),
        ensures
            final(self).wf(),
            entity_spawned_contract(
                *old(self),
                *final(self),
                result,
                owner_peer_id,
                entity_id,
                entity_type,
                transform,
            ),
    {
        if self.contains_mapping(owner_peer_id, entity_id) {
            return Err(ProtocolError::DuplicateSpawn);
        }
        let m = RemoteEntityMapping { owner_peer_id, entity_id, entity_type, transform };
        self.networked_entitys.push(m);
        proof {
            assert forall|k: int| 0 <= k < old(self).networked_entitys@.len() implies mapping_key()(
                #[trigger] old(self).networked_entitys@[k],
            ) != mapping_key()(m) by {}
            lemma_unique_by_push(old(self).networked_entitys@, mapping_key(), m);
        }
        Ok(())
    }

    /// A new snapshot for a remote entity: replace the mirror's snapshot in
    /// place. An unknown key is a stale reference, a warned no-op.
    pub fn handle_entity_updated(
        &mut self,
        owner_peer_id: u64,
        entity_id: u64,
        transform: NetworkTransform,
    ) -> (result: Result<(), ProtocolError>)
        requires
            old(self).wf(),
        ensures
            final(self).wf(),
            entity_updated_contract(
                *old(self),
                *final(self),
                result,
                owner_peer_id,
                entity_id,
                transform,
            ),
    {
        let mut i: usize = 0;
        while i < self.networked_entitys.len()
            invariant
                i <= self.networked_entitys@.len(),
                old(self).wf(),
                *self == *old(self),
                forall|k: int|
                    0 <= k < i ==> !(#[trigger] self.networked_entitys@[k].owner_peer_id
                        == owner_peer_id && self.networked_entitys@[k].entity_id == entity_id),
            decreases self.networked_entitys@.len() - i,
        {
            if self.networked_entitys[i].owner_peer_id == owner_peer_id
                && self.networked_entitys[i].entity_id == entity_id {
                let old_m = self.networked_entitys[i];
                self.networked_entitys[i] = RemoteEntityMapping {
                    owner_peer_id: old_m.owner_peer_id,
                    entity_id: old_m.entity_id,
                    entity_type: old_m.entity_type,
                    transform,
                };
                proof {
                    assert forall|k: int|
                        0 <= k < self.networked_entitys@.len() implies self.networked_entitys@[k]
                        == update_mirror(
                        old(self).networked_entitys@,
                        owner_peer_id,
                        entity_id,
                        transform,
                    )[k] by {
                        if k != i {
                            assert(mapping_key()(old(self).networked_entitys@[k]) != mapping_key()(
                                old(self).networked_entitys@[i as int],
                            ));
                        }
                    }
                    assert(self.networked_entitys@ =~= update_mirror(
                        old(self).networked_entitys@,
                        owner_peer_id,
                        entity_id,
                        transform,
                    ));
                    assert forall|a: int, b: int|
                        0 <= a < b < self.networked_entitys@.len() implies mapping_key()(
                        #[trigger] self.networked_entitys@[a],
                    ) != mapping_key()(#[trigger] self.networked_entitys@[b]) by {
                        assert(mapping_key()(self.networked_entitys@[a]) == mapping_key()(
                            old(self).networked_entitys@[a],
                        ));
                        assert(mapping_key()(self.networked_entitys@[b]) == mapping_key()(
                            old(self).networked_entitys@[b],
                        ));
                    }
                }
                return Ok(());
            }
            i = i + 1;
        }
        Err(ProtocolError::StaleReference)
    }

    /// A remote entity was retired: destroy its mirror and drop the mapping.
    /// An unknown key is a stale reference, a warned no-op.
    pub fn handle_entity_despawned(&mut self, owner_peer_id: u64, entity_id: u64) -> (result:
        Result<(), ProtocolError>)
        requires
            old(self).wf(),
        ensures
            final(self).wf(),
            entity_despawned_contract(
                *old(self),
                *final(self),
                result,
                owner_peer_id,
                entity_id,
            ),
    {
        if !self.contains_mapping(owner_peer_id, entity_id) {
            return Err(ProtocolError::StaleReference);
        }
        let mut kept: Vec<RemoteEntityMapping> = Vec::new();
        let mut i: usize = 0;
        while i < self.networked_entitys.len()
            invariant
                i <= self.networked_entitys@.len(),
                kept@ == self.networked_entitys@.take(i as int).filter(
                    other_mirror_key(owner_peer_id, entity_id),
                ),
            decreases self.networked_entitys@.len() - i,
        {
            let m = self.networked_entitys[i];
            if !(m.owner_peer_id == owner_peer_id && m.entity_id == entity_id) {
                kept.push(m);
            }
            proof {
                let pre = self.networked_entitys@.take(i as int);
                let x = self.networked_entitys@[i as int];
                assert(self.networked_entitys@.take(i + 1 as int) =~= pre.push(x));
                lemma_filter_push(pre, other_mirror_key(owner_peer_id, entity_id), x);
            }
            i = i + 1;
        }
        proof {
            assert(self.networked_entitys@.take(self.networked_entitys@.len() as int)
                =~= self.networked_entitys@);
        }
        self.networked_entitys = kept;
        proof {
            lemma_filter_unique_by(
                old(self).networked_entitys@,
                other_mirror_key(owner_peer_id, entity_id),
                mapping_key(),
            );
        }
        Ok(())
    }

    /// One inbound server message, dispatched to the handler it names; the
    /// client tick drains its queue through this.
    pub fn handle_server_messages(&mut self, message: ServerMessage) -> (result: Result<
        (),
        ProtocolError,
    >)
        requires
            old(self).wf(),
            message matches ServerMessage::Welcome { known_peers, .. } ==> sessions_unique(
                known_peers@,
            ),
        ensures
            final(self).wf(),
            match message {
                ServerMessage::PeerJoined { peer_id, display_name } => peer_joined_contract(
                    *old(self),
                    *final(self),
                    result,
                    peer_id,
                    display_name,
                ),
                ServerMessage::PeerLeft { peer_id } => result == Ok::<(), ProtocolError>(())
                    && peer_left_contract(*old(self), *final(self), peer_id),
                ServerMessage::SelfUpdate { peer_id, transform, velocity } => self_update_contract(
                    *old(self),
                    *final(self),
                    result,
                    peer_id,
                    transform,
                    velocity,
                ),
                ServerMessage::EntitySpawned {
                    owner_peer_id,
                    entity_id,
                    entity_type,
                    transform,
                } => entity_spawned_contract(
                    *old(self),
                    *final(self),
                    result,
                    owner_peer_id,
                    entity_id,
                    entity_type,
                    transform,
                ),
                ServerMessage::EntityUpdated { owner_peer_id, entity_id, transform } => entity_updated_contract(
                    *old(self),
                    *final(self),
                    result,
                    owner_peer_id,
                    entity_id,
                    transform,
                ),
                ServerMessage::EntityDespawned { owner_peer_id, entity_id } => entity_despawned_contract(
                    *old(self),
                    *final(self),
                    result,
                    owner_peer_id,
                    entity_id,
                ),
                ServerMessage::Welcome { peer_id, known_peers } => result == Ok::<
                    (),
                    ProtocolError,
                >(()) && welcome_contract(*old(self), *final(self), peer_id, known_peers@),
            },
    {
        match message {
            ServerMessage::PeerJoined { peer_id, display_name } => self.handle_peer_joined(
                peer_id,
                display_name,
            ),
            ServerMessage::PeerLeft { peer_id } => {
                let _removed = self.handle_peer_left(peer_id);
                Ok(())
            },
            ServerMessage::SelfUpdate { peer_id, transform, velocity } => self.handle_self_update(
                peer_id,
                transform,
                velocity,
            ),
            ServerMessage::EntitySpawned { owner_peer_id, entity_id, entity_type, transform } => self
                .handle_entity_spawned(owner_peer_id, entity_id, entity_type, transform),
            ServerMessage::EntityUpdated { owner_peer_id, entity_id, transform } => self
                .handle_entity_updated(owner_peer_id, entity_id, transform),
            ServerMessage::EntityDespawned { owner_peer_id, entity_id } => self
                .handle_entity_despawned(owner_peer_id, entity_id),
            ServerMessage::Welcome { peer_id, known_peers } => {
                self.handle_welcome(peer_id, known_peers);
                Ok(())
            },
        }
    }

    /// The outbound message for the own avatar, sent every replication tick.
    pub fn update_player(&self, transform: Transform, velocity: Vec3Bits) -> (m: ClientMessage)
        ensures
            m == (ClientMessage::UpdateSelf { transform, velocity }),
    {
        ClientMessage::UpdateSelf { transform, velocity }
    }
}

// ---------------------------------------------------------------------------
// The outbound three-way diff
// ---------------------------------------------------------------------------
/// The id a locally owned object carries.
pub open spec fn entity_id_of() -> spec_fn(LocalNetworkedEntity) -> u64 {
    |l: LocalNetworkedEntity| l.entity_id
}

pub open spec fn local_has(local: Seq<LocalNetworkedEntity>, entity_id: u64) -> bool {
    exists|i: int| 0 <= i < local.len() && #[trigger] local[i].entity_id == entity_id
}

/// The test for an id with a local counterpart this tick.
pub open spec fn in_local(local: Seq<LocalNetworkedEntity>) -> spec_fn(u64) -> bool {
    |id: u64| local_has(local, id)
}

/// The test for an announced id whose local counterpart is gone.
pub open spec fn not_in_local(local: Seq<LocalNetworkedEntity>) -> spec_fn(u64) -> bool {
    |id: u64| !local_has(local, id)
}

/// The test for an object not yet announced to the server.
pub open spec fn not_registered(reg: Seq<u64>) -> spec_fn(LocalNetworkedEntity) -> bool {
    |l: LocalNetworkedEntity| !reg.contains(l.entity_id)
}

/// The ids announced for the first time this tick, in supply order.
pub open spec fn new_ids(reg: Seq<u64>, local: Seq<LocalNetworkedEntity>) -> Seq<u64> {
    local.filter(not_registered(reg)).map_values(entity_id_of())
}

/// One message per local object: an update for an already-announced id, a
/// spawn for a new one, in supply order.
pub open spec fn spec_outbound_updates(reg: Seq<u64>, local: Seq<LocalNetworkedEntity>) -> Seq<
    ClientMessage,
> {
    Seq::new(
        local.len(),
        |i: int|
            if reg.contains(local[i].entity_id) {
                ClientMessage::UpdateEntity {
                    entity_id: local[i].entity_id,
                    transform: local[i].transform,
                }
            } else {
                ClientMessage::SpawnEntity {
                    entity_id: local[i].entity_id,
                    entity_type: local[i].entity_type,
                    transform: local[i].transform,
                }
            },
    )
}

pub open spec fn despawn_of() -> spec_fn(u64) -> ClientMessage {
    |id: u64| ClientMessage::DespawnEntity { entity_id: id }
}

/// One despawn per announced id whose local counterpart is gone, in
/// registration order.
pub open spec fn spec_outbound_despawns(reg: Seq<u64>, local: Seq<LocalNetworkedEntity>) -> Seq<
    ClientMessage,
> {
    reg.filter(not_in_local(local)).map_values(despawn_of())
}

/// The whole replication tick: updates and spawns for what the scene
/// supplies, despawns and deregistration for what it no longer does.
pub open spec fn tick_contract(
    reg_pre: Seq<u64>,
    local: Seq<LocalNetworkedEntity>,
    msgs: Seq<ClientMessage>,
    reg_post: Seq<u64>,
) -> bool {
    let combined = reg_pre + new_ids(reg_pre, local);
    &&& msgs == spec_outbound_updates(reg_pre, local) + spec_outbound_despawns(combined, local)
    &&& reg_post == combined.filter(in_local(local))
}

/// Whether an id occurs in a plain id list.
fn contains_id(v: &Vec<u64>, id: u64) -> (b: bool)
    ensures
        b == v@.contains(id),
{
    let mut i: usize = 0;
    while i < v.len()
        invariant
            i <= v@.len(),
            forall|k: int| 0 <= k < i ==> v@[k] != id,
        decreases v@.len() - i,
    {
        if v[i] == id {
            return true;
        }
        i = i + 1;
    }
    false
}

/// Whether the scene supplied an object with this id.
fn contains_local(local: &Vec<LocalNetworkedEntity>, entity_id: u64) -> (b: bool)
    ensures
        b == local_has(local@, entity_id),
{
    let mut i: usize = 0;
    while i < local.len()
        invariant
            i <= local@.len(),
            forall|k: int| 0 <= k < i ==> #[trigger] local@[k].entity_id != entity_id,
        decreases local@.len() - i,
    {
        if local[i].entity_id == entity_id {
            return true;
        }
        i = i + 1;
    }
    false
}

/// A fresh copy of an id list.
fn copy_ids(v: &Vec<u64>) -> (out: Vec<u64>)
    ensures
        out@ == v@,
{
    let mut out: Vec<u64> = Vec::new();
    let mut i: usize = 0;
    while i < v.len()
        invariant
            i <= v@.len(),
            out@ == v@.take(i as int),
        decreases v@.len() - i,
    {
        out.push(v[i]);
        proof {
            assert(v@.take(i + 1 as int) =~= v@.take(i as int).push(v@[i as int]));
        }
        i = i + 1;
    }
    proof {
        assert(v@.take(v@.len() as int) =~= v@);
    }
    out
}

impl Client {
    /// One replication tick's outbound diff against the scene's supply of
    /// locally owned objects: `SpawnEntity` for each object not yet
    /// announced, `UpdateEntity` for each already announced, and
    /// `DespawnEntity` plus deregistration for each announced id whose
    /// object is gone. This is the only place entity messages originate.
    pub fn update_networked_entitys(&mut self, local: &Vec<LocalNetworkedEntity>) -> (msgs: Vec<
        ClientMessage,
    >)
        requires
            old(self).wf(),
            unique_by(local@, entity_id_of()),
        ensures
            final(self).wf(),
            final(self).self_id == old(self).self_id,
            final(self).players@ == old(self).players@,
            final(self).networked_entitys@ == old(self).networked_entitys@,
            tick_contract(
                old(self).local_networked_entitys@,
                local@,
                msgs@,
                final(self).local_networked_entitys@,
            ),
    {
        let snapshot = copy_ids(&self.local_networked_entitys);
        let ghost reg0 = old(self).local_networked_entitys@;
        let mut msgs: Vec<ClientMessage> = Vec::new();
        let mut i: usize = 0;
        while i < local.len()
            invariant
                i <= local@.len(),
                old(self).wf(),
                unique_by(local@, entity_id_of()),
                reg0 == old(self).local_networked_entitys@,
                snapshot@ == reg0,
                self.self_id == old(self).self_id,
                self.players@ == old(self).players@,
                self.networked_entitys@ == old(self).networked_entitys@,
                self.local_networked_entitys@ == reg0 + new_ids(reg0, local@.take(i as int)),
                unique_by(self.local_networked_entitys@, id_key()),
                msgs@ == spec_outbound_updates(reg0, local@).take(i as int),
            decreases local@.len() - i,
        {
            let l = local[i];
            if contains_id(&snapshot, l.entity_id) {
                msgs.push(
                    ClientMessage::UpdateEntity { entity_id: l.entity_id, transform: l.transform },
                );
            } else {
                msgs.push(
                    ClientMessage::SpawnEntity {
                        entity_id: l.entity_id,
                        entity_type: l.entity_type,
                        transform: l.transform,
                    },
                );
                proof {
                    let combined = self.local_networked_entitys@;
                    let prefix_new = new_ids(reg0, local@.take(i as int));
                    lemma_filter_elems(local@.take(i as int), not_registered(reg0));
                    assert forall|k: int| 0 <= k < combined.len() implies id_key()(
                        #[trigger] combined[k],
                    ) != id_key()(l.entity_id) by {
                        if k < reg0.len() {
                            assert(combined[k] == reg0[k]);
                            if reg0[k] == l.entity_id {
                                assert(reg0.contains(l.entity_id));
                            }
                        } else {
                            let f = local@.take(i as int).filter(not_registered(reg0));
                            assert(combined[k] == prefix_new[k - reg0.len()]);
                            assert(prefix_new[k - reg0.len()] == entity_id_of()(
                                f[k - reg0.len()],
                            ));
                            let j = choose|j: int|
                                0 <= j < local@.take(i as int).len() && local@.take(i as int)[j]
                                    == f[k - reg0.len()];
                            assert(local@[j] == f[k - reg0.len()]);
                            assert(entity_id_of()(local@[j]) != entity_id_of()(local@[i as int]));
                        }
                    }
                    lemma_unique_by_push(combined, id_key(), l.entity_id);
                }
                self.local_networked_entitys.push(l.entity_id);
            }
            proof {
                let pre = local@.take(i as int);
                let x = local@[i as int];
                assert(local@.take(i + 1 as int) =~= pre.push(x));
                lemma_filter_push(pre, not_registered(reg0), x);
                if !reg0.contains(x.entity_id) {
                    assert(new_ids(reg0, pre.push(x)) =~= new_ids(reg0, pre).push(x.entity_id));
                    assert(reg0 + new_ids(reg0, pre).push(x.entity_id) =~= (reg0 + new_ids(
                        reg0,
                        pre,
                    )).push(x.entity_id));
                } else {
                    assert(new_ids(reg0, pre.push(x)) =~= new_ids(reg0, pre));
                }
                assert(spec_outbound_updates(reg0, local@).take(i + 1 as int)
                    =~= spec_outbound_updates(reg0, local@).take(i as int).push(
                    spec_outbound_updates(reg0, local@)[i as int],
                ));
            }
            i = i + 1;
        }
        proof {
            assert(local@.take(local@.len() as int) =~= local@);
            assert(spec_outbound_updates(reg0, local@).take(local@.len() as int)
                =~= spec_outbound_updates(reg0, local@));
        }
        let current = copy_ids(&self.local_networked_entitys);
        let ghost combined = reg0 + new_ids(reg0, local@);
        let ghost base = msgs@;
        let mut kept: Vec<u64> = Vec::new();
        let mut j: usize = 0;
        while j < current.len()
            invariant
                j <= current@.len(),
                current@ == combined,
                kept@ == combined.take(j as int).filter(in_local(local@)),
                msgs@ == base + combined.take(j as int).filter(not_in_local(local@)).map_values(
                    despawn_of(),
                ),
            decreases current@.len() - j,
        {
            let id = current[j];
            if contains_local(local, id) {
                kept.push(id);
            } else {
                msgs.push(ClientMessage::DespawnEntity { entity_id: id });
            }
            proof {
                let pre = combined.take(j as int);
                let x = combined[j as int];
                assert(combined.take(j + 1 as int) =~= pre.push(x));
                lemma_filter_push(pre, in_local(local@), x);
                lemma_filter_push(pre, not_in_local(local@), x);
                if !local_has(local@, x) {
                    assert(pre.push(x).filter(not_in_local(local@)).map_values(despawn_of())
                        =~= pre.filter(not_in_local(local@)).map_values(despawn_of()).push(
                        despawn_of()(x),
                    ));
                    assert(base + pre.filter(not_in_local(local@)).map_values(despawn_of()).push(
                        despawn_of()(x),
                    ) =~= (base + pre.filter(not_in_local(local@)).map_values(despawn_of())).push(
                        despawn_of()(x),
                    ));
                }
            }
            j = j + 1;
        }
        proof {
            assert(combined.take(combined.len() as int) =~= combined);
        }
        self.local_networked_entitys = kept;
        proof {
            lemma_filter_unique_by(combined, in_local(local@), id_key());
        }
        msgs
    }
}

// ---------------------------------------------------------------------------
// Laws
// ---------------------------------------------------------------------------
/// What the spawn handler, replayed over a record table, leaves behind on a
/// client: exactly the fold of `handle_entity_spawned` over the records.
pub open spec fn replay_spawns(
    mirrors: Seq<RemoteEntityMapping>,
    records: Seq<NetworkedEntityRecord>,
) -> Seq<RemoteEntityMapping>
    decreases records.len(),
{
    if records.len() == 0 {
        mirrors
    } else {
        let r = records[0];
        let next = if has_mapping(mirrors, r.owner_peer_id, r.entity_id) {
            mirrors
        } else {
            mirrors.push(mirror_from()(r))
        };
        replay_spawns(next, records.subrange(1, records.len() as int))
    }
}

proof fn lemma_replay_spawns_fresh(
    mirrors: Seq<RemoteEntityMapping>,
    records: Seq<NetworkedEntityRecord>,
)
    requires
        records_unique(records),
        forall|i: int|
            0 <= i < records.len() ==> !has_mapping(
                mirrors,
                #[trigger] records[i].owner_peer_id,
                records[i].entity_id,
            ),
    ensures
        replay_spawns(mirrors, records) == mirrors + records.map_values(mirror_from()),
    decreases records.len(),
{
    if records.len() == 0 {
        assert(mirrors + records.map_values(mirror_from()) =~= mirrors);
    } else {
        let r = records[0];
        assert(!has_mapping(mirrors, r.owner_peer_id, r.entity_id));
        let next = mirrors.push(mirror_from()(r));
        let rest = records.subrange(1, records.len() as int);
        assert forall|a: int, b: int|
            0 <= a < b < rest.len() implies crate::server::record_key()(#[trigger] rest[a])
            != crate::server::record_key()(#[trigger] rest[b]) by {
            assert(rest[a] == records[a + 1] && rest[b] == records[b + 1]);
            assert(crate::server::record_key()(records[a + 1]) != crate::server::record_key()(
                records[b + 1],
            ));
        }
        assert forall|i: int| 0 <= i < rest.len() implies !has_mapping(
            next,
            #[trigger] rest[i].owner_peer_id,
            rest[i].entity_id,
        ) by {
            assert(rest[i] == records[i + 1]);
            if has_mapping(next, rest[i].owner_peer_id, rest[i].entity_id) {
                let k = choose|k: int|
                    0 <= k < next.len() && #[trigger] next[k].owner_peer_id
                        == rest[i].owner_peer_id && next[k].entity_id == rest[i].entity_id;
                if k < mirrors.len() {
                    assert(has_mapping(mirrors, records[i + 1].owner_peer_id, records[i + 1].entity_id));
                } else {
                    assert(next[k] == mirror_from()(r));
                    assert(crate::server::record_key()(records[0]) != crate::server::record_key()(
                        records[i + 1],
                    ));
                }
            }
        }
        lemma_replay_spawns_fresh(next, rest);
        assert(mirrors + records.map_values(mirror_from()) =~= next + rest.map_values(
            mirror_from(),
        ));
    }
}

/// One step of the replay is exactly what the spawn handler's contract
/// allows: whatever `handle_entity_spawned` does with a record's fields,
/// accepted or dropped as a duplicate, lands on the same mirror table.
pub proof fn lemma_spawn_step_matches_replay(
    pre: Client,
    post: Client,
    result: Result<(), ProtocolError>,
    r: NetworkedEntityRecord,
)
    requires
        entity_spawned_contract(
            pre,
            post,
            result,
            r.owner_peer_id,
            r.entity_id,
            r.entity_type,
            r.transform,
        ),
    ensures
        post.networked_entitys@ == replay_spawns(pre.networked_entitys@, seq![r]),
{
    let recs = seq![r];
    let m0 = pre.networked_entitys@;
    let next = if has_mapping(m0, r.owner_peer_id, r.entity_id) {
        m0
    } else {
        m0.push(mirror_from()(r))
    };
    assert(recs.subrange(1, 1) =~= Seq::<NetworkedEntityRecord>::empty());
    assert(recs[0] == r);
    assert(replay_spawns(next, Seq::<NetworkedEntityRecord>::empty()) == next);
    assert(replay_spawns(m0, recs) == next);
    assert(mirror_from()(r) == RemoteEntityMapping {
        owner_peer_id: r.owner_peer_id,
        entity_id: r.entity_id,
        entity_type: r.entity_type,
        transform: r.transform,
    });
}

/// Convergence on join: the `Welcome` message set of a well-formed server —
/// the peer list and one catch-up spawn per live record — replayed against an
/// empty client, yields exactly one directory entry per session and exactly
/// one mirror per record, each mirror carrying its record's kind and
/// snapshot.
pub proof fn lemma_convergence_on_join(
    known_peers: Seq<PeerSession>,
    records: Seq<NetworkedEntityRecord>,
)
    requires
        records_unique(records),
    ensures
        welcome_players(known_peers).len() == known_peers.len(),
        replay_spawns(Seq::empty(), records) == records.map_values(mirror_from()),
        replay_spawns(Seq::empty(), records).len() == records.len(),
{
    lemma_replay_spawns_fresh(Seq::empty(), records);
    assert(Seq::empty() + records.map_values(mirror_from()) =~= records.map_values(mirror_from()));
}

/// What a tick leaves announced: the already-announced ids whose objects the
/// scene still supplies, in registration order, followed by the newcomers in
/// supply order — nothing else, and nothing twice.
pub proof fn lemma_tick_registration(
    reg: Seq<u64>,
    local: Seq<LocalNetworkedEntity>,
    msgs: Seq<ClientMessage>,
    reg_post: Seq<u64>,
)
    requires
        tick_contract(reg, local, msgs, reg_post),
    ensures
        reg_post == reg.filter(in_local(local)) + new_ids(reg, local),
{
    let fresh = new_ids(reg, local);
    lemma_filter_append(reg, fresh, in_local(local));
    lemma_filter_elems(local, not_registered(reg));
    assert forall|k: int| 0 <= k < fresh.len() implies (in_local(local))(#[trigger] fresh[k]) by {
        let f = local.filter(not_registered(reg));
        assert(fresh[k] == entity_id_of()(f[k]));
        let j = choose|j: int| 0 <= j < local.len() && local[j] == f[k];
        assert(local[j].entity_id == fresh[k]);
    }
    lemma_filter_all_true(fresh, in_local(local));
}

/// Cascade on leave, client side: a `PeerLeft` destroys exactly the departed
/// peer's mirrors and no others.
pub proof fn lemma_cascade_on_leave_client(mappings: Seq<RemoteEntityMapping>, peer_id: u64)
    ensures
        remove_mirrors_of(mappings, peer_id).len() + mirrors_of(mappings, peer_id).len()
            == mappings.len(),
        forall|i: int|
            0 <= i < remove_mirrors_of(mappings, peer_id).len() ==> #[trigger] remove_mirrors_of(
                mappings,
                peer_id,
            )[i].owner_peer_id != peer_id,
{
    assert forall|x: RemoteEntityMapping| #[trigger]
        (other_mirror_owner(peer_id))(x) <==> !(mirror_owner_is(peer_id))(x) by {}
    lemma_filter_partition_len(mappings, other_mirror_owner(peer_id), mirror_owner_is(peer_id));
    lemma_filter_elems(mappings, other_mirror_owner(peer_id));
}

/// Cascade on leave, relayed: a client whose mirrors for the departed peer
/// match the server's records for it destroys exactly as many mirrors as the
/// server removes records.
pub proof fn lemma_cascade_counts(
    pre: Server,
    post: Server,
    out: Seq<Envelope>,
    peer_id: u64,
    mappings: Seq<RemoteEntityMapping>,
)
    requires
        disconnect_contract(pre, post, out, peer_id),
        mirrors_of(mappings, peer_id).len() == owned_by(pre.entities@, peer_id).len(),
    ensures
        mappings.len() - remove_mirrors_of(mappings, peer_id).len() == pre.entities@.len()
            - post.entities@.len(),
{
    lemma_cascade_on_leave_client(mappings, peer_id);
    lemma_cascade_on_leave(pre, post, out, peer_id);
}

} // verus!
