//! The server session manager: the authoritative tables of joined peers and
//! live replicated entities, and the relay rules that keep every client's
//! view consistent.
//!
//! All mutation happens through the `on_*` operations, which return the
//! envelopes to hand to the transport; the relay policy is
//! broadcast-except-self for updates and broadcast-to-remaining for leave
//! notices.

use vstd::prelude::*;
use crate::tables::{
    lemma_filter_all_true, lemma_filter_elems, lemma_filter_partition_len, lemma_filter_push,
    lemma_filter_unique_by, lemma_unique_by_push, unique_by,
};
use crate::protocol::{
    ClientMessage, NetworkTransform, NetworkedEntityType, PeerSession, ProtocolError,
    ServerMessage, Transform, Vec3Bits,
};

verus! {

/// One live replicated entity as the server caches it, so that late joiners
/// can be brought up to date without waiting for the owner's next update.
#[derive(Clone, Copy, Debug, PartialEq, Eq, Structural)]
pub struct NetworkedEntityRecord {
    pub owner_peer_id: u64,
    pub entity_id: u64,
    pub entity_type: NetworkedEntityType,
    pub transform: NetworkTransform,
}

/// A message addressed to one peer; what the transport is asked to send.
#[derive(Clone, Debug, PartialEq)]
pub struct Envelope {
    pub to: u64,
    pub message: ServerMessage,
}

// ---------------------------------------------------------------------------
// The state, mathematically
// ---------------------------------------------------------------------------
pub open spec fn has_session(sessions: Seq<PeerSession>, peer_id: u64) -> bool {
    exists|i: int| 0 <= i < sessions.len() && #[trigger] sessions[i].peer_id == peer_id
}

pub open spec fn has_record(records: Seq<NetworkedEntityRecord>, owner: u64, entity_id: u64) -> bool {
    exists|i: int|
        0 <= i < records.len() && #[trigger] records[i].owner_peer_id == owner
            && records[i].entity_id == entity_id
}

/// What identifies a session: the peer id.
pub open spec fn session_key() -> spec_fn(PeerSession) -> u64 {
    |s: PeerSession| s.peer_id
}

/// What identifies a record: owner and entity id together.
pub open spec fn record_key() -> spec_fn(NetworkedEntityRecord) -> (u64, u64) {
    |r: NetworkedEntityRecord| (r.owner_peer_id, r.entity_id)
}

pub open spec fn sessions_unique(sessions: Seq<PeerSession>) -> bool {
    unique_by(sessions, session_key())
}

pub open spec fn records_unique(records: Seq<NetworkedEntityRecord>) -> bool {
    unique_by(records, record_key())
}

pub open spec fn owners_have_sessions(
    records: Seq<NetworkedEntityRecord>,
    sessions: Seq<PeerSession>,
) -> bool {
    forall|i: int|
        0 <= i < records.len() ==> has_session(sessions, #[trigger] records[i].owner_peer_id)
}

/// The test for a session other than a given peer's.
pub open spec fn other_session(peer_id: u64) -> spec_fn(PeerSession) -> bool {
    |s: PeerSession| s.peer_id != peer_id
}

/// The test for a record not owned by a given peer.
pub open spec fn other_owner(peer_id: u64) -> spec_fn(NetworkedEntityRecord) -> bool {
    |r: NetworkedEntityRecord| r.owner_peer_id != peer_id
}

/// The test for a record owned by a given peer.
pub open spec fn owner_is(peer_id: u64) -> spec_fn(NetworkedEntityRecord) -> bool {
    |r: NetworkedEntityRecord| r.owner_peer_id == peer_id
}

/// The test for a record under any other key.
pub open spec fn other_key(owner: u64, entity_id: u64) -> spec_fn(NetworkedEntityRecord) -> bool {
    |r: NetworkedEntityRecord| !(r.owner_peer_id == owner && r.entity_id == entity_id)
}

/// The sessions that survive a peer's departure.
pub open spec fn remove_session(sessions: Seq<PeerSession>, peer_id: u64) -> Seq<PeerSession> {
    sessions.filter(other_session(peer_id))
}

/// The records that survive a peer's departure.
pub open spec fn remove_owned(
    records: Seq<NetworkedEntityRecord>,
    peer_id: u64,
) -> Seq<NetworkedEntityRecord> {
    records.filter(other_owner(peer_id))
}

/// The records a peer owns, in table order.
pub open spec fn owned_by(
    records: Seq<NetworkedEntityRecord>,
    peer_id: u64,
) -> Seq<NetworkedEntityRecord> {
    records.filter(owner_is(peer_id))
}

/// The table with one key's snapshot replaced; kinds and keys are untouched.
pub open spec fn update_snapshot(
    records: Seq<NetworkedEntityRecord>,
    owner: u64,
    entity_id: u64,
    transform: NetworkTransform,
) -> Seq<NetworkedEntityRecord> {
    Seq::new(
        records.len(),
        |i: int|
            if records[i].owner_peer_id == owner && records[i].entity_id == entity_id {
                NetworkedEntityRecord { transform, ..records[i] }
            } else {
                records[i]
            },
    )
}

/// The table without one key.
pub open spec fn remove_record(
    records: Seq<NetworkedEntityRecord>,
    owner: u64,
    entity_id: u64,
) -> Seq<NetworkedEntityRecord> {
    records.filter(other_key(owner, entity_id))
}

// ---------------------------------------------------------------------------
// The outputs, mathematically
// ---------------------------------------------------------------------------
/// One copy of a message to every listed session, in session order.
pub open spec fn spec_broadcast(to_sessions: Seq<PeerSession>, m: ServerMessage) -> Seq<Envelope> {
    Seq::new(
        to_sessions.len(),
        |i: int| Envelope { to: to_sessions[i].peer_id, message: m },
    )
}

/// The catch-up messages of a `Welcome`: one `EntitySpawned` per live record,
/// in table order, all addressed to the joiner.
pub open spec fn spec_welcome_spawns(records: Seq<NetworkedEntityRecord>, to: u64) -> Seq<Envelope> {
    Seq::new(
        records.len(),
        |i: int|
            Envelope {
                to,
                message: ServerMessage::EntitySpawned {
                    owner_peer_id: records[i].owner_peer_id,
                    entity_id: records[i].entity_id,
                    entity_type: records[i].entity_type,
                    transform: records[i].transform,
                },
            },
    )
}

/// The leave cascade: an `EntityDespawned` for each removed record, each
/// broadcast to every remaining session, record-major.
pub open spec fn spec_despawn_fanout(
    removed: Seq<NetworkedEntityRecord>,
    to_sessions: Seq<PeerSession>,
) -> Seq<Envelope>
    decreases removed.len(),
{
    if removed.len() == 0 {
        Seq::empty()
    } else {
        spec_broadcast(
            to_sessions,
            ServerMessage::EntityDespawned {
                owner_peer_id: removed[0].owner_peer_id,
                entity_id: removed[0].entity_id,
            },
        ) + spec_despawn_fanout(removed.subrange(1, removed.len() as int), to_sessions)
    }
}

/// The peer a relayed message speaks about, when it speaks about one.
pub open spec fn msg_subject(m: ServerMessage) -> Option<u64> {
    match m {
        ServerMessage::SelfUpdate { peer_id, .. } => Some(peer_id),
        ServerMessage::EntitySpawned { owner_peer_id, .. } => Some(owner_peer_id),
        ServerMessage::EntityUpdated { owner_peer_id, .. } => Some(owner_peer_id),
        ServerMessage::EntityDespawned { owner_peer_id, .. } => Some(owner_peer_id),
        _ => None,
    }
}

/// No envelope carries a message back to the peer it speaks about: the
/// broadcast-except-self policy, stated of a whole output batch.
pub open spec fn echo_free(out: Seq<Envelope>) -> bool {
    forall|i: int|
        0 <= i < out.len() ==> match msg_subject(#[trigger] out[i].message) {
            Some(p) => out[i].to != p,
            None => true,
        }
}

// ---------------------------------------------------------------------------
// Lemma toolbox for the filter-based transitions
// ---------------------------------------------------------------------------
/// How the leave cascade steps when one record is appended.
proof fn lemma_despawn_fanout_push(
    removed: Seq<NetworkedEntityRecord>,
    x: NetworkedEntityRecord,
    to_sessions: Seq<PeerSession>,
)
    ensures
        spec_despawn_fanout(removed.push(x), to_sessions) == spec_despawn_fanout(
            removed,
            to_sessions,
        ) + spec_broadcast(
            to_sessions,
            ServerMessage::EntityDespawned {
                owner_peer_id: x.owner_peer_id,
                entity_id: x.entity_id,
            },
        ),
    decreases removed.len(),
{
    let t = removed.push(x);
    let b = spec_broadcast(
        to_sessions,
        ServerMessage::EntityDespawned { owner_peer_id: x.owner_peer_id, entity_id: x.entity_id },
    );
    if removed.len() == 0 {
        assert(t[0] == x);
        assert(t.subrange(1, 1) =~= Seq::<NetworkedEntityRecord>::empty());
        assert(spec_despawn_fanout(Seq::empty(), to_sessions) == Seq::<Envelope>::empty());
        assert(spec_despawn_fanout(t, to_sessions) == b + Seq::<Envelope>::empty());
        assert(b + Seq::<Envelope>::empty() =~= b);
        assert(spec_despawn_fanout(removed, to_sessions) + b =~= b);
    } else {
        assert(t.subrange(1, t.len() as int) =~= removed.subrange(
            1,
            removed.len() as int,
        ).push(x));
        lemma_despawn_fanout_push(removed.subrange(1, removed.len() as int), x, to_sessions);
        let head = spec_broadcast(
            to_sessions,
            ServerMessage::EntityDespawned {
                owner_peer_id: removed[0].owner_peer_id,
                entity_id: removed[0].entity_id,
            },
        );
        assert(t[0] == removed[0]);
        assert(head + (spec_despawn_fanout(removed.subrange(1, removed.len() as int), to_sessions)
            + b) =~= (head + spec_despawn_fanout(
            removed.subrange(1, removed.len() as int),
            to_sessions,
        )) + b);
    }
}

/// The leave cascade never echoes to the departed peer when every recipient
/// differs from it and every record it despawns was owned by it.
proof fn lemma_despawn_fanout_echo_free(
    removed: Seq<NetworkedEntityRecord>,
    to_sessions: Seq<PeerSession>,
    peer_id: u64,
)
    requires
        forall|i: int| 0 <= i < removed.len() ==> #[trigger] removed[i].owner_peer_id == peer_id,
        forall|j: int| 0 <= j < to_sessions.len() ==> #[trigger] to_sessions[j].peer_id != peer_id,
    ensures
        echo_free(spec_despawn_fanout(removed, to_sessions)),
    decreases removed.len(),
{
    if removed.len() > 0 {
        let rest = removed.subrange(1, removed.len() as int);
        lemma_despawn_fanout_echo_free(rest, to_sessions, peer_id);
        let head = spec_broadcast(
            to_sessions,
            ServerMessage::EntityDespawned {
                owner_peer_id: removed[0].owner_peer_id,
                entity_id: removed[0].entity_id,
            },
        );
        let tail = spec_despawn_fanout(rest, to_sessions);
        assert forall|i: int|
            0 <= i < (head + tail).len() implies match msg_subject(
            #[trigger] (head + tail)[i].message,
        ) {
            Some(p) => (head + tail)[i].to != p,
            None => true,
        } by {
            if i < head.len() {
                assert((head + tail)[i] == head[i]);
            } else {
                assert((head + tail)[i] == tail[i - head.len()]);
            }
        }
    }
}

// ---------------------------------------------------------------------------
// The server state
// ---------------------------------------------------------------------------
/// The authoritative state: who is in the session and which replicated
/// entities are live. Owned exclusively by the single server tick; every
/// change flows through the `on_*` operations below.
pub struct Server {
    pub sessions: Vec<PeerSession>,
    pub entities: Vec<NetworkedEntityRecord>,
}

impl Server {
    /// The tables' invariant: peer ids identify sessions, `(owner, entity)`
    /// pairs identify records, and no record outlives its owner's session.
    pub open spec fn wf(&self) -> bool {
        &&& sessions_unique(self.sessions@)
        &&& records_unique(self.entities@)
        &&& owners_have_sessions(self.entities@, self.sessions@)
    }

    /// An empty session: nobody joined, nothing replicated.
    pub fn new() -> (s: Server)
        ensures
            s.sessions@ == Seq::<PeerSession>::empty(),
            s.entities@ == Seq::<NetworkedEntityRecord>::empty(),
            s.wf(),
    {
        Server { sessions: Vec::new(), entities: Vec::new() }
    }

    /// Whether a peer has a live session.
    pub fn contains_session(&self, peer_id: u64) -> (b: bool)
        ensures
            b == has_session(self.sessions@, peer_id),
    {
        let mut i: usize = 0;
        while i < self.sessions.len()
            invariant
                i <= self.sessions@.len(),
                forall|k: int| 0 <= k < i ==> #[trigger] self.sessions@[k].peer_id != peer_id,
            decreases self.sessions@.len() - i,
        {
            if self.sessions[i].peer_id == peer_id {
                return true;
            }
            i = i + 1;
        }
        false
    }

    /// Whether a record is live under the given key.
    pub fn contains_record(&self, owner: u64, entity_id: u64) -> (b: bool)
        ensures
            b == has_record(self.entities@, owner, entity_id),
    {
        let mut i: usize = 0;
        while i < self.entities.len()
            invariant
                i <= self.entities@.len(),
                forall|k: int|
                    0 <= k < i ==> !(#[trigger] self.entities@[k].owner_peer_id == owner
                        && self.entities@[k].entity_id == entity_id),
            decreases self.entities@.len() - i,
        {
            if self.entities[i].owner_peer_id == owner && self.entities[i].entity_id == entity_id {
                return true;
            }
            i = i + 1;
        }
        false
    }

    /// The index of the record under the given key, if it is live.
    fn find_record(&self, owner: u64, entity_id: u64) -> (r: Option<usize>)
        ensures
            match r {
                Some(j) => j < self.entities@.len() && self.entities@[j as int].owner_peer_id
                    == owner && self.entities@[j as int].entity_id == entity_id,
                None => !has_record(self.entities@, owner, entity_id),
            },
    {
        let mut i: usize = 0;
        while i < self.entities.len()
            invariant
                i <= self.entities@.len(),
                forall|k: int|
                    0 <= k < i ==> !(#[trigger] self.entities@[k].owner_peer_id == owner
                        && self.entities@[k].entity_id == entity_id),
            decreases self.entities@.len() - i,
        {
            if self.entities[i].owner_peer_id == owner && self.entities[i].entity_id == entity_id {
                return Some(i);
            }
            i = i + 1;
        }
        None
    }
}

// ---------------------------------------------------------------------------
// Operation contracts
// ---------------------------------------------------------------------------
/// The operations' results with the envelope batch taken at its value.
pub open spec fn out_view(result: Result<Vec<Envelope>, ProtocolError>) -> Result<
    Seq<Envelope>,
    ProtocolError,
> {
    match result {
        Ok(v) => Ok(v@),
        Err(e) => Err(e),
    }
}

/// What a successful join sends: the `Welcome` with every existing session,
/// one catch-up `EntitySpawned` per live record, then `PeerJoined` to every
/// peer that was already there.
pub open spec fn join_output(
    out: Seq<Envelope>,
    sessions: Seq<PeerSession>,
    records: Seq<NetworkedEntityRecord>,
    peer_id: u64,
    display_name: String,
) -> bool {
    &&& out.len() == 1 + records.len() + sessions.len()
    &&& out[0].to == peer_id
    &&& (out[0].message matches ServerMessage::Welcome { peer_id: wid, known_peers }
        && wid == peer_id && known_peers@ == sessions)
    &&& out.subrange(1, 1 + records.len() as int) == spec_welcome_spawns(records, peer_id)
    &&& out.subrange(1 + records.len() as int, out.len() as int) == spec_broadcast(
        sessions,
        ServerMessage::PeerJoined { peer_id, display_name },
    )
}

pub open spec fn join_contract(
    pre: Server,
    post: Server,
    result: Result<Seq<Envelope>, ProtocolError>,
    peer_id: u64,
    display_name: String,
) -> bool {
    if has_session(pre.sessions@, peer_id) {
        &&& result == Err::<Seq<Envelope>, ProtocolError>(ProtocolError::DuplicateJoin)
        &&& post == pre
    } else {
        &&& post.sessions@ == pre.sessions@.push(PeerSession { peer_id, display_name })
        &&& post.entities@ == pre.entities@
        &&& (result matches Ok(out) && join_output(
            out,
            pre.sessions@,
            pre.entities@,
            peer_id,
            display_name,
        ))
    }
}

pub open spec fn disconnect_contract(
    pre: Server,
    post: Server,
    out: Seq<Envelope>,
    peer_id: u64,
) -> bool {
    &&& post.sessions@ == remove_session(pre.sessions@, peer_id)
    &&& post.entities@ == remove_owned(pre.entities@, peer_id)
    &&& if has_session(pre.sessions@, peer_id) {
        out == spec_despawn_fanout(
            owned_by(pre.entities@, peer_id),
            remove_session(pre.sessions@, peer_id),
        ) + spec_broadcast(
            remove_session(pre.sessions@, peer_id),
            ServerMessage::PeerLeft { peer_id },
        )
    } else {
        out == Seq::<Envelope>::empty() && post == pre
    }
}

pub open spec fn update_self_contract(
    srv: Server,
    result: Result<Seq<Envelope>, ProtocolError>,
    peer_id: u64,
    transform: Transform,
    velocity: Vec3Bits,
) -> bool {
    if has_session(srv.sessions@, peer_id) {
        result == Ok::<Seq<Envelope>, ProtocolError>(
            spec_broadcast(
                remove_session(srv.sessions@, peer_id),
                ServerMessage::SelfUpdate { peer_id, transform, velocity },
            ),
        )
    } else {
        result == Err::<Seq<Envelope>, ProtocolError>(ProtocolError::SessionAbsent)
    }
}

pub open spec fn spawn_contract(
    pre: Server,
    post: Server,
    result: Result<Seq<Envelope>, ProtocolError>,
    peer_id: u64,
    entity_id: u64,
    entity_type: NetworkedEntityType,
    transform: NetworkTransform,
) -> bool {
    if !has_session(pre.sessions@, peer_id) {
        &&& result == Err::<Seq<Envelope>, ProtocolError>(ProtocolError::SessionAbsent)
        &&& post == pre
    } else if has_record(pre.entities@, peer_id, entity_id) {
        &&& result == Err::<Seq<Envelope>, ProtocolError>(ProtocolError::DuplicateSpawn)
        &&& post == pre
    } else {
        &&& post.sessions@ == pre.sessions@
        &&& post.entities@ == pre.entities@.push(
            NetworkedEntityRecord { owner_peer_id: peer_id, entity_id, entity_type, transform },
        )
        &&& result == Ok::<Seq<Envelope>, ProtocolError>(
            spec_broadcast(
                remove_session(pre.sessions@, peer_id),
                ServerMessage::EntitySpawned {
                    owner_peer_id: peer_id,
                    entity_id,
                    entity_type,
                    transform,
                },
            ),
        )
    }
}

pub open spec fn update_entity_contract(
    pre: Server,
    post: Server,
    result: Result<Seq<Envelope>, ProtocolError>,
    peer_id: u64,
    entity_id: u64,
    transform: NetworkTransform,
) -> bool {
    if !has_session(pre.sessions@, peer_id) {
        &&& result == Err::<Seq<Envelope>, ProtocolError>(ProtocolError::SessionAbsent)
        &&& post == pre
    } else if !has_record(pre.entities@, peer_id, entity_id) {
        &&& result == Err::<Seq<Envelope>, ProtocolError>(ProtocolError::StaleReference)
        &&& post == pre
    } else {
        &&& post.sessions@ == pre.sessions@
        &&& post.entities@ == update_snapshot(pre.entities@, peer_id, entity_id, transform)
        &&& result == Ok::<Seq<Envelope>, ProtocolError>(
            spec_broadcast(
                remove_session(pre.sessions@, peer_id),
                ServerMessage::EntityUpdated { owner_peer_id: peer_id, entity_id, transform },
            ),
        )
    }
}

pub open spec fn despawn_contract(
    pre: Server,
    post: Server,
    result: Result<Seq<Envelope>, ProtocolError>,
    peer_id: u64,
    entity_id: u64,
) -> bool {
    if !has_session(pre.sessions@, peer_id) {
        &&& result == Err::<Seq<Envelope>, ProtocolError>(ProtocolError::SessionAbsent)
        &&& post == pre
    } else if !has_record(pre.entities@, peer_id, entity_id) {
        &&& result == Err::<Seq<Envelope>, ProtocolError>(ProtocolError::StaleReference)
        &&& post == pre
    } else {
        &&& post.sessions@ == pre.sessions@
        &&& post.entities@ == remove_record(pre.entities@, peer_id, entity_id)
        &&& result == Ok::<Seq<Envelope>, ProtocolError>(
            spec_broadcast(
                remove_session(pre.sessions@, peer_id),
                ServerMessage::EntityDespawned { owner_peer_id: peer_id, entity_id },
            ),
        )
    }
}

// ---------------------------------------------------------------------------
// Executable helpers
// ---------------------------------------------------------------------------
/// A fresh vector equal to the given session list.
fn clone_sessions(v: &Vec<PeerSession>) -> (out: Vec<PeerSession>)
    ensures
        out@ == v@,
{
    let mut out: Vec<PeerSession> = Vec::new();
    let mut i: usize = 0;
    while i < v.len()
        invariant
            i <= v@.len(),
            out@ == v@.take(i as int),
        decreases v@.len() - i,
    {
        out.push(v[i].duplicate());
        proof {
            assert(v@.take(i + 1 as int) =~= v@.take(i as int).push(v@[i as int]));
        }
        i = i + 1;
    }
    proof {
        assert(v@.take(v@.len() as int) =~= v@);
    }
    out
}

/// The session list without one peer, as a fresh vector.
fn retain_sessions(v: &Vec<PeerSession>, peer_id: u64) -> (out: Vec<PeerSession>)
    ensures
        out@ == remove_session(v@, peer_id),
{
    let mut out: Vec<PeerSession> = Vec::new();
    let mut i: usize = 0;
    while i < v.len()
        invariant
            i <= v@.len(),
            out@ == v@.take(i as int).filter(other_session(peer_id)),
        decreases v@.len() - i,
    {
        if v[i].peer_id != peer_id {
            out.push(v[i].duplicate());
        }
        proof {
            assert(v@.take(i + 1 as int) =~= v@.take(i as int).push(v@[i as int]));
            lemma_filter_push(v@.take(i as int), other_session(peer_id), v@[i as int]);
        }
        i = i + 1;
    }
    proof {
        assert(v@.take(v@.len() as int) =~= v@);
    }
    out
}

/// A fresh message equal to the given one; the `Welcome` never travels here,
/// every other variant is plain data plus a name.
fn duplicate_server_message(m: &ServerMessage) -> (r: ServerMessage)
    requires
        !(m is Welcome),
    ensures
        r == *m,
{
    match m {
        ServerMessage::PeerJoined { peer_id, display_name } => ServerMessage::PeerJoined {
            peer_id: *peer_id,
            display_name: display_name.clone(),
        },
        ServerMessage::PeerLeft { peer_id } => ServerMessage::PeerLeft { peer_id: *peer_id },
        ServerMessage::SelfUpdate { peer_id, transform, velocity } => ServerMessage::SelfUpdate {
            peer_id: *peer_id,
            transform: *transform,
            velocity: *velocity,
        },
        ServerMessage::EntitySpawned { owner_peer_id, entity_id, entity_type, transform } => {
            ServerMessage::EntitySpawned {
                owner_peer_id: *owner_peer_id,
                entity_id: *entity_id,
                entity_type: *entity_type,
                transform: *transform,
            }
        },
        ServerMessage::EntityUpdated { owner_peer_id, entity_id, transform } => {
            ServerMessage::EntityUpdated {
                owner_peer_id: *owner_peer_id,
                entity_id: *entity_id,
                transform: *transform,
            }
        },
        ServerMessage::EntityDespawned { owner_peer_id, entity_id } => {
            ServerMessage::EntityDespawned {
                owner_peer_id: *owner_peer_id,
                entity_id: *entity_id,
            }
        },
        ServerMessage::Welcome { .. } => vstd::pervasive::unreached(),
    }
}

/// One copy of the message to every listed session.
fn broadcast_all(sessions: &Vec<PeerSession>, message: &ServerMessage) -> (out: Vec<Envelope>)
    requires
        !(message is Welcome),
    ensures
        out@ == spec_broadcast(sessions@, *message),
{
    let mut out: Vec<Envelope> = Vec::new();
    let mut i: usize = 0;
    while i < sessions.len()
        invariant
            i <= sessions@.len(),
            !(message is Welcome),
            out@ == spec_broadcast(sessions@.take(i as int), *message),
        decreases sessions@.len() - i,
    {
        out.push(Envelope { to: sessions[i].peer_id, message: duplicate_server_message(message) });
        proof {
            assert(spec_broadcast(sessions@.take(i + 1 as int), *message) =~= spec_broadcast(
                sessions@.take(i as int),
                *message,
            ).push(Envelope { to: sessions@[i as int].peer_id, message: *message }));
        }
        i = i + 1;
    }
    proof {
        assert(sessions@.take(sessions@.len() as int) =~= sessions@);
    }
    out
}

/// One copy of the message to every session but the originator's:
/// broadcast-except-self.
fn broadcast_except(sessions: &Vec<PeerSession>, except: u64, message: &ServerMessage) -> (out: Vec<
    Envelope,
>)
    requires
        !(message is Welcome),
    ensures
        out@ == spec_broadcast(remove_session(sessions@, except), *message),
{
    let mut out: Vec<Envelope> = Vec::new();
    let mut i: usize = 0;
    while i < sessions.len()
        invariant
            i <= sessions@.len(),
            !(message is Welcome),
            out@ == spec_broadcast(sessions@.take(i as int).filter(other_session(except)), *message),
        decreases sessions@.len() - i,
    {
        if sessions[i].peer_id != except {
            out.push(
                Envelope { to: sessions[i].peer_id, message: duplicate_server_message(message) },
            );
        }
        proof {
            let prefix = sessions@.take(i as int);
            let x = sessions@[i as int];
            assert(sessions@.take(i + 1 as int) =~= prefix.push(x));
            lemma_filter_push(prefix, other_session(except), x);
            if x.peer_id != except {
                assert(spec_broadcast(prefix.filter(other_session(except)).push(x), *message)
                    =~= spec_broadcast(prefix.filter(other_session(except)), *message).push(
                    Envelope { to: x.peer_id, message: *message },
                ));
            }
        }
        i = i + 1;
    }
    proof {
        assert(sessions@.take(sessions@.len() as int) =~= sessions@);
    }
    out
}

/// Relays addressed through `broadcast_except` never echo to the subject.
proof fn lemma_broadcast_except_echo_free(sessions: Seq<PeerSession>, m: ServerMessage, peer_id: u64)
    requires
        msg_subject(m) == Some(peer_id) || msg_subject(m) is None,
    ensures
        echo_free(spec_broadcast(remove_session(sessions, peer_id), m)),
{
    lemma_filter_elems(sessions, other_session(peer_id));
}

// ---------------------------------------------------------------------------
// The operations
// ---------------------------------------------------------------------------
impl Server {
    /// A peer asks to join under a display name. A second `Join` from a live
    /// peer is a protocol violation and changes nothing; otherwise the session
    /// is created, the joiner gets the `Welcome` and the catch-up spawns, and
    /// everyone already present is told of the newcomer.
    pub fn on_join(&mut self, peer_id: u64, display_name: String) -> (result: Result<
        Vec<Envelope>,
        ProtocolError,
    >)
        requires
            old(self).wf(),
        ensures
            final(self).wf(),
            join_contract(*old(self), *final(self), out_view(result), peer_id, display_name),
            result matches Ok(out) ==> echo_free(out@),
    {
        if self.contains_session(peer_id) {
            return Err(ProtocolError::DuplicateJoin);
        }
        let mut out: Vec<Envelope> = Vec::new();
        let known = clone_sessions(&self.sessions);
        out.push(
            Envelope { to: peer_id, message: ServerMessage::Welcome { peer_id, known_peers: known } },
        );
        let ghost w = out@;
        let n = self.entities.len();
        let mut i: usize = 0;
        while i < n
            invariant
                i <= n,
                n == self.entities@.len(),
                out@ == w + spec_welcome_spawns(self.entities@.take(i as int), peer_id),
            decreases n - i,
        {
            let r = self.entities[i];
            let env = Envelope {
                to: peer_id,
                message: ServerMessage::EntitySpawned {
                    owner_peer_id: r.owner_peer_id,
                    entity_id: r.entity_id,
                    entity_type: r.entity_type,
                    transform: r.transform,
                },
            };
            out.push(env);
            proof {
                let pre = self.entities@.take(i as int);
                let x = self.entities@[i as int];
                assert(self.entities@.take(i + 1 as int) =~= pre.push(x));
                assert(spec_welcome_spawns(pre.push(x), peer_id) =~= spec_welcome_spawns(
                    pre,
                    peer_id,
                ).push(
                    Envelope {
                        to: peer_id,
                        message: ServerMessage::EntitySpawned {
                            owner_peer_id: x.owner_peer_id,
                            entity_id: x.entity_id,
                            entity_type: x.entity_type,
                            transform: x.transform,
                        },
                    },
                ));
                assert(w + spec_welcome_spawns(pre, peer_id).push(env) =~= (w
                    + spec_welcome_spawns(pre, peer_id)).push(env));
            }
            i = i + 1;
        }
        proof {
            assert(self.entities@.take(self.entities@.len() as int) =~= self.entities@);
        }
        let notice = ServerMessage::PeerJoined { peer_id, display_name: display_name.clone() };
        let mut notices = broadcast_all(&self.sessions, &notice);
        out.append(&mut notices);
        self.sessions.push(PeerSession { peer_id, display_name });
        proof {
            let pre_sessions = old(self).sessions@;
            let pre_records = old(self).entities@;
            let spawns = spec_welcome_spawns(pre_records, peer_id);
            let joins = spec_broadcast(pre_sessions, ServerMessage::PeerJoined { peer_id, display_name });
            assert(out@ == (w + spawns) + joins);
            assert(out@.subrange(1, 1 + pre_records.len() as int) =~= spawns);
            assert(out@.subrange(1 + pre_records.len() as int, out@.len() as int) =~= joins);
            // the invariant is kept
            assert forall|k: int| 0 <= k < pre_sessions.len() implies session_key()(
                #[trigger] pre_sessions[k],
            ) != session_key()(PeerSession { peer_id, display_name }) by {}
            lemma_unique_by_push(pre_sessions, session_key(), PeerSession { peer_id, display_name });
            assert forall|k: int| 0 <= k < self.entities@.len() implies has_session(
                self.sessions@,
                #[trigger] self.entities@[k].owner_peer_id,
            ) by {
                let o = self.entities@[k].owner_peer_id;
                assert(has_session(pre_sessions, o));
                let x = choose|x: int| 0 <= x < pre_sessions.len() && pre_sessions[x].peer_id == o;
                assert(self.sessions@[x].peer_id == o);
            }
            // no envelope echoes: the welcome and the catch-up spawns go to the
            // joiner about other owners, the notices speak of nobody
            assert forall|idx: int| 0 <= idx < out@.len() implies match msg_subject(
                #[trigger] out@[idx].message,
            ) {
                Some(p) => out@[idx].to != p,
                None => true,
            } by {
                if idx == 0 {
                } else if idx < 1 + pre_records.len() {
                    assert(out@[idx] == spawns[idx - 1]);
                    let o = pre_records[idx - 1].owner_peer_id;
                    assert(has_session(pre_sessions, o));
                } else {
                    assert(out@[idx] == joins[idx - 1 - pre_records.len()]);
                }
            }
        }
        Ok(out)
    }

    /// A peer left or its connection was lost. Nothing happens when no
    /// session exists (a second signal is a no-op); otherwise the session
    /// goes, every record the peer owned goes, the remaining peers get one
    /// `EntityDespawned` per removed record and then the `PeerLeft`.
    pub fn on_disconnect_or_lost(&mut self, peer_id: u64) -> (out: Vec<Envelope>)
        requires
            old(self).wf(),
        ensures
            final(self).wf(),
            disconnect_contract(*old(self), *final(self), out@, peer_id),
            echo_free(out@),
    {
        if !self.contains_session(peer_id) {
            proof {
                assert forall|i: int| 0 <= i < self.sessions@.len() implies (other_session(peer_id))(
                    #[trigger] self.sessions@[i],
                ) by {}
                lemma_filter_all_true(self.sessions@, other_session(peer_id));
                assert forall|i: int| 0 <= i < self.entities@.len() implies (other_owner(peer_id))(
                    #[trigger] self.entities@[i],
                ) by {
                    assert(has_session(self.sessions@, self.entities@[i].owner_peer_id));
                }
                lemma_filter_all_true(self.entities@, other_owner(peer_id));
            }
            return Vec::new();
        }
        let mut kept: Vec<NetworkedEntityRecord> = Vec::new();
        let mut removed: Vec<NetworkedEntityRecord> = Vec::new();
        let mut i: usize = 0;
        while i < self.entities.len()
            invariant
                i <= self.entities@.len(),
                kept@ == self.entities@.take(i as int).filter(other_owner(peer_id)),
                removed@ == self.entities@.take(i as int).filter(owner_is(peer_id)),
            decreases self.entities@.len() - i,
        {
            let r = self.entities[i];
            if r.owner_peer_id == peer_id {
                removed.push(r);
            } else {
                kept.push(r);
            }
            proof {
                let pre = self.entities@.take(i as int);
                let x = self.entities@[i as int];
                assert(self.entities@.take(i + 1 as int) =~= pre.push(x));
                lemma_filter_push(pre, other_owner(peer_id), x);
                lemma_filter_push(pre, owner_is(peer_id), x);
            }
            i = i + 1;
        }
        proof {
            assert(self.entities@.take(self.entities@.len() as int) =~= self.entities@);
        }
        let remaining = retain_sessions(&self.sessions, peer_id);
        self.entities = kept;
        self.sessions = remaining;
        proof {
            lemma_filter_unique_by(old(self).sessions@, other_session(peer_id), session_key());
            lemma_filter_unique_by(old(self).entities@, other_owner(peer_id), record_key());
            lemma_filter_elems(old(self).entities@, other_owner(peer_id));
            assert forall|k: int| 0 <= k < self.entities@.len() implies has_session(
                self.sessions@,
                #[trigger] self.entities@[k].owner_peer_id,
            ) by {
                let r = self.entities@[k];
                let j = choose|j: int|
                    0 <= j < old(self).entities@.len() && old(self).entities@[j] == r;
                assert(has_session(old(self).sessions@, r.owner_peer_id));
                let k2 = choose|k2: int|
                    0 <= k2 < old(self).sessions@.len() && old(self).sessions@[k2].peer_id
                        == r.owner_peer_id;
                old(self).sessions@.lemma_filter_contains(other_session(peer_id), k2);
                let x = old(self).sessions@[k2];
                let idx = choose|idx: int|
                    0 <= idx < self.sessions@.len() && self.sessions@[idx] == x;
                assert(self.sessions@[idx].peer_id == r.owner_peer_id);
            }
        }
        let mut out: Vec<Envelope> = Vec::new();
        let mut j: usize = 0;
        while j < removed.len()
            invariant
                j <= removed@.len(),
                out@ == spec_despawn_fanout(removed@.take(j as int), self.sessions@),
            decreases removed@.len() - j,
        {
            let r = removed[j];
            let msg = ServerMessage::EntityDespawned {
                owner_peer_id: r.owner_peer_id,
                entity_id: r.entity_id,
            };
            let mut b = broadcast_all(&self.sessions, &msg);
            out.append(&mut b);
            proof {
                assert(removed@.take(j + 1 as int) =~= removed@.take(j as int).push(
                    removed@[j as int],
                ));
                lemma_despawn_fanout_push(removed@.take(j as int), removed@[j as int], self.sessions@);
            }
            j = j + 1;
        }
        proof {
            assert(removed@.take(removed@.len() as int) =~= removed@);
        }
        let mut left = broadcast_all(&self.sessions, &ServerMessage::PeerLeft { peer_id });
        out.append(&mut left);
        proof {
            let fanout = spec_despawn_fanout(removed@, self.sessions@);
            let leftpart = spec_broadcast(self.sessions@, ServerMessage::PeerLeft { peer_id });
            lemma_filter_elems(old(self).entities@, owner_is(peer_id));
            lemma_filter_elems(old(self).sessions@, other_session(peer_id));
            lemma_despawn_fanout_echo_free(removed@, self.sessions@, peer_id);
            assert forall|idx: int| 0 <= idx < out@.len() implies match msg_subject(
                #[trigger] out@[idx].message,
            ) {
                Some(p) => out@[idx].to != p,
                None => true,
            } by {
                if idx < fanout.len() {
                    assert(out@[idx] == fanout[idx]);
                } else {
                    assert(out@[idx] == leftpart[idx - fanout.len()]);
                }
            }
        }
        out
    }

    /// A peer reports its own avatar state; it is relayed to everyone else.
    /// Last write wins at each receiver; no per-field validation happens.
    pub fn on_update_self(&self, peer_id: u64, transform: Transform, velocity: Vec3Bits) -> (result:
        Result<Vec<Envelope>, ProtocolError>)
        ensures
            update_self_contract(*self, out_view(result), peer_id, transform, velocity),
            result matches Ok(out) ==> echo_free(out@),
    {
        if !self.contains_session(peer_id) {
            return Err(ProtocolError::SessionAbsent);
        }
        let msg = ServerMessage::SelfUpdate { peer_id, transform, velocity };
        let out = broadcast_except(&self.sessions, peer_id, &msg);
        proof {
            lemma_broadcast_except_echo_free(self.sessions@, msg, peer_id);
        }
        Ok(out)
    }

    /// A peer announces a new entity it owns. The key must be fresh; the
    /// record is cached for late joiners and the spawn is relayed to everyone
    /// else, with the owner field naming the true owner.
    pub fn on_spawn_entity(
        &mut self,
        peer_id: u64,
        entity_id: u64,
        entity_type: NetworkedEntityType,
        transform: NetworkTransform,
    ) -> (result: Result<Vec<Envelope>, ProtocolError>)
        requires
            old(self).wf(),
        ensures
            final(self).wf(),
            spawn_contract(
                *old(self),
                *final(self),
                out_view(result),
                peer_id,
                entity_id,
                entity_type,
                transform,
            ),
            result matches Ok(out) ==> echo_free(out@),
    {
        if !self.contains_session(peer_id) {
            return Err(ProtocolError::SessionAbsent);
        }
        if self.contains_record(peer_id, entity_id) {
            return Err(ProtocolError::DuplicateSpawn);
        }
        let record = NetworkedEntityRecord { owner_peer_id: peer_id, entity_id, entity_type, transform };
        self.entities.push(record);
        let msg = ServerMessage::EntitySpawned {
            owner_peer_id: peer_id,
            entity_id,
            entity_type,
            transform,
        };
        let out = broadcast_except(&self.sessions, peer_id, &msg);
        proof {
            lemma_broadcast_except_echo_free(self.sessions@, msg, peer_id);
            assert forall|k: int| 0 <= k < old(self).entities@.len() implies record_key()(
                #[trigger] old(self).entities@[k],
            ) != record_key()(record) by {}
            lemma_unique_by_push(old(self).entities@, record_key(), record);
            assert forall|k: int| 0 <= k < self.entities@.len() implies has_session(
                self.sessions@,
                #[trigger] self.entities@[k].owner_peer_id,
            ) by {
                if k < old(self).entities@.len() {
                    assert(self.entities@[k] == old(self).entities@[k]);
                }
            }
        }
        Ok(out)
    }

    /// A peer replaces the snapshot of an entity it owns. An unknown key is a
    /// stale reference: logged upstream, nothing changes, nothing is sent.
    pub fn on_update_entity(
        &mut self,
        peer_id: u64,
        entity_id: u64,
        transform: NetworkTransform,
    ) -> (result: Result<Vec<Envelope>, ProtocolError>)
        requires
            old(self).wf(),
        ensures
            final(self).wf(),
            update_entity_contract(
                *old(self),
                *final(self),
                out_view(result),
                peer_id,
                entity_id,
                transform,
            ),
            result matches Ok(out) ==> echo_free(out@),
    {
        if !self.contains_session(peer_id) {
            return Err(ProtocolError::SessionAbsent);
        }
        let j = match self.find_record(peer_id, entity_id) {
            None => {
                return Err(ProtocolError::StaleReference);
            },
            Some(j) => j,
        };
        let old_r = self.entities[j];
        self.entities[j] = NetworkedEntityRecord {
            owner_peer_id: old_r.owner_peer_id,
            entity_id: old_r.entity_id,
            entity_type: old_r.entity_type,
            transform,
        };
        proof {
            assert forall|k: int|
                0 <= k < self.entities@.len() implies self.entities@[k] == update_snapshot(
                old(self).entities@,
                peer_id,
                entity_id,
                transform,
            )[k] by {
                if k != j {
                    assert(record_key()(old(self).entities@[k]) != record_key()(
                        old(self).entities@[j as int],
                    ));
                }
            }
            assert(self.entities@ =~= update_snapshot(
                old(self).entities@,
                peer_id,
                entity_id,
                transform,
            ));
            assert forall|a: int, b: int| 0 <= a < b < self.entities@.len() implies record_key()(
                #[trigger] self.entities@[a],
            ) != record_key()(#[trigger] self.entities@[b]) by {
                assert(record_key()(self.entities@[a]) == record_key()(old(self).entities@[a]));
                assert(record_key()(self.entities@[b]) == record_key()(old(self).entities@[b]));
            }
            assert forall|k: int| 0 <= k < self.entities@.len() implies has_session(
                self.sessions@,
                #[trigger] self.entities@[k].owner_peer_id,
            ) by {
                assert(self.entities@[k].owner_peer_id == old(self).entities@[k].owner_peer_id);
            }
        }
        let msg = ServerMessage::EntityUpdated { owner_peer_id: peer_id, entity_id, transform };
        let out = broadcast_except(&self.sessions, peer_id, &msg);
        proof {
            lemma_broadcast_except_echo_free(self.sessions@, msg, peer_id);
        }
        Ok(out)
    }

    /// A peer retires an entity it owns. An unknown key is a stale reference
    /// and a no-op; otherwise the record goes and the despawn is relayed to
    /// everyone else.
    pub fn on_despawn_entity(&mut self, peer_id: u64, entity_id: u64) -> (result: Result<
        Vec<Envelope>,
        ProtocolError,
    >)
        requires
            old(self).wf(),
        ensures
            final(self).wf(),
            despawn_contract(*old(self), *final(self), out_view(result), peer_id, entity_id),
            result matches Ok(out) ==> echo_free(out@),
    {
        if !self.contains_session(peer_id) {
            return Err(ProtocolError::SessionAbsent);
        }
        if !self.contains_record(peer_id, entity_id) {
            return Err(ProtocolError::StaleReference);
        }
        let mut kept: Vec<NetworkedEntityRecord> = Vec::new();
        let mut i: usize = 0;
        while i < self.entities.len()
            invariant
                i <= self.entities@.len(),
                kept@ == self.entities@.take(i as int).filter(other_key(peer_id, entity_id)),
            decreases self.entities@.len() - i,
        {
            let r = self.entities[i];
            if !(r.owner_peer_id == peer_id && r.entity_id == entity_id) {
                kept.push(r);
            }
            proof {
                let pre = self.entities@.take(i as int);
                let x = self.entities@[i as int];
                assert(self.entities@.take(i + 1 as int) =~= pre.push(x));
                lemma_filter_push(pre, other_key(peer_id, entity_id), x);
            }
            i = i + 1;
        }
        proof {
            assert(self.entities@.take(self.entities@.len() as int) =~= self.entities@);
        }
        self.entities = kept;
        proof {
            lemma_filter_unique_by(old(self).entities@, other_key(peer_id, entity_id), record_key());
            lemma_filter_elems(old(self).entities@, other_key(peer_id, entity_id));
            assert forall|k: int| 0 <= k < self.entities@.len() implies has_session(
                self.sessions@,
                #[trigger] self.entities@[k].owner_peer_id,
            ) by {
                let r = self.entities@[k];
                let j = choose|j: int|
                    0 <= j < old(self).entities@.len() && old(self).entities@[j] == r;
                assert(has_session(old(self).sessions@, r.owner_peer_id));
            }
        }
        let msg = ServerMessage::EntityDespawned { owner_peer_id: peer_id, entity_id };
        let out = broadcast_except(&self.sessions, peer_id, &msg);
        proof {
            lemma_broadcast_except_echo_free(self.sessions@, msg, peer_id);
        }
        Ok(out)
    }

    /// One inbound client message, dispatched to the operation it names; the
    /// server tick drains its queues through this.
    pub fn process_client_messages(&mut self, peer_id: u64, message: ClientMessage) -> (result:
        Result<Vec<Envelope>, ProtocolError>)
        requires
            old(self).wf(),
        ensures
            final(self).wf(),
            match message {
                ClientMessage::Join { display_name } => join_contract(
                    *old(self),
                    *final(self),
                    out_view(result),
                    peer_id,
                    display_name,
                ),
                ClientMessage::Disconnect => result matches Ok(out) && disconnect_contract(
                    *old(self),
                    *final(self),
                    out@,
                    peer_id,
                ),
                ClientMessage::UpdateSelf { transform, velocity } => *final(self) == *old(self)
                    && update_self_contract(*old(self), out_view(result), peer_id, transform, velocity),
                ClientMessage::SpawnEntity { entity_id, entity_type, transform } => spawn_contract(
                    *old(self),
                    *final(self),
                    out_view(result),
                    peer_id,
                    entity_id,
                    entity_type,
                    transform,
                ),
                ClientMessage::UpdateEntity { entity_id, transform } => update_entity_contract(
                    *old(self),
                    *final(self),
                    out_view(result),
                    peer_id,
                    entity_id,
                    transform,
                ),
                ClientMessage::DespawnEntity { entity_id } => despawn_contract(
                    *old(self),
                    *final(self),
                    out_view(result),
                    peer_id,
                    entity_id,
                ),
            },
            result matches Ok(out) ==> echo_free(out@),
    {
        match message {
            ClientMessage::Join { display_name } => self.on_join(peer_id, display_name),
            ClientMessage::Disconnect => Ok(self.on_disconnect_or_lost(peer_id)),
            ClientMessage::UpdateSelf { transform, velocity } => self.on_update_self(
                peer_id,
                transform,
                velocity,
            ),
            ClientMessage::SpawnEntity { entity_id, entity_type, transform } => self
                .on_spawn_entity(peer_id, entity_id, entity_type, transform),
            ClientMessage::UpdateEntity { entity_id, transform } => self.on_update_entity(
                peer_id,
                entity_id,
                transform,
            ),
            ClientMessage::DespawnEntity { entity_id } => self.on_despawn_entity(peer_id, entity_id),
        }
    }
}

// ---------------------------------------------------------------------------
// Laws
// ---------------------------------------------------------------------------
/// Disconnect cleanup is idempotent: after one cleanup for a peer, a second
/// signal for the same peer changes nothing and sends nothing.
pub proof fn lemma_disconnect_idempotent(
    pre: Server,
    mid: Server,
    post: Server,
    out1: Seq<Envelope>,
    out2: Seq<Envelope>,
    peer_id: u64,
)
    requires
        disconnect_contract(pre, mid, out1, peer_id),
        disconnect_contract(mid, post, out2, peer_id),
    ensures
        post == mid,
        out2 == Seq::<Envelope>::empty(),
{
    lemma_filter_elems(pre.sessions@, other_session(peer_id));
    assert(!has_session(mid.sessions@, peer_id)) by {
        if has_session(mid.sessions@, peer_id) {
            let i = choose|i: int|
                0 <= i < mid.sessions@.len() && #[trigger] mid.sessions@[i].peer_id == peer_id;
            assert((other_session(peer_id))(mid.sessions@[i]));
        }
    }
}

/// Cascade on leave, server side: disconnecting a peer removes exactly the
/// records it owned and nothing else; no record of the departed peer remains.
pub proof fn lemma_cascade_on_leave(pre: Server, post: Server, out: Seq<Envelope>, peer_id: u64)
    requires
        disconnect_contract(pre, post, out, peer_id),
    ensures
        post.entities@.len() + owned_by(pre.entities@, peer_id).len() == pre.entities@.len(),
        forall|i: int|
            0 <= i < post.entities@.len() ==> #[trigger] post.entities@[i].owner_peer_id != peer_id,
        forall|o: u64, e: u64|
            o != peer_id ==> (has_record(post.entities@, o, e) <==> has_record(pre.entities@, o, e)),
{
    assert forall|x: NetworkedEntityRecord| #[trigger]
        (other_owner(peer_id))(x) <==> !(owner_is(peer_id))(x) by {}
    lemma_filter_partition_len(pre.entities@, other_owner(peer_id), owner_is(peer_id));
    lemma_filter_elems(pre.entities@, other_owner(peer_id));
    assert forall|o: u64, e: u64|
        o != peer_id implies (has_record(post.entities@, o, e) <==> has_record(
        pre.entities@,
        o,
        e,
    )) by {
        if has_record(post.entities@, o, e) {
            let i = choose|i: int|
                0 <= i < post.entities@.len() && #[trigger] post.entities@[i].owner_peer_id == o
                    && post.entities@[i].entity_id == e;
            let j = choose|j: int|
                0 <= j < pre.entities@.len() && pre.entities@[j] == post.entities@[i];
            assert(pre.entities@[j].owner_peer_id == o && pre.entities@[j].entity_id == e);
        }
        if has_record(pre.entities@, o, e) {
            let i = choose|i: int|
                0 <= i < pre.entities@.len() && #[trigger] pre.entities@[i].owner_peer_id == o
                    && pre.entities@[i].entity_id == e;
            pre.entities@.lemma_filter_contains(other_owner(peer_id), i);
            let x = pre.entities@[i];
            let k = choose|k: int|
                0 <= k < post.entities@.len() && post.entities@[k] == x;
            assert(post.entities@[k].owner_peer_id == o && post.entities@[k].entity_id == e);
        }
    }
}

} // verus!
