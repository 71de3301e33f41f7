//! The deterministic wire codec for the protocol messages.
//!
//! Every message is a tag byte followed by its fields; integers travel as
//! little-endian bytes, strings as a character count followed by one 32-bit
//! code point per character, and lists as an element count followed by the
//! elements. `spec_*` functions define the byte layout mathematically; the
//! executable encoder and decoder are proved against them, and decoding an
//! encoded message gives the message back exactly.

use vstd::prelude::*;
use vstd::bytes::{
    lemma_auto_spec_u32_to_from_le_bytes, lemma_auto_spec_u64_to_from_le_bytes,
    spec_u32_from_le_bytes, spec_u32_to_le_bytes, spec_u64_from_le_bytes, spec_u64_to_le_bytes,
    u32_from_le_bytes, u32_to_le_bytes, u64_from_le_bytes, u64_to_le_bytes,
};
use vstd::slice::slice_subrange;
use vstd::utf8::{char_is_scalar, char_u32_cast, is_scalar};
use crate::protocol::{
    ClientMessage, ClientMessageV, NetworkedEntityType, NetworkTransform, PeerSession,
    PeerSessionV, QuatBits, ServerMessage, ServerMessageV, Transform, Vec3Bits,
};

verus! {

// ---------------------------------------------------------------------------
// Byte layout, mathematically
// ---------------------------------------------------------------------------
pub open spec fn spec_enc_u32(x: u32) -> Seq<u8> {
    spec_u32_to_le_bytes(x)
}

pub open spec fn spec_enc_u64(x: u64) -> Seq<u8> {
    spec_u64_to_le_bytes(x)
}

/// Each character as its 32-bit code point, in order.
pub open spec fn spec_enc_chars(s: Seq<char>) -> Seq<u8>
    decreases s.len(),
{
    if s.len() == 0 {
        Seq::empty()
    } else {
        spec_enc_u32(s[0] as u32) + spec_enc_chars(s.subrange(1, s.len() as int))
    }
}

/// A string: its character count, then its characters.
pub open spec fn spec_enc_string(s: Seq<char>) -> Seq<u8> {
    spec_enc_u64(s.len() as u64) + spec_enc_chars(s)
}

pub open spec fn spec_enc_vec3(v: Vec3Bits) -> Seq<u8> {
    spec_enc_u32(v.x) + spec_enc_u32(v.y) + spec_enc_u32(v.z)
}

pub open spec fn spec_enc_quat(q: QuatBits) -> Seq<u8> {
    spec_enc_u32(q.x) + spec_enc_u32(q.y) + spec_enc_u32(q.z) + spec_enc_u32(q.w)
}

pub open spec fn spec_enc_transform(t: Transform) -> Seq<u8> {
    spec_enc_vec3(t.translation) + spec_enc_quat(t.rotation) + spec_enc_vec3(t.scale)
}

pub open spec fn spec_enc_snapshot(t: NetworkTransform) -> Seq<u8> {
    spec_enc_vec3(t.position) + spec_enc_quat(t.rotation) + spec_enc_vec3(t.scale) + spec_enc_vec3(
        t.velocity,
    )
}

pub open spec fn spec_enc_entity_type(k: NetworkedEntityType) -> Seq<u8> {
    match k {
        NetworkedEntityType::Bullet(n) => seq![0u8] + spec_enc_u32(n),
        NetworkedEntityType::Portal(n) => seq![1u8] + spec_enc_u32(n),
    }
}

pub open spec fn spec_enc_peer(p: PeerSessionV) -> Seq<u8> {
    spec_enc_u64(p.peer_id) + spec_enc_string(p.display_name)
}

/// The peers of a `Welcome`, in order, without a count (the count stands in
/// front of the list in the message itself).
pub open spec fn spec_enc_peers(ps: Seq<PeerSessionV>) -> Seq<u8>
    decreases ps.len(),
{
    if ps.len() == 0 {
        Seq::empty()
    } else {
        spec_enc_peer(ps[0]) + spec_enc_peers(ps.subrange(1, ps.len() as int))
    }
}

pub open spec fn spec_enc_client_msg(m: ClientMessageV) -> Seq<u8> {
    match m {
        ClientMessageV::Join { display_name } => seq![0u8] + spec_enc_string(display_name),
        ClientMessageV::Disconnect => seq![1u8],
        ClientMessageV::UpdateSelf { transform, velocity } => seq![2u8] + spec_enc_transform(
            transform,
        ) + spec_enc_vec3(velocity),
        ClientMessageV::SpawnEntity { entity_id, entity_type, transform } => seq![3u8]
            + spec_enc_u64(entity_id) + spec_enc_entity_type(entity_type) + spec_enc_snapshot(
            transform,
        ),
        ClientMessageV::UpdateEntity { entity_id, transform } => seq![4u8] + spec_enc_u64(
            entity_id,
        ) + spec_enc_snapshot(transform),
        ClientMessageV::DespawnEntity { entity_id } => seq![5u8] + spec_enc_u64(entity_id),
    }
}

pub open spec fn spec_enc_server_msg(m: ServerMessageV) -> Seq<u8> {
    match m {
        ServerMessageV::PeerJoined { peer_id, display_name } => seq![0u8] + spec_enc_u64(peer_id)
            + spec_enc_string(display_name),
        ServerMessageV::PeerLeft { peer_id } => seq![1u8] + spec_enc_u64(peer_id),
        ServerMessageV::SelfUpdate { peer_id, transform, velocity } => seq![2u8] + spec_enc_u64(
            peer_id,
        ) + spec_enc_transform(transform) + spec_enc_vec3(velocity),
        ServerMessageV::EntitySpawned { owner_peer_id, entity_id, entity_type, transform } => seq![
            3u8,
        ] + spec_enc_u64(owner_peer_id) + spec_enc_u64(entity_id) + spec_enc_entity_type(
            entity_type,
        ) + spec_enc_snapshot(transform),
        ServerMessageV::EntityUpdated { owner_peer_id, entity_id, transform } => seq![4u8]
            + spec_enc_u64(owner_peer_id) + spec_enc_u64(entity_id) + spec_enc_snapshot(transform),
        ServerMessageV::EntityDespawned { owner_peer_id, entity_id } => seq![5u8] + spec_enc_u64(
            owner_peer_id,
        ) + spec_enc_u64(entity_id),
        ServerMessageV::Welcome { peer_id, known_peers } => seq![6u8] + spec_enc_u64(peer_id)
            + spec_enc_u64(known_peers.len() as u64) + spec_enc_peers(known_peers),
    }
}

/// The counts written to the wire are 64-bit; a message value round-trips
/// exactly when they fit. Every message built at run time satisfies this.
pub open spec fn wf_client_msg(m: ClientMessageV) -> bool {
    match m {
        ClientMessageV::Join { display_name } => display_name.len() <= u64::MAX,
        _ => true,
    }
}

pub open spec fn wf_server_msg(m: ServerMessageV) -> bool {
    match m {
        ServerMessageV::PeerJoined { display_name, .. } => display_name.len() <= u64::MAX,
        ServerMessageV::Welcome { known_peers, .. } => known_peers.len() <= u64::MAX
            && (forall|i: int|
            0 <= i < known_peers.len() ==> #[trigger] known_peers[i].display_name.len()
                <= u64::MAX),
        _ => true,
    }
}

// ---------------------------------------------------------------------------
// Decoding, mathematically: each reader takes an offset and returns the value
// and the offset just past it, or nothing when the bytes do not parse.
// ---------------------------------------------------------------------------
pub open spec fn spec_dec_u8(s: Seq<u8>, off: int) -> Option<(u8, int)> {
    if 0 <= off && off + 1 <= s.len() {
        Some((s[off], off + 1))
    } else {
        None
    }
}

pub open spec fn spec_dec_u32(s: Seq<u8>, off: int) -> Option<(u32, int)> {
    if 0 <= off && off + 4 <= s.len() {
        Some((spec_u32_from_le_bytes(s.subrange(off, off + 4)), off + 4))
    } else {
        None
    }
}

pub open spec fn spec_dec_u64(s: Seq<u8>, off: int) -> Option<(u64, int)> {
    if 0 <= off && off + 8 <= s.len() {
        Some((spec_u64_from_le_bytes(s.subrange(off, off + 8)), off + 8))
    } else {
        None
    }
}

pub open spec fn spec_dec_char(s: Seq<u8>, off: int) -> Option<(char, int)> {
    match spec_dec_u32(s, off) {
        None => None,
        Some((v, o)) => if is_scalar(v) {
            Some((v as char, o))
        } else {
            None
        },
    }
}

pub open spec fn spec_dec_chars(s: Seq<u8>, off: int, n: nat) -> Option<(Seq<char>, int)>
    decreases n,
{
    if n == 0 {
        Some((Seq::empty(), off))
    } else {
        match spec_dec_char(s, off) {
            None => None,
            Some((c, o)) => match spec_dec_chars(s, o, (n - 1) as nat) {
                None => None,
                Some((cs, o2)) => Some((seq![c] + cs, o2)),
            },
        }
    }
}

pub open spec fn spec_dec_string(s: Seq<u8>, off: int) -> Option<(Seq<char>, int)> {
    match spec_dec_u64(s, off) {
        None => None,
        Some((n, o)) => spec_dec_chars(s, o, n as nat),
    }
}

pub open spec fn spec_dec_vec3(s: Seq<u8>, off: int) -> Option<(Vec3Bits, int)> {
    match spec_dec_u32(s, off) {
        None => None,
        Some((x, o1)) => match spec_dec_u32(s, o1) {
            None => None,
            Some((y, o2)) => match spec_dec_u32(s, o2) {
                None => None,
                Some((z, o3)) => Some((Vec3Bits { x, y, z }, o3)),
            },
        },
    }
}

pub open spec fn spec_dec_quat(s: Seq<u8>, off: int) -> Option<(QuatBits, int)> {
    match spec_dec_u32(s, off) {
        None => None,
        Some((x, o1)) => match spec_dec_u32(s, o1) {
            None => None,
            Some((y, o2)) => match spec_dec_u32(s, o2) {
                None => None,
                Some((z, o3)) => match spec_dec_u32(s, o3) {
                    None => None,
                    Some((w, o4)) => Some((QuatBits { x, y, z, w }, o4)),
                },
            },
        },
    }
}

pub open spec fn spec_dec_transform(s: Seq<u8>, off: int) -> Option<(Transform, int)> {
    match spec_dec_vec3(s, off) {
        None => None,
        Some((translation, o1)) => match spec_dec_quat(s, o1) {
            None => None,
            Some((rotation, o2)) => match spec_dec_vec3(s, o2) {
                None => None,
                Some((scale, o3)) => Some((Transform { translation, rotation, scale }, o3)),
            },
        },
    }
}

pub open spec fn spec_dec_snapshot(s: Seq<u8>, off: int) -> Option<(NetworkTransform, int)> {
    match spec_dec_vec3(s, off) {
        None => None,
        Some((position, o1)) => match spec_dec_quat(s, o1) {
            None => None,
            Some((rotation, o2)) => match spec_dec_vec3(s, o2) {
                None => None,
                Some((scale, o3)) => match spec_dec_vec3(s, o3) {
                    None => None,
                    Some((velocity, o4)) => Some(
                        (NetworkTransform { position, rotation, scale, velocity }, o4),
                    ),
                },
            },
        },
    }
}

pub open spec fn spec_dec_entity_type(s: Seq<u8>, off: int) -> Option<(NetworkedEntityType, int)> {
    match spec_dec_u8(s, off) {
        None => None,
        Some((tag, o)) => match spec_dec_u32(s, o) {
            None => None,
            Some((n, o2)) => if tag == 0u8 {
                Some((NetworkedEntityType::Bullet(n), o2))
            } else if tag == 1u8 {
                Some((NetworkedEntityType::Portal(n), o2))
            } else {
                None
            },
        },
    }
}

pub open spec fn spec_dec_peer(s: Seq<u8>, off: int) -> Option<(PeerSessionV, int)> {
    match spec_dec_u64(s, off) {
        None => None,
        Some((peer_id, o1)) => match spec_dec_string(s, o1) {
            None => None,
            Some((display_name, o2)) => Some((PeerSessionV { peer_id, display_name }, o2)),
        },
    }
}

pub open spec fn spec_dec_peers(s: Seq<u8>, off: int, n: nat) -> Option<(Seq<PeerSessionV>, int)>
    decreases n,
{
    if n == 0 {
        Some((Seq::empty(), off))
    } else {
        match spec_dec_peer(s, off) {
            None => None,
            Some((p, o)) => match spec_dec_peers(s, o, (n - 1) as nat) {
                None => None,
                Some((ps, o2)) => Some((seq![p] + ps, o2)),
            },
        }
    }
}

pub open spec fn spec_dec_client_msg_at(s: Seq<u8>, off: int) -> Option<(ClientMessageV, int)> {
    match spec_dec_u8(s, off) {
        None => None,
        Some((tag, o)) => if tag == 0u8 {
            match spec_dec_string(s, o) {
                None => None,
                Some((display_name, o2)) => Some((ClientMessageV::Join { display_name }, o2)),
            }
        } else if tag == 1u8 {
            Some((ClientMessageV::Disconnect, o))
        } else if tag == 2u8 {
            match spec_dec_transform(s, o) {
                None => None,
                Some((transform, o2)) => match spec_dec_vec3(s, o2) {
                    None => None,
                    Some((velocity, o3)) => Some(
                        (ClientMessageV::UpdateSelf { transform, velocity }, o3),
                    ),
                },
            }
        } else if tag == 3u8 {
            match spec_dec_u64(s, o) {
                None => None,
                Some((entity_id, o2)) => match spec_dec_entity_type(s, o2) {
                    None => None,
                    Some((entity_type, o3)) => match spec_dec_snapshot(s, o3) {
                        None => None,
                        Some((transform, o4)) => Some(
                            (ClientMessageV::SpawnEntity { entity_id, entity_type, transform }, o4),
                        ),
                    },
                },
            }
        } else if tag == 4u8 {
            match spec_dec_u64(s, o) {
                None => None,
                Some((entity_id, o2)) => match spec_dec_snapshot(s, o2) {
                    None => None,
                    Some((transform, o3)) => Some(
                        (ClientMessageV::UpdateEntity { entity_id, transform }, o3),
                    ),
                },
            }
        } else if tag == 5u8 {
            match spec_dec_u64(s, o) {
                None => None,
                Some((entity_id, o2)) => Some((ClientMessageV::DespawnEntity { entity_id }, o2)),
            }
        } else {
            None
        },
    }
}

pub open spec fn spec_dec_server_msg_at(s: Seq<u8>, off: int) -> Option<(ServerMessageV, int)> {
    match spec_dec_u8(s, off) {
        None => None,
        Some((tag, o)) => if tag == 0u8 {
            match spec_dec_u64(s, o) {
                None => None,
                Some((peer_id, o2)) => match spec_dec_string(s, o2) {
                    None => None,
                    Some((display_name, o3)) => Some(
                        (ServerMessageV::PeerJoined { peer_id, display_name }, o3),
                    ),
                },
            }
        } else if tag == 1u8 {
            match spec_dec_u64(s, o) {
                None => None,
                Some((peer_id, o2)) => Some((ServerMessageV::PeerLeft { peer_id }, o2)),
            }
        } else if tag == 2u8 {
            match spec_dec_u64(s, o) {
                None => None,
                Some((peer_id, o2)) => match spec_dec_transform(s, o2) {
                    None => None,
                    Some((transform, o3)) => match spec_dec_vec3(s, o3) {
                        None => None,
                        Some((velocity, o4)) => Some(
                            (ServerMessageV::SelfUpdate { peer_id, transform, velocity }, o4),
                        ),
                    },
                },
            }
        } else if tag == 3u8 {
            match spec_dec_u64(s, o) {
                None => None,
                Some((owner_peer_id, o2)) => match spec_dec_u64(s, o2) {
                    None => None,
                    Some((entity_id, o3)) => match spec_dec_entity_type(s, o3) {
                        None => None,
                        Some((entity_type, o4)) => match spec_dec_snapshot(s, o4) {
                            None => None,
                            Some((transform, o5)) => Some(
                                (
                                    ServerMessageV::EntitySpawned {
                                        owner_peer_id,
                                        entity_id,
                                        entity_type,
                                        transform,
                                    },
                                    o5,
                                ),
                            ),
                        },
                    },
                },
            }
        } else if tag == 4u8 {
            match spec_dec_u64(s, o) {
                None => None,
                Some((owner_peer_id, o2)) => match spec_dec_u64(s, o2) {
                    None => None,
                    Some((entity_id, o3)) => match spec_dec_snapshot(s, o3) {
                        None => None,
                        Some((transform, o4)) => Some(
                            (
                                ServerMessageV::EntityUpdated {
                                    owner_peer_id,
                                    entity_id,
                                    transform,
                                },
                                o4,
                            ),
                        ),
                    },
                },
            }
        } else if tag == 5u8 {
            match spec_dec_u64(s, o) {
                None => None,
                Some((owner_peer_id, o2)) => match spec_dec_u64(s, o2) {
                    None => None,
                    Some((entity_id, o3)) => Some(
                        (ServerMessageV::EntityDespawned { owner_peer_id, entity_id }, o3),
                    ),
                },
            }
        } else if tag == 6u8 {
            match spec_dec_u64(s, o) {
                None => None,
                Some((peer_id, o2)) => match spec_dec_u64(s, o2) {
                    None => None,
                    Some((n, o3)) => match spec_dec_peers(s, o3, n as nat) {
                        None => None,
                        Some((known_peers, o4)) => Some(
                            (ServerMessageV::Welcome { peer_id, known_peers }, o4),
                        ),
                    },
                },
            }
        } else {
            None
        },
    }
}

/// A whole client message: parses from the first byte and must consume the
/// buffer exactly; trailing bytes are rejected.
pub open spec fn spec_dec_client_msg(s: Seq<u8>) -> Option<ClientMessageV> {
    match spec_dec_client_msg_at(s, 0) {
        None => None,
        Some((m, o)) => if o == s.len() {
            Some(m)
        } else {
            None
        },
    }
}

/// A whole server message; trailing bytes are rejected.
pub open spec fn spec_dec_server_msg(s: Seq<u8>) -> Option<ServerMessageV> {
    match spec_dec_server_msg_at(s, 0) {
        None => None,
        Some((m, o)) => if o == s.len() {
            Some(m)
        } else {
            None
        },
    }
}

// ---------------------------------------------------------------------------
// Encoding, executably
// ---------------------------------------------------------------------------
proof fn lemma_enc_chars_push(s: Seq<char>, c: char)
    ensures
        spec_enc_chars(s.push(c)) == spec_enc_chars(s) + spec_enc_u32(c as u32),
    decreases s.len(),
{
    if s.len() == 0 {
        let t = s.push(c);
        assert(t[0] == c);
        assert(t.subrange(1, 1) =~= Seq::<char>::empty());
        assert(spec_enc_chars(Seq::<char>::empty()) == Seq::<u8>::empty());
        assert(spec_enc_chars(t) == spec_enc_u32(c as u32) + Seq::<u8>::empty());
        assert(spec_enc_u32(c as u32) + Seq::<u8>::empty() =~= spec_enc_u32(c as u32));
        assert(s =~= Seq::<char>::empty());
        assert(spec_enc_chars(s) + spec_enc_u32(c as u32) =~= spec_enc_u32(c as u32));
    } else {
        let t = s.push(c);
        assert(t.subrange(1, t.len() as int) =~= s.subrange(1, s.len() as int).push(c));
        lemma_enc_chars_push(s.subrange(1, s.len() as int), c);
        assert(spec_enc_chars(t) == spec_enc_u32(t[0] as u32) + (spec_enc_chars(
            s.subrange(1, s.len() as int),
        ) + spec_enc_u32(c as u32)));
        assert(t[0] == s[0]);
        assert(spec_enc_u32(s[0] as u32) + (spec_enc_chars(s.subrange(1, s.len() as int))
            + spec_enc_u32(c as u32)) =~= (spec_enc_u32(s[0] as u32) + spec_enc_chars(
            s.subrange(1, s.len() as int),
        )) + spec_enc_u32(c as u32));
    }
}

proof fn lemma_enc_peers_push(s: Seq<PeerSessionV>, p: PeerSessionV)
    ensures
        spec_enc_peers(s.push(p)) == spec_enc_peers(s) + spec_enc_peer(p),
    decreases s.len(),
{
    if s.len() == 0 {
        let t = s.push(p);
        assert(t[0] == p);
        assert(t.subrange(1, 1) =~= Seq::<PeerSessionV>::empty());
        assert(spec_enc_peers(Seq::<PeerSessionV>::empty()) == Seq::<u8>::empty());
        assert(spec_enc_peers(t) == spec_enc_peer(p) + Seq::<u8>::empty());
        assert(spec_enc_peer(p) + Seq::<u8>::empty() =~= spec_enc_peer(p));
        assert(s =~= Seq::<PeerSessionV>::empty());
        assert(spec_enc_peers(s) + spec_enc_peer(p) =~= spec_enc_peer(p));
    } else {
        let t = s.push(p);
        assert(t.subrange(1, t.len() as int) =~= s.subrange(1, s.len() as int).push(p));
        lemma_enc_peers_push(s.subrange(1, s.len() as int), p);
        assert(t[0] == s[0]);
        assert(spec_enc_peer(s[0]) + (spec_enc_peers(s.subrange(1, s.len() as int))
            + spec_enc_peer(p)) =~= (spec_enc_peer(s[0]) + spec_enc_peers(
            s.subrange(1, s.len() as int),
        )) + spec_enc_peer(p));
    }
}

fn push_u8(out: &mut Vec<u8>, b: u8)
    ensures
        final(out)@ == old(out)@ + seq![b],
{
    out.push(b);
    assert(old(out)@.push(b) =~= old(out)@ + seq![b]);
}

fn push_u32(out: &mut Vec<u8>, x: u32)
    ensures
        final(out)@ == old(out)@ + spec_enc_u32(x),
{
    let mut b = u32_to_le_bytes(x);
    out.append(&mut b);
}

fn push_u64(out: &mut Vec<u8>, x: u64)
    ensures
        final(out)@ == old(out)@ + spec_enc_u64(x),
{
    let mut b = u64_to_le_bytes(x);
    out.append(&mut b);
}

fn push_string(out: &mut Vec<u8>, s: &String)
    ensures
        final(out)@ == old(out)@ + spec_enc_string(s@),
        s@.len() <= u64::MAX,
{
    let n = s.as_str().unicode_len();
    push_u64(out, n as u64);
    let ghost base = out@;
    let mut i: usize = 0;
    while i < n
        invariant
            n == s@.len(),
            i <= n,
            out@ == base + spec_enc_chars(s@.subrange(0, i as int)),
        decreases n - i,
    {
        let c = s.as_str().get_char(i);
        push_u32(out, c as u32);
        proof {
            assert(s@.subrange(0, i + 1 as int) =~= s@.subrange(0, i as int).push(s@[i as int]));
            lemma_enc_chars_push(s@.subrange(0, i as int), s@[i as int]);
        }
        i = i + 1;
    }
    proof {
        assert(s@.subrange(0, n as int) =~= s@);
    }
}

fn push_vec3(out: &mut Vec<u8>, v: &Vec3Bits)
    ensures
        final(out)@ == old(out)@ + spec_enc_vec3(*v),
{
    push_u32(out, v.x);
    push_u32(out, v.y);
    push_u32(out, v.z);
}

fn push_quat(out: &mut Vec<u8>, q: &QuatBits)
    ensures
        final(out)@ == old(out)@ + spec_enc_quat(*q),
{
    push_u32(out, q.x);
    push_u32(out, q.y);
    push_u32(out, q.z);
    push_u32(out, q.w);
}

fn push_transform(out: &mut Vec<u8>, t: &Transform)
    ensures
        final(out)@ == old(out)@ + spec_enc_transform(*t),
{
    push_vec3(out, &t.translation);
    push_quat(out, &t.rotation);
    push_vec3(out, &t.scale);
}

fn push_snapshot(out: &mut Vec<u8>, t: &NetworkTransform)
    ensures
        final(out)@ == old(out)@ + spec_enc_snapshot(*t),
{
    push_vec3(out, &t.position);
    push_quat(out, &t.rotation);
    push_vec3(out, &t.scale);
    push_vec3(out, &t.velocity);
}

fn push_entity_type(out: &mut Vec<u8>, k: &NetworkedEntityType)
    ensures
        final(out)@ == old(out)@ + spec_enc_entity_type(*k),
{
    match k {
        NetworkedEntityType::Bullet(n) => {
            push_u8(out, 0);
            push_u32(out, *n);
        },
        NetworkedEntityType::Portal(n) => {
            push_u8(out, 1);
            push_u32(out, *n);
        },
    }
}

fn push_peer(out: &mut Vec<u8>, p: &PeerSession)
    ensures
        final(out)@ == old(out)@ + spec_enc_peer(p@),
        p@.display_name.len() <= u64::MAX,
{
    push_u64(out, p.peer_id);
    push_string(out, &p.display_name);
}

/// Turn a client message into its wire bytes.
pub fn encode_client_message(m: &ClientMessage) -> (out: Vec<u8>)
    ensures
        out@ == spec_enc_client_msg(m@),
        wf_client_msg(m@),
{
    let mut out: Vec<u8> = Vec::new();
    match m {
        ClientMessage::Join { display_name } => {
            push_u8(&mut out, 0);
            push_string(&mut out, display_name);
        },
        ClientMessage::Disconnect => {
            push_u8(&mut out, 1);
        },
        ClientMessage::UpdateSelf { transform, velocity } => {
            push_u8(&mut out, 2);
            push_transform(&mut out, transform);
            push_vec3(&mut out, velocity);
        },
        ClientMessage::SpawnEntity { entity_id, entity_type, transform } => {
            push_u8(&mut out, 3);
            push_u64(&mut out, *entity_id);
            push_entity_type(&mut out, entity_type);
            push_snapshot(&mut out, transform);
        },
        ClientMessage::UpdateEntity { entity_id, transform } => {
            push_u8(&mut out, 4);
            push_u64(&mut out, *entity_id);
            push_snapshot(&mut out, transform);
        },
        ClientMessage::DespawnEntity { entity_id } => {
            push_u8(&mut out, 5);
            push_u64(&mut out, *entity_id);
        },
    }
    out
}

/// Turn a server message into its wire bytes.
pub fn encode_server_message(m: &ServerMessage) -> (out: Vec<u8>)
    ensures
        out@ == spec_enc_server_msg(m@),
        wf_server_msg(m@),
{
    let mut out: Vec<u8> = Vec::new();
    match m {
        ServerMessage::PeerJoined { peer_id, display_name } => {
            push_u8(&mut out, 0);
            push_u64(&mut out, *peer_id);
            push_string(&mut out, display_name);
        },
        ServerMessage::PeerLeft { peer_id } => {
            push_u8(&mut out, 1);
            push_u64(&mut out, *peer_id);
        },
        ServerMessage::SelfUpdate { peer_id, transform, velocity } => {
            push_u8(&mut out, 2);
            push_u64(&mut out, *peer_id);
            push_transform(&mut out, transform);
            push_vec3(&mut out, velocity);
        },
        ServerMessage::EntitySpawned { owner_peer_id, entity_id, entity_type, transform } => {
            push_u8(&mut out, 3);
            push_u64(&mut out, *owner_peer_id);
            push_u64(&mut out, *entity_id);
            push_entity_type(&mut out, entity_type);
            push_snapshot(&mut out, transform);
        },
        ServerMessage::EntityUpdated { owner_peer_id, entity_id, transform } => {
            push_u8(&mut out, 4);
            push_u64(&mut out, *owner_peer_id);
            push_u64(&mut out, *entity_id);
            push_snapshot(&mut out, transform);
        },
        ServerMessage::EntityDespawned { owner_peer_id, entity_id } => {
            push_u8(&mut out, 5);
            push_u64(&mut out, *owner_peer_id);
            push_u64(&mut out, *entity_id);
        },
        ServerMessage::Welcome { peer_id, known_peers } => {
            push_u8(&mut out, 6);
            push_u64(&mut out, *peer_id);
            push_u64(&mut out, known_peers.len() as u64);
            let ghost base = out@;
            let ghost peers_v = known_peers@.map_values(|p: PeerSession| p@);
            let mut i: usize = 0;
            while i < known_peers.len()
                invariant
                    i <= known_peers@.len(),
                    peers_v == known_peers@.map_values(|p: PeerSession| p@),
                    out@ == base + spec_enc_peers(peers_v.subrange(0, i as int)),
                    forall|j: int|
                        0 <= j < i ==> #[trigger] peers_v[j].display_name.len() <= u64::MAX,
                decreases known_peers@.len() - i,
            {
                push_peer(&mut out, &known_peers[i]);
                proof {
                    assert(peers_v[i as int] == known_peers@[i as int]@);
                    assert(peers_v.subrange(0, i + 1 as int) =~= peers_v.subrange(
                        0,
                        i as int,
                    ).push(peers_v[i as int]));
                    lemma_enc_peers_push(peers_v.subrange(0, i as int), peers_v[i as int]);
                }
                i = i + 1;
            }
            proof {
                assert(peers_v.subrange(0, known_peers@.len() as int) =~= peers_v);
            }
        },
    }
    out
}

// ---------------------------------------------------------------------------
// Decoding, executably
// ---------------------------------------------------------------------------
/// Relies on `char::from_u32`: returns `Some` exactly for Unicode scalar
/// values, giving the character with that code point.
#[verifier::external_body]
fn char_from_u32(v: u32) -> (r: Option<char>)
    ensures
        r is Some <==> is_scalar(v),
        r matches Some(c) ==> c as u32 == v,
{
    char::from_u32(v)
}

/// Relies on `String::push`: appends the given character to the end.
#[verifier::external_body]
fn push_char(s: &mut String, c: char)
    ensures
        final(s)@ == old(s)@.push(c),
{
    s.push(c)
}

spec fn combine_chars(prefix: Seq<char>, rest: Option<(Seq<char>, int)>) -> Option<
    (Seq<char>, int),
> {
    match rest {
        None => None,
        Some((cs, o)) => Some((prefix + cs, o)),
    }
}

spec fn combine_peers(prefix: Seq<PeerSessionV>, rest: Option<(Seq<PeerSessionV>, int)>) -> Option<
    (Seq<PeerSessionV>, int),
> {
    match rest {
        None => None,
        Some((ps, o)) => Some((prefix + ps, o)),
    }
}

fn read_u8(bytes: &Vec<u8>, off: &mut usize) -> (r: Option<u8>)
    ensures
        match r {
            Some(b) => spec_dec_u8(bytes@, *old(off) as int) == Some((b, *final(off) as int)),
            None => spec_dec_u8(bytes@, *old(off) as int) is None,
        },
{
    if *off < bytes.len() {
        let b = bytes[*off];
        *off = *off + 1;
        Some(b)
    } else {
        None
    }
}

fn read_u32(bytes: &Vec<u8>, off: &mut usize) -> (r: Option<u32>)
    ensures
        match r {
            Some(x) => spec_dec_u32(bytes@, *old(off) as int) == Some((x, *final(off) as int)),
            None => spec_dec_u32(bytes@, *old(off) as int) is None,
        },
{
    if bytes.len() >= 4 && *off <= bytes.len() - 4 {
        let s = slice_subrange(bytes.as_slice(), *off, *off + 4);
        let x = u32_from_le_bytes(s);
        *off = *off + 4;
        Some(x)
    } else {
        None
    }
}

fn read_u64(bytes: &Vec<u8>, off: &mut usize) -> (r: Option<u64>)
    ensures
        match r {
            Some(x) => spec_dec_u64(bytes@, *old(off) as int) == Some((x, *final(off) as int)),
            None => spec_dec_u64(bytes@, *old(off) as int) is None,
        },
{
    if bytes.len() >= 8 && *off <= bytes.len() - 8 {
        let s = slice_subrange(bytes.as_slice(), *off, *off + 8);
        let x = u64_from_le_bytes(s);
        *off = *off + 8;
        Some(x)
    } else {
        None
    }
}

fn read_char(bytes: &Vec<u8>, off: &mut usize) -> (r: Option<char>)
    ensures
        match r {
            Some(c) => spec_dec_char(bytes@, *old(off) as int) == Some((c, *final(off) as int)),
            None => spec_dec_char(bytes@, *old(off) as int) is None,
        },
{
    match read_u32(bytes, off) {
        None => None,
        Some(v) => match char_from_u32(v) {
            None => None,
            Some(c) => {
                proof {
                    char_u32_cast(c, v);
                }
                Some(c)
            },
        },
    }
}

fn read_string(bytes: &Vec<u8>, off: &mut usize) -> (r: Option<String>)
    ensures
        match r {
            Some(s) => spec_dec_string(bytes@, *old(off) as int) == Some((s@, *final(off) as int)),
            None => spec_dec_string(bytes@, *old(off) as int) is None,
        },
{
    let n = match read_u64(bytes, off) {
        None => {
            return None;
        },
        Some(n) => n,
    };
    let ghost start = *off as int;
    let mut s = String::new();
    let mut i: u64 = 0;
    while i < n
        invariant
            i <= n,
            spec_dec_string(bytes@, *old(off) as int) == spec_dec_chars(bytes@, start, n as nat),
            combine_chars(s@, spec_dec_chars(bytes@, *off as int, (n - i) as nat))
                == spec_dec_chars(bytes@, start, n as nat),
        decreases n - i,
    {
        let ghost o0 = *off as int;
        let ghost s_old = s@;
        let ghost m = (n - i) as nat;
        match read_char(bytes, off) {
            None => {
                proof {
                    assert(spec_dec_chars(bytes@, o0, m) is None);
                }
                return None;
            },
            Some(c) => {
                push_char(&mut s, c);
                proof {
                    let o1 = *off as int;
                    assert(spec_dec_chars(bytes@, o0, m) == combine_chars(
                        seq![c],
                        spec_dec_chars(bytes@, o1, (m - 1) as nat),
                    ));
                    match spec_dec_chars(bytes@, o1, (m - 1) as nat) {
                        None => {},
                        Some((cs, o2)) => {
                            assert(s_old + (seq![c] + cs) =~= s_old.push(c) + cs);
                        },
                    }
                }
                i = i + 1;
            },
        }
    }
    proof {
        assert(spec_dec_chars(bytes@, *off as int, 0) == Some(
            (Seq::<char>::empty(), *off as int),
        ));
        assert(s@ + Seq::<char>::empty() =~= s@);
    }
    Some(s)
}

fn read_vec3(bytes: &Vec<u8>, off: &mut usize) -> (r: Option<Vec3Bits>)
    ensures
        match r {
            Some(v) => spec_dec_vec3(bytes@, *old(off) as int) == Some((v, *final(off) as int)),
            None => spec_dec_vec3(bytes@, *old(off) as int) is None,
        },
{
    let x = match read_u32(bytes, off) {
        None => {
            return None;
        },
        Some(x) => x,
    };
    let y = match read_u32(bytes, off) {
        None => {
            return None;
        },
        Some(y) => y,
    };
    let z = match read_u32(bytes, off) {
        None => {
            return None;
        },
        Some(z) => z,
    };
    Some(Vec3Bits { x, y, z })
}

fn read_quat(bytes: &Vec<u8>, off: &mut usize) -> (r: Option<QuatBits>)
    ensures
        match r {
            Some(q) => spec_dec_quat(bytes@, *old(off) as int) == Some((q, *final(off) as int)),
            None => spec_dec_quat(bytes@, *old(off) as int) is None,
        },
{
    let x = match read_u32(bytes, off) {
        None => {
            return None;
        },
        Some(x) => x,
    };
    let y = match read_u32(bytes, off) {
        None => {
            return None;
        },
        Some(y) => y,
    };
    let z = match read_u32(bytes, off) {
        None => {
            return None;
        },
        Some(z) => z,
    };
    let w = match read_u32(bytes, off) {
        None => {
            return None;
        },
        Some(w) => w,
    };
    Some(QuatBits { x, y, z, w })
}

fn read_transform(bytes: &Vec<u8>, off: &mut usize) -> (r: Option<Transform>)
    ensures
        match r {
            Some(t) => spec_dec_transform(bytes@, *old(off) as int) == Some(
                (t, *final(off) as int),
            ),
            None => spec_dec_transform(bytes@, *old(off) as int) is None,
        },
{
    let translation = match read_vec3(bytes, off) {
        None => {
            return None;
        },
        Some(v) => v,
    };
    let rotation = match read_quat(bytes, off) {
        None => {
            return None;
        },
        Some(q) => q,
    };
    let scale = match read_vec3(bytes, off) {
        None => {
            return None;
        },
        Some(v) => v,
    };
    Some(Transform { translation, rotation, scale })
}

fn read_snapshot(bytes: &Vec<u8>, off: &mut usize) -> (r: Option<NetworkTransform>)
    ensures
        match r {
            Some(t) => spec_dec_snapshot(bytes@, *old(off) as int) == Some(
                (t, *final(off) as int),
            ),
            None => spec_dec_snapshot(bytes@, *old(off) as int) is None,
        },
{
    let position = match read_vec3(bytes, off) {
        None => {
            return None;
        },
        Some(v) => v,
    };
    let rotation = match read_quat(bytes, off) {
        None => {
            return None;
        },
        Some(q) => q,
    };
    let scale = match read_vec3(bytes, off) {
        None => {
            return None;
        },
        Some(v) => v,
    };
    let velocity = match read_vec3(bytes, off) {
        None => {
            return None;
        },
        Some(v) => v,
    };
    Some(NetworkTransform { position, rotation, scale, velocity })
}

fn read_entity_type(bytes: &Vec<u8>, off: &mut usize) -> (r: Option<NetworkedEntityType>)
    ensures
        match r {
            Some(k) => spec_dec_entity_type(bytes@, *old(off) as int) == Some(
                (k, *final(off) as int),
            ),
            None => spec_dec_entity_type(bytes@, *old(off) as int) is None,
        },
{
    let tag = match read_u8(bytes, off) {
        None => {
            return None;
        },
        Some(b) => b,
    };
    let n = match read_u32(bytes, off) {
        None => {
            return None;
        },
        Some(n) => n,
    };
    if tag == 0 {
        Some(NetworkedEntityType::Bullet(n))
    } else if tag == 1 {
        Some(NetworkedEntityType::Portal(n))
    } else {
        None
    }
}

fn read_peer(bytes: &Vec<u8>, off: &mut usize) -> (r: Option<PeerSession>)
    ensures
        match r {
            Some(p) => spec_dec_peer(bytes@, *old(off) as int) == Some((p@, *final(off) as int)),
            None => spec_dec_peer(bytes@, *old(off) as int) is None,
        },
{
    let peer_id = match read_u64(bytes, off) {
        None => {
            return None;
        },
        Some(x) => x,
    };
    let display_name = match read_string(bytes, off) {
        None => {
            return None;
        },
        Some(s) => s,
    };
    Some(PeerSession { peer_id, display_name })
}

fn read_peers(bytes: &Vec<u8>, off: &mut usize, n: u64) -> (r: Option<Vec<PeerSession>>)
    ensures
        match r {
            Some(ps) => spec_dec_peers(bytes@, *old(off) as int, n as nat) == Some(
                (ps@.map_values(|p: PeerSession| p@), *final(off) as int),
            ),
            None => spec_dec_peers(bytes@, *old(off) as int, n as nat) is None,
        },
{
    let ghost start = *off as int;
    let mut ps: Vec<PeerSession> = Vec::new();
    let mut i: u64 = 0;
    while i < n
        invariant
            i <= n,
            start == *old(off) as int,
            combine_peers(
                ps@.map_values(|p: PeerSession| p@),
                spec_dec_peers(bytes@, *off as int, (n - i) as nat),
            ) == spec_dec_peers(bytes@, start, n as nat),
        decreases n - i,
    {
        let ghost o0 = *off as int;
        let ghost ps_old = ps@.map_values(|p: PeerSession| p@);
        let ghost m = (n - i) as nat;
        match read_peer(bytes, off) {
            None => {
                proof {
                    assert(spec_dec_peers(bytes@, o0, m) is None);
                }
                return None;
            },
            Some(p) => {
                let ghost pv = p@;
                ps.push(p);
                proof {
                    let o1 = *off as int;
                    assert(spec_dec_peers(bytes@, o0, m) == combine_peers(
                        seq![pv],
                        spec_dec_peers(bytes@, o1, (m - 1) as nat),
                    ));
                    assert(ps@.map_values(|q: PeerSession| q@) =~= ps_old.push(pv));
                    match spec_dec_peers(bytes@, o1, (m - 1) as nat) {
                        None => {},
                        Some((qs, o2)) => {
                            assert(ps_old + (seq![pv] + qs) =~= ps_old.push(pv) + qs);
                        },
                    }
                }
                i = i + 1;
            },
        }
    }
    proof {
        assert(spec_dec_peers(bytes@, *off as int, 0) == Some(
            (Seq::<PeerSessionV>::empty(), *off as int),
        ));
        assert(ps@.map_values(|p: PeerSession| p@) + Seq::<PeerSessionV>::empty()
            =~= ps@.map_values(|p: PeerSession| p@));
    }
    Some(ps)
}

/// Parse a client message from wire bytes; `None` when the bytes are not the
/// exact encoding of one message.
pub fn decode_client_message(bytes: &Vec<u8>) -> (r: Option<ClientMessage>)
    ensures
        match r {
            Some(m) => spec_dec_client_msg(bytes@) == Some(m@),
            None => spec_dec_client_msg(bytes@) is None,
        },
{
    let mut off: usize = 0;
    let tag = match read_u8(bytes, &mut off) {
        None => {
            return None;
        },
        Some(b) => b,
    };
    let m: ClientMessage = if tag == 0 {
        match read_string(bytes, &mut off) {
            None => {
                return None;
            },
            Some(display_name) => ClientMessage::Join { display_name },
        }
    } else if tag == 1 {
        ClientMessage::Disconnect
    } else if tag == 2 {
        let transform = match read_transform(bytes, &mut off) {
            None => {
                return None;
            },
            Some(t) => t,
        };
        let velocity = match read_vec3(bytes, &mut off) {
            None => {
                return None;
            },
            Some(v) => v,
        };
        ClientMessage::UpdateSelf { transform, velocity }
    } else if tag == 3 {
        let entity_id = match read_u64(bytes, &mut off) {
            None => {
                return None;
            },
            Some(x) => x,
        };
        let entity_type = match read_entity_type(bytes, &mut off) {
            None => {
                return None;
            },
            Some(k) => k,
        };
        let transform = match read_snapshot(bytes, &mut off) {
            None => {
                return None;
            },
            Some(t) => t,
        };
        ClientMessage::SpawnEntity { entity_id, entity_type, transform }
    } else if tag == 4 {
        let entity_id = match read_u64(bytes, &mut off) {
            None => {
                return None;
            },
            Some(x) => x,
        };
        let transform = match read_snapshot(bytes, &mut off) {
            None => {
                return None;
            },
            Some(t) => t,
        };
        ClientMessage::UpdateEntity { entity_id, transform }
    } else if tag == 5 {
        let entity_id = match read_u64(bytes, &mut off) {
            None => {
                return None;
            },
            Some(x) => x,
        };
        ClientMessage::DespawnEntity { entity_id }
    } else {
        return None;
    };
    if off == bytes.len() {
        Some(m)
    } else {
        None
    }
}

/// Parse a server message from wire bytes; `None` when the bytes are not the
/// exact encoding of one message.
pub fn decode_server_message(bytes: &Vec<u8>) -> (r: Option<ServerMessage>)
    ensures
        match r {
            Some(m) => spec_dec_server_msg(bytes@) == Some(m@),
            None => spec_dec_server_msg(bytes@) is None,
        },
{
    let mut off: usize = 0;
    let tag = match read_u8(bytes, &mut off) {
        None => {
            return None;
        },
        Some(b) => b,
    };
    let m: ServerMessage = if tag == 0 {
        let peer_id = match read_u64(bytes, &mut off) {
            None => {
                return None;
            },
            Some(x) => x,
        };
        match read_string(bytes, &mut off) {
            None => {
                return None;
            },
            Some(display_name) => ServerMessage::PeerJoined { peer_id, display_name },
        }
    } else if tag == 1 {
        let peer_id = match read_u64(bytes, &mut off) {
            None => {
                return None;
            },
            Some(x) => x,
        };
        ServerMessage::PeerLeft { peer_id }
    } else if tag == 2 {
        let peer_id = match read_u64(bytes, &mut off) {
            None => {
                return None;
            },
            Some(x) => x,
        };
        let transform = match read_transform(bytes, &mut off) {
            None => {
                return None;
            },
            Some(t) => t,
        };
        let velocity = match read_vec3(bytes, &mut off) {
            None => {
                return None;
            },
            Some(v) => v,
        };
        ServerMessage::SelfUpdate { peer_id, transform, velocity }
    } else if tag == 3 {
        let owner_peer_id = match read_u64(bytes, &mut off) {
            None => {
                return None;
            },
            Some(x) => x,
        };
        let entity_id = match read_u64(bytes, &mut off) {
            None => {
                return None;
            },
            Some(x) => x,
        };
        let entity_type = match read_entity_type(bytes, &mut off) {
            None => {
                return None;
            },
            Some(k) => k,
        };
        let transform = match read_snapshot(bytes, &mut off) {
            None => {
                return None;
            },
            Some(t) => t,
        };
        ServerMessage::EntitySpawned { owner_peer_id, entity_id, entity_type, transform }
    } else if tag == 4 {
        let owner_peer_id = match read_u64(bytes, &mut off) {
            None => {
                return None;
            },
            Some(x) => x,
        };
        let entity_id = match read_u64(bytes, &mut off) {
            None => {
                return None;
            },
            Some(x) => x,
        };
        let transform = match read_snapshot(bytes, &mut off) {
            None => {
                return None;
            },
            Some(t) => t,
        };
        ServerMessage::EntityUpdated { owner_peer_id, entity_id, transform }
    } else if tag == 5 {
        let owner_peer_id = match read_u64(bytes, &mut off) {
            None => {
                return None;
            },
            Some(x) => x,
        };
        let entity_id = match read_u64(bytes, &mut off) {
            None => {
                return None;
            },
            Some(x) => x,
        };
        ServerMessage::EntityDespawned { owner_peer_id, entity_id }
    } else if tag == 6 {
        let peer_id = match read_u64(bytes, &mut off) {
            None => {
                return None;
            },
            Some(x) => x,
        };
        let n = match read_u64(bytes, &mut off) {
            None => {
                return None;
            },
            Some(x) => x,
        };
        let known_peers = match read_peers(bytes, &mut off, n) {
            None => {
                return None;
            },
            Some(ps) => ps,
        };
        ServerMessage::Welcome { peer_id, known_peers }
    } else {
        return None;
    };
    if off == bytes.len() {
        Some(m)
    } else {
        None
    }
}

// ---------------------------------------------------------------------------
// Round trip: decoding an encoded message yields the message back
// ---------------------------------------------------------------------------
proof fn lemma_enc_chars_len(s: Seq<char>)
    ensures
        spec_enc_chars(s).len() == 4 * s.len(),
    decreases s.len(),
{
    lemma_auto_spec_u32_to_from_le_bytes();
    if s.len() > 0 {
        lemma_enc_chars_len(s.subrange(1, s.len() as int));
    }
}

proof fn lemma_enc_string_len(s: Seq<char>)
    ensures
        spec_enc_string(s).len() == 8 + 4 * s.len(),
{
    lemma_auto_spec_u64_to_from_le_bytes();
    lemma_enc_chars_len(s);
}

/// When a concatenation sits at `off` in `s`, each part sits at its own
/// offset.
proof fn lemma_subrange_concat(s: Seq<u8>, off: int, a: Seq<u8>, b: Seq<u8>)
    requires
        0 <= off,
        off + a.len() + b.len() <= s.len(),
        s.subrange(off, off + a.len() + b.len()) == a + b,
    ensures
        s.subrange(off, off + a.len()) == a,
        s.subrange(off + a.len(), off + a.len() + b.len()) == b,
{
    let t = s.subrange(off, off + a.len() + b.len());
    assert forall|k: int| 0 <= k < a.len() implies s.subrange(off, off + a.len())[k] == a[k] by {
        assert(t[k] == a[k]);
    }
    assert(s.subrange(off, off + a.len()) =~= a);
    assert forall|k: int|
        0 <= k < b.len() implies s.subrange(off + a.len(), off + a.len() + b.len())[k] == b[k] by {
        assert(t[a.len() + k] == b[k]);
    }
    assert(s.subrange(off + a.len(), off + a.len() + b.len()) =~= b);
}

proof fn lemma_rt_u8(s: Seq<u8>, off: int, b: u8)
    requires
        0 <= off,
        off + 1 <= s.len(),
        s.subrange(off, off + 1) == seq![b],
    ensures
        spec_dec_u8(s, off) == Some((b, off + 1)),
{
    assert(s[off] == s.subrange(off, off + 1)[0]);
}

proof fn lemma_rt_u32(s: Seq<u8>, off: int, x: u32)
    requires
        0 <= off,
        off + 4 <= s.len(),
        s.subrange(off, off + 4) == spec_enc_u32(x),
    ensures
        spec_dec_u32(s, off) == Some((x, off + 4)),
{
    lemma_auto_spec_u32_to_from_le_bytes();
    assert(spec_u32_to_le_bytes(x).len() == 4);
    assert(spec_u32_from_le_bytes(spec_u32_to_le_bytes(x)) == x);
}

proof fn lemma_rt_u64(s: Seq<u8>, off: int, x: u64)
    requires
        0 <= off,
        off + 8 <= s.len(),
        s.subrange(off, off + 8) == spec_enc_u64(x),
    ensures
        spec_dec_u64(s, off) == Some((x, off + 8)),
{
    lemma_auto_spec_u64_to_from_le_bytes();
    assert(spec_u64_to_le_bytes(x).len() == 8);
    assert(spec_u64_from_le_bytes(spec_u64_to_le_bytes(x)) == x);
}

proof fn lemma_rt_char(s: Seq<u8>, off: int, c: char)
    requires
        0 <= off,
        off + 4 <= s.len(),
        s.subrange(off, off + 4) == spec_enc_u32(c as u32),
    ensures
        spec_dec_char(s, off) == Some((c, off + 4)),
{
    lemma_rt_u32(s, off, c as u32);
    char_is_scalar(c);
    char_u32_cast(c, c as u32);
}

proof fn lemma_rt_chars(s: Seq<u8>, off: int, cs: Seq<char>)
    requires
        0 <= off,
        off + 4 * cs.len() <= s.len(),
        s.subrange(off, off + 4 * cs.len()) == spec_enc_chars(cs),
    ensures
        spec_dec_chars(s, off, cs.len()) == Some((cs, off + 4 * cs.len())),
    decreases cs.len(),
{
    if cs.len() == 0 {
        assert(cs =~= Seq::<char>::empty());
    } else {
        let rest = cs.subrange(1, cs.len() as int);
        lemma_auto_spec_u32_to_from_le_bytes();
        lemma_enc_chars_len(rest);
        lemma_subrange_concat(s, off, spec_enc_u32(cs[0] as u32), spec_enc_chars(rest));
        lemma_rt_char(s, off, cs[0]);
        lemma_rt_chars(s, off + 4, rest);
        assert(seq![cs[0]] + rest =~= cs);
    }
}

proof fn lemma_rt_string(s: Seq<u8>, off: int, cs: Seq<char>)
    requires
        0 <= off,
        cs.len() <= u64::MAX,
        off + 8 + 4 * cs.len() <= s.len(),
        s.subrange(off, off + 8 + 4 * cs.len()) == spec_enc_string(cs),
    ensures
        spec_dec_string(s, off) == Some((cs, off + 8 + 4 * cs.len())),
{
    lemma_auto_spec_u64_to_from_le_bytes();
    lemma_enc_chars_len(cs);
    lemma_subrange_concat(s, off, spec_enc_u64(cs.len() as u64), spec_enc_chars(cs));
    lemma_rt_u64(s, off, cs.len() as u64);
    lemma_rt_chars(s, off + 8, cs);
}

proof fn lemma_rt_vec3(s: Seq<u8>, off: int, v: Vec3Bits)
    requires
        0 <= off,
        off + 12 <= s.len(),
        s.subrange(off, off + 12) == spec_enc_vec3(v),
    ensures
        spec_dec_vec3(s, off) == Some((v, off + 12)),
{
    lemma_auto_spec_u32_to_from_le_bytes();
    assert(spec_enc_u32(v.x) + spec_enc_u32(v.y) + spec_enc_u32(v.z) =~= spec_enc_u32(v.x) + (
    spec_enc_u32(v.y) + spec_enc_u32(v.z)));
    lemma_subrange_concat(s, off, spec_enc_u32(v.x), spec_enc_u32(v.y) + spec_enc_u32(v.z));
    lemma_subrange_concat(s, off + 4, spec_enc_u32(v.y), spec_enc_u32(v.z));
    lemma_rt_u32(s, off, v.x);
    lemma_rt_u32(s, off + 4, v.y);
    lemma_rt_u32(s, off + 8, v.z);
}

proof fn lemma_rt_quat(s: Seq<u8>, off: int, q: QuatBits)
    requires
        0 <= off,
        off + 16 <= s.len(),
        s.subrange(off, off + 16) == spec_enc_quat(q),
    ensures
        spec_dec_quat(s, off) == Some((q, off + 16)),
{
    lemma_auto_spec_u32_to_from_le_bytes();
    assert(spec_enc_quat(q) =~= spec_enc_u32(q.x) + (spec_enc_u32(q.y) + (spec_enc_u32(q.z)
        + spec_enc_u32(q.w))));
    lemma_subrange_concat(
        s,
        off,
        spec_enc_u32(q.x),
        spec_enc_u32(q.y) + (spec_enc_u32(q.z) + spec_enc_u32(q.w)),
    );
    lemma_subrange_concat(s, off + 4, spec_enc_u32(q.y), spec_enc_u32(q.z) + spec_enc_u32(q.w));
    lemma_subrange_concat(s, off + 8, spec_enc_u32(q.z), spec_enc_u32(q.w));
    lemma_rt_u32(s, off, q.x);
    lemma_rt_u32(s, off + 4, q.y);
    lemma_rt_u32(s, off + 8, q.z);
    lemma_rt_u32(s, off + 12, q.w);
}

proof fn lemma_rt_transform(s: Seq<u8>, off: int, t: Transform)
    requires
        0 <= off,
        off + 40 <= s.len(),
        s.subrange(off, off + 40) == spec_enc_transform(t),
    ensures
        spec_dec_transform(s, off) == Some((t, off + 40)),
{
    lemma_auto_spec_u32_to_from_le_bytes();
    assert(spec_enc_transform(t) =~= spec_enc_vec3(t.translation) + (spec_enc_quat(t.rotation)
        + spec_enc_vec3(t.scale)));
    lemma_subrange_concat(
        s,
        off,
        spec_enc_vec3(t.translation),
        spec_enc_quat(t.rotation) + spec_enc_vec3(t.scale),
    );
    lemma_subrange_concat(s, off + 12, spec_enc_quat(t.rotation), spec_enc_vec3(t.scale));
    lemma_rt_vec3(s, off, t.translation);
    lemma_rt_quat(s, off + 12, t.rotation);
    lemma_rt_vec3(s, off + 28, t.scale);
}

proof fn lemma_rt_snapshot(s: Seq<u8>, off: int, t: NetworkTransform)
    requires
        0 <= off,
        off + 52 <= s.len(),
        s.subrange(off, off + 52) == spec_enc_snapshot(t),
    ensures
        spec_dec_snapshot(s, off) == Some((t, off + 52)),
{
    lemma_auto_spec_u32_to_from_le_bytes();
    assert(spec_enc_snapshot(t) =~= spec_enc_vec3(t.position) + (spec_enc_quat(t.rotation) + (
    spec_enc_vec3(t.scale) + spec_enc_vec3(t.velocity))));
    lemma_subrange_concat(
        s,
        off,
        spec_enc_vec3(t.position),
        spec_enc_quat(t.rotation) + (spec_enc_vec3(t.scale) + spec_enc_vec3(t.velocity)),
    );
    lemma_subrange_concat(
        s,
        off + 12,
        spec_enc_quat(t.rotation),
        spec_enc_vec3(t.scale) + spec_enc_vec3(t.velocity),
    );
    lemma_subrange_concat(s, off + 28, spec_enc_vec3(t.scale), spec_enc_vec3(t.velocity));
    lemma_rt_vec3(s, off, t.position);
    lemma_rt_quat(s, off + 12, t.rotation);
    lemma_rt_vec3(s, off + 28, t.scale);
    lemma_rt_vec3(s, off + 40, t.velocity);
}

proof fn lemma_rt_entity_type(s: Seq<u8>, off: int, k: NetworkedEntityType)
    requires
        0 <= off,
        off + 5 <= s.len(),
        s.subrange(off, off + 5) == spec_enc_entity_type(k),
    ensures
        spec_dec_entity_type(s, off) == Some((k, off + 5)),
{
    lemma_auto_spec_u32_to_from_le_bytes();
    match k {
        NetworkedEntityType::Bullet(n) => {
            lemma_subrange_concat(s, off, seq![0u8], spec_enc_u32(n));
            lemma_rt_u8(s, off, 0u8);
            lemma_rt_u32(s, off + 1, n);
        },
        NetworkedEntityType::Portal(n) => {
            lemma_subrange_concat(s, off, seq![1u8], spec_enc_u32(n));
            lemma_rt_u8(s, off, 1u8);
            lemma_rt_u32(s, off + 1, n);
        },
    }
}

proof fn lemma_rt_peer(s: Seq<u8>, off: int, p: PeerSessionV)
    requires
        0 <= off,
        p.display_name.len() <= u64::MAX,
        off + spec_enc_peer(p).len() <= s.len(),
        s.subrange(off, off + spec_enc_peer(p).len()) == spec_enc_peer(p),
    ensures
        spec_enc_peer(p).len() == 16 + 4 * p.display_name.len(),
        spec_dec_peer(s, off) == Some((p, off + spec_enc_peer(p).len())),
{
    lemma_auto_spec_u64_to_from_le_bytes();
    lemma_enc_string_len(p.display_name);
    lemma_subrange_concat(s, off, spec_enc_u64(p.peer_id), spec_enc_string(p.display_name));
    lemma_rt_u64(s, off, p.peer_id);
    lemma_rt_string(s, off + 8, p.display_name);
}

proof fn lemma_rt_peers(s: Seq<u8>, off: int, ps: Seq<PeerSessionV>)
    requires
        0 <= off,
        forall|i: int| 0 <= i < ps.len() ==> #[trigger] ps[i].display_name.len() <= u64::MAX,
        off + spec_enc_peers(ps).len() <= s.len(),
        s.subrange(off, off + spec_enc_peers(ps).len()) == spec_enc_peers(ps),
    ensures
        spec_dec_peers(s, off, ps.len()) == Some((ps, off + spec_enc_peers(ps).len())),
    decreases ps.len(),
{
    if ps.len() == 0 {
        assert(ps =~= Seq::<PeerSessionV>::empty());
    } else {
        let rest = ps.subrange(1, ps.len() as int);
        lemma_subrange_concat(s, off, spec_enc_peer(ps[0]), spec_enc_peers(rest));
        lemma_rt_peer(s, off, ps[0]);
        lemma_rt_peers(s, off + spec_enc_peer(ps[0]).len(), rest);
        assert(seq![ps[0]] + rest =~= ps);
    }
}

proof fn lemma_rt_client_msg_at(s: Seq<u8>, off: int, m: ClientMessageV)
    requires
        0 <= off,
        wf_client_msg(m),
        off + spec_enc_client_msg(m).len() <= s.len(),
        s.subrange(off, off + spec_enc_client_msg(m).len()) == spec_enc_client_msg(m),
    ensures
        spec_dec_client_msg_at(s, off) == Some((m, off + spec_enc_client_msg(m).len())),
{
    lemma_auto_spec_u32_to_from_le_bytes();
    lemma_auto_spec_u64_to_from_le_bytes();
    match m {
        ClientMessageV::Join { display_name } => {
            lemma_enc_string_len(display_name);
            lemma_subrange_concat(s, off, seq![0u8], spec_enc_string(display_name));
            lemma_rt_u8(s, off, 0u8);
            lemma_rt_string(s, off + 1, display_name);
        },
        ClientMessageV::Disconnect => {
            lemma_rt_u8(s, off, 1u8);
        },
        ClientMessageV::UpdateSelf { transform, velocity } => {
            assert(spec_enc_client_msg(m) =~= seq![2u8] + (spec_enc_transform(transform)
                + spec_enc_vec3(velocity)));
            lemma_subrange_concat(
                s,
                off,
                seq![2u8],
                spec_enc_transform(transform) + spec_enc_vec3(velocity),
            );
            lemma_subrange_concat(
                s,
                off + 1,
                spec_enc_transform(transform),
                spec_enc_vec3(velocity),
            );
            lemma_rt_u8(s, off, 2u8);
            lemma_rt_transform(s, off + 1, transform);
            lemma_rt_vec3(s, off + 41, velocity);
        },
        ClientMessageV::SpawnEntity { entity_id, entity_type, transform } => {
            assert(spec_enc_client_msg(m) =~= seq![3u8] + (spec_enc_u64(entity_id) + (
            spec_enc_entity_type(entity_type) + spec_enc_snapshot(transform))));
            lemma_subrange_concat(
                s,
                off,
                seq![3u8],
                spec_enc_u64(entity_id) + (spec_enc_entity_type(entity_type) + spec_enc_snapshot(
                    transform,
                )),
            );
            lemma_subrange_concat(
                s,
                off + 1,
                spec_enc_u64(entity_id),
                spec_enc_entity_type(entity_type) + spec_enc_snapshot(transform),
            );
            assert(spec_enc_entity_type(entity_type).len() == 5);
            lemma_subrange_concat(
                s,
                off + 9,
                spec_enc_entity_type(entity_type),
                spec_enc_snapshot(transform),
            );
            lemma_rt_u8(s, off, 3u8);
            lemma_rt_u64(s, off + 1, entity_id);
            lemma_rt_entity_type(s, off + 9, entity_type);
            lemma_rt_snapshot(s, off + 14, transform);
        },
        ClientMessageV::UpdateEntity { entity_id, transform } => {
            assert(spec_enc_client_msg(m) =~= seq![4u8] + (spec_enc_u64(entity_id)
                + spec_enc_snapshot(transform)));
            lemma_subrange_concat(
                s,
                off,
                seq![4u8],
                spec_enc_u64(entity_id) + spec_enc_snapshot(transform),
            );
            lemma_subrange_concat(
                s,
                off + 1,
                spec_enc_u64(entity_id),
                spec_enc_snapshot(transform),
            );
            lemma_rt_u8(s, off, 4u8);
            lemma_rt_u64(s, off + 1, entity_id);
            lemma_rt_snapshot(s, off + 9, transform);
        },
        ClientMessageV::DespawnEntity { entity_id } => {
            lemma_subrange_concat(s, off, seq![5u8], spec_enc_u64(entity_id));
            lemma_rt_u8(s, off, 5u8);
            lemma_rt_u64(s, off + 1, entity_id);
        },
    }
}

#[verifier::rlimit(60)]
proof fn lemma_rt_server_msg_at(s: Seq<u8>, off: int, m: ServerMessageV)
    requires
        0 <= off,
        wf_server_msg(m),
        off + spec_enc_server_msg(m).len() <= s.len(),
        s.subrange(off, off + spec_enc_server_msg(m).len()) == spec_enc_server_msg(m),
    ensures
        spec_dec_server_msg_at(s, off) == Some((m, off + spec_enc_server_msg(m).len())),
{
    lemma_auto_spec_u32_to_from_le_bytes();
    lemma_auto_spec_u64_to_from_le_bytes();
    match m {
        ServerMessageV::PeerJoined { peer_id, display_name } => {
            lemma_enc_string_len(display_name);
            assert(spec_enc_server_msg(m) =~= seq![0u8] + (spec_enc_u64(peer_id)
                + spec_enc_string(display_name)));
            lemma_subrange_concat(
                s,
                off,
                seq![0u8],
                spec_enc_u64(peer_id) + spec_enc_string(display_name),
            );
            lemma_subrange_concat(
                s,
                off + 1,
                spec_enc_u64(peer_id),
                spec_enc_string(display_name),
            );
            lemma_rt_u8(s, off, 0u8);
            lemma_rt_u64(s, off + 1, peer_id);
            lemma_rt_string(s, off + 9, display_name);
        },
        ServerMessageV::PeerLeft { peer_id } => {
            lemma_subrange_concat(s, off, seq![1u8], spec_enc_u64(peer_id));
            lemma_rt_u8(s, off, 1u8);
            lemma_rt_u64(s, off + 1, peer_id);
        },
        ServerMessageV::SelfUpdate { peer_id, transform, velocity } => {
            assert(spec_enc_server_msg(m) =~= seq![2u8] + (spec_enc_u64(peer_id) + (
            spec_enc_transform(transform) + spec_enc_vec3(velocity))));
            lemma_subrange_concat(
                s,
                off,
                seq![2u8],
                spec_enc_u64(peer_id) + (spec_enc_transform(transform) + spec_enc_vec3(velocity)),
            );
            lemma_subrange_concat(
                s,
                off + 1,
                spec_enc_u64(peer_id),
                spec_enc_transform(transform) + spec_enc_vec3(velocity),
            );
            lemma_subrange_concat(
                s,
                off + 9,
                spec_enc_transform(transform),
                spec_enc_vec3(velocity),
            );
            lemma_rt_u8(s, off, 2u8);
            lemma_rt_u64(s, off + 1, peer_id);
            lemma_rt_transform(s, off + 9, transform);
            lemma_rt_vec3(s, off + 49, velocity);
        },
        ServerMessageV::EntitySpawned { owner_peer_id, entity_id, entity_type, transform } => {
            assert(spec_enc_server_msg(m) =~= seq![3u8] + (spec_enc_u64(owner_peer_id) + (
            spec_enc_u64(entity_id) + (spec_enc_entity_type(entity_type) + spec_enc_snapshot(
                transform,
            )))));
            lemma_subrange_concat(
                s,
                off,
                seq![3u8],
                spec_enc_u64(owner_peer_id) + (spec_enc_u64(entity_id) + (spec_enc_entity_type(
                    entity_type,
                ) + spec_enc_snapshot(transform))),
            );
            lemma_subrange_concat(
                s,
                off + 1,
                spec_enc_u64(owner_peer_id),
                spec_enc_u64(entity_id) + (spec_enc_entity_type(entity_type) + spec_enc_snapshot(
                    transform,
                )),
            );
            lemma_subrange_concat(
                s,
                off + 9,
                spec_enc_u64(entity_id),
                spec_enc_entity_type(entity_type) + spec_enc_snapshot(transform),
            );
            assert(spec_enc_entity_type(entity_type).len() == 5);
            lemma_subrange_concat(
                s,
                off + 17,
                spec_enc_entity_type(entity_type),
                spec_enc_snapshot(transform),
            );
            lemma_rt_u8(s, off, 3u8);
            lemma_rt_u64(s, off + 1, owner_peer_id);
            lemma_rt_u64(s, off + 9, entity_id);
            lemma_rt_entity_type(s, off + 17, entity_type);
            lemma_rt_snapshot(s, off + 22, transform);
        },
        ServerMessageV::EntityUpdated { owner_peer_id, entity_id, transform } => {
            assert(spec_enc_server_msg(m) =~= seq![4u8] + (spec_enc_u64(owner_peer_id) + (
            spec_enc_u64(entity_id) + spec_enc_snapshot(transform))));
            lemma_subrange_concat(
                s,
                off,
                seq![4u8],
                spec_enc_u64(owner_peer_id) + (spec_enc_u64(entity_id) + spec_enc_snapshot(
                    transform,
                )),
            );
            lemma_subrange_concat(
                s,
                off + 1,
                spec_enc_u64(owner_peer_id),
                spec_enc_u64(entity_id) + spec_enc_snapshot(transform),
            );
            lemma_subrange_concat(s, off + 9, spec_enc_u64(entity_id), spec_enc_snapshot(transform));
            lemma_rt_u8(s, off, 4u8);
            lemma_rt_u64(s, off + 1, owner_peer_id);
            lemma_rt_u64(s, off + 9, entity_id);
            lemma_rt_snapshot(s, off + 17, transform);
        },
        ServerMessageV::EntityDespawned { owner_peer_id, entity_id } => {
            assert(spec_enc_server_msg(m) =~= seq![5u8] + (spec_enc_u64(owner_peer_id)
                + spec_enc_u64(entity_id)));
            lemma_subrange_concat(
                s,
                off,
                seq![5u8],
                spec_enc_u64(owner_peer_id) + spec_enc_u64(entity_id),
            );
            lemma_subrange_concat(
                s,
                off + 1,
                spec_enc_u64(owner_peer_id),
                spec_enc_u64(entity_id),
            );
            lemma_rt_u8(s, off, 5u8);
            lemma_rt_u64(s, off + 1, owner_peer_id);
            lemma_rt_u64(s, off + 9, entity_id);
        },
        ServerMessageV::Welcome { peer_id, known_peers } => {
            assert(spec_enc_server_msg(m) =~= seq![6u8] + (spec_enc_u64(peer_id) + (spec_enc_u64(
                known_peers.len() as u64,
            ) + spec_enc_peers(known_peers))));
            lemma_subrange_concat(
                s,
                off,
                seq![6u8],
                spec_enc_u64(peer_id) + (spec_enc_u64(known_peers.len() as u64) + spec_enc_peers(
                    known_peers,
                )),
            );
            lemma_subrange_concat(
                s,
                off + 1,
                spec_enc_u64(peer_id),
                spec_enc_u64(known_peers.len() as u64) + spec_enc_peers(known_peers),
            );
            lemma_subrange_concat(
                s,
                off + 9,
                spec_enc_u64(known_peers.len() as u64),
                spec_enc_peers(known_peers),
            );
            lemma_rt_u8(s, off, 6u8);
            lemma_rt_u64(s, off + 1, peer_id);
            lemma_rt_u64(s, off + 9, known_peers.len() as u64);
            lemma_rt_peers(s, off + 17, known_peers);
        },
    }
}

/// Round trip for client messages: decoding the encoding of any message whose
/// wire counts fit in 64 bits gives exactly that message back.
pub proof fn lemma_client_msg_round_trip(m: ClientMessageV)
    requires
        wf_client_msg(m),
    ensures
        spec_dec_client_msg(spec_enc_client_msg(m)) == Some(m),
{
    let s = spec_enc_client_msg(m);
    assert(s.subrange(0, s.len() as int) =~= s);
    lemma_rt_client_msg_at(s, 0, m);
}

/// Round trip for server messages: decoding the encoding of any message whose
/// wire counts fit in 64 bits gives exactly that message back.
pub proof fn lemma_server_msg_round_trip(m: ServerMessageV)
    requires
        wf_server_msg(m),
    ensures
        spec_dec_server_msg(spec_enc_server_msg(m)) == Some(m),
{
    let s = spec_enc_server_msg(m);
    assert(s.subrange(0, s.len() as int) =~= s);
    lemma_rt_server_msg_at(s, 0, m);
}

} // verus!
