use replication::protocol::{
    NetworkTransform, PeerSession, QuatBits, Transform, Vec3Bits, ONE_BITS,
};

#[test]
fn default_transform_is_the_identity() {
    let t = Transform::default();
    assert_eq!(t.translation, Vec3Bits { x: 0, y: 0, z: 0 });
    assert_eq!(t.rotation, QuatBits { x: 0, y: 0, z: 0, w: ONE_BITS });
    assert_eq!(t.scale, Vec3Bits { x: ONE_BITS, y: ONE_BITS, z: ONE_BITS });
    assert_eq!(ONE_BITS, 1.0f32.to_bits());
    assert_eq!(f32::from_bits(t.scale.x), 1.0);
}

#[test]
fn snapshot_packs_and_unpacks_a_placement() {
    let placement = Transform {
        translation: Vec3Bits { x: 1, y: 2, z: 3 },
        rotation: QuatBits { x: 4, y: 5, z: 6, w: 7 },
        scale: Vec3Bits { x: 8, y: 9, z: 10 },
    };
    let velocity = Vec3Bits { x: 11, y: 12, z: 13 };
    let snap = NetworkTransform::from_transform(&placement, velocity);
    assert_eq!(snap.position, placement.translation);
    assert_eq!(snap.rotation, placement.rotation);
    assert_eq!(snap.scale, placement.scale);
    assert_eq!(snap.velocity, velocity);
    assert_eq!(snap.to_transform(), placement);
}

#[test]
fn zero_and_identity_builders() {
    assert_eq!(Vec3Bits::zero(), Vec3Bits { x: 0, y: 0, z: 0 });
    assert_eq!(QuatBits::identity(), QuatBits { x: 0, y: 0, z: 0, w: ONE_BITS });
}

#[test]
fn peer_session_duplicate_is_equal() {
    let s = PeerSession { peer_id: 5, display_name: String::from("Eve") };
    assert_eq!(s.duplicate(), s);
}
