use skinned::error::DecodeError;
use skinned::ieee::{Ieee32, Vector3, Vector4};
use skinned::skl::{check_hierarchy, read_skeleton_layout, Joint, Skeleton};

fn bits(v: f32) -> Ieee32 {
    Ieee32 { bits: v.to_bits() }
}

fn skl_header(version: u32) -> Vec<u8> {
    let mut out = b"r3d2sklt".to_vec();
    out.extend_from_slice(&version.to_le_bytes());
    out
}

fn skl_pose(out: &mut Vec<u8>, seed: f32) {
    for v in [seed, seed + 1.0, seed + 2.0, 0.0, 0.0, 0.0, 1.0, 1.0, 2.0, 3.0] {
        out.extend_from_slice(&v.to_le_bytes());
    }
}

fn skl_name(out: &mut Vec<u8>, name: &[u8]) {
    let mut field = [0u8; 32];
    field[..name.len()].copy_from_slice(name);
    out.extend_from_slice(&field);
}

fn skeleton_v1(joints: &[(&[u8], i32)]) -> Vec<u8> {
    let mut out = skl_header(1);
    out.extend_from_slice(&(joints.len() as u32).to_le_bytes());
    for (k, (name, parent)) in joints.iter().enumerate() {
        skl_name(&mut out, name);
        out.extend_from_slice(&parent.to_le_bytes());
        skl_pose(&mut out, k as f32);
    }
    out
}

fn skeleton_v2(joints: &[(&[u8], u32, i16)]) -> Vec<u8> {
    let mut out = skl_header(2);
    out.extend_from_slice(&(joints.len() as u16).to_le_bytes());
    out.extend_from_slice(&[0x77, 0x77]);
    for (k, (name, hash, parent)) in joints.iter().enumerate() {
        skl_name(&mut out, name);
        out.extend_from_slice(&hash.to_le_bytes());
        out.extend_from_slice(&parent.to_le_bytes());
        out.extend_from_slice(&[0x66, 0x66]);
        skl_pose(&mut out, k as f32);
    }
    out
}

fn bare_joint(parent: Option<usize>) -> Joint {
    let zero = bits(0.0);
    let one = bits(1.0);
    Joint {
        name: Vec::new(),
        hash: 0,
        parent,
        translation: Vector3 { x: zero, y: zero, z: zero },
        rotation: Vector4 { x: zero, y: zero, z: zero, w: one },
        scale: Vector3 { x: one, y: one, z: one },
    }
}

#[test]
fn the_first_version_hashes_the_names() {
    let s = Skeleton::read(&skeleton_v1(&[(b"Root", -1), (b"Spine", 0), (b"Head", 1)])).unwrap();
    assert_eq!(s.version, 1);
    assert_eq!(s.joints.len(), 3);
    assert_eq!(s.joints[0].name, b"Root".to_vec());
    assert_eq!(s.joints[0].hash, 0xa129_5a65);
    assert_eq!(s.joints[0].parent, None);
    assert_eq!(s.joints[1].hash, 0x543f_87d4);
    assert_eq!(s.joints[1].parent, Some(0));
    assert_eq!(s.joints[2].hash, 0xb297_2ae3);
    assert_eq!(s.joints[2].parent, Some(1));
    assert!(s.influences.is_empty());
}

#[test]
fn the_bind_pose_is_read_in_field_order() {
    let s = Skeleton::read(&skeleton_v1(&[(b"Root", -1), (b"Spine", 0)])).unwrap();
    let j = &s.joints[1];
    assert_eq!(j.translation, Vector3 { x: bits(1.0), y: bits(2.0), z: bits(3.0) });
    assert_eq!(j.rotation, Vector4 { x: bits(0.0), y: bits(0.0), z: bits(0.0), w: bits(1.0) });
    assert_eq!(j.scale, Vector3 { x: bits(1.0), y: bits(2.0), z: bits(3.0) });
}

#[test]
fn the_second_version_stores_the_hashes() {
    let s = Skeleton::read(&skeleton_v2(&[(b"Root", 0xdead_beef, -1), (b"Spine", 7, 0)])).unwrap();
    assert_eq!(s.version, 2);
    assert_eq!(s.joints[0].hash, 0xdead_beef);
    assert_eq!(s.joints[0].parent, None);
    assert_eq!(s.joints[1].name, b"Spine".to_vec());
    assert_eq!(s.joints[1].hash, 7);
    assert_eq!(s.joints[1].parent, Some(0));
    assert_eq!(s.joints[1].translation, Vector3 { x: bits(1.0), y: bits(2.0), z: bits(3.0) });
    assert_eq!(s.joints[1].scale, Vector3 { x: bits(1.0), y: bits(2.0), z: bits(3.0) });
}

#[test]
fn any_negative_parent_marks_the_root() {
    let s = Skeleton::read(&skeleton_v1(&[(b"Root", i32::MIN), (b"Spine", 0)])).unwrap();
    assert_eq!(s.joints[0].parent, None);
    let s = Skeleton::read(&skeleton_v2(&[(b"Root", 1, -300)])).unwrap();
    assert_eq!(s.joints[0].parent, None);
}

#[test]
fn the_layout_of_a_skeleton() {
    let l = read_skeleton_layout(&skeleton_v2(&[(b"Root", 1, -1), (b"Spine", 2, 0)])).unwrap();
    assert_eq!((l.version, l.joint_count), (2, 2));
    assert_eq!(skeleton_v2(&[(b"Root", 1, -1), (b"Spine", 2, 0)]).len(), 16 + 2 * 80);
    assert_eq!(skeleton_v1(&[(b"Root", -1)]).len(), 16 + 76);
}

#[test]
fn a_skeleton_has_exactly_one_root() {
    let s = Skeleton::read(&skeleton_v1(&[(b"a", -1), (b"b", 0), (b"c", 0), (b"d", 2)])).unwrap();
    assert_eq!(s.joints.iter().filter(|j| j.parent.is_none()).count(), 1);
    for (i, joint) in s.joints.iter().enumerate() {
        let mut at = i;
        let mut steps = 0;
        while let Some(p) = s.joints[at].parent {
            assert!(p < at);
            at = p;
            steps += 1;
            assert!(steps <= i);
        }
        assert_eq!(at, 0);
        assert_eq!(joint.parent.is_none(), i == 0);
    }
}

#[test]
fn a_second_root_is_refused() {
    assert_eq!(
        Skeleton::read(&skeleton_v1(&[(b"a", -1), (b"b", -1)])),
        Err(DecodeError::InvalidHierarchy)
    );
}

#[test]
fn a_first_joint_with_a_parent_is_refused() {
    assert_eq!(
        Skeleton::read(&skeleton_v1(&[(b"a", 0), (b"b", 0)])),
        Err(DecodeError::InvalidHierarchy)
    );
    assert_eq!(
        Skeleton::read(&skeleton_v2(&[(b"a", 1, 1), (b"b", 2, -1)])),
        Err(DecodeError::InvalidHierarchy)
    );
}

#[test]
fn a_joint_that_is_its_own_parent_is_refused() {
    assert_eq!(
        Skeleton::read(&skeleton_v1(&[(b"a", -1), (b"b", 1)])),
        Err(DecodeError::InvalidHierarchy)
    );
}

#[test]
fn a_parent_stored_after_its_child_is_refused() {
    assert_eq!(
        Skeleton::read(&skeleton_v1(&[(b"a", -1), (b"b", 2), (b"c", 0)])),
        Err(DecodeError::InvalidHierarchy)
    );
}

#[test]
fn a_parent_out_of_range_is_refused() {
    assert_eq!(
        Skeleton::read(&skeleton_v1(&[(b"a", -1), (b"b", 9)])),
        Err(DecodeError::InvalidHierarchy)
    );
    assert_eq!(
        Skeleton::read(&skeleton_v2(&[(b"a", 1, -1), (b"b", 2, i16::MAX)])),
        Err(DecodeError::InvalidHierarchy)
    );
}

#[test]
fn a_skeleton_without_joints_is_refused() {
    assert_eq!(Skeleton::read(&skeleton_v1(&[])), Err(DecodeError::InvalidHierarchy));
    assert_eq!(Skeleton::read(&skeleton_v2(&[])), Err(DecodeError::InvalidHierarchy));
}

#[test]
fn an_unknown_version_is_unsupported() {
    for version in [0u32, 3, 0x2200_0000] {
        let mut bytes = skl_header(version);
        bytes.extend_from_slice(&[0; 400]);
        assert_eq!(Skeleton::read(&bytes), Err(DecodeError::UnsupportedVersion));
    }
}

#[test]
fn a_wrong_skeleton_signature_is_malformed() {
    let mut bytes = skeleton_v1(&[(b"Root", -1)]);
    bytes[7] = b'T';
    assert_eq!(Skeleton::read(&bytes), Err(DecodeError::MalformedSignature));
    assert_eq!(Skeleton::read(&b"r3d2anmd".to_vec()), Err(DecodeError::MalformedSignature));
}

#[test]
fn every_proper_prefix_of_a_skeleton_is_truncated() {
    for bytes in [
        skeleton_v1(&[(b"Root", -1), (b"Spine", 0)]),
        skeleton_v2(&[(b"Root", 1, -1), (b"Spine", 2, 0)]),
    ] {
        for cut in 8..bytes.len() {
            assert_eq!(
                Skeleton::read(&bytes[..cut].to_vec()),
                Err(DecodeError::TruncatedData),
                "cut at {cut}"
            );
        }
        for cut in 0..8 {
            assert_eq!(Skeleton::read(&bytes[..cut].to_vec()), Err(DecodeError::TruncatedData));
        }
    }
}

#[test]
fn truncation_is_seen_before_the_hierarchy() {
    let mut bytes = skeleton_v1(&[(b"a", -1), (b"b", -1)]);
    bytes.pop();
    assert_eq!(Skeleton::read(&bytes), Err(DecodeError::TruncatedData));
}

#[test]
fn decoding_twice_gives_the_same_skeleton() {
    let bytes = skeleton_v2(&[(b"Root", 1, -1), (b"Spine", 2, 0), (b"Head", 3, 1)]);
    assert_eq!(Skeleton::read(&bytes), Skeleton::read(&bytes));
}

#[test]
fn a_hierarchy_is_checked_joint_by_joint() {
    assert!(!check_hierarchy(&vec![]));
    assert!(check_hierarchy(&vec![bare_joint(None)]));
    assert!(check_hierarchy(&vec![bare_joint(None), bare_joint(Some(0)), bare_joint(Some(1))]));
    assert!(!check_hierarchy(&vec![bare_joint(None), bare_joint(Some(1))]));
    assert!(!check_hierarchy(&vec![bare_joint(Some(0))]));
    assert!(!check_hierarchy(&vec![bare_joint(None), bare_joint(Some(0)), bare_joint(None)]));
}

#[test]
fn a_slot_table_is_taken_when_it_names_joints() {
    let mut s = Skeleton::read(&skeleton_v1(&[(b"a", -1), (b"b", 0), (b"c", 1)])).unwrap();
    assert!(s.set_influences(vec![2, 0, 1, 2]));
    assert_eq!(s.influences, vec![2, 0, 1, 2]);
    assert!(!s.set_influences(vec![0, 3]));
    assert_eq!(s.influences, vec![2, 0, 1, 2]);
    assert!(s.set_influences(vec![]));
    assert!(s.influences.is_empty());
    assert_eq!(s.joints.len(), 3);
}
