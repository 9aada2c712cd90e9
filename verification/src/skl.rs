//! The skeleton: joints stored parents first, each with its bind pose.
//!
//! # Layout of a skeleton buffer
//!
//! All fields are little-endian.
//!
//! | bytes | field |
//! |---|---|
//! | 8 | signature `r3d2sklt` |
//! | 4 | version: 1 or 2 |
//! | 4 | joint count: 32 bits in version 1; 16 bits and 2 reserved bytes in version 2 |
//! | 76 each | version 1 joints: 32-byte zero-padded name, parent (signed 32 bits), translation, rotation, scale |
//! | 80 each | version 2 joints: 32-byte zero-padded name, name hash, parent (signed 16 bits), 2 reserved, translation, rotation, scale |
//!
//! A negative parent marks the root. Version 1 stores no hash: it is that of
//! the name.

use vstd::prelude::*;
use crate::error::DecodeError;
use crate::hasher::{fnv1a_bytes, fnv1a_of};
use crate::ieee::{Vector3, Vector4};
use crate::wire::{
    name_at, read_name, read_u16, read_u32, read_vector3, read_vector4, u16_at, u32_at, vector3_at,
    vector4_at,
};

verus! {

/// Bytes before the first joint: signature, version and joint count.
pub const SKELETON_HEADER_BYTES: usize = 16;

/// Bytes of a joint's name field.
pub const JOINT_NAME_BYTES: usize = 32;

/// Bytes of a joint in version 1.
pub const JOINT_BYTES_V1: usize = 76;

/// Bytes of a joint in version 2.
pub const JOINT_BYTES_V2: usize = 80;

/// A node of the hierarchy with its bind pose relative to its parent.
#[derive(Clone, Debug, PartialEq, Eq)]
pub struct Joint {
    /// The name as stored, without its padding.
    pub name: Vec<u8>,
    pub hash: u32,
    /// The index of the parent joint; `None` for the root.
    pub parent: Option<usize>,
    pub translation: Vector3,
    /// The bind rotation, a quaternion as `(x, y, z, w)`.
    pub rotation: Vector4,
    pub scale: Vector3,
}

/// What a `Joint` holds, as mathematical values.
pub struct JointModel {
    pub name: Seq<u8>,
    pub hash: u32,
    pub parent: Option<usize>,
    pub translation: Vector3,
    pub rotation: Vector4,
    pub scale: Vector3,
}

impl View for Joint {
    type V = JointModel;

    open spec fn view(&self) -> JointModel {
        JointModel {
            name: self.name@,
            hash: self.hash,
            parent: self.parent,
            translation: self.translation,
            rotation: self.rotation,
            scale: self.scale,
        }
    }
}

/// The views of a sequence of joints.
pub open spec fn joint_models(joints: Seq<Joint>) -> Seq<JointModel> {
    Seq::new(joints.len(), |i: int| joints[i]@)
}

/// The joints form one tree stored parents first: the first joint is the
/// root, and every other joint has a parent that is stored before it.
pub open spec fn is_hierarchy(joints: Seq<JointModel>) -> bool {
    &&& joints.len() >= 1
    &&& joints[0].parent is None
    &&& forall|i: int|
        1 <= i < joints.len() ==> (#[trigger] joints[i]).parent is Some && joints[i].parent->Some_0
            < i
}

/// Every entry of a slot table names a joint.
pub open spec fn table_names_joints(table: Seq<u16>, joint_count: int) -> bool {
    forall|k: int| 0 <= k < table.len() ==> #[trigger] table[k] < joint_count
}

/// What a `Skeleton` holds, as mathematical values.
pub struct SkeletonModel {
    pub version: u32,
    pub joints: Seq<JointModel>,
    pub influences: Seq<u16>,
}

impl SkeletonModel {
    /// The joints form a hierarchy and the slot table names joints only.
    pub open spec fn well_formed(self) -> bool {
        &&& is_hierarchy(self.joints)
        &&& table_names_joints(self.influences, self.joints.len() as int)
    }

    /// The joint reached from joint `i` by going to the parent `n` times, or
    /// `None` where the root is passed on the way.
    pub open spec fn ancestor(self, i: int, n: nat) -> Option<int>
        decreases n,
    {
        if n == 0 {
            Some(i)
        } else {
            match self.ancestor(i, (n - 1) as nat) {
                Some(j) => if 0 <= j < self.joints.len() {
                    match self.joints[j].parent {
                        Some(p) => Some(p as int),
                        None => None,
                    }
                } else {
                    None
                },
                None => None,
            }
        }
    }
}

/// A joint hierarchy with the table that maps a skin's palette slots to joints.
#[derive(Clone, Debug, PartialEq, Eq)]
pub struct Skeleton {
    pub version: u32,
    pub joints: Vec<Joint>,
    /// Entry `s` is the joint that palette slot `s` of a skin stands for. A
    /// decoded skeleton has an empty table: it is set before a skin is bound.
    pub influences: Vec<u16>,
}

impl View for Skeleton {
    type V = SkeletonModel;

    open spec fn view(&self) -> SkeletonModel {
        SkeletonModel {
            version: self.version,
            joints: joint_models(self.joints@),
            influences: self.influences@,
        }
    }
}

/// Where the joints of a skeleton buffer lie.
#[derive(Clone, Copy, Debug, PartialEq, Eq, Structural)]
pub struct SkeletonLayout {
    pub version: u32,
    pub joint_count: usize,
}

impl SkeletonLayout {
    /// Offset of joint `i`.
    pub open spec fn joint_at(self, i: int) -> int {
        if self.version == 1 {
            SKELETON_HEADER_BYTES + JOINT_BYTES_V1 * i
        } else {
            SKELETON_HEADER_BYTES + JOINT_BYTES_V2 * i
        }
    }

    /// Offset of the bind pose inside a joint.
    pub open spec fn pose_offset(self) -> int {
        if self.version == 1 {
            36
        } else {
            40
        }
    }
}

/// True when the buffer starts with the skeleton signature, `r3d2sklt`.
pub open spec fn has_skeleton_signature(bytes: Seq<u8>) -> bool {
    &&& bytes.len() >= 8
    &&& bytes[0] == 0x72
    &&& bytes[1] == 0x33
    &&& bytes[2] == 0x64
    &&& bytes[3] == 0x32
    &&& bytes[4] == 0x73
    &&& bytes[5] == 0x6b
    &&& bytes[6] == 0x6c
    &&& bytes[7] == 0x74
}

/// The layout that a buffer declares, or the reason why it declares none.
pub open spec fn skeleton_layout(bytes: Seq<u8>) -> Result<SkeletonLayout, DecodeError> {
    let len = bytes.len() as int;
    if len < 8 {
        Err(DecodeError::TruncatedData)
    } else if !has_skeleton_signature(bytes) {
        Err(DecodeError::MalformedSignature)
    } else if len < 12 {
        Err(DecodeError::TruncatedData)
    } else {
        let version = u32_at(bytes, 8);
        if version != 1 && version != 2 {
            Err(DecodeError::UnsupportedVersion)
        } else if len < SKELETON_HEADER_BYTES {
            Err(DecodeError::TruncatedData)
        } else {
            let joint_count = if version == 1 {
                u32_at(bytes, 12)
            } else {
                u16_at(bytes, 12)
            };
            let l = SkeletonLayout { version: version as u32, joint_count: joint_count as usize };
            if SKELETON_HEADER_BYTES + (if version == 1 {
                JOINT_BYTES_V1 * joint_count
            } else {
                JOINT_BYTES_V2 * joint_count
            }) > len {
                Err(DecodeError::TruncatedData)
            } else {
                Ok(l)
            }
        }
    }
}

/// The parent that a stored field names: none where the field, read as a
/// signed number, is negative. `half` is the least raw value that is negative.
pub open spec fn parent_of(raw: int, half: int) -> Option<usize> {
    if raw >= half {
        None
    } else {
        Some(raw as usize)
    }
}

/// Joint `i` of a buffer.
pub open spec fn joint_at(bytes: Seq<u8>, l: SkeletonLayout, i: int) -> JointModel {
    let at = l.joint_at(i);
    let pose = at + l.pose_offset();
    let name = name_at(bytes, at, JOINT_NAME_BYTES as int);
    JointModel {
        name,
        hash: if l.version == 1 {
            fnv1a_of(name)
        } else {
            u32_at(bytes, at + 32) as u32
        },
        parent: if l.version == 1 {
            parent_of(u32_at(bytes, at + 32), 0x8000_0000)
        } else {
            parent_of(u16_at(bytes, at + 36), 0x8000)
        },
        translation: vector3_at(bytes, pose),
        rotation: vector4_at(bytes, pose + 12),
        scale: vector3_at(bytes, pose + 28),
    }
}

/// The joints of a buffer.
pub open spec fn joints_of(bytes: Seq<u8>, l: SkeletonLayout) -> Seq<JointModel> {
    Seq::new(l.joint_count as nat, |i: int| joint_at(bytes, l, i))
}

/// The skeleton that a buffer encodes, or the reason why it encodes none. A
/// buffer whose layout is sound is refused only for joints that do not form
/// one tree stored parents first: no joint at all, a first joint with a
/// parent, a second root, or a parent that is not stored before its child.
pub open spec fn decoded_skeleton(bytes: Seq<u8>) -> Result<SkeletonModel, DecodeError> {
    match skeleton_layout(bytes) {
        Err(e) => Err(e),
        Ok(l) => {
            let joints = joints_of(bytes, l);
            if !is_hierarchy(joints) {
                Err(DecodeError::InvalidHierarchy)
            } else {
                Ok(SkeletonModel { version: l.version, joints, influences: Seq::empty() })
            }
        },
    }
}

/// Finds the joints of a skeleton buffer.
pub fn read_skeleton_layout(bytes: &[u8]) -> (r: Result<SkeletonLayout, DecodeError>)
    ensures
        r == skeleton_layout(bytes@),
{
    let len: usize = bytes.len();
    if len < 8 {
        return Err(DecodeError::TruncatedData);
    }
    if !(bytes[0] == 0x72 && bytes[1] == 0x33 && bytes[2] == 0x64 && bytes[3] == 0x32 && bytes[4]
        == 0x73 && bytes[5] == 0x6b && bytes[6] == 0x6c && bytes[7] == 0x74) {
        return Err(DecodeError::MalformedSignature);
    }
    if len < 12 {
        return Err(DecodeError::TruncatedData);
    }
    let version: u32 = read_u32(bytes, 8);
    if version != 1 && version != 2 {
        return Err(DecodeError::UnsupportedVersion);
    }
    if len < SKELETON_HEADER_BYTES {
        return Err(DecodeError::TruncatedData);
    }
    let joint_count: u64 = if version == 1 {
        read_u32(bytes, 12) as u64
    } else {
        read_u16(bytes, 12) as u64
    };
    assert(JOINT_BYTES_V1 as u64 * joint_count == 76 * joint_count);
    assert(JOINT_BYTES_V2 as u64 * joint_count == 80 * joint_count);
    let size: u64 = if version == 1 {
        JOINT_BYTES_V1 as u64 * joint_count
    } else {
        JOINT_BYTES_V2 as u64 * joint_count
    };
    if SKELETON_HEADER_BYTES as u64 + size > len as u64 {
        return Err(DecodeError::TruncatedData);
    }
    Ok(SkeletonLayout { version, joint_count: joint_count as usize })
}

/// Reads joint `i`.
fn read_joint(bytes: &[u8], l: &SkeletonLayout, i: usize) -> (joint: Joint)
    requires
        skeleton_layout(bytes@) == Ok::<SkeletonLayout, DecodeError>(*l),
        i < l.joint_count,
    ensures
        joint@ == joint_at(bytes@, *l, i as int),
{
    let len: usize = bytes.len();
    assert(JOINT_BYTES_V1 == 76 && JOINT_BYTES_V2 == 80);
    if l.version == 1 {
        assert(76 * i + 76 <= 76 * l.joint_count);
        let at: usize = SKELETON_HEADER_BYTES + JOINT_BYTES_V1 * i;
        let name = read_name(bytes, at, JOINT_NAME_BYTES);
        let hash: u32 = fnv1a_bytes(name.as_slice());
        let raw: u32 = read_u32(bytes, at + 32);
        let parent: Option<usize> = if raw >= 0x8000_0000 {
            None
        } else {
            Some(raw as usize)
        };
        Joint {
            name,
            hash,
            parent,
            translation: read_vector3(bytes, at + 36),
            rotation: read_vector4(bytes, at + 48),
            scale: read_vector3(bytes, at + 64),
        }
    } else {
        assert(80 * i + 80 <= 80 * l.joint_count);
        let at: usize = SKELETON_HEADER_BYTES + JOINT_BYTES_V2 * i;
        let name = read_name(bytes, at, JOINT_NAME_BYTES);
        let hash: u32 = read_u32(bytes, at + 32);
        let raw: u16 = read_u16(bytes, at + 36);
        let parent: Option<usize> = if raw >= 0x8000 {
            None
        } else {
            Some(raw as usize)
        };
        Joint {
            name,
            hash,
            parent,
            translation: read_vector3(bytes, at + 40),
            rotation: read_vector4(bytes, at + 52),
            scale: read_vector3(bytes, at + 68),
        }
    }
}

/// Tells whether joints form one tree stored parents first.
pub fn check_hierarchy(joints: &Vec<Joint>) -> (ok: bool)
    ensures
        ok == is_hierarchy(joint_models(joints@)),
{
    if joints.len() == 0 {
        return false;
    }
    if joints[0].parent.is_some() {
        return false;
    }
    let mut i: usize = 1;
    while i < joints.len()
        invariant
            1 <= i <= joints.len(),
            joint_models(joints@)[0].parent is None,
            forall|k: int|
                1 <= k < i ==> (#[trigger] joint_models(joints@)[k]).parent is Some && joint_models(
                    joints@,
                )[k].parent->Some_0 < k,
        decreases joints.len() - i,
    {
        proof {
            assert(joint_models(joints@)[i as int] == joints@[i as int]@);
        }
        match joints[i].parent {
            Some(p) => {
                if p >= i {
                    return false;
                }
            },
            None => {
                return false;
            },
        }
        i += 1;
    }
    true
}

impl Skeleton {
    /// The joints form a hierarchy and the slot table names joints only.
    pub open spec fn well_formed(&self) -> bool {
        self@.well_formed()
    }

    /// Decodes a skeleton. The result is the skeleton that the buffer
    /// encodes, with an empty slot table, or the first reason, in the order
    /// of the fields, for which the buffer encodes none.
    pub fn read(contents: &Vec<u8>) -> (r: Result<Skeleton, DecodeError>)
        ensures
            match r {
                Ok(skeleton) => decoded_skeleton(contents@) == Ok::<SkeletonModel, DecodeError>(
                    skeleton@,
                ) && skeleton.well_formed(),
                Err(e) => decoded_skeleton(contents@) == Err::<SkeletonModel, DecodeError>(e),
            },
    {
        let bytes: &[u8] = contents.as_slice();
        let l = match read_skeleton_layout(bytes) {
            Ok(l) => l,
            Err(e) => {
                return Err(e);
            },
        };
        let mut joints: Vec<Joint> = Vec::new();
        let mut i: usize = 0;
        while i < l.joint_count
            invariant
                i <= l.joint_count,
                skeleton_layout(bytes@) == Ok::<SkeletonLayout, DecodeError>(l),
                joints@.len() == i,
                forall|k: int| 0 <= k < i ==> (#[trigger] joints@[k])@ == joint_at(bytes@, l, k),
            decreases l.joint_count - i,
        {
            joints.push(read_joint(bytes, &l, i));
            i += 1;
        }
        proof {
            assert(joint_models(joints@) =~= joints_of(bytes@, l));
        }
        if !check_hierarchy(&joints) {
            return Err(DecodeError::InvalidHierarchy);
        }
        Ok(Skeleton { version: l.version, joints, influences: Vec::new() })
    }

    /// Installs the table that maps palette slots to joints. The table is
    /// taken when each of its entries names a joint; otherwise the skeleton is
    /// left as it was and the answer is `false`.
    pub fn set_influences(&mut self, table: Vec<u16>) -> (taken: bool)
        ensures
            taken == table_names_joints(table@, old(self).joints@.len() as int),
            taken ==> final(self).influences@ == table@,
            !taken ==> final(self).influences@ == old(self).influences@,
            final(self).joints@ == old(self).joints@,
            final(self).version == old(self).version,
            taken && is_hierarchy(joint_models(old(self).joints@)) ==> final(self).well_formed(),
    {
        let mut k: usize = 0;
        while k < table.len()
            invariant
                k <= table.len(),
                forall|j: int| 0 <= j < k ==> #[trigger] table@[j] < self.joints@.len(),
            decreases table.len() - k,
        {
            if table[k] as usize >= self.joints.len() {
                return false;
            }
            k += 1;
        }
        self.influences = table;
        true
    }
}

/// In a hierarchy exactly one joint has no parent: the first.
pub proof fn lemma_single_root(s: SkeletonModel, i: int)
    requires
        is_hierarchy(s.joints),
        0 <= i < s.joints.len(),
    ensures
        s.joints[i].parent is None <==> i == 0,
{
}

/// In a hierarchy every proper ancestor of a joint is stored before it, so no
/// joint is its own ancestor.
pub proof fn lemma_ancestors_precede(s: SkeletonModel, i: int, n: nat)
    requires
        is_hierarchy(s.joints),
        0 <= i < s.joints.len(),
        n >= 1,
    ensures
        s.ancestor(i, n) matches Some(j) ==> 0 <= j && j + n <= i,
        s.ancestor(i, n) != Some(i),
    decreases n,
{
    let below = s.ancestor(i, (n - 1) as nat);
    if n == 1 {
        assert(s.ancestor(i, 0) == Some(i));
    } else {
        lemma_ancestors_precede(s, i, (n - 1) as nat);
    }
    assert(s.ancestor(i, n) == match below {
        Some(j) => if 0 <= j < s.joints.len() {
            match s.joints[j].parent {
                Some(p) => Some(p as int),
                None => None,
            }
        } else {
            None
        },
        None => None,
    });
    if let Some(j) = below {
        assert(0 <= j <= i);
        if j >= 1 {
            assert(s.joints[j].parent is Some && s.joints[j].parent->Some_0 < j);
        }
    }
}

/// In a hierarchy the chain of parents of a joint ends: going up more often
/// than the joint's index passes the root.
pub proof fn lemma_ancestors_end(s: SkeletonModel, i: int, n: nat)
    requires
        is_hierarchy(s.joints),
        0 <= i < s.joints.len(),
        n > i,
    ensures
        s.ancestor(i, n) is None,
{
    lemma_ancestors_precede(s, i, n);
}

} // verus!
