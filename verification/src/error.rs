//! Why an asset was refused.

use vstd::prelude::*;

verus! {

/// The reasons for which a decoder refuses a buffer. A refusal concerns the one
/// buffer that was handed in and nothing else.
#[derive(Clone, Copy, Debug, PartialEq, Eq, Structural)]
pub enum DecodeError {
    /// The buffer does not start with the format's signature.
    MalformedSignature,
    /// The version field names a layout that is not known.
    UnsupportedVersion,
    /// The buffer ends before a field, or before the items a count declares.
    TruncatedData,
    /// A submesh covers indices beyond the end of the index sequence.
    InvalidIndexRange,
    /// The joints do not form one tree stored parents first.
    InvalidHierarchy,
    /// A keyframe comes earlier than the one before it, or at no time at all.
    NonMonotonicKeyframes,
}

/// The reasons for which a skin is not bound to a skeleton.
#[derive(Clone, Copy, Debug, PartialEq, Eq, Structural)]
pub enum BindError {
    /// The skin's bone references are joint indices already.
    AlreadyBound,
    /// An entry of the skeleton's slot table names no joint.
    UnknownJoint,
    /// A vertex refers to a palette slot that the slot table does not hold.
    UnknownSlot,
}

} // verus!
