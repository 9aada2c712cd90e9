//! The animation clip: per joint, keyframes in the order of their times.
//!
//! # Layout of an animation buffer
//!
//! All fields are little-endian.
//!
//! | bytes | field |
//! |---|---|
//! | 8 | signature `r3d2anmd` |
//! | 4 | version: 1 |
//! | 4 | duration in seconds |
//! | 4 | track count |
//! | 8 + 44 each | tracks: joint hash, keyframe count, then the keyframes: time, translation, rotation, scale |

use vstd::prelude::*;
use crate::error::DecodeError;
use crate::ieee::{Ieee32, Vector3, Vector4};
use crate::wire::{
    ieee_at, in_bounds, read_ieee, read_u32, read_vector3, read_vector4, u32_at, vector3_at,
    vector4_at,
};

verus! {

/// Bytes before the first track: signature, version, duration, track count.
pub const ANIMATION_HEADER_BYTES: usize = 20;

/// Bytes of a track before its keyframes: joint hash and keyframe count.
pub const TRACK_HEADER_BYTES: usize = 8;

/// Bytes of one keyframe.
pub const KEYFRAME_BYTES: usize = 44;

/// The one version of the layout.
pub const ANIMATION_VERSION: u32 = 1;

/// The pose of one joint at one time, relative to its parent.
#[derive(Clone, Copy, Debug, PartialEq, Eq, Structural)]
pub struct Keyframe {
    pub time: Ieee32,
    pub translation: Vector3,
    /// A quaternion as `(x, y, z, w)`.
    pub rotation: Vector4,
    pub scale: Vector3,
}

/// The keyframes of one joint.
#[derive(Clone, Debug, PartialEq, Eq)]
pub struct Track {
    /// The hash of the name of the joint that the track moves.
    pub joint_hash: u32,
    pub keyframes: Vec<Keyframe>,
}

/// What a `Track` holds, as mathematical values.
pub struct TrackModel {
    pub joint_hash: u32,
    pub keyframes: Seq<Keyframe>,
}

impl View for Track {
    type V = TrackModel;

    open spec fn view(&self) -> TrackModel {
        TrackModel { joint_hash: self.joint_hash, keyframes: self.keyframes@ }
    }
}

/// The views of a sequence of tracks.
pub open spec fn track_models(tracks: Seq<Track>) -> Seq<TrackModel> {
    Seq::new(tracks.len(), |i: int| tracks[i]@)
}

/// Every keyframe has a time that is a number, and no keyframe comes earlier
/// than one before it.
pub open spec fn ascending(keys: Seq<Keyframe>) -> bool {
    &&& forall|i: int| 0 <= i < keys.len() ==> !(#[trigger] keys[i]).time.is_nan()
    &&& forall|i: int, j: int|
        0 <= i <= j < keys.len() ==> (#[trigger] keys[i]).time.key() <= (#[trigger] keys[j]).time.key()
}

/// What an `Animation` holds, as mathematical values.
pub struct AnimationModel {
    pub duration: Ieee32,
    pub tracks: Seq<TrackModel>,
}

impl AnimationModel {
    /// The keyframes of every track are ascending.
    pub open spec fn well_formed(self) -> bool {
        forall|t: int| 0 <= t < self.tracks.len() ==> ascending((#[trigger] self.tracks[t]).keyframes)
    }

    /// No keyframe comes after the clip's duration.
    pub open spec fn duration_covers(self) -> bool {
        forall|t: int, k: int|
            0 <= t < self.tracks.len() && 0 <= k < self.tracks[t].keyframes.len()
                ==> (#[trigger] self.tracks[t].keyframes[k]).time.le(self.duration)
    }
}

/// One clip: its length and the tracks of the joints that it moves. A joint
/// without a track keeps its bind pose.
#[derive(Clone, Debug, PartialEq, Eq)]
pub struct Animation {
    /// The length of the clip in seconds.
    pub duration: Ieee32,
    /// The tracks in stored order. Where two tracks name one joint, the
    /// earlier one is that joint's track.
    pub tracks: Vec<Track>,
}

impl View for Animation {
    type V = AnimationModel;

    open spec fn view(&self) -> AnimationModel {
        AnimationModel { duration: self.duration, tracks: track_models(self.tracks@) }
    }
}

/// True when the buffer starts with the animation signature, `r3d2anmd`.
pub open spec fn has_animation_signature(bytes: Seq<u8>) -> bool {
    &&& bytes.len() >= 8
    &&& bytes[0] == 0x72
    &&& bytes[1] == 0x33
    &&& bytes[2] == 0x64
    &&& bytes[3] == 0x32
    &&& bytes[4] == 0x61
    &&& bytes[5] == 0x6e
    &&& bytes[6] == 0x6d
    &&& bytes[7] == 0x64
}

/// The keyframe stored at `at`.
pub open spec fn keyframe_at(bytes: Seq<u8>, at: int) -> Keyframe {
    Keyframe {
        time: ieee_at(bytes, at),
        translation: vector3_at(bytes, at + 4),
        rotation: vector4_at(bytes, at + 16),
        scale: vector3_at(bytes, at + 32),
    }
}

/// The `n` keyframes stored from `at` on.
pub open spec fn keyframes_at(bytes: Seq<u8>, at: int, n: nat) -> Seq<Keyframe> {
    Seq::new(n, |i: int| keyframe_at(bytes, at + KEYFRAME_BYTES * i))
}

/// The track stored at `at` with the offset of what follows it, or the reason
/// why there is none: the buffer ends before the track does, or its
/// keyframes are not ascending.
pub open spec fn track_at(bytes: Seq<u8>, at: int) -> Result<(TrackModel, int), DecodeError> {
    if at + TRACK_HEADER_BYTES > bytes.len() {
        Err(DecodeError::TruncatedData)
    } else {
        let count = u32_at(bytes, at + 4);
        let first = at + TRACK_HEADER_BYTES;
        let end = first + KEYFRAME_BYTES * count;
        if end > bytes.len() {
            Err(DecodeError::TruncatedData)
        } else {
            let keyframes = keyframes_at(bytes, first, count as nat);
            if !ascending(keyframes) {
                Err(DecodeError::NonMonotonicKeyframes)
            } else {
                Ok((TrackModel { joint_hash: u32_at(bytes, at) as u32, keyframes }, end))
            }
        }
    }
}

/// The tracks `done` followed by the `n` tracks stored from `at` on, or the
/// reason why the first of these that is unsound is so.
pub open spec fn tracks_from(bytes: Seq<u8>, at: int, n: nat, done: Seq<TrackModel>) -> Result<
    Seq<TrackModel>,
    DecodeError,
>
    decreases n,
{
    if n == 0 {
        Ok(done)
    } else {
        match track_at(bytes, at) {
            Err(e) => Err(e),
            Ok((track, next)) => tracks_from(bytes, next, (n - 1) as nat, done.push(track)),
        }
    }
}

/// The clip of a given duration around decoded tracks.
pub open spec fn clip_of(duration: Ieee32, tracks: Result<Seq<TrackModel>, DecodeError>) -> Result<
    AnimationModel,
    DecodeError,
> {
    match tracks {
        Err(e) => Err(e),
        Ok(tracks) => Ok(AnimationModel { duration, tracks }),
    }
}

/// The clip that a buffer encodes, or the reason why it encodes none.
pub open spec fn decoded_animation(bytes: Seq<u8>) -> Result<AnimationModel, DecodeError> {
    let len = bytes.len() as int;
    if len < 8 {
        Err(DecodeError::TruncatedData)
    } else if !has_animation_signature(bytes) {
        Err(DecodeError::MalformedSignature)
    } else if len < 12 {
        Err(DecodeError::TruncatedData)
    } else if u32_at(bytes, 8) != ANIMATION_VERSION {
        Err(DecodeError::UnsupportedVersion)
    } else if len < ANIMATION_HEADER_BYTES {
        Err(DecodeError::TruncatedData)
    } else {
        clip_of(
            ieee_at(bytes, 12),
            tracks_from(
                bytes,
                ANIMATION_HEADER_BYTES as int,
                u32_at(bytes, 16) as nat,
                Seq::empty(),
            ),
        )
    }
}

/// Tells whether keyframes are ascending.
pub fn check_ascending(keys: &Vec<Keyframe>) -> (ok: bool)
    ensures
        ok == ascending(keys@),
{
    let mut i: usize = 0;
    while i < keys.len()
        invariant
            i <= keys.len(),
            forall|a: int| 0 <= a < i ==> !(#[trigger] keys@[a]).time.is_nan(),
            forall|a: int, b: int|
                0 <= a <= b < i ==> (#[trigger] keys@[a]).time.key() <= (#[trigger] keys@[b]).time.key(),
        decreases keys.len() - i,
    {
        let time = keys[i].time;
        if time.nan() {
            return false;
        }
        if i > 0 {
            let before = keys[i - 1].time;
            if !before.at_most(&time) {
                assert(!(keys@[i - 1].time.key() <= keys@[i as int].time.key()));
                return false;
            }
            assert forall|a: int, b: int| 0 <= a <= b < i + 1 implies (#[trigger] keys@[a]).time.key()
                <= (#[trigger] keys@[b]).time.key() by {
                if b == i && a < i {
                    assert(keys@[a].time.key() <= keys@[i - 1].time.key());
                }
            }
        }
        i += 1;
    }
    true
}

/// Reads the keyframe at `at`.
fn read_keyframe(bytes: &[u8], at: usize) -> (k: Keyframe)
    requires
        in_bounds(bytes@.len() as int, at as int, KEYFRAME_BYTES as int),
    ensures
        k == keyframe_at(bytes@, at as int),
{
    let len: usize = bytes.len();
    Keyframe {
        time: read_ieee(bytes, at),
        translation: read_vector3(bytes, at + 4),
        rotation: read_vector4(bytes, at + 16),
        scale: read_vector3(bytes, at + 32),
    }
}

/// Reads the track at `at` and gives the offset of what follows it.
fn read_track(bytes: &[u8], at: usize) -> (r: Result<(Track, usize), DecodeError>)
    requires
        at <= bytes@.len(),
    ensures
        match r {
            Ok((track, next)) => track_at(bytes@, at as int) == Ok::<
                (TrackModel, int),
                DecodeError,
            >((track@, next as int)) && at <= next <= bytes@.len(),
            Err(e) => track_at(bytes@, at as int) == Err::<(TrackModel, int), DecodeError>(e),
        },
{
    let len: usize = bytes.len();
    if len - at < TRACK_HEADER_BYTES {
        return Err(DecodeError::TruncatedData);
    }
    let joint_hash: u32 = read_u32(bytes, at);
    let count: u32 = read_u32(bytes, at + 4);
    let first: usize = at + TRACK_HEADER_BYTES;
    assert(KEYFRAME_BYTES as u64 * count as u64 == 44 * count);
    if KEYFRAME_BYTES as u64 * count as u64 > (len - first) as u64 {
        return Err(DecodeError::TruncatedData);
    }
    let count: usize = count as usize;
    let mut keyframes: Vec<Keyframe> = Vec::new();
    let mut i: usize = 0;
    while i < count
        invariant
            i <= count,
            len == bytes@.len(),
            first + KEYFRAME_BYTES * count <= len,
            keyframes@.len() == i,
            forall|k: int|
                0 <= k < i ==> #[trigger] keyframes@[k] == keyframe_at(
                    bytes@,
                    first + KEYFRAME_BYTES * k,
                ),
        decreases count - i,
    {
        assert(KEYFRAME_BYTES == 44);
        assert(44 * i + 44 <= 44 * count);
        keyframes.push(read_keyframe(bytes, first + KEYFRAME_BYTES * i));
        i += 1;
    }
    proof {
        assert(keyframes@ =~= keyframes_at(bytes@, first as int, count as nat));
    }
    if !check_ascending(&keyframes) {
        return Err(DecodeError::NonMonotonicKeyframes);
    }
    assert(KEYFRAME_BYTES * count == 44 * count);
    Ok((Track { joint_hash, keyframes }, first + KEYFRAME_BYTES * count))
}

impl Animation {
    /// The keyframes of every track are ascending.
    pub open spec fn well_formed(&self) -> bool {
        self@.well_formed()
    }

    /// Decodes a clip. The result is the clip that the buffer encodes, or the
    /// first reason, in the order of the fields, for which it encodes none.
    pub fn read(contents: &Vec<u8>) -> (r: Result<Animation, DecodeError>)
        ensures
            match r {
                Ok(animation) => decoded_animation(contents@) == Ok::<AnimationModel, DecodeError>(
                    animation@,
                ) && animation.well_formed(),
                Err(e) => decoded_animation(contents@) == Err::<AnimationModel, DecodeError>(e),
            },
    {
        let bytes: &[u8] = contents.as_slice();
        let len: usize = bytes.len();
        if len < 8 {
            return Err(DecodeError::TruncatedData);
        }
        if !(bytes[0] == 0x72 && bytes[1] == 0x33 && bytes[2] == 0x64 && bytes[3] == 0x32
            && bytes[4] == 0x61 && bytes[5] == 0x6e && bytes[6] == 0x6d && bytes[7] == 0x64) {
            return Err(DecodeError::MalformedSignature);
        }
        if len < 12 {
            return Err(DecodeError::TruncatedData);
        }
        if read_u32(bytes, 8) != ANIMATION_VERSION {
            return Err(DecodeError::UnsupportedVersion);
        }
        if len < ANIMATION_HEADER_BYTES {
            return Err(DecodeError::TruncatedData);
        }
        let duration = read_ieee(bytes, 12);
        let count: u32 = read_u32(bytes, 16);
        let mut tracks: Vec<Track> = Vec::new();
        let mut at: usize = ANIMATION_HEADER_BYTES;
        let mut left: u32 = count;
        proof {
            assert(track_models(tracks@) =~= Seq::empty());
        }
        while left > 0
            invariant
                at <= len,
                len == bytes@.len(),
                bytes@ == contents@,
                decoded_animation(contents@) == clip_of(
                    duration,
                    tracks_from(bytes@, at as int, left as nat, track_models(tracks@)),
                ),
                forall|t: int| 0 <= t < tracks@.len() ==> ascending((#[trigger] tracks@[t]).keyframes@),
            decreases left,
        {
            let ghost before = track_models(tracks@);
            match read_track(bytes, at) {
                Err(e) => {
                    return Err(e);
                },
                Ok((track, next)) => {
                    tracks.push(track);
                    proof {
                        assert(track_models(tracks@) =~= before.push(track@));
                    }
                    at = next;
                },
            }
            left -= 1;
        }
        proof {
            assert(track_models(tracks@) =~= Seq::new(tracks@.len(), |i: int| tracks@[i]@));
        }
        Ok(Animation { duration, tracks })
    }

    /// Tells whether the clip's duration covers its keyframes: none comes
    /// after it.
    pub fn covers_keyframes(&self) -> (ok: bool)
        ensures
            ok == self@.duration_covers(),
    {
        let mut t: usize = 0;
        while t < self.tracks.len()
            invariant
                t <= self.tracks.len(),
                forall|a: int, k: int|
                    0 <= a < t && 0 <= k < self@.tracks[a].keyframes.len() ==> (
                    #[trigger] self@.tracks[a].keyframes[k]).time.le(self.duration),
            decreases self.tracks.len() - t,
        {
            proof {
                assert(self@.tracks[t as int] == self.tracks@[t as int]@);
            }
            let keys = &self.tracks[t].keyframes;
            let mut k: usize = 0;
            while k < keys.len()
                invariant
                    k <= keys.len(),
                    t < self.tracks.len(),
                    keys@ == self@.tracks[t as int].keyframes,
                    forall|j: int| 0 <= j < k ==> (#[trigger] keys@[j]).time.le(self.duration),
                decreases keys.len() - k,
            {
                if !keys[k].time.at_most(&self.duration) {
                    assert(!self@.tracks[t as int].keyframes[k as int].time.le(self.duration));
                    return false;
                }
                k += 1;
            }
            t += 1;
        }
        true
    }

    /// Tells whether the keyframes of every track are ascending.
    pub fn check(&self) -> (ok: bool)
        ensures
            ok == self.well_formed(),
    {
        let mut t: usize = 0;
        while t < self.tracks.len()
            invariant
                t <= self.tracks.len(),
                forall|k: int| 0 <= k < t ==> ascending((#[trigger] self@.tracks[k]).keyframes),
            decreases self.tracks.len() - t,
        {
            proof {
                assert(self@.tracks[t as int] == self.tracks@[t as int]@);
            }
            if !check_ascending(&self.tracks[t].keyframes) {
                return false;
            }
            t += 1;
        }
        true
    }
}

} // verus!
