//! Sampling a clip: for each joint of a skeleton at a time, which stored
//! values its pose is made from. Interpolating between the chosen keyframes
//! and composing matrices along the hierarchy is arithmetic on real numbers
//! and is left to the caller.

use vstd::prelude::*;
use crate::anm::{ascending, Animation, AnimationModel, Keyframe, Track, TrackModel};
use crate::ieee::Ieee32;
use crate::skl::{JointModel, Skeleton};

verus! {

/// The keyframes that a track gives for a time.
#[derive(Clone, Copy, Debug, PartialEq, Eq, Structural)]
pub enum Sample {
    /// The values of one keyframe, unchanged.
    Hold { key: usize },
    /// Values between two neighbouring keyframes, `from` at or before the
    /// time and `to` after it.
    Blend { from: usize, to: usize },
}

/// Where the pose of a joint comes from.
#[derive(Clone, Copy, Debug, PartialEq, Eq, Structural)]
pub enum JointSource {
    /// The joint's bind pose.
    Bind,
    /// The values of keyframe `key` of track `track`, unchanged.
    Hold { track: usize, key: usize },
    /// Values between keyframes `from` and `to` of track `track`.
    Blend { track: usize, from: usize, to: usize },
}

impl JointSource {
    /// The track and the keyframes that the source names exist in the clip.
    pub open spec fn within(self, clip: AnimationModel) -> bool {
        match self {
            JointSource::Bind => true,
            JointSource::Hold { track, key } => track < clip.tracks.len() && key
                < clip.tracks[track as int].keyframes.len(),
            JointSource::Blend { track, from, to } => track < clip.tracks.len() && from < to && to
                < clip.tracks[track as int].keyframes.len(),
        }
    }
}

/// The index of the last of the first `n` keyframes that is not after `time`,
/// or -1 where all of them are.
pub open spec fn last_at_or_before(keys: Seq<Keyframe>, time: Ieee32, n: nat) -> int
    decreases n,
{
    if n == 0 {
        -1
    } else if keys[n - 1].time.le(time) {
        n - 1
    } else {
        last_at_or_before(keys, time, (n - 1) as nat)
    }
}

/// What a track gives for a time: nothing where it has no keyframe; its first
/// keyframe for a time that is not after it, or that is no number; its last
/// keyframe for a time that is not before it; otherwise the last keyframe
/// that is not after the time, together with its successor.
pub open spec fn sample_of(keys: Seq<Keyframe>, time: Ieee32) -> Option<Sample> {
    if keys.len() == 0 {
        None
    } else if !keys[0].time.lt(time) {
        Some(Sample::Hold { key: 0 })
    } else if !time.lt(keys.last().time) {
        Some(Sample::Hold { key: (keys.len() - 1) as usize })
    } else {
        let from = last_at_or_before(keys, time, keys.len());
        Some(Sample::Blend { from: from as usize, to: (from + 1) as usize })
    }
}

/// The index of the first of the first `n` tracks that moves the joint with
/// hash `hash`.
pub open spec fn track_of(tracks: Seq<TrackModel>, hash: u32, n: nat) -> Option<int>
    decreases n,
{
    if n == 0 {
        None
    } else {
        match track_of(tracks, hash, (n - 1) as nat) {
            Some(t) => Some(t),
            None => if tracks[n - 1].joint_hash == hash {
                Some(n - 1)
            } else {
                None
            },
        }
    }
}

/// Where the pose of the joint with hash `hash` comes from at `time`: from its
/// track where the clip has one that holds a keyframe, else from the bind pose.
pub open spec fn source_of(clip: AnimationModel, hash: u32, time: Ieee32) -> JointSource {
    match track_of(clip.tracks, hash, clip.tracks.len()) {
        None => JointSource::Bind,
        Some(t) => match sample_of(clip.tracks[t].keyframes, time) {
            None => JointSource::Bind,
            Some(Sample::Hold { key }) => JointSource::Hold { track: t as usize, key },
            Some(Sample::Blend { from, to }) => JointSource::Blend { track: t as usize, from, to },
        },
    }
}

/// Among ascending keyframes, a keyframe that is not after the time and whose
/// successor is after it is the last one that is not after the time.
pub proof fn lemma_bracket_is_last_at_or_before(
    keys: Seq<Keyframe>,
    time: Ieee32,
    from: int,
    n: nat,
)
    requires
        ascending(keys),
        0 <= from,
        from + 1 < keys.len(),
        from + 1 <= n <= keys.len(),
        keys[from].time.le(time),
        time.lt(keys[from + 1].time),
    ensures
        last_at_or_before(keys, time, n) == from,
    decreases n,
{
    if n > from + 1 {
        assert(keys[from + 1].time.key() <= keys[n - 1].time.key());
        lemma_bracket_is_last_at_or_before(keys, time, from, (n - 1) as nat);
    }
}

/// The index that `last_at_or_before` gives is that of a keyframe not after
/// the time, and every later one among the first `n` is after it.
pub proof fn lemma_last_at_or_before(keys: Seq<Keyframe>, time: Ieee32, n: nat)
    requires
        n <= keys.len(),
    ensures
        -1 <= last_at_or_before(keys, time, n) < n,
        last_at_or_before(keys, time, n) >= 0 ==> keys[last_at_or_before(keys, time, n)].time.le(
            time,
        ),
        forall|k: int|
            last_at_or_before(keys, time, n) < k < n ==> !(#[trigger] keys[k]).time.le(time),
    decreases n,
{
    if n > 0 {
        lemma_last_at_or_before(keys, time, (n - 1) as nat);
    }
}

/// Between the first and the last keyframe, the two keyframes that are chosen
/// are neighbours that bracket the time: the first is not after it, and the
/// second is after it.
pub proof fn lemma_blend_brackets(keys: Seq<Keyframe>, time: Ieee32)
    requires
        ascending(keys),
        keys.len() <= usize::MAX,
        sample_of(keys, time) is Some,
        sample_of(keys, time)->Some_0 is Blend,
    ensures
        ({
            let from = sample_of(keys, time)->Some_0->from;
            let to = sample_of(keys, time)->Some_0->to;
            &&& to == from + 1
            &&& to < keys.len()
            &&& keys[from as int].time.le(time)
            &&& time.lt(keys[to as int].time)
        }),
{
    let n = keys.len();
    lemma_last_at_or_before(keys, time, n);
    let from = last_at_or_before(keys, time, n);
    assert(keys[0].time.le(time));
    assert(!keys[n - 1].time.le(time));
    if from < 0 {
        assert(!keys[0].time.le(time));
    }
    assert(from < n - 1);
    assert(!keys[from + 1].time.le(time));
    assert(!keys[from + 1].time.is_nan());
    assert(sample_of(keys, time) == Some(Sample::Blend { from: from as usize, to: (from + 1) as usize }));
}

/// A time before the first keyframe gives the first keyframe unchanged, and a
/// time after the last keyframe gives the last one unchanged.
pub proof fn lemma_sample_clamps(keys: Seq<Keyframe>, time: Ieee32)
    requires
        ascending(keys),
        keys.len() > 0,
    ensures
        time.lt(keys[0].time) ==> sample_of(keys, time) == Some(Sample::Hold { key: 0 }),
        keys.last().time.lt(time) ==> sample_of(keys, time) == Some(
            Sample::Hold { key: (keys.len() - 1) as usize },
        ),
{
    if keys.last().time.lt(time) && keys[0].time.lt(time) {
        assert(!time.lt(keys.last().time));
    }
    if keys.last().time.lt(time) && !keys[0].time.lt(time) {
        assert(keys[0].time.key() <= keys[keys.len() - 1].time.key());
    }
}

/// A joint that no track of the clip moves keeps its bind pose at every time.
pub proof fn lemma_static_joint_keeps_bind_pose(clip: AnimationModel, hash: u32, time: Ieee32)
    requires
        forall|t: int| 0 <= t < clip.tracks.len() ==> (#[trigger] clip.tracks[t]).joint_hash != hash,
    ensures
        source_of(clip, hash, time) == JointSource::Bind,
{
    lemma_no_track(clip.tracks, hash, clip.tracks.len());
}

/// Where none of the first `n` tracks moves a joint, the joint has no track
/// among them.
pub proof fn lemma_no_track(tracks: Seq<TrackModel>, hash: u32, n: nat)
    requires
        n <= tracks.len(),
        forall|t: int| 0 <= t < n ==> (#[trigger] tracks[t]).joint_hash != hash,
    ensures
        track_of(tracks, hash, n) is None,
    decreases n,
{
    if n > 0 {
        lemma_no_track(tracks, hash, (n - 1) as nat);
    }
}

impl Track {
    /// Chooses the keyframes for a time, by bisection.
    pub fn sample(&self, time: Ieee32) -> (r: Option<Sample>)
        requires
            ascending(self.keyframes@),
        ensures
            r == sample_of(self.keyframes@, time),
            r matches Some(Sample::Hold { key }) ==> key < self.keyframes@.len(),
            r matches Some(Sample::Blend { from, to }) ==> to == from + 1 && to
                < self.keyframes@.len() && self.keyframes@[from as int].time.le(time) && time.lt(
                self.keyframes@[to as int].time,
            ),
    {
        let n: usize = self.keyframes.len();
        if n == 0 {
            return None;
        }
        if !self.keyframes[0].time.less_than(&time) {
            return Some(Sample::Hold { key: 0 });
        }
        if !time.less_than(&self.keyframes[n - 1].time) {
            return Some(Sample::Hold { key: n - 1 });
        }
        let mut from: usize = 0;
        let mut to: usize = n - 1;
        while to - from > 1
            invariant
                from < to < n,
                n == self.keyframes@.len(),
                ascending(self.keyframes@),
                self.keyframes@[from as int].time.le(time),
                time.lt(self.keyframes@[to as int].time),
            decreases to - from,
        {
            let mid: usize = from + (to - from) / 2;
            if self.keyframes[mid].time.at_most(&time) {
                from = mid;
            } else {
                assert(!self.keyframes@[mid as int].time.is_nan());
                to = mid;
            }
        }
        proof {
            lemma_bracket_is_last_at_or_before(self.keyframes@, time, from as int, n as nat);
        }
        Some(Sample::Blend { from, to })
    }
}

impl Animation {
    /// Finds the track of the joint with hash `hash`: the first one that
    /// names it.
    pub fn find_track(&self, hash: u32) -> (r: Option<usize>)
        ensures
            match r {
                Some(t) => t < self.tracks@.len() && self.tracks@[t as int].joint_hash == hash
                    && forall|k: int| 0 <= k < t ==> (#[trigger] self.tracks@[k]).joint_hash != hash,
                None => forall|k: int|
                    0 <= k < self.tracks@.len() ==> (#[trigger] self.tracks@[k]).joint_hash != hash,
            },
            r matches Some(t) ==> track_of(self@.tracks, hash, self@.tracks.len()) == Some(t as int),
            r is None ==> track_of(self@.tracks, hash, self@.tracks.len()) is None,
    {
        let mut t: usize = 0;
        while t < self.tracks.len()
            invariant
                t <= self.tracks.len(),
                track_of(self@.tracks, hash, t as nat) is None,
                forall|k: int| 0 <= k < t ==> (#[trigger] self.tracks@[k]).joint_hash != hash,
            decreases self.tracks.len() - t,
        {
            proof {
                assert(self@.tracks[t as int] == self.tracks@[t as int]@);
            }
            if self.tracks[t].joint_hash == hash {
                proof {
                    lemma_first_track_stays(self@.tracks, hash, t as int, self@.tracks.len());
                }
                return Some(t);
            }
            t += 1;
        }
        None
    }

    /// Says where the pose of the joint with hash `hash` comes from at `time`.
    pub fn source(&self, hash: u32, time: Ieee32) -> (r: JointSource)
        requires
            self.well_formed(),
        ensures
            r == source_of(self@, hash, time),
            r.within(self@),
    {
        match self.find_track(hash) {
            None => JointSource::Bind,
            Some(t) => {
                proof {
                    assert(self@.tracks[t as int] == self.tracks@[t as int]@);
                }
                match self.tracks[t].sample(time) {
                    None => JointSource::Bind,
                    Some(Sample::Hold { key }) => JointSource::Hold { track: t, key },
                    Some(Sample::Blend { from, to }) => JointSource::Blend { track: t, from, to },
                }
            },
        }
    }
}

/// The first track that moves a joint is still the first one when more
/// tracks follow.
pub proof fn lemma_first_track_stays(tracks: Seq<TrackModel>, hash: u32, t: int, n: nat)
    requires
        0 <= t < n <= tracks.len(),
        track_of(tracks, hash, t as nat) is None,
        tracks[t].joint_hash == hash,
    ensures
        track_of(tracks, hash, n) == Some(t),
    decreases n,
{
    if n > t + 1 {
        lemma_first_track_stays(tracks, hash, t, (n - 1) as nat);
    }
}

/// The sources of the poses of joints, in the order of the joints.
pub open spec fn sources_of(clip: AnimationModel, joints: Seq<JointModel>, time: Ieee32) -> Seq<
    JointSource,
> {
    Seq::new(joints.len(), |j: int| source_of(clip, joints[j].hash, time))
}

/// Samples a clip for a skeleton: for each joint, in the skeleton's order,
/// where its pose at `time` comes from. The time is taken as it is: looping
/// and stopping at the clip's end are the caller's.
pub fn evaluate(skeleton: &Skeleton, animation: &Animation, time: Ieee32) -> (sources: Vec<
    JointSource,
>)
    requires
        animation.well_formed(),
    ensures
        sources@ == sources_of(animation@, skeleton@.joints, time),
        forall|j: int| 0 <= j < sources@.len() ==> (#[trigger] sources@[j]).within(animation@),
{
    let mut sources: Vec<JointSource> = Vec::new();
    let mut j: usize = 0;
    while j < skeleton.joints.len()
        invariant
            j <= skeleton.joints.len(),
            animation.well_formed(),
            sources@.len() == j,
            forall|k: int| 0 <= k < j ==> (#[trigger] sources@[k]).within(animation@),
            forall|k: int|
                0 <= k < j ==> #[trigger] sources@[k] == source_of(
                    animation@,
                    skeleton@.joints[k].hash,
                    time,
                ),
        decreases skeleton.joints.len() - j,
    {
        proof {
            assert(skeleton@.joints[j as int] == skeleton.joints@[j as int]@);
        }
        sources.push(animation.source(skeleton.joints[j].hash, time));
        j += 1;
    }
    proof {
        assert(sources@ =~= sources_of(animation@, skeleton@.joints, time));
    }
    sources
}

} // verus!
