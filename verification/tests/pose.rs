use skinned::anm::{Animation, Keyframe, Track};
use skinned::ieee::{Ieee32, Vector3, Vector4};
use skinned::pose::{evaluate, JointSource, Sample};
use skinned::skl::{Joint, Skeleton};

fn at(v: f32) -> Ieee32 {
    Ieee32 { bits: v.to_bits() }
}

fn vec3(x: f32, y: f32, z: f32) -> Vector3 {
    Vector3 { x: at(x), y: at(y), z: at(z) }
}

fn moved(time: f32, x: f32) -> Keyframe {
    Keyframe {
        time: at(time),
        translation: vec3(x, 0.0, 0.0),
        rotation: Vector4 { x: at(0.0), y: at(0.0), z: at(0.0), w: at(1.0) },
        scale: vec3(1.0, 1.0, 1.0),
    }
}

fn track_with(times: &[f32]) -> Track {
    Track { joint_hash: 1, keyframes: times.iter().map(|t| moved(*t, *t)).collect() }
}

fn named(hash: u32, parent: Option<usize>) -> Joint {
    Joint {
        name: Vec::new(),
        hash,
        parent,
        translation: vec3(1.0, 2.0, 3.0),
        rotation: Vector4 { x: at(0.0), y: at(0.0), z: at(0.0), w: at(1.0) },
        scale: vec3(1.0, 1.0, 1.0),
    }
}

fn two_joints() -> Skeleton {
    Skeleton {
        version: 1,
        joints: vec![named(0x11, None), named(0x22, Some(0))],
        influences: Vec::new(),
    }
}

fn slide() -> Animation {
    Animation {
        duration: at(1.0),
        tracks: vec![Track { joint_hash: 0x22, keyframes: vec![moved(0.0, 0.0), moved(1.0, 10.0)] }],
    }
}

fn translation_at(clip: &Animation, skeleton: &Skeleton, joint: usize, time: f32) -> [f32; 3] {
    let read = |v: Vector3| [f32::from_bits(v.x.bits), f32::from_bits(v.y.bits), f32::from_bits(v.z.bits)];
    match evaluate(skeleton, clip, at(time))[joint] {
        JointSource::Bind => read(skeleton.joints[joint].translation),
        JointSource::Hold { track, key } => read(clip.tracks[track].keyframes[key].translation),
        JointSource::Blend { track, from, to } => {
            let a = clip.tracks[track].keyframes[from];
            let b = clip.tracks[track].keyframes[to];
            let span = f32::from_bits(b.time.bits) - f32::from_bits(a.time.bits);
            let f = if span == 0.0 { 0.0 } else { (time - f32::from_bits(a.time.bits)) / span };
            let (p, q) = (read(a.translation), read(b.translation));
            [p[0] + (q[0] - p[0]) * f, p[1] + (q[1] - p[1]) * f, p[2] + (q[2] - p[2]) * f]
        }
    }
}

#[test]
fn halfway_between_two_keyframes_is_the_midpoint() {
    let sources = evaluate(&two_joints(), &slide(), at(0.5));
    assert_eq!(sources, vec![JointSource::Bind, JointSource::Blend { track: 0, from: 0, to: 1 }]);
    assert_eq!(translation_at(&slide(), &two_joints(), 1, 0.5), [5.0, 0.0, 0.0]);
}

#[test]
fn a_time_before_the_clip_gives_the_first_keyframe() {
    let sources = evaluate(&two_joints(), &slide(), at(-1.0));
    assert_eq!(sources[1], JointSource::Hold { track: 0, key: 0 });
    assert_eq!(translation_at(&slide(), &two_joints(), 1, -1.0), [0.0, 0.0, 0.0]);
}

#[test]
fn a_time_after_the_clip_gives_the_last_keyframe() {
    let sources = evaluate(&two_joints(), &slide(), at(100.0));
    assert_eq!(sources[1], JointSource::Hold { track: 0, key: 1 });
    assert_eq!(translation_at(&slide(), &two_joints(), 1, 100.0), [10.0, 0.0, 0.0]);
}

#[test]
fn a_joint_without_track_keeps_its_bind_pose() {
    for time in [-1.0f32, 0.0, 0.5, 1.0, 100.0, f32::NAN, f32::INFINITY] {
        assert_eq!(evaluate(&two_joints(), &slide(), at(time))[0], JointSource::Bind);
        assert_eq!(translation_at(&slide(), &two_joints(), 0, time), [1.0, 2.0, 3.0]);
    }
}

#[test]
fn a_clip_for_another_skeleton_leaves_every_joint_at_rest() {
    let clip = Animation { duration: at(1.0), tracks: vec![Track { joint_hash: 0x99, keyframes: vec![moved(0.0, 4.0)] }] };
    assert_eq!(evaluate(&two_joints(), &clip, at(0.0)), vec![JointSource::Bind, JointSource::Bind]);
}

#[test]
fn there_is_one_source_per_joint_in_joint_order() {
    let skeleton = Skeleton {
        version: 1,
        joints: vec![named(5, None), named(0x22, Some(0)), named(6, Some(1)), named(0x22, Some(1))],
        influences: Vec::new(),
    };
    assert_eq!(
        evaluate(&skeleton, &slide(), at(0.25)),
        vec![
            JointSource::Bind,
            JointSource::Blend { track: 0, from: 0, to: 1 },
            JointSource::Bind,
            JointSource::Blend { track: 0, from: 0, to: 1 },
        ]
    );
    let none = Skeleton { version: 1, joints: Vec::new(), influences: Vec::new() };
    assert!(evaluate(&none, &slide(), at(0.25)).is_empty());
}

#[test]
fn a_keyframe_time_gives_that_keyframe() {
    let track = track_with(&[0.0, 1.0, 2.0, 4.0]);
    assert_eq!(track.sample(at(0.0)), Some(Sample::Hold { key: 0 }));
    assert_eq!(track.sample(at(4.0)), Some(Sample::Hold { key: 3 }));
    assert_eq!(track.sample(at(1.0)), Some(Sample::Blend { from: 1, to: 2 }));
    assert_eq!(track.sample(at(2.0)), Some(Sample::Blend { from: 2, to: 3 }));
    let clip = Animation { duration: at(4.0), tracks: vec![Track { joint_hash: 0x22, ..track }] };
    assert_eq!(translation_at(&clip, &two_joints(), 1, 2.0), [2.0, 0.0, 0.0]);
}

#[test]
fn the_bracket_is_found_in_long_tracks() {
    let times: Vec<f32> = (0..100).map(|i| i as f32 * 0.5).collect();
    let track = track_with(&times);
    for i in 0..99usize {
        let inside = i as f32 * 0.5 + 0.25;
        assert_eq!(track.sample(at(inside)), Some(Sample::Blend { from: i, to: i + 1 }));
    }
    assert_eq!(track.sample(at(49.5)), Some(Sample::Hold { key: 99 }));
    assert_eq!(track.sample(at(-0.0)), Some(Sample::Hold { key: 0 }));
}

#[test]
fn among_equal_times_the_last_one_starts_the_bracket() {
    let track = track_with(&[0.0, 1.0, 1.0, 1.0, 2.0]);
    assert_eq!(track.sample(at(1.0)), Some(Sample::Blend { from: 3, to: 4 }));
    assert_eq!(track.sample(at(0.5)), Some(Sample::Blend { from: 0, to: 1 }));
    assert_eq!(track.sample(at(1.5)), Some(Sample::Blend { from: 3, to: 4 }));
}

#[test]
fn a_time_that_is_no_number_gives_the_first_keyframe() {
    let track = track_with(&[0.0, 1.0, 2.0]);
    assert_eq!(track.sample(at(f32::NAN)), Some(Sample::Hold { key: 0 }));
}

#[test]
fn a_track_with_one_keyframe_holds_it() {
    let track = track_with(&[3.0]);
    for time in [-1.0f32, 3.0, 9.0] {
        assert_eq!(track.sample(at(time)), Some(Sample::Hold { key: 0 }));
    }
}

#[test]
fn an_empty_track_gives_nothing() {
    assert_eq!(track_with(&[]).sample(at(0.0)), None);
    let clip = Animation { duration: at(0.0), tracks: vec![Track { joint_hash: 0x22, keyframes: vec![] }] };
    assert_eq!(evaluate(&two_joints(), &clip, at(0.0)), vec![JointSource::Bind, JointSource::Bind]);
}

#[test]
fn the_earlier_of_two_tracks_for_one_joint_is_used() {
    let clip = Animation {
        duration: at(1.0),
        tracks: vec![
            Track { joint_hash: 0x11, keyframes: vec![moved(0.0, 1.0)] },
            Track { joint_hash: 0x22, keyframes: vec![moved(0.0, 2.0)] },
            Track { joint_hash: 0x22, keyframes: vec![moved(0.0, 3.0), moved(1.0, 4.0)] },
        ],
    };
    assert_eq!(clip.find_track(0x22), Some(1));
    assert_eq!(clip.find_track(0x11), Some(0));
    assert_eq!(clip.find_track(0x33), None);
    assert_eq!(clip.source(0x22, at(0.5)), JointSource::Hold { track: 1, key: 0 });
    assert_eq!(
        evaluate(&two_joints(), &clip, at(0.5)),
        vec![JointSource::Hold { track: 0, key: 0 }, JointSource::Hold { track: 1, key: 0 }]
    );
}
