//! Decoders for skinned-character assets (skin geometry, joint hierarchy,
//! keyframe clips), the binder that rewrites a skin's bone slots into joint
//! indices, and the sampling decisions of the animation evaluator.
//!
//! Every decoder is a total function on a byte buffer. Real numbers are carried
//! as IEEE-754 single-precision bit patterns, so that everything stated here is
//! stated over integers.

pub mod anm;
pub mod assets;
pub mod binder;
pub mod error;
pub mod hasher;
pub mod ieee;
pub mod pose;
pub mod skl;
pub mod skn;
pub mod wire;
