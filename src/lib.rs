//! Verified core of a skeletal pose and animation engine for a humanoid rig.
//!
//! - `bone`: the bone identifiers and the fixed hierarchy, in topological order.
//! - `bits`: single-bit facts about 32-bit words.
//! - `dirty`: the per-bone dirty-flag bitset behind lazy forward kinematics,
//!   and the order in which stale bones are recomputed.
//! - `binary`: the compact binary clip format (fixed-point rotations and
//!   half-precision scalars), decoded and encoded at the byte level.
//! - `codec`: the JSON format's version gate and load errors.
//! - `editor`: the pose editor's joint-to-chain table, keyframe cursor and
//!   keyframe deletion, and the keyframe pair that a sample blends.
//! - `half`: exact widening of half-precision bit patterns to single precision.
pub mod binary;
pub mod bits;
pub mod bone;
pub mod codec;
pub mod dirty;
pub mod editor;
pub mod half;
pub mod joint;
