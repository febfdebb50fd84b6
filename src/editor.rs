use vstd::prelude::*;

use crate::bone::BoneId;
use crate::joint::{spec_joint_source, spec_pick_joint, JointSource};

verus! {

/// The bone that a pick index of the editor moves, if any. Pick indices follow
/// the joint order hips, neck, neck, head, then shoulder, elbow and hand of
/// each arm, then hip, knee and foot of each leg; index 0 (the root) is moved
/// by position and has no bone here.
pub open spec fn joint_bone(j: nat) -> Option<BoneId> {
    if j == 1 {
        Some(BoneId::Spine)
    } else if j == 2 {
        Some(BoneId::Neck)
    } else if j == 3 {
        Some(BoneId::Head)
    } else if j == 4 {
        Some(BoneId::LeftShoulder)
    } else if j == 5 {
        Some(BoneId::LeftUpperArm)
    } else if j == 6 {
        Some(BoneId::LeftForearm)
    } else if j == 7 {
        Some(BoneId::RightShoulder)
    } else if j == 8 {
        Some(BoneId::RightUpperArm)
    } else if j == 9 {
        Some(BoneId::RightForearm)
    } else if j == 11 {
        Some(BoneId::LeftThigh)
    } else if j == 12 {
        Some(BoneId::LeftShin)
    } else if j == 14 {
        Some(BoneId::RightThigh)
    } else if j == 15 {
        Some(BoneId::RightShin)
    } else {
        None
    }
}

/// The IK chain that dragging pick index `j` solves, root-most bone first;
/// empty where the drag rotates the single bone directly.
pub open spec fn joint_chain(j: nat) -> Seq<BoneId> {
    if j == 6 {
        seq![BoneId::LeftShoulder, BoneId::LeftUpperArm, BoneId::LeftForearm]
    } else if j == 9 {
        seq![BoneId::RightShoulder, BoneId::RightUpperArm, BoneId::RightForearm]
    } else if j == 12 {
        seq![BoneId::LeftThigh, BoneId::LeftShin]
    } else if j == 15 {
        seq![BoneId::RightThigh, BoneId::RightShin]
    } else if j == 3 {
        seq![BoneId::Spine, BoneId::Neck, BoneId::Head]
    } else if j == 1 {
        seq![BoneId::Spine]
    } else if j == 2 {
        seq![BoneId::Neck]
    } else {
        Seq::empty()
    }
}

/// The bone moved by pick index `joint_index` and the IK chain solved for it
/// (empty for a direct single-bone rotation). Every chain is a run of
/// parent-to-child links that ends at the moved bone, and the picked joint is
/// the distal end of the moved bone (for the neck bone, which has no length,
/// the end of the spine, where it ends too).
pub fn get_bone_and_chain(joint_index: usize) -> (r: Option<(BoneId, Vec<BoneId>)>)
    ensures
        r.is_some() <==> joint_bone(joint_index as nat).is_some(),
        r matches Some((b, c)) ==> {
            &&& joint_bone(joint_index as nat) == Some(b)
            &&& c@ == joint_chain(joint_index as nat)
            &&& c@.len() > 0 ==> c@.last() == b
            &&& forall|k: int|
                0 < k < c@.len() ==> (#[trigger] c@[k]).spec_parent() == Some(c@[k - 1])
            &&& spec_pick_joint(joint_index as nat) matches Some(p) && (spec_joint_source(p)
                == JointSource::BoneEnd(b) || (b == BoneId::Neck && spec_joint_source(p)
                == JointSource::BoneEnd(BoneId::Spine)))
        },
{
    match joint_index {
        6 => Some(
            (
                BoneId::LeftForearm,
                vec![BoneId::LeftShoulder, BoneId::LeftUpperArm, BoneId::LeftForearm],
            ),
        ),
        9 => Some(
            (
                BoneId::RightForearm,
                vec![BoneId::RightShoulder, BoneId::RightUpperArm, BoneId::RightForearm],
            ),
        ),
        12 => Some((BoneId::LeftShin, vec![BoneId::LeftThigh, BoneId::LeftShin])),
        15 => Some((BoneId::RightShin, vec![BoneId::RightThigh, BoneId::RightShin])),
        3 => Some((BoneId::Head, vec![BoneId::Spine, BoneId::Neck, BoneId::Head])),
        1 => Some((BoneId::Spine, vec![BoneId::Spine])),
        2 => Some((BoneId::Neck, vec![BoneId::Neck])),
        5 => Some((BoneId::LeftUpperArm, Vec::new())),
        8 => Some((BoneId::RightUpperArm, Vec::new())),
        4 => Some((BoneId::LeftShoulder, Vec::new())),
        7 => Some((BoneId::RightShoulder, Vec::new())),
        11 => Some((BoneId::LeftThigh, Vec::new())),
        14 => Some((BoneId::RightThigh, Vec::new())),
        _ => None,
    }
}

/// Moves the keyframe cursor to `index` when a keyframe has that index;
/// otherwise leaves it where it is.
pub fn set_keyframe_index(keyframe_index: &mut usize, keyframe_count: usize, index: usize)
    ensures
        *final(keyframe_index) == if index < keyframe_count {
            index
        } else {
            *old(keyframe_index)
        },
{
    if index < keyframe_count {
        *keyframe_index = index;
    }
}

/// The keyframes left by deleting the one at `index`: unchanged when it is the
/// only one or when there is no such keyframe.
pub open spec fn after_delete<K>(keyframes: Seq<K>, index: int) -> Seq<K> {
    if keyframes.len() > 1 && 0 <= index < keyframes.len() {
        keyframes.remove(index)
    } else {
        keyframes
    }
}

/// Removes the keyframe at `index`, unless it is the only one or there is no
/// such keyframe; returns whether it did. A cursor left past the end moves to
/// the last keyframe.
pub fn delete_keyframe<K>(keyframes: &mut Vec<K>, keyframe_index: &mut usize, index: usize) -> (r:
    bool)
    ensures
        r == (old(keyframes)@.len() > 1 && index < old(keyframes)@.len()),
        final(keyframes)@ == after_delete(old(keyframes)@, index as int),
        r ==> *final(keyframe_index) == if *old(keyframe_index) >= final(keyframes)@.len() {
            (final(keyframes)@.len() - 1) as usize
        } else {
            *old(keyframe_index)
        },
        !r ==> *final(keyframe_index) == *old(keyframe_index),
        *old(keyframe_index) < old(keyframes)@.len() ==> *final(keyframe_index)
            < final(keyframes)@.len(),
{
    if keyframes.len() > 1 && index < keyframes.len() {
        keyframes.remove(index);
        if *keyframe_index >= keyframes.len() {
            *keyframe_index = keyframes.len() - 1;
        }
        true
    } else {
        false
    }
}

/// Where a looped sample time falls among the keyframes.
#[derive(Debug, Clone, Copy, PartialEq, Eq, Structural)]
pub enum Segment {
    /// Before the first keyframe: its pose, unblended.
    First,
    /// Between two neighbouring keyframes.
    Between { prev: usize, next: usize },
    /// After the last keyframe: blend from the last back to the first.
    Wrap { prev: usize, next: usize },
}

/// The keyframes to blend for a sample, given the number of keyframes and the
/// index of the first keyframe whose time is later than the sample time;
/// `None` for a clip with no keyframes (the bind pose).
pub fn keyframe_segment(keyframe_count: usize, next_index: usize) -> (r: Option<Segment>)
    requires
        next_index <= keyframe_count,
    ensures
        keyframe_count == 0 ==> r.is_none(),
        keyframe_count > 0 && next_index == 0 ==> r == Some(Segment::First),
        keyframe_count > 0 && next_index == keyframe_count ==> r == Some(
            Segment::Wrap { prev: (keyframe_count - 1) as usize, next: 0 },
        ),
        0 < next_index < keyframe_count ==> r == Some(
            Segment::Between { prev: (next_index - 1) as usize, next: next_index },
        ),
{
    if keyframe_count == 0 {
        None
    } else if next_index == 0 {
        Some(Segment::First)
    } else if next_index >= keyframe_count {
        Some(Segment::Wrap { prev: keyframe_count - 1, next: 0 })
    } else {
        Some(Segment::Between { prev: next_index - 1, next: next_index })
    }
}

/// Deleting from a clip that holds exactly one keyframe changes nothing, and
/// no deletion leaves a clip that had keyframes without any.
pub proof fn lemma_delete_keeps_a_keyframe<K>(before: Seq<K>, index: int)
    ensures
        before.len() == 1 ==> after_delete(before, index) == before,
        before.len() >= 1 ==> after_delete(before, index).len() >= 1,
{
}

} // verus!
