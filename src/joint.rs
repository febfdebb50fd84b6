use vstd::prelude::*;

use crate::bone::BoneId;

verus! {

/// Number of skeleton joints that are drawn and picked.
pub const JOINT_COUNT: usize = 15;

/// Number of editor pick slots (the neck joint has two).
pub const PICK_COUNT: usize = 16;

/// Number of rendered parts, each with its own matrix.
pub const RENDER_PART_COUNT: usize = 29;

/// A point of the skeleton that is drawn and can be picked.
#[derive(Debug, Clone, Copy, PartialEq, Eq, Structural, Hash)]
pub enum Joint {
    Hips,
    Neck,
    Head,
    LeftShoulder,
    LeftElbow,
    LeftHand,
    RightShoulder,
    RightElbow,
    RightHand,
    LeftHip,
    LeftKnee,
    LeftFoot,
    RightHip,
    RightKnee,
    RightFoot,
}

/// Where a joint's world position comes from.
#[derive(Debug, Clone, Copy, PartialEq, Eq, Structural)]
pub enum JointSource {
    /// The pose's root position.
    Root,
    /// The start of a thigh: the root plus the thigh's fixed hip offset,
    /// turned by the hips.
    HipPoint(BoneId),
    /// The distal end of a bone.
    BoneEnd(BoneId),
}

/// One rendered part, in the order shared by mesh and matrices.
#[derive(Debug, Clone, Copy, PartialEq, Eq, Structural)]
pub enum RenderPart {
    /// A cylinder from one joint to another.
    Segment { from: Joint, to: Joint },
    /// The head sphere.
    HeadSphere,
    /// A small sphere marking a joint.
    Marker(Joint),
}

pub open spec fn spec_joint_source(j: Joint) -> JointSource {
    match j {
        Joint::Hips => JointSource::Root,
        Joint::Neck => JointSource::BoneEnd(BoneId::Spine),
        Joint::Head => JointSource::BoneEnd(BoneId::Head),
        Joint::LeftShoulder => JointSource::BoneEnd(BoneId::LeftShoulder),
        Joint::LeftElbow => JointSource::BoneEnd(BoneId::LeftUpperArm),
        Joint::LeftHand => JointSource::BoneEnd(BoneId::LeftForearm),
        Joint::RightShoulder => JointSource::BoneEnd(BoneId::RightShoulder),
        Joint::RightElbow => JointSource::BoneEnd(BoneId::RightUpperArm),
        Joint::RightHand => JointSource::BoneEnd(BoneId::RightForearm),
        Joint::LeftHip => JointSource::HipPoint(BoneId::LeftThigh),
        Joint::LeftKnee => JointSource::BoneEnd(BoneId::LeftThigh),
        Joint::LeftFoot => JointSource::BoneEnd(BoneId::LeftShin),
        Joint::RightHip => JointSource::HipPoint(BoneId::RightThigh),
        Joint::RightKnee => JointSource::BoneEnd(BoneId::RightThigh),
        Joint::RightFoot => JointSource::BoneEnd(BoneId::RightShin),
    }
}

/// The joint that editor pick slot `p` shows.
pub open spec fn spec_pick_joint(p: nat) -> Option<Joint> {
    if p == 0 {
        Some(Joint::Hips)
    } else if p == 1 || p == 2 {
        Some(Joint::Neck)
    } else if p == 3 {
        Some(Joint::Head)
    } else if p == 4 {
        Some(Joint::LeftShoulder)
    } else if p == 5 {
        Some(Joint::LeftElbow)
    } else if p == 6 {
        Some(Joint::LeftHand)
    } else if p == 7 {
        Some(Joint::RightShoulder)
    } else if p == 8 {
        Some(Joint::RightElbow)
    } else if p == 9 {
        Some(Joint::RightHand)
    } else if p == 10 {
        Some(Joint::LeftHip)
    } else if p == 11 {
        Some(Joint::LeftKnee)
    } else if p == 12 {
        Some(Joint::LeftFoot)
    } else if p == 13 {
        Some(Joint::RightHip)
    } else if p == 14 {
        Some(Joint::RightKnee)
    } else if p == 15 {
        Some(Joint::RightFoot)
    } else {
        None
    }
}

/// The marker joints, in render order after the segments and the head.
pub open spec fn marker_joints() -> Seq<Joint> {
    seq![
        Joint::Hips,
        Joint::Neck,
        Joint::LeftShoulder,
        Joint::LeftElbow,
        Joint::LeftHand,
        Joint::RightShoulder,
        Joint::RightElbow,
        Joint::RightHand,
        Joint::LeftHip,
        Joint::LeftKnee,
        Joint::LeftFoot,
        Joint::RightHip,
        Joint::RightKnee,
        Joint::RightFoot,
        Joint::Head,
    ]
}

/// The rendered parts in order: the bone segments, the head sphere, then one
/// marker per joint.
pub open spec fn spec_render_parts() -> Seq<RenderPart> {
    seq![
        RenderPart::Segment { from: Joint::Hips, to: Joint::Neck },
        RenderPart::Segment { from: Joint::Neck, to: Joint::LeftShoulder },
        RenderPart::Segment { from: Joint::LeftShoulder, to: Joint::LeftElbow },
        RenderPart::Segment { from: Joint::LeftElbow, to: Joint::LeftHand },
        RenderPart::Segment { from: Joint::Neck, to: Joint::RightShoulder },
        RenderPart::Segment { from: Joint::RightShoulder, to: Joint::RightElbow },
        RenderPart::Segment { from: Joint::RightElbow, to: Joint::RightHand },
        RenderPart::Segment { from: Joint::Hips, to: Joint::LeftHip },
        RenderPart::Segment { from: Joint::LeftHip, to: Joint::LeftKnee },
        RenderPart::Segment { from: Joint::LeftKnee, to: Joint::LeftFoot },
        RenderPart::Segment { from: Joint::Hips, to: Joint::RightHip },
        RenderPart::Segment { from: Joint::RightHip, to: Joint::RightKnee },
        RenderPart::Segment { from: Joint::RightKnee, to: Joint::RightFoot },
        RenderPart::HeadSphere,
    ] + marker_joints().map_values(|j: Joint| RenderPart::Marker(j))
}

impl Joint {
    pub open spec fn spec_index(self) -> nat {
        match self {
            Joint::Hips => 0,
            Joint::Neck => 1,
            Joint::Head => 2,
            Joint::LeftShoulder => 3,
            Joint::LeftElbow => 4,
            Joint::LeftHand => 5,
            Joint::RightShoulder => 6,
            Joint::RightElbow => 7,
            Joint::RightHand => 8,
            Joint::LeftHip => 9,
            Joint::LeftKnee => 10,
            Joint::LeftFoot => 11,
            Joint::RightHip => 12,
            Joint::RightKnee => 13,
            Joint::RightFoot => 14,
        }
    }

    /// Dense array index of this joint.
    pub fn index(self) -> (r: usize)
        ensures
            r as nat == self.spec_index(),
            r < JOINT_COUNT,
    {
        match self {
            Joint::Hips => 0,
            Joint::Neck => 1,
            Joint::Head => 2,
            Joint::LeftShoulder => 3,
            Joint::LeftElbow => 4,
            Joint::LeftHand => 5,
            Joint::RightShoulder => 6,
            Joint::RightElbow => 7,
            Joint::RightHand => 8,
            Joint::LeftHip => 9,
            Joint::LeftKnee => 10,
            Joint::LeftFoot => 11,
            Joint::RightHip => 12,
            Joint::RightKnee => 13,
            Joint::RightFoot => 14,
        }
    }

    /// Where this joint's world position comes from.
    pub fn source(self) -> (r: JointSource)
        ensures
            r == spec_joint_source(self),
    {
        match self {
            Joint::Hips => JointSource::Root,
            Joint::Neck => JointSource::BoneEnd(BoneId::Spine),
            Joint::Head => JointSource::BoneEnd(BoneId::Head),
            Joint::LeftShoulder => JointSource::BoneEnd(BoneId::LeftShoulder),
            Joint::LeftElbow => JointSource::BoneEnd(BoneId::LeftUpperArm),
            Joint::LeftHand => JointSource::BoneEnd(BoneId::LeftForearm),
            Joint::RightShoulder => JointSource::BoneEnd(BoneId::RightShoulder),
            Joint::RightElbow => JointSource::BoneEnd(BoneId::RightUpperArm),
            Joint::RightHand => JointSource::BoneEnd(BoneId::RightForearm),
            Joint::LeftHip => JointSource::HipPoint(BoneId::LeftThigh),
            Joint::LeftKnee => JointSource::BoneEnd(BoneId::LeftThigh),
            Joint::LeftFoot => JointSource::BoneEnd(BoneId::LeftShin),
            Joint::RightHip => JointSource::HipPoint(BoneId::RightThigh),
            Joint::RightKnee => JointSource::BoneEnd(BoneId::RightThigh),
            Joint::RightFoot => JointSource::BoneEnd(BoneId::RightShin),
        }
    }
}

/// The joint that editor pick slot `pick` shows; `None` past the last slot.
pub fn pick_joint(pick: usize) -> (r: Option<Joint>)
    ensures
        r == spec_pick_joint(pick as nat),
        r.is_some() <==> pick < PICK_COUNT,
{
    match pick {
        0 => Some(Joint::Hips),
        1 | 2 => Some(Joint::Neck),
        3 => Some(Joint::Head),
        4 => Some(Joint::LeftShoulder),
        5 => Some(Joint::LeftElbow),
        6 => Some(Joint::LeftHand),
        7 => Some(Joint::RightShoulder),
        8 => Some(Joint::RightElbow),
        9 => Some(Joint::RightHand),
        10 => Some(Joint::LeftHip),
        11 => Some(Joint::LeftKnee),
        12 => Some(Joint::LeftFoot),
        13 => Some(Joint::RightHip),
        14 => Some(Joint::RightKnee),
        15 => Some(Joint::RightFoot),
        _ => None,
    }
}

/// The rendered parts, in the order that the mesh and the bone matrices
/// share.
pub fn render_parts() -> (r: Vec<RenderPart>)
    ensures
        r@ == spec_render_parts(),
        r@.len() == RENDER_PART_COUNT,
{
    let mut r = vec![
        RenderPart::Segment { from: Joint::Hips, to: Joint::Neck },
        RenderPart::Segment { from: Joint::Neck, to: Joint::LeftShoulder },
        RenderPart::Segment { from: Joint::LeftShoulder, to: Joint::LeftElbow },
        RenderPart::Segment { from: Joint::LeftElbow, to: Joint::LeftHand },
        RenderPart::Segment { from: Joint::Neck, to: Joint::RightShoulder },
        RenderPart::Segment { from: Joint::RightShoulder, to: Joint::RightElbow },
        RenderPart::Segment { from: Joint::RightElbow, to: Joint::RightHand },
        RenderPart::Segment { from: Joint::Hips, to: Joint::LeftHip },
        RenderPart::Segment { from: Joint::LeftHip, to: Joint::LeftKnee },
        RenderPart::Segment { from: Joint::LeftKnee, to: Joint::LeftFoot },
        RenderPart::Segment { from: Joint::Hips, to: Joint::RightHip },
        RenderPart::Segment { from: Joint::RightHip, to: Joint::RightKnee },
        RenderPart::Segment { from: Joint::RightKnee, to: Joint::RightFoot },
        RenderPart::HeadSphere,
    ];
    let markers = vec![
        Joint::Hips,
        Joint::Neck,
        Joint::LeftShoulder,
        Joint::LeftElbow,
        Joint::LeftHand,
        Joint::RightShoulder,
        Joint::RightElbow,
        Joint::RightHand,
        Joint::LeftHip,
        Joint::LeftKnee,
        Joint::LeftFoot,
        Joint::RightHip,
        Joint::RightKnee,
        Joint::RightFoot,
        Joint::Head,
    ];
    let ghost head = r@;
    let mut i: usize = 0;
    while i < markers.len()
        invariant
            i <= markers@.len(),
            markers@ == marker_joints(),
            r@ == head + marker_joints().take(i as int).map_values(|j: Joint| RenderPart::Marker(j)),
        decreases markers@.len() - i,
    {
        r.push(RenderPart::Marker(markers[i]));
        i = i + 1;
        assert(marker_joints().take(i as int) == marker_joints().take(i - 1).push(markers@[i - 1]));
        assert(r@ =~= head + marker_joints().take(i as int).map_values(|j: Joint| RenderPart::Marker(j)));
    }
    assert(marker_joints().take(15) =~= marker_joints());
    r
}

/// Every joint has exactly one marker among the rendered parts.
pub proof fn lemma_one_marker_per_joint(j: Joint)
    ensures
        exists|i: int| 0 <= i < RENDER_PART_COUNT && spec_render_parts()[i] == RenderPart::Marker(j),
        forall|a: int, b: int|
            0 <= a < b < RENDER_PART_COUNT && spec_render_parts()[a] == RenderPart::Marker(j)
                ==> spec_render_parts()[b] != RenderPart::Marker(j),
{
    let parts = spec_render_parts();
    assert(parts.len() == RENDER_PART_COUNT);
    assert forall|i: int| 0 <= i < 15 implies parts[14 + i] == RenderPart::Marker(
        #[trigger] marker_joints()[i],
    ) by {}
    let k: int = match j {
        Joint::Hips => 0,
        Joint::Neck => 1,
        Joint::LeftShoulder => 2,
        Joint::LeftElbow => 3,
        Joint::LeftHand => 4,
        Joint::RightShoulder => 5,
        Joint::RightElbow => 6,
        Joint::RightHand => 7,
        Joint::LeftHip => 8,
        Joint::LeftKnee => 9,
        Joint::LeftFoot => 10,
        Joint::RightHip => 11,
        Joint::RightKnee => 12,
        Joint::RightFoot => 13,
        Joint::Head => 14,
    };
    assert(parts[14 + k] == RenderPart::Marker(j));
}

} // verus!
