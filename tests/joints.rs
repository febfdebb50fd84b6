use ventti::bone::BoneId;
use ventti::editor::get_bone_and_chain;
use ventti::joint::{pick_joint, render_parts, Joint, JointSource, RenderPart, PICK_COUNT, RENDER_PART_COUNT};

#[test]
fn pick_slots() {
    assert_eq!(pick_joint(0), Some(Joint::Hips));
    assert_eq!(pick_joint(1), Some(Joint::Neck));
    assert_eq!(pick_joint(2), Some(Joint::Neck));
    assert_eq!(pick_joint(6), Some(Joint::LeftHand));
    assert_eq!(pick_joint(15), Some(Joint::RightFoot));
    assert_eq!(pick_joint(PICK_COUNT), None);
}

#[test]
fn picked_bone_ends_at_picked_joint() {
    for slot in 0..PICK_COUNT {
        if let Some((bone, _)) = get_bone_and_chain(slot) {
            let source = pick_joint(slot).unwrap().source();
            assert!(
                source == JointSource::BoneEnd(bone)
                    || (bone == BoneId::Neck && source == JointSource::BoneEnd(BoneId::Spine))
            );
        }
    }
}

#[test]
fn joint_sources() {
    assert_eq!(Joint::Hips.source(), JointSource::Root);
    assert_eq!(Joint::LeftHip.source(), JointSource::HipPoint(BoneId::LeftThigh));
    assert_eq!(Joint::RightKnee.source(), JointSource::BoneEnd(BoneId::RightThigh));
    assert_eq!(Joint::LeftElbow.source(), JointSource::BoneEnd(BoneId::LeftUpperArm));
}

#[test]
fn render_order() {
    let parts = render_parts();
    assert_eq!(parts.len(), RENDER_PART_COUNT);
    assert_eq!(parts[0], RenderPart::Segment { from: Joint::Hips, to: Joint::Neck });
    assert_eq!(parts[12], RenderPart::Segment { from: Joint::RightKnee, to: Joint::RightFoot });
    assert_eq!(parts[13], RenderPart::HeadSphere);
    assert_eq!(parts[14], RenderPart::Marker(Joint::Hips));
    assert_eq!(parts[28], RenderPart::Marker(Joint::Head));
    let markers = parts.iter().filter(|p| matches!(p, RenderPart::Marker(_))).count();
    assert_eq!(markers, 15);
}

#[test]
fn joint_indices() {
    assert_eq!(Joint::Hips.index(), 0);
    assert_eq!(Joint::Head.index(), 2);
    assert_eq!(Joint::RightFoot.index(), 14);
}
