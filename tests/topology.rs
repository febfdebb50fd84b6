use ventti::bone::{BoneId, BONE_COUNT};
use ventti::dirty::{compute_descendant_masks, descendant_mask};

#[test]
fn index_and_from_index_agree() {
    for (i, bone) in BoneId::all().into_iter().enumerate() {
        assert_eq!(bone.index(), i);
        assert_eq!(BoneId::from_index(i), Some(bone));
    }
    assert_eq!(BoneId::all().len(), BONE_COUNT);
    assert_eq!(BoneId::from_index(14), None);
    assert_eq!(BoneId::from_index(usize::MAX), None);
    assert_eq!(BoneId::Head.index(), 3);
    assert_eq!(BoneId::RightShin.index(), 13);
}

#[test]
fn parents_precede_children() {
    assert_eq!(BoneId::Hips.parent(), None);
    assert_eq!(BoneId::Head.parent(), Some(BoneId::Neck));
    assert_eq!(BoneId::LeftShoulder.parent(), Some(BoneId::Neck));
    assert_eq!(BoneId::RightShin.parent(), Some(BoneId::RightThigh));
    assert_eq!(BoneId::LeftThigh.parent(), Some(BoneId::Hips));
    for bone in BoneId::all() {
        if let Some(p) = bone.parent() {
            assert!(p.index() < bone.index());
        }
    }
}

#[test]
fn descendant_relation() {
    assert!(BoneId::Head.is_descendant_of(BoneId::Spine));
    assert!(BoneId::LeftForearm.is_descendant_of(BoneId::Hips));
    assert!(BoneId::RightForearm.is_descendant_of(BoneId::Neck));
    assert!(!BoneId::Spine.is_descendant_of(BoneId::Spine));
    assert!(!BoneId::LeftThigh.is_descendant_of(BoneId::Spine));
    assert!(!BoneId::Hips.is_descendant_of(BoneId::Head));
}

#[test]
fn descendant_masks_exact() {
    assert_eq!(descendant_mask(BoneId::Hips), 0x3fff);
    // Spine, Neck, Head and both arms: bits 1..=9.
    assert_eq!(descendant_mask(BoneId::Spine), 0b11_1111_1110);
    assert_eq!(descendant_mask(BoneId::LeftThigh), (1 << 10) | (1 << 11));
    assert_eq!(descendant_mask(BoneId::RightShin), 1 << 13);
    let masks = compute_descendant_masks();
    assert_eq!(masks.len(), BONE_COUNT);
    for bone in BoneId::all() {
        assert_eq!(masks[bone.index()], descendant_mask(bone));
    }
}
