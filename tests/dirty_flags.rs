use ventti::bone::BoneId;
use ventti::dirty::DirtyFlags;

#[test]
fn all_dirty_and_cleared() {
    let all = DirtyFlags::all_dirty();
    let none = DirtyFlags::cleared();
    for bone in BoneId::all() {
        assert!(all.is_dirty(bone));
        assert!(!none.is_dirty(bone));
    }
    assert!(all.is_any_dirty());
    assert!(!none.is_any_dirty());
    assert!(!DirtyFlags::default().is_any_dirty());
}

#[test]
fn marking_spine_dirties_its_subtree_only() {
    let flags = DirtyFlags::cleared().with_marked_dirty(BoneId::Spine);
    assert!(flags.is_dirty(BoneId::Spine));
    assert!(flags.is_dirty(BoneId::Neck));
    assert!(flags.is_dirty(BoneId::Head));
    assert!(flags.is_dirty(BoneId::LeftForearm));
    assert!(flags.is_dirty(BoneId::RightUpperArm));
    assert!(!flags.is_dirty(BoneId::Hips));
    assert!(!flags.is_dirty(BoneId::LeftThigh));
    assert!(!flags.is_dirty(BoneId::RightShin));
}

#[test]
fn clearing_one_bone_keeps_descendants() {
    let flags = DirtyFlags::all_dirty().with_cleared(BoneId::Spine);
    assert!(!flags.is_dirty(BoneId::Spine));
    assert!(flags.is_dirty(BoneId::Head));
    assert!(flags.is_dirty(BoneId::Hips));
    assert!(flags.is_any_dirty());
}

#[test]
fn in_place_mutators() {
    let mut flags = DirtyFlags::cleared();
    flags.mark_dirty(BoneId::LeftThigh);
    assert!(flags.is_dirty(BoneId::LeftThigh));
    assert!(flags.is_dirty(BoneId::LeftShin));
    assert!(!flags.is_dirty(BoneId::RightThigh));
    flags.clear(BoneId::LeftThigh);
    assert!(!flags.is_dirty(BoneId::LeftThigh));
    assert!(flags.is_dirty(BoneId::LeftShin));
    flags.clear_all();
    assert!(!flags.is_any_dirty());
}

#[test]
fn lazy_order_from_fresh_pose() {
    let flags = DirtyFlags::all_dirty();
    let order = flags.compute_order(BoneId::Head);
    assert_eq!(order, vec![BoneId::Hips, BoneId::Spine, BoneId::Neck, BoneId::Head]);
    let mut after = flags;
    for b in &order {
        after.clear(*b);
    }
    assert!(!after.is_dirty(BoneId::Head));
    assert!(!after.is_dirty(BoneId::Neck));
    assert!(!after.is_dirty(BoneId::Spine));
    assert!(!after.is_dirty(BoneId::Hips));
    assert!(after.is_dirty(BoneId::LeftShoulder));
}

#[test]
fn lazy_order_skips_clean_bones() {
    let clean = DirtyFlags::cleared();
    assert!(clean.compute_order(BoneId::Head).is_empty());
    let flags = DirtyFlags::cleared().with_marked_dirty(BoneId::LeftShoulder);
    assert_eq!(
        flags.compute_order(BoneId::LeftForearm),
        vec![BoneId::LeftShoulder, BoneId::LeftUpperArm, BoneId::LeftForearm]
    );
    assert!(flags.compute_order(BoneId::Head).is_empty());
}
