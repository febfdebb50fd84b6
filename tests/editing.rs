use ventti::bone::BoneId;
use ventti::codec::{check_version, default_version, LoadError, FORMAT_VERSION};
use ventti::editor::{delete_keyframe, get_bone_and_chain, keyframe_segment, set_keyframe_index, Segment};

#[test]
fn joint_table() {
    assert_eq!(
        get_bone_and_chain(6),
        Some((
            BoneId::LeftForearm,
            vec![BoneId::LeftShoulder, BoneId::LeftUpperArm, BoneId::LeftForearm]
        ))
    );
    assert_eq!(
        get_bone_and_chain(15),
        Some((BoneId::RightShin, vec![BoneId::RightThigh, BoneId::RightShin]))
    );
    assert_eq!(
        get_bone_and_chain(3),
        Some((BoneId::Head, vec![BoneId::Spine, BoneId::Neck, BoneId::Head]))
    );
    assert_eq!(get_bone_and_chain(1), Some((BoneId::Spine, vec![BoneId::Spine])));
    assert_eq!(get_bone_and_chain(5), Some((BoneId::LeftUpperArm, vec![])));
    assert_eq!(get_bone_and_chain(14), Some((BoneId::RightThigh, vec![])));
    assert_eq!(get_bone_and_chain(0), None);
    assert_eq!(get_bone_and_chain(10), None);
    assert_eq!(get_bone_and_chain(13), None);
    assert_eq!(get_bone_and_chain(16), None);
}

#[test]
fn chains_follow_parent_links() {
    for j in 0..20 {
        if let Some((bone, chain)) = get_bone_and_chain(j) {
            if let Some(last) = chain.last() {
                assert_eq!(*last, bone);
            }
            for w in chain.windows(2) {
                assert_eq!(w[1].parent(), Some(w[0]));
            }
        }
    }
}

#[test]
fn keyframe_cursor_is_bounds_checked() {
    let mut cursor: usize = 1;
    set_keyframe_index(&mut cursor, 3, 2);
    assert_eq!(cursor, 2);
    set_keyframe_index(&mut cursor, 3, 3);
    assert_eq!(cursor, 2);
    set_keyframe_index(&mut cursor, 0, 0);
    assert_eq!(cursor, 2);
}

#[test]
fn delete_only_keyframe_is_noop() {
    let mut keyframes = vec!['a'];
    let mut cursor: usize = 0;
    assert!(!delete_keyframe(&mut keyframes, &mut cursor, 0));
    assert_eq!(keyframes, vec!['a']);
    assert_eq!(cursor, 0);
}

#[test]
fn delete_clamps_cursor() {
    let mut keyframes = vec!['a', 'b', 'c'];
    let mut cursor: usize = 2;
    assert!(delete_keyframe(&mut keyframes, &mut cursor, 2));
    assert_eq!(keyframes, vec!['a', 'b']);
    assert_eq!(cursor, 1);
    assert!(delete_keyframe(&mut keyframes, &mut cursor, 0));
    assert_eq!(keyframes, vec!['b']);
    assert_eq!(cursor, 0);
    assert!(!delete_keyframe(&mut keyframes, &mut cursor, 5));
    assert_eq!(keyframes, vec!['b']);
}

#[test]
fn delete_out_of_range_is_noop() {
    let mut keyframes = vec![1, 2];
    let mut cursor: usize = 1;
    assert!(!delete_keyframe(&mut keyframes, &mut cursor, 2));
    assert_eq!(keyframes, vec![1, 2]);
    assert_eq!(cursor, 1);
    assert!(delete_keyframe(&mut keyframes, &mut cursor, 0));
    assert_eq!(keyframes, vec![2]);
    assert_eq!(cursor, 0);
}

#[test]
fn sample_segments() {
    assert_eq!(keyframe_segment(0, 0), None);
    assert_eq!(keyframe_segment(3, 0), Some(Segment::First));
    assert_eq!(keyframe_segment(3, 1), Some(Segment::Between { prev: 0, next: 1 }));
    assert_eq!(keyframe_segment(3, 2), Some(Segment::Between { prev: 1, next: 2 }));
    assert_eq!(keyframe_segment(3, 3), Some(Segment::Wrap { prev: 2, next: 0 }));
    assert_eq!(keyframe_segment(1, 1), Some(Segment::Wrap { prev: 0, next: 0 }));
}

#[test]
fn version_gate() {
    assert_eq!(default_version(), 2);
    assert_eq!(FORMAT_VERSION, 2);
    assert_eq!(check_version(2), Ok(()));
    assert_eq!(check_version(1), Err(LoadError::UnsupportedVersion { found: 1 }));
    assert_eq!(check_version(3), Err(LoadError::UnsupportedVersion { found: 3 }));
}
