use ventti::binary::{decode_binary, encode_binary, BinaryError, PackedClip, PackedPose, PackedRotation, PackedVec3};

fn header(count: u16, duration: u16, mask: u32) -> Vec<u8> {
    let mut data = Vec::new();
    data.extend_from_slice(&count.to_le_bytes());
    data.extend_from_slice(&duration.to_le_bytes());
    data.extend_from_slice(&mask.to_le_bytes());
    data
}

fn push_triple(data: &mut Vec<u8>, a: u16, b: u16, c: u16) {
    data.extend_from_slice(&a.to_le_bytes());
    data.extend_from_slice(&b.to_le_bytes());
    data.extend_from_slice(&c.to_le_bytes());
}

fn static_clip() -> Vec<u8> {
    // Two keyframes, duration 5.0 as f16, nothing dynamic.
    let mut data = header(2, 0x4500, 0);
    // Base root (0, 1.0, 0).
    push_triple(&mut data, 0, 0x3c00, 0);
    for _ in 0..14 {
        push_triple(&mut data, 0, 0, 0);
    }
    data
}

#[test]
fn decodes_static_clip() {
    let data = static_clip();
    assert_eq!(data.len(), 98);
    let clip = decode_binary(&data).unwrap();
    assert_eq!(clip.keyframes.len(), 2);
    assert_eq!(clip.duration, 0x4500);
    for kf in &clip.keyframes {
        assert_eq!(kf.root, PackedVec3 { x: 0, y: 0x3c00, z: 0 });
        assert_eq!(kf.rotations.len(), 14);
        assert!(kf.rotations.iter().all(|r| *r == PackedRotation { x: 0, y: 0, z: 0 }));
    }
}

#[test]
fn decodes_dynamic_fields() {
    // Bone 1 (spine) and the root vary per keyframe.
    let mask: u32 = (1 << 1) | (1 << 14);
    let mut data = header(2, 0x3c00, mask);
    push_triple(&mut data, 0, 0x3c00, 0);
    for i in 0..14u16 {
        push_triple(&mut data, i, 0, 0);
    }
    // Keyframe 0: root, then spine.
    push_triple(&mut data, 1, 2, 3);
    push_triple(&mut data, 0x4000, 0xc000, 7);
    // Keyframe 1.
    push_triple(&mut data, 4, 5, 6);
    push_triple(&mut data, 0x1000, 0, 0xffff);
    assert_eq!(data.len(), 98 + 2 * 12);
    let clip = decode_binary(&data).unwrap();
    assert_eq!(clip.keyframes[0].root, PackedVec3 { x: 1, y: 2, z: 3 });
    assert_eq!(clip.keyframes[1].root, PackedVec3 { x: 4, y: 5, z: 6 });
    assert_eq!(clip.keyframes[0].rotations[1], PackedRotation { x: 16384, y: -16384, z: 7 });
    assert_eq!(clip.keyframes[1].rotations[1], PackedRotation { x: 4096, y: 0, z: -1 });
    // Static bones keep the base pose.
    assert_eq!(clip.keyframes[1].rotations[5], PackedRotation { x: 5, y: 0, z: 0 });
    assert_eq!(clip.keyframes[0].rotations[0], PackedRotation { x: 0, y: 0, z: 0 });
}

#[test]
fn rejects_short_header() {
    assert_eq!(
        decode_binary(&[1, 0, 0]).unwrap_err(),
        BinaryError::Truncated { expected: 8, actual: 3 }
    );
    assert_eq!(
        decode_binary(&[]).unwrap_err(),
        BinaryError::Truncated { expected: 8, actual: 0 }
    );
}

#[test]
fn rejects_truncated_body() {
    let mut data = static_clip();
    data.pop();
    assert_eq!(
        decode_binary(&data).unwrap_err(),
        BinaryError::Truncated { expected: 98, actual: 97 }
    );
    // A dynamic bone asks for 6 more bytes per keyframe.
    let mut data = static_clip();
    data[4] = 1;
    assert_eq!(
        decode_binary(&data).unwrap_err(),
        BinaryError::Truncated { expected: 110, actual: 98 }
    );
}

#[test]
fn rejects_trailing_bytes() {
    let mut data = static_clip();
    data.push(0);
    assert_eq!(
        decode_binary(&data).unwrap_err(),
        BinaryError::TrailingBytes { expected: 98, actual: 99 }
    );
}

#[test]
fn decodes_empty_clip() {
    let mut data = header(0, 0x3c00, u32::MAX);
    push_triple(&mut data, 0, 0, 0);
    for _ in 0..14 {
        push_triple(&mut data, 0, 0, 0);
    }
    let clip = decode_binary(&data).unwrap();
    assert!(clip.keyframes.is_empty());
}

fn pose(root: PackedVec3, spine: PackedRotation) -> PackedPose {
    let mut rotations = vec![PackedRotation { x: 0, y: 0, z: 0 }; 14];
    rotations[1] = spine;
    PackedPose { root, rotations }
}

#[test]
fn encodes_static_clip_compactly() {
    let root = PackedVec3 { x: 0, y: 0x3c00, z: 0 };
    let still = PackedRotation { x: 0, y: 0, z: 0 };
    let clip = PackedClip {
        duration: 0x4500,
        keyframes: vec![pose(root, still), pose(root, still)],
    };
    let bytes = encode_binary(&clip).unwrap();
    assert_eq!(bytes, static_clip());
}

#[test]
fn binary_round_trip_with_dynamic_fields() {
    let a = PackedVec3 { x: 1, y: 0x3c00, z: 2 };
    let b = PackedVec3 { x: 3, y: 0x3800, z: 4 };
    let clip = PackedClip {
        duration: 0x3c00,
        keyframes: vec![
            pose(a, PackedRotation { x: 0, y: 0, z: 0 }),
            pose(b, PackedRotation { x: 23170, y: -1, z: i16::MIN }),
            pose(a, PackedRotation { x: 0, y: 0, z: 0 }),
        ],
    };
    let bytes = encode_binary(&clip).unwrap();
    // Root and spine vary: 12 bytes per keyframe after the 98-byte base.
    assert_eq!(bytes.len(), 98 + 3 * 12);
    assert_eq!(u32::from_le_bytes([bytes[4], bytes[5], bytes[6], bytes[7]]), (1 << 1) | (1 << 14));
    let back = decode_binary(&bytes).unwrap();
    assert_eq!(back.duration, clip.duration);
    assert_eq!(back.keyframes.len(), 3);
    for (x, y) in back.keyframes.iter().zip(clip.keyframes.iter()) {
        assert_eq!(x.root, y.root);
        assert_eq!(x.rotations, y.rotations);
    }
}

#[test]
fn encode_rejects_wrong_bone_count() {
    let clip = PackedClip {
        duration: 0,
        keyframes: vec![PackedPose { root: PackedVec3 { x: 0, y: 0, z: 0 }, rotations: vec![] }],
    };
    assert!(encode_binary(&clip).is_none());
    let empty = PackedClip { duration: 7, keyframes: vec![] };
    let bytes = encode_binary(&empty).unwrap();
    assert_eq!(bytes.len(), 98);
    assert!(decode_binary(&bytes).unwrap().keyframes.is_empty());
}
