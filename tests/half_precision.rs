use ventti::binary::decode_binary;
use ventti::half::half_to_single_bits;

fn half(bits: u16) -> f32 {
    f32::from_bits(half_to_single_bits(bits))
}

#[test]
fn normal_values() {
    assert_eq!(half(0x3c00), 1.0);
    assert_eq!(half(0x4500), 5.0);
    assert_eq!(half(0xc000), -2.0);
    assert_eq!(half(0x3800), 0.5);
    assert_eq!(half(0x7bff), 65504.0);
    assert_eq!(half(0x0400), 2f32.powi(-14));
    assert_eq!(half(0x3555), 0.333_251_95);
}

#[test]
fn zeros_and_subnormals() {
    assert_eq!(half_to_single_bits(0x0000), 0);
    assert_eq!(half_to_single_bits(0x8000), 0x8000_0000);
    assert_eq!(half(0x0001), 2f32.powi(-24));
    assert_eq!(half(0x0200), 2f32.powi(-15));
    assert_eq!(half(0x03ff), 1023.0 * 2f32.powi(-24));
    assert_eq!(half(0x8001), -(2f32.powi(-24)));
}

#[test]
fn infinities_and_nan() {
    assert_eq!(half(0x7c00), f32::INFINITY);
    assert_eq!(half(0xfc00), f32::NEG_INFINITY);
    assert!(half(0x7e00).is_nan());
    assert!(half(0x7c01).is_nan());
}

#[test]
fn binary_clip_values() {
    // Two keyframes, duration 5.0, root (0, 1.0, 0), nothing dynamic.
    let mut data = Vec::new();
    data.extend_from_slice(&2u16.to_le_bytes());
    data.extend_from_slice(&[0x00, 0x45]);
    data.extend_from_slice(&0u32.to_le_bytes());
    data.extend_from_slice(&[0x00, 0x00]);
    data.extend_from_slice(&[0x00, 0x3c]);
    data.extend_from_slice(&[0x00, 0x00]);
    for _ in 0..14 {
        data.extend_from_slice(&0i16.to_le_bytes());
        data.extend_from_slice(&0i16.to_le_bytes());
        data.extend_from_slice(&0i16.to_le_bytes());
    }
    let clip = decode_binary(&data).unwrap();
    assert_eq!(clip.keyframes.len(), 2);
    assert!((half(clip.duration) - 5.0).abs() < 0.1);
    assert!((half(clip.keyframes[0].root.y) - 1.0).abs() < 0.01);
}
