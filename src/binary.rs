use vstd::prelude::*;

use crate::bone::BONE_COUNT;
use crate::bits::{has_bit, lemma_bit_or, lemma_bit_single, lemma_bit_test, lemma_bit_zero};

verus! {

/// Bytes in the header: keyframe count, duration, dynamic-field mask.
pub const HEADER_LEN: usize = 8;

/// Bytes in one packed position or one packed rotation.
pub const FIELD_LEN: usize = 6;

/// Bytes before the first keyframe block: the header, then the base pose
/// (root position and one rotation per bone).
pub const BASE_END: usize = 98;

/// Bit of the dynamic mask that says the root position varies per keyframe.
pub const ROOT_BIT: u32 = 14;

/// A position as three IEEE 754 half-precision bit patterns.
#[derive(Debug, Clone, Copy, PartialEq, Eq, Structural)]
pub struct PackedVec3 {
    pub x: u16,
    pub y: u16,
    pub z: u16,
}

/// The x, y and z components of a unit quaternion in Q1.15 fixed point; w is
/// implied, and non-negative.
#[derive(Debug, Clone, Copy, PartialEq, Eq, Structural)]
pub struct PackedRotation {
    pub x: i16,
    pub y: i16,
    pub z: i16,
}

/// One keyframe's pose: the root position and one rotation per bone, in
/// bone index order.
#[derive(Debug, Clone)]
pub struct PackedPose {
    pub root: PackedVec3,
    pub rotations: Vec<PackedRotation>,
}

/// A clip in the binary format's own terms. Keyframe times are implicit:
/// evenly spaced over the duration.
#[derive(Debug, Clone)]
pub struct PackedClip {
    /// Duration in seconds, as a half-precision bit pattern.
    pub duration: u16,
    pub keyframes: Vec<PackedPose>,
}

/// Why a buffer is not a clip: its length is not the one that its header
/// calls for (at least the header's own length when it is shorter than that).
#[derive(Debug, Clone, Copy, PartialEq, Eq, Structural)]
pub enum BinaryError {
    Truncated { expected: usize, actual: usize },
    TrailingBytes { expected: usize, actual: usize },
}

/// Little-endian `u16` at `off`.
pub open spec fn u16_at(b: Seq<u8>, off: int) -> u16 {
    (b[off] + 256 * b[off + 1]) as u16
}

/// Little-endian `u32` at `off`.
pub open spec fn u32_at(b: Seq<u8>, off: int) -> u32 {
    (b[off] + 256 * b[off + 1] + 65536 * b[off + 2] + 16777216 * b[off + 3]) as u32
}

pub open spec fn vec3_at(b: Seq<u8>, off: int) -> PackedVec3 {
    PackedVec3 { x: u16_at(b, off), y: u16_at(b, off + 2), z: u16_at(b, off + 4) }
}

pub open spec fn rotation_at(b: Seq<u8>, off: int) -> PackedRotation {
    PackedRotation {
        x: u16_at(b, off) as i16,
        y: u16_at(b, off + 2) as i16,
        z: u16_at(b, off + 4) as i16,
    }
}

pub open spec fn root_dynamic(mask: u32) -> bool {
    has_bit(mask, ROOT_BIT)
}

pub open spec fn bone_dynamic(mask: u32, i: nat) -> bool {
    has_bit(mask, i as u32)
}

/// How many of the bones with index below `i` are dynamic.
pub open spec fn dynamic_before(mask: u32, i: nat) -> nat
    decreases i,
{
    if i == 0 {
        0
    } else {
        dynamic_before(mask, (i - 1) as nat) + if bone_dynamic(mask, (i - 1) as nat) {
            1nat
        } else {
            0nat
        }
    }
}

/// Offset of bone `i`'s rotation inside a keyframe block.
pub open spec fn offset_in_block(mask: u32, i: nat) -> nat {
    (FIELD_LEN * (if root_dynamic(mask) { 1nat } else { 0nat }) + FIELD_LEN * dynamic_before(mask, i)) as nat
}

/// Bytes in one keyframe block: one field per dynamic bone, and the root
/// position when it is dynamic.
pub open spec fn block_len(mask: u32) -> nat {
    offset_in_block(mask, BONE_COUNT as nat)
}

/// Length of a buffer that holds `count` keyframes under `mask`.
pub open spec fn encoded_len(count: nat, mask: u32) -> nat {
    (BASE_END + count * block_len(mask)) as nat
}

pub open spec fn count_of(b: Seq<u8>) -> nat {
    u16_at(b, 0) as nat
}

pub open spec fn mask_of(b: Seq<u8>) -> u32 {
    u32_at(b, 4)
}

pub open spec fn block_start(b: Seq<u8>, k: nat) -> nat {
    (BASE_END + k * block_len(mask_of(b))) as nat
}

/// Root position of keyframe `k`: its own when the root is dynamic, else the
/// base pose's.
pub open spec fn root_of(b: Seq<u8>, k: nat) -> PackedVec3 {
    if root_dynamic(mask_of(b)) {
        vec3_at(b, block_start(b, k) as int)
    } else {
        vec3_at(b, HEADER_LEN as int)
    }
}

/// Rotation of bone `i` in keyframe `k`: its own when the bone is dynamic,
/// else the base pose's.
pub open spec fn rotation_of(b: Seq<u8>, k: nat, i: nat) -> PackedRotation {
    if bone_dynamic(mask_of(b), i) {
        rotation_at(b, (block_start(b, k) + offset_in_block(mask_of(b), i)) as int)
    } else {
        rotation_at(b, (HEADER_LEN + FIELD_LEN + FIELD_LEN * i) as int)
    }
}

proof fn lemma_dynamic_before_mono(mask: u32, i: nat, j: nat)
    requires
        i <= j,
    ensures
        dynamic_before(mask, i) <= dynamic_before(mask, j),
        dynamic_before(mask, j) <= j,
    decreases j,
{
    if j > 0 {
        if i < j {
            lemma_dynamic_before_mono(mask, i, (j - 1) as nat);
        } else {
            lemma_dynamic_before_mono(mask, (j - 1) as nat, (j - 1) as nat);
        }
    }
}

proof fn lemma_block_bound(k: nat, count: nat, block: nat)
    requires
        k < count,
    ensures
        k * block + block <= count * block,
{
    assert(k * block + block <= count * block) by (nonlinear_arith)
        requires
            k < count,
    ;
}

fn read_u16(b: &[u8], off: usize) -> (r: u16)
    requires
        off + 2 <= b@.len(),
    ensures
        r == u16_at(b@, off as int),
{
    (b[off] as u16) + (b[off + 1] as u16) * 256
}

fn read_u32(b: &[u8], off: usize) -> (r: u32)
    requires
        off + 4 <= b@.len(),
    ensures
        r == u32_at(b@, off as int),
{
    (b[off] as u32) + (b[off + 1] as u32) * 256 + (b[off + 2] as u32) * 65536 + (b[off + 3] as u32)
        * 16777216
}

fn read_vec3(b: &[u8], off: usize) -> (r: PackedVec3)
    requires
        b@.len() <= usize::MAX,
        off + FIELD_LEN <= b@.len(),
    ensures
        r == vec3_at(b@, off as int),
{
    PackedVec3 { x: read_u16(b, off), y: read_u16(b, off + 2), z: read_u16(b, off + 4) }
}

fn read_rotation(b: &[u8], off: usize) -> (r: PackedRotation)
    requires
        b@.len() <= usize::MAX,
        off + FIELD_LEN <= b@.len(),
    ensures
        r == rotation_at(b@, off as int),
{
    PackedRotation {
        x: #[verifier::truncate] (read_u16(b, off) as i16),
        y: #[verifier::truncate] (read_u16(b, off + 2) as i16),
        z: #[verifier::truncate] (read_u16(b, off + 4) as i16),
    }
}

fn is_bit_set(mask: u32, i: u32) -> (r: bool)
    requires
        i < 32,
    ensures
        r == has_bit(mask, i),
{
    proof {
        lemma_bit_test(mask, i);
    }
    mask & (1u32 << i) != 0
}

/// Length of one keyframe block under `mask`.
fn compute_block_len(mask: u32) -> (r: usize)
    ensures
        r == block_len(mask),
{
    let mut n: usize = if is_bit_set(mask, ROOT_BIT) {
        FIELD_LEN
    } else {
        0
    };
    let mut i: usize = 0;
    while i < BONE_COUNT
        invariant
            i <= BONE_COUNT,
            n == offset_in_block(mask, i as nat),
            n <= FIELD_LEN + FIELD_LEN * i,
        decreases BONE_COUNT - i,
    {
        if is_bit_set(mask, i as u32) {
            n = n + FIELD_LEN;
        }
        i = i + 1;
    }
    n
}

/// Decodes a binary clip: an 8-byte header (`u16` keyframe count, `f16`
/// duration, `u32` dynamic mask; bit `i` for bone `i`, bit 14 for the root
/// position), the base pose (root position, then one rotation per bone), then
/// one block per keyframe holding, in that order, the root position if it is
/// dynamic and the rotation of each dynamic bone. All integers are
/// little-endian. Fields that are not dynamic take the base pose's value.
pub fn decode_binary(bytes: &[u8]) -> (r: Result<PackedClip, BinaryError>)
    ensures
        bytes@.len() < HEADER_LEN ==> r == Err::<PackedClip, BinaryError>(
            BinaryError::Truncated { expected: HEADER_LEN, actual: bytes@.len() as usize },
        ),
        bytes@.len() >= HEADER_LEN && bytes@.len() < encoded_len(
            count_of(bytes@),
            mask_of(bytes@),
        ) ==> r == Err::<PackedClip, BinaryError>(
            BinaryError::Truncated {
                expected: encoded_len(count_of(bytes@), mask_of(bytes@)) as usize,
                actual: bytes@.len() as usize,
            },
        ),
        bytes@.len() >= HEADER_LEN && bytes@.len() > encoded_len(
            count_of(bytes@),
            mask_of(bytes@),
        ) ==> r == Err::<PackedClip, BinaryError>(
            BinaryError::TrailingBytes {
                expected: encoded_len(count_of(bytes@), mask_of(bytes@)) as usize,
                actual: bytes@.len() as usize,
            },
        ),
        r.is_ok() <==> bytes@.len() >= HEADER_LEN && bytes@.len() == encoded_len(
            count_of(bytes@),
            mask_of(bytes@),
        ),
        r matches Ok(clip) ==> {
            &&& clip.duration == u16_at(bytes@, 2)
            &&& clip.keyframes@.len() == count_of(bytes@)
            &&& forall|k: int|
                0 <= k < clip.keyframes@.len() ==> {
                    &&& (#[trigger] clip.keyframes@[k]).root == root_of(bytes@, k as nat)
                    &&& clip.keyframes@[k].rotations@.len() == BONE_COUNT
                    &&& forall|i: int|
                        0 <= i < BONE_COUNT ==> #[trigger] clip.keyframes@[k].rotations@[i]
                            == rotation_of(bytes@, k as nat, i as nat)
                }
        },
{
    let len = bytes.len();
    if len < HEADER_LEN {
        return Err(BinaryError::Truncated { expected: HEADER_LEN, actual: len });
    }
    let count = read_u16(bytes, 0) as usize;
    let duration = read_u16(bytes, 2);
    let mask = read_u32(bytes, 4);
    let block = compute_block_len(mask);
    proof {
        lemma_dynamic_before_mono(mask, BONE_COUNT as nat, BONE_COUNT as nat);
        assert(count * block <= 65535 * 90) by (nonlinear_arith)
            requires
                count <= 65535,
                block <= 90,
        ;
    }
    let expected = BASE_END + count * block;
    if len < expected {
        return Err(BinaryError::Truncated { expected, actual: len });
    }
    if len > expected {
        return Err(BinaryError::TrailingBytes { expected, actual: len });
    }
    let root_dyn = is_bit_set(mask, ROOT_BIT);
    let base_root = read_vec3(bytes, HEADER_LEN);
    let mut base: Vec<PackedRotation> = Vec::new();
    let mut i: usize = 0;
    while i < BONE_COUNT
        invariant
            i <= BONE_COUNT,
            len == bytes@.len(),
            len >= BASE_END,
            base@.len() == i,
            forall|j: int|
                0 <= j < i ==> #[trigger] base@[j] == rotation_at(
                    bytes@,
                    (HEADER_LEN + FIELD_LEN + FIELD_LEN * j) as int,
                ),
        decreases BONE_COUNT - i,
    {
        base.push(read_rotation(bytes, HEADER_LEN + FIELD_LEN + FIELD_LEN * i));
        i = i + 1;
    }
    let mut keyframes: Vec<PackedPose> = Vec::new();
    let mut k: usize = 0;
    while k < count
        invariant
            k <= count,
            count == count_of(bytes@),
            mask == mask_of(bytes@),
            block == block_len(mask),
            len == bytes@.len(),
            len == BASE_END + count * block,
            root_dyn == root_dynamic(mask),
            base_root == vec3_at(bytes@, HEADER_LEN as int),
            base@.len() == BONE_COUNT,
            forall|j: int|
                0 <= j < BONE_COUNT ==> #[trigger] base@[j] == rotation_at(
                    bytes@,
                    (HEADER_LEN + FIELD_LEN + FIELD_LEN * j) as int,
                ),
            keyframes@.len() == k,
            forall|q: int|
                0 <= q < k ==> {
                    &&& (#[trigger] keyframes@[q]).root == root_of(bytes@, q as nat)
                    &&& keyframes@[q].rotations@.len() == BONE_COUNT
                    &&& forall|j: int|
                        0 <= j < BONE_COUNT ==> #[trigger] keyframes@[q].rotations@[j]
                            == rotation_of(bytes@, q as nat, j as nat)
                },
        decreases count - k,
    {
        proof {
            lemma_block_bound(k as nat, count as nat, block as nat);
        }
        let start = BASE_END + k * block;
        assert(start == block_start(bytes@, k as nat));
        let root = if root_dyn {
            read_vec3(bytes, start)
        } else {
            base_root
        };
        let mut rotations: Vec<PackedRotation> = Vec::new();
        let mut off: usize = if root_dyn {
            FIELD_LEN
        } else {
            0
        };
        let mut i: usize = 0;
        while i < BONE_COUNT
            invariant
                i <= BONE_COUNT,
                mask == mask_of(bytes@),
                block == block_len(mask),
                len == bytes@.len(),
                start + block <= len,
                start == block_start(bytes@, k as nat),
                off == offset_in_block(mask, i as nat),
                base@.len() == BONE_COUNT,
                forall|j: int|
                    0 <= j < BONE_COUNT ==> #[trigger] base@[j] == rotation_at(
                        bytes@,
                        (HEADER_LEN + FIELD_LEN + FIELD_LEN * j) as int,
                    ),
                rotations@.len() == i,
                forall|j: int|
                    0 <= j < i ==> #[trigger] rotations@[j] == rotation_of(
                        bytes@,
                        k as nat,
                        j as nat,
                    ),
            decreases BONE_COUNT - i,
        {
            if is_bit_set(mask, i as u32) {
                proof {
                    lemma_dynamic_before_mono(mask, (i + 1) as nat, BONE_COUNT as nat);
                }
                rotations.push(read_rotation(bytes, start + off));
                off = off + FIELD_LEN;
            } else {
                rotations.push(base[i]);
            }
            i = i + 1;
        }
        keyframes.push(PackedPose { root, rotations });
        k = k + 1;
    }
    Ok(PackedClip { duration, keyframes })
}

/// `b` holds `clip` in the binary format: its length is the one that its
/// header calls for, and every field that the decoder reads back is the
/// clip's.
pub open spec fn encodes(b: Seq<u8>, clip: PackedClip) -> bool {
    &&& b.len() >= HEADER_LEN
    &&& b.len() == encoded_len(count_of(b), mask_of(b))
    &&& count_of(b) == clip.keyframes@.len()
    &&& u16_at(b, 2) == clip.duration
    &&& forall|k: int|
        0 <= k < clip.keyframes@.len() ==> #[trigger] root_of(b, k as nat)
            == clip.keyframes@[k].root
    &&& forall|k: int, i: int|
        0 <= k < clip.keyframes@.len() && 0 <= i < BONE_COUNT ==> #[trigger] rotation_of(
            b,
            k as nat,
            i as nat,
        ) == clip.keyframes@[k].rotations@[i]
}

/// A clip that the format can hold: at most 65535 keyframes, each with one
/// rotation per bone.
pub open spec fn encodable(clip: PackedClip) -> bool {
    &&& clip.keyframes@.len() <= 0xffff
    &&& forall|k: int|
        0 <= k < clip.keyframes@.len() ==> (#[trigger] clip.keyframes@[k]).rotations@.len()
            == BONE_COUNT
}

/// Bone `i`'s rotation differs between some keyframe and the first.
pub open spec fn rotation_varies(clip: PackedClip, i: nat) -> bool {
    exists|k: int|
        0 <= k < clip.keyframes@.len() && (#[trigger] clip.keyframes@[k]).rotations@[i as int]
            != clip.keyframes@[0].rotations@[i as int]
}

/// The root position differs between some keyframe and the first.
pub open spec fn root_varies(clip: PackedClip) -> bool {
    exists|k: int|
        0 <= k < clip.keyframes@.len() && (#[trigger] clip.keyframes@[k]).root
            != clip.keyframes@[0].root
}

pub open spec fn u16_bytes(x: u16) -> Seq<u8> {
    seq![(x % 256) as u8, (x / 256) as u8]
}

pub open spec fn vec3_bytes(v: PackedVec3) -> Seq<u8> {
    u16_bytes(v.x) + u16_bytes(v.y) + u16_bytes(v.z)
}

pub open spec fn rotation_bytes(r: PackedRotation) -> Seq<u8> {
    u16_bytes(r.x as u16) + u16_bytes(r.y as u16) + u16_bytes(r.z as u16)
}

proof fn lemma_u16_left(a: Seq<u8>, c: Seq<u8>, o: int)
    requires
        0 <= o,
        o + 2 <= a.len(),
    ensures
        u16_at(a + c, o) == u16_at(a, o),
{
    assert((a + c)[o] == a[o]);
    assert((a + c)[o + 1] == a[o + 1]);
}

proof fn lemma_u16_right(a: Seq<u8>, c: Seq<u8>, o: int)
    requires
        0 <= o,
        o + 2 <= c.len(),
    ensures
        u16_at(a + c, a.len() + o) == u16_at(c, o),
{
    assert((a + c)[a.len() + o] == c[o]);
    assert((a + c)[a.len() + o + 1] == c[o + 1]);
}

proof fn lemma_u32_left(a: Seq<u8>, c: Seq<u8>, o: int)
    requires
        0 <= o,
        o + 4 <= a.len(),
    ensures
        u32_at(a + c, o) == u32_at(a, o),
{
    assert((a + c)[o] == a[o]);
    assert((a + c)[o + 1] == a[o + 1]);
    assert((a + c)[o + 2] == a[o + 2]);
    assert((a + c)[o + 3] == a[o + 3]);
}

proof fn lemma_fields_left(a: Seq<u8>, c: Seq<u8>, o: int)
    requires
        0 <= o,
        o + FIELD_LEN <= a.len(),
    ensures
        vec3_at(a + c, o) == vec3_at(a, o),
        rotation_at(a + c, o) == rotation_at(a, o),
{
    lemma_u16_left(a, c, o);
    lemma_u16_left(a, c, o + 2);
    lemma_u16_left(a, c, o + 4);
}

proof fn lemma_fields_right(a: Seq<u8>, c: Seq<u8>, o: int)
    requires
        0 <= o,
        o + FIELD_LEN <= c.len(),
    ensures
        vec3_at(a + c, a.len() + o) == vec3_at(c, o),
        rotation_at(a + c, a.len() + o) == rotation_at(c, o),
{
    lemma_u16_right(a, c, o);
    lemma_u16_right(a, c, o + 2);
    lemma_u16_right(a, c, o + 4);
}

proof fn lemma_u16_bytes(x: u16)
    ensures
        u16_at(u16_bytes(x), 0) == x,
{
}

proof fn lemma_i16_round_trip(x: i16)
    ensures
        (x as u16) as i16 == x,
{
    assert((x as u16) as i16 == x) by (bit_vector);
}

proof fn lemma_field_bytes(v: PackedVec3, r: PackedRotation)
    ensures
        vec3_bytes(v).len() == FIELD_LEN,
        rotation_bytes(r).len() == FIELD_LEN,
        vec3_at(vec3_bytes(v), 0) == v,
        rotation_at(rotation_bytes(r), 0) == r,
{
    let (a, b, c) = (u16_bytes(v.x), u16_bytes(v.y), u16_bytes(v.z));
    lemma_u16_bytes(v.x);
    lemma_u16_bytes(v.y);
    lemma_u16_bytes(v.z);
    lemma_u16_left(a + b, c, 0);
    lemma_u16_left(a, b, 0);
    lemma_u16_right(a, b, 0);
    lemma_u16_left(a + b, c, 2);
    lemma_u16_right(a + b, c, 0);
    let (d, e, f) = (u16_bytes(r.x as u16), u16_bytes(r.y as u16), u16_bytes(r.z as u16));
    lemma_u16_bytes(r.x as u16);
    lemma_u16_bytes(r.y as u16);
    lemma_u16_bytes(r.z as u16);
    lemma_u16_left(d + e, f, 0);
    lemma_u16_left(d, e, 0);
    lemma_u16_right(d, e, 0);
    lemma_u16_left(d + e, f, 2);
    lemma_u16_right(d + e, f, 0);
    lemma_i16_round_trip(r.x);
    lemma_i16_round_trip(r.y);
    lemma_i16_round_trip(r.z);
}

fn put_u16(out: &mut Vec<u8>, x: u16)
    ensures
        final(out)@ == old(out)@ + u16_bytes(x),
{
    out.push((x % 256) as u8);
    out.push((x / 256) as u8);
    assert(final(out)@ =~= old(out)@ + u16_bytes(x));
}

fn put_vec3(out: &mut Vec<u8>, v: PackedVec3)
    ensures
        final(out)@ == old(out)@ + vec3_bytes(v),
{
    put_u16(out, v.x);
    put_u16(out, v.y);
    put_u16(out, v.z);
    assert(final(out)@ =~= old(out)@ + vec3_bytes(v));
}

fn put_rotation(out: &mut Vec<u8>, r: PackedRotation)
    ensures
        final(out)@ == old(out)@ + rotation_bytes(r),
{
    put_u16(out, #[verifier::truncate] (r.x as u16));
    put_u16(out, #[verifier::truncate] (r.y as u16));
    put_u16(out, #[verifier::truncate] (r.z as u16));
    assert(final(out)@ =~= old(out)@ + rotation_bytes(r));
}

pub open spec fn u32_bytes(x: u32) -> Seq<u8> {
    seq![(x % 256) as u8, ((x / 256) % 256) as u8, ((x / 65536) % 256) as u8, (x / 16777216) as u8]
}

proof fn lemma_u32_right(a: Seq<u8>, c: Seq<u8>, o: int)
    requires
        0 <= o,
        o + 4 <= c.len(),
    ensures
        u32_at(a + c, a.len() + o) == u32_at(c, o),
{
    assert((a + c)[a.len() + o] == c[o]);
    assert((a + c)[a.len() + o + 1] == c[o + 1]);
    assert((a + c)[a.len() + o + 2] == c[o + 2]);
    assert((a + c)[a.len() + o + 3] == c[o + 3]);
}

proof fn lemma_u32_bytes(x: u32)
    ensures
        u32_at(u32_bytes(x), 0) == x,
{
    assert(x % 256 + 256 * ((x / 256) % 256) + 65536 * ((x / 65536) % 256) + 16777216 * (x
        / 16777216) == x) by (nonlinear_arith);
}

fn put_u32(out: &mut Vec<u8>, x: u32)
    ensures
        final(out)@ == old(out)@ + u32_bytes(x),
{
    out.push((x % 256) as u8);
    out.push(((x / 256) % 256) as u8);
    out.push(((x / 65536) % 256) as u8);
    out.push((x / 16777216) as u8);
    assert(final(out)@ =~= old(out)@ + u32_bytes(x));
}

/// Base-pose root of an encoding: the first keyframe's, or zero.
pub open spec fn base_root(clip: PackedClip) -> PackedVec3 {
    if clip.keyframes@.len() > 0 {
        clip.keyframes@[0].root
    } else {
        PackedVec3 { x: 0, y: 0, z: 0 }
    }
}

/// Base-pose rotation of bone `i`: the first keyframe's, or zero.
pub open spec fn base_rotation(clip: PackedClip, i: int) -> PackedRotation {
    if clip.keyframes@.len() > 0 {
        clip.keyframes@[0].rotations@[i]
    } else {
        PackedRotation { x: 0, y: 0, z: 0 }
    }
}

spec fn header_ok(b: Seq<u8>, count: nat, duration: u16, mask: u32) -> bool {
    &&& b.len() >= HEADER_LEN
    &&& count_of(b) == count
    &&& u16_at(b, 2) == duration
    &&& mask_of(b) == mask
}

spec fn base_ok(b: Seq<u8>, clip: PackedClip, n: nat) -> bool {
    &&& b.len() >= HEADER_LEN + FIELD_LEN
    &&& vec3_at(b, HEADER_LEN as int) == base_root(clip)
    &&& forall|j: int|
        0 <= j < n ==> #[trigger] rotation_at(b, (HEADER_LEN + FIELD_LEN + FIELD_LEN * j) as int)
            == base_rotation(clip, j)
}

/// The first `i` bones' worth of a keyframe block for `pose`.
spec fn block_prefix_ok(blk: Seq<u8>, mask: u32, i: nat, pose: PackedPose) -> bool {
    &&& blk.len() == offset_in_block(mask, i)
    &&& root_dynamic(mask) ==> vec3_at(blk, 0) == pose.root
    &&& forall|j: nat|
        j < i && bone_dynamic(mask, j) ==> #[trigger] rotation_at(
            blk,
            offset_in_block(mask, j) as int,
        ) == pose.rotations@[j as int]
}

proof fn lemma_header_append(a: Seq<u8>, c: Seq<u8>, count: nat, duration: u16, mask: u32)
    requires
        header_ok(a, count, duration, mask),
    ensures
        header_ok(a + c, count, duration, mask),
{
    lemma_u16_left(a, c, 0);
    lemma_u16_left(a, c, 2);
    lemma_u32_left(a, c, 4);
}

proof fn lemma_base_append(a: Seq<u8>, c: Seq<u8>, clip: PackedClip, n: nat)
    requires
        base_ok(a, clip, n),
        a.len() >= HEADER_LEN + FIELD_LEN + FIELD_LEN * n,
    ensures
        base_ok(a + c, clip, n),
{
    lemma_fields_left(a, c, HEADER_LEN as int);
    assert forall|j: int| 0 <= j < n implies #[trigger] rotation_at(
        a + c,
        (HEADER_LEN + FIELD_LEN + FIELD_LEN * j) as int,
    ) == base_rotation(clip, j) by {
        lemma_fields_left(a, c, (HEADER_LEN + FIELD_LEN + FIELD_LEN * j) as int);
    }
}

/// A dynamic bone's field ends within the block.
proof fn lemma_field_in_block(mask: u32, j: nat, i: nat)
    requires
        j < i,
        i <= BONE_COUNT,
        bone_dynamic(mask, j),
    ensures
        offset_in_block(mask, j) + FIELD_LEN <= offset_in_block(mask, i),
        root_dynamic(mask) ==> FIELD_LEN <= offset_in_block(mask, i),
{
    lemma_dynamic_before_mono(mask, j + 1, i);
}

/// The dynamic-field mask of a clip: bit `i` when bone `i`'s rotation
/// differs between some keyframe and the first, bit 14 when the root position
/// does; no other bit.
fn dynamic_mask(clip: &PackedClip) -> (r: u32)
    requires
        encodable(*clip),
        clip.keyframes@.len() > 0,
    ensures
        forall|i: nat| i < BONE_COUNT ==> (bone_dynamic(r, i) <==> rotation_varies(*clip, i)),
        root_dynamic(r) <==> root_varies(*clip),
        forall|j: u32| BONE_COUNT < j < 32 ==> !has_bit(r, j),
{
    let count = clip.keyframes.len();
    let first = &clip.keyframes[0];
    let mut mask: u32 = 0;
    let mut i: usize = 0;
    proof {
        assert forall|j: u32| j < 32 implies !has_bit(0, j) by {
            lemma_bit_zero(j);
        }
    }
    while i <= BONE_COUNT
        invariant
            i <= BONE_COUNT + 1,
            count == clip.keyframes@.len(),
            count > 0,
            *first == clip.keyframes@[0],
            encodable(*clip),
            forall|j: u32|
                j < 32 ==> (#[trigger] has_bit(mask, j) <==> (j < i && if j < BONE_COUNT {
                    rotation_varies(*clip, j as nat)
                } else {
                    root_varies(*clip)
                })),
        decreases BONE_COUNT + 1 - i,
    {
        let mut varies = false;
        let mut k: usize = 0;
        while k < count
            invariant
                k <= count,
                i <= BONE_COUNT,
                count == clip.keyframes@.len(),
                count > 0,
                *first == clip.keyframes@[0],
                encodable(*clip),
                i < BONE_COUNT ==> (varies <==> exists|q: int|
                    0 <= q < k && (#[trigger] clip.keyframes@[q]).rotations@[i as int]
                        != clip.keyframes@[0].rotations@[i as int]),
                i == BONE_COUNT ==> (varies <==> exists|q: int|
                    0 <= q < k && (#[trigger] clip.keyframes@[q]).root != clip.keyframes@[0].root),
            decreases count - k,
        {
            let kf = &clip.keyframes[k];
            let differs = if i < BONE_COUNT {
                kf.rotations[i] != first.rotations[i]
            } else {
                kf.root != first.root
            };
            if differs {
                varies = true;
            }
            k = k + 1;
        }
        let old_mask = mask;
        if varies {
            mask = mask | (1u32 << (i as u32));
        }
        assert forall|j: u32|
            j < 32 implies (#[trigger] has_bit(mask, j) <==> (j < i + 1 && if j < BONE_COUNT {
                rotation_varies(*clip, j as nat)
            } else {
                root_varies(*clip)
            })) by {
            if varies {
                lemma_bit_or(old_mask, 1u32 << (i as u32), j);
                lemma_bit_single(i as u32, j);
            }
            assert(has_bit(old_mask, j) <==> (j < i && if j < BONE_COUNT {
                rotation_varies(*clip, j as nat)
            } else {
                root_varies(*clip)
            }));
        }
        i = i + 1;
    }
    mask
}

/// Encodes a clip in the binary format that `decode_binary` reads, with the
/// first keyframe as the base pose and only the fields that vary marked
/// dynamic; `None` when the format cannot hold the clip.
pub fn encode_binary(clip: &PackedClip) -> (r: Option<Vec<u8>>)
    ensures
        r.is_some() <==> encodable(*clip),
        r matches Some(b) ==> encodes(b@, *clip),
        r matches Some(b) ==> forall|i: nat|
            i < BONE_COUNT ==> (bone_dynamic(mask_of(b@), i) <==> rotation_varies(*clip, i)),
        r matches Some(b) ==> (root_dynamic(mask_of(b@)) <==> root_varies(*clip)),
        r matches Some(b) ==> forall|j: u32| BONE_COUNT < j < 32 ==> !has_bit(mask_of(b@), j),
        r matches Some(b) ==> vec3_at(b@, HEADER_LEN as int) == base_root(*clip),
        r matches Some(b) ==> forall|i: int|
            0 <= i < BONE_COUNT ==> #[trigger] rotation_at(
                b@,
                (HEADER_LEN + FIELD_LEN + FIELD_LEN * i) as int,
            ) == base_rotation(*clip, i),
{
    let count = clip.keyframes.len();
    if count > 0xffff {
        return None;
    }
    let mut k: usize = 0;
    while k < count
        invariant
            k <= count,
            count == clip.keyframes@.len(),
            forall|q: int| 0 <= q < k ==> (#[trigger] clip.keyframes@[q]).rotations@.len()
                == BONE_COUNT,
        decreases count - k,
    {
        if clip.keyframes[k].rotations.len() != BONE_COUNT {
            return None;
        }
        k = k + 1;
    }
    let mask: u32 = if count > 0 {
        dynamic_mask(clip)
    } else {
        proof {
            assert forall|j: u32| j < 32 implies !has_bit(0, j) by {
                lemma_bit_zero(j);
            }
        }
        0
    };
    let zero_root = PackedVec3 { x: 0, y: 0, z: 0 };
    let zero_rotation = PackedRotation { x: 0, y: 0, z: 0 };
    let mut out: Vec<u8> = Vec::new();
    put_u16(&mut out, count as u16);
    put_u16(&mut out, clip.duration);
    put_u32(&mut out, mask);
    proof {
        let (a, b, c) = (u16_bytes(count as u16), u16_bytes(clip.duration), u32_bytes(mask));
        assert(out@ =~= (a + b) + c);
        lemma_u16_bytes(count as u16);
        lemma_u16_bytes(clip.duration);
        lemma_u32_bytes(mask);
        lemma_u16_left(a + b, c, 0);
        lemma_u16_left(a, b, 0);
        lemma_u16_left(a + b, c, 2);
        lemma_u16_right(a, b, 0);
        lemma_u32_right(a + b, c, 0);
    }
    let root = if count > 0 {
        clip.keyframes[0].root
    } else {
        zero_root
    };
    let ghost before_root = out@;
    put_vec3(&mut out, root);
    proof {
        lemma_header_append(before_root, vec3_bytes(root), count as nat, clip.duration, mask);
        lemma_field_bytes(root, zero_rotation);
        lemma_fields_right(before_root, vec3_bytes(root), 0);
    }
    let mut i: usize = 0;
    while i < BONE_COUNT
        invariant
            i <= BONE_COUNT,
            count == clip.keyframes@.len(),
            encodable(*clip),
            out@.len() == HEADER_LEN + FIELD_LEN + FIELD_LEN * i,
            zero_rotation == (PackedRotation { x: 0, y: 0, z: 0 }),
            header_ok(out@, count as nat, clip.duration, mask),
            base_ok(out@, *clip, i as nat),
        decreases BONE_COUNT - i,
    {
        let r = if count > 0 {
            clip.keyframes[0].rotations[i]
        } else {
            zero_rotation
        };
        let ghost prev = out@;
        put_rotation(&mut out, r);
        proof {
            lemma_header_append(prev, rotation_bytes(r), count as nat, clip.duration, mask);
            lemma_base_append(prev, rotation_bytes(r), *clip, i as nat);
            lemma_field_bytes(zero_root, r);
            lemma_fields_right(prev, rotation_bytes(r), 0);
            assert forall|j: int| 0 <= j < i + 1 implies #[trigger] rotation_at(
                out@,
                (HEADER_LEN + FIELD_LEN + FIELD_LEN * j) as int,
            ) == base_rotation(*clip, j) by {
                assert(out@ == prev + rotation_bytes(r));
                if j == i {
                    assert(prev.len() == HEADER_LEN + FIELD_LEN + FIELD_LEN * j);
                    assert(rotation_at(out@, (prev.len() + 0) as int) == rotation_at(rotation_bytes(r), 0));
                } else {
                    assert(base_ok(out@, *clip, i as nat));
                    assert(rotation_at(out@, (HEADER_LEN + FIELD_LEN + FIELD_LEN * j) as int)
                        == base_rotation(*clip, j));
                }
            }
        }
        i = i + 1;
    }
    let block = compute_block_len(mask);
    proof {
        lemma_dynamic_before_mono(mask, BONE_COUNT as nat, BONE_COUNT as nat);
        assert(count * block <= 65535 * 90) by (nonlinear_arith)
            requires
                count <= 65535,
                block <= 90,
        ;
    }
    let mut k: usize = 0;
    while k < count
        invariant
            k <= count,
            count == clip.keyframes@.len(),
            count <= 0xffff,
            encodable(*clip),
            block == block_len(mask),
            count * block <= 65535 * 90,
            out@.len() == BASE_END + k * block,
            header_ok(out@, count as nat, clip.duration, mask),
            base_ok(out@, *clip, BONE_COUNT as nat),
            forall|i: nat| i < BONE_COUNT ==> (bone_dynamic(mask, i) <==> rotation_varies(*clip, i)),
            root_dynamic(mask) <==> root_varies(*clip),
            forall|j: u32| BONE_COUNT < j < 32 ==> !has_bit(mask, j),
            forall|q: int| 0 <= q < k ==> #[trigger] root_of(out@, q as nat) == clip.keyframes@[q].root,
            forall|q: int, j: int|
                0 <= q < k && 0 <= j < BONE_COUNT ==> #[trigger] rotation_of(out@, q as nat, j as nat)
                    == clip.keyframes@[q].rotations@[j],
        decreases count - k,
    {
        let pose = &clip.keyframes[k];
        let mut blk: Vec<u8> = Vec::new();
        if is_bit_set(mask, ROOT_BIT) {
            put_vec3(&mut blk, pose.root);
            proof {
                lemma_field_bytes(pose.root, zero_rotation);
                assert(blk@ =~= vec3_bytes(pose.root));
            }
        }
        let mut i: usize = 0;
        while i < BONE_COUNT
            invariant
                i <= BONE_COUNT,
                k < count,
                count == clip.keyframes@.len(),
                encodable(*clip),
                *pose == clip.keyframes@[k as int],
                block_prefix_ok(blk@, mask, i as nat, *pose),
            decreases BONE_COUNT - i,
        {
            if is_bit_set(mask, i as u32) {
                let r = pose.rotations[i];
                let ghost prev = blk@;
                put_rotation(&mut blk, r);
                proof {
                    lemma_field_bytes(zero_root, r);
                    lemma_fields_right(prev, rotation_bytes(r), 0);
                    if root_dynamic(mask) {
                        lemma_dynamic_before_mono(mask, 0, i as nat);
                        lemma_fields_left(prev, rotation_bytes(r), 0);
                    }
                    assert forall|j: nat|
                        j < i + 1 && bone_dynamic(mask, j) implies #[trigger] rotation_at(
                        blk@,
                        offset_in_block(mask, j) as int,
                    ) == pose.rotations@[j as int] by {
                        if j < i {
                            lemma_field_in_block(mask, j, i as nat);
                            lemma_fields_left(prev, rotation_bytes(r), offset_in_block(mask, j) as int);
                        }
                    }
                }
            }
            i = i + 1;
        }
        let ghost prev = out@;
        let ghost bytes = blk@;
        proof {
            lemma_block_bound(k as nat, count as nat, block as nat);
            assert((k + 1) * block == k * block + block) by (nonlinear_arith);
        }
        out.append(&mut blk);
        proof {
            assert(out@ == prev + bytes);
            lemma_header_append(prev, bytes, count as nat, clip.duration, mask);
            lemma_base_append(prev, bytes, *clip, BONE_COUNT as nat);
            assert forall|q: int| 0 <= q < k + 1 implies #[trigger] root_of(out@, q as nat)
                == clip.keyframes@[q].root by {
                if root_dynamic(mask) {
                    lemma_dynamic_before_mono(mask, 0, BONE_COUNT as nat);
                    if q < k {
                        lemma_block_bound(q as nat, k as nat, block as nat);
                        lemma_fields_left(prev, bytes, block_start(out@, q as nat) as int);
                        assert(root_of(prev, q as nat) == clip.keyframes@[q].root);
                    } else {
                        lemma_fields_right(prev, bytes, 0);
                    }
                } else {
                    assert(!root_varies(*clip));
                    assert(clip.keyframes@[q].root == clip.keyframes@[0].root);
                }
            }
            assert forall|q: int, j: int|
                0 <= q < k + 1 && 0 <= j < BONE_COUNT implies #[trigger] rotation_of(
                out@,
                q as nat,
                j as nat,
            ) == clip.keyframes@[q].rotations@[j] by {
                if bone_dynamic(mask, j as nat) {
                    lemma_field_in_block(mask, j as nat, BONE_COUNT as nat);
                    if q < k {
                        lemma_block_bound(q as nat, k as nat, block as nat);
                        lemma_fields_left(
                            prev,
                            bytes,
                            (block_start(out@, q as nat) + offset_in_block(mask, j as nat)) as int,
                        );
                        assert(rotation_of(prev, q as nat, j as nat) == clip.keyframes@[q].rotations@[j]);
                    } else {
                        lemma_fields_right(prev, bytes, offset_in_block(mask, j as nat) as int);
                    }
                } else {
                    assert(!rotation_varies(*clip, j as nat));
                    assert(clip.keyframes@[q].rotations@[j] == clip.keyframes@[0].rotations@[j]);
                    assert(rotation_at(out@, (HEADER_LEN + FIELD_LEN + FIELD_LEN * j) as int)
                        == base_rotation(*clip, j));
                }
            }
        }
        k = k + 1;
    }
    proof {
        assert(encoded_len(count as nat, mask) == BASE_END + count * block);
    }
    Some(out)
}

/// Decoding an encoding gives the clip back: on bytes that `encode_binary`
/// produced for `clip`, `decode_binary` succeeds, and the duration, the
/// keyframe count and every root position and rotation that it returns are
/// those of `clip`.
pub proof fn lemma_binary_round_trip(b: Seq<u8>, clip: PackedClip)
    requires
        encodes(b, clip),
    ensures
        b.len() >= HEADER_LEN && b.len() == encoded_len(count_of(b), mask_of(b)),
        u16_at(b, 2) == clip.duration,
        count_of(b) == clip.keyframes@.len(),
        forall|k: int| 0 <= k < count_of(b) ==> #[trigger] root_of(b, k as nat) == clip.keyframes@[k].root,
        forall|k: int, i: int|
            0 <= k < count_of(b) && 0 <= i < BONE_COUNT ==> #[trigger] rotation_of(b, k as nat, i as nat)
                == clip.keyframes@[k].rotations@[i],
{
}

} // verus!
