use vstd::prelude::*;

verus! {

/// Bit `k` of `x` is set.
pub open spec fn has_bit(x: u32, k: u32) -> bool {
    (x >> k) & 1u32 == 1u32
}

/// The set of bit positions that are set in `x`.
pub open spec fn bit_set(x: u32) -> Set<nat> {
    Set::new(|k: nat| k < 32 && has_bit(x, k as u32))
}

/// A bit of `x | y` is set when it is set in `x` or in `y`.
pub proof fn lemma_bit_or(x: u32, y: u32, k: u32)
    requires
        k < 32,
    ensures
        has_bit(x | y, k) == (has_bit(x, k) || has_bit(y, k)),
{
    assert(((x | y) >> k) & 1u32 == 1u32 <==> ((x >> k) & 1u32 == 1u32 || (y >> k) & 1u32
        == 1u32)) by (bit_vector)
        requires
            k < 32,
    ;
}

/// `1 << j` has bit `j` and no other.
pub proof fn lemma_bit_single(j: u32, k: u32)
    requires
        j < 32,
        k < 32,
    ensures
        has_bit(1u32 << j, k) == (j == k),
{
    assert((((1u32 << j) >> k) & 1u32 == 1u32) == (j == k)) by (bit_vector)
        requires
            j < 32,
            k < 32,
    ;
}

/// Clearing bit `j` leaves every other bit as it was.
pub proof fn lemma_bit_and_not(x: u32, j: u32, k: u32)
    requires
        j < 32,
        k < 32,
    ensures
        has_bit(x & !(1u32 << j), k) == (has_bit(x, k) && j != k),
{
    assert((((x & !(1u32 << j)) >> k) & 1u32 == 1u32) == ((x >> k) & 1u32 == 1u32 && j != k))
        by (bit_vector)
        requires
            j < 32,
            k < 32,
    ;
}

/// Masking with `1 << j` tests bit `j`.
pub proof fn lemma_bit_test(x: u32, j: u32)
    requires
        j < 32,
    ensures
        (x & (1u32 << j) != 0) == has_bit(x, j),
{
    assert((x & (1u32 << j) != 0) == ((x >> j) & 1u32 == 1u32)) by (bit_vector)
        requires
            j < 32,
    ;
}

/// Zero has no bit set.
pub proof fn lemma_bit_zero(k: u32)
    ensures
        !has_bit(0, k),
{
    assert((0u32 >> k) & 1u32 != 1u32) by (bit_vector);
}

/// `0x3fff` has exactly the fourteen lowest bits set.
pub proof fn lemma_bit_low(k: u32)
    requires
        k < 32,
    ensures
        has_bit(0x3fffu32, k) == (k < 14),
{
    assert(((0x3fffu32 >> k) & 1u32 == 1u32) == (k < 14)) by (bit_vector)
        requires
            k < 32,
    ;
}

/// A word is zero exactly when none of its bits is set.
pub proof fn lemma_bit_set_empty(x: u32)
    ensures
        (x == 0) == (bit_set(x) =~= Set::<nat>::empty()),
{
    if x == 0 {
        assert forall|k: nat| !bit_set(x).contains(k) by {
            if k < 32 {
                lemma_bit_zero(k as u32);
            }
        }
    } else {
        assert(x != 0 ==> (
            has_bit(x, 0u32) || has_bit(x, 1u32) || has_bit(x, 2u32) || has_bit(x, 3u32) ||
            has_bit(x, 4u32) || has_bit(x, 5u32) || has_bit(x, 6u32) || has_bit(x, 7u32) ||
            has_bit(x, 8u32) || has_bit(x, 9u32) || has_bit(x, 10u32) || has_bit(x, 11u32) ||
            has_bit(x, 12u32) || has_bit(x, 13u32) || has_bit(x, 14u32) || has_bit(x, 15u32) ||
            has_bit(x, 16u32) || has_bit(x, 17u32) || has_bit(x, 18u32) || has_bit(x, 19u32) ||
            has_bit(x, 20u32) || has_bit(x, 21u32) || has_bit(x, 22u32) || has_bit(x, 23u32) ||
            has_bit(x, 24u32) || has_bit(x, 25u32) || has_bit(x, 26u32) || has_bit(x, 27u32) ||
            has_bit(x, 28u32) || has_bit(x, 29u32) || has_bit(x, 30u32) || has_bit(x, 31u32)
        )) by (bit_vector);
        if bit_set(x) =~= Set::<nat>::empty() {
            assert forall|k: u32| k < 32 implies !#[trigger] has_bit(x, k) by {
                assert(!bit_set(x).contains(k as nat));
            }
        }
    }
}

} // verus!
