use vstd::prelude::*;

use crate::bits::{
    bit_set, has_bit, lemma_bit_and_not, lemma_bit_low, lemma_bit_or, lemma_bit_set_empty,
    lemma_bit_single, lemma_bit_test,
};
use crate::bone::{
    all_bones, is_descendant_or_self, lemma_ancestor_precedes, subtree, BoneId, BONE_COUNT,
};

verus! {

/// Bitmask whose set bits are `bone` and all of its descendants.
pub fn descendant_mask(bone: BoneId) -> (r: u32)
    ensures
        bit_set(r) == subtree(bone.spec_index()),
{
    let mut mask: u32 = 0;
    let mut j: usize = 0;
    proof {
        lemma_bit_set_empty(0);
    }
    while j < BONE_COUNT
        invariant
            j <= BONE_COUNT,
            forall|k: nat| #[trigger]
                bit_set(mask).contains(k) <==> (k < j && is_descendant_or_self(
                    k,
                    bone.spec_index(),
                )),
        decreases BONE_COUNT - j,
    {
        let c = BoneId::from_index(j).unwrap();
        let old_mask = mask;
        if j == bone.index() || c.is_descendant_of(bone) {
            mask = mask | (1u32 << (j as u32));
            assert forall|k: nat| #[trigger]
                bit_set(mask).contains(k) <==> (k < j + 1 && is_descendant_or_self(
                    k,
                    bone.spec_index(),
                )) by {
                if k < 32 {
                    lemma_bit_or(old_mask, 1u32 << (j as u32), k as u32);
                    lemma_bit_single(j as u32, k as u32);
                    assert(bit_set(old_mask).contains(k) == has_bit(old_mask, k as u32));
                }
            }
        } else {
            assert forall|k: nat| #[trigger]
                bit_set(mask).contains(k) <==> (k < j + 1 && is_descendant_or_self(
                    k,
                    bone.spec_index(),
                )) by {
                if k == j {
                    assert(!bit_set(old_mask).contains(k));
                }
            }
        }
        j = j + 1;
    }
    assert(bit_set(mask) =~= subtree(bone.spec_index()));
    mask
}

/// The descendant-inclusive mask of every bone, in index order.
pub fn compute_descendant_masks() -> (r: Vec<u32>)
    ensures
        r@.len() == BONE_COUNT,
        forall|i: int| 0 <= i < BONE_COUNT ==> bit_set(#[trigger] r@[i]) == subtree(i as nat),
{
    let mut masks: Vec<u32> = Vec::new();
    let mut i: usize = 0;
    while i < BONE_COUNT
        invariant
            i <= BONE_COUNT,
            masks@.len() == i,
            forall|k: int| 0 <= k < i ==> bit_set(#[trigger] masks@[k]) == subtree(k as nat),
        decreases BONE_COUNT - i,
    {
        let b = BoneId::from_index(i).unwrap();
        masks.push(descendant_mask(b));
        i = i + 1;
    }
    masks
}

/// What marking `bone` dirty does to a dirty set: the bone and all of its
/// descendants join it.
pub open spec fn marked(dirty: Set<nat>, bone: nat) -> Set<nat> {
    dirty.union(subtree(bone))
}

/// The bones that bringing `bone` up to date recomputes: nothing when it is
/// already clean, else every dirty bone up to and including it.
pub open spec fn recomputed(dirty: Set<nat>, bone: nat) -> Set<nat> {
    if dirty.contains(bone) {
        Set::new(|j: nat| j <= bone && dirty.contains(j))
    } else {
        Set::empty()
    }
}

/// A dirty set that a pose can be in: a bone is dirty whenever one of its
/// ancestors is.
pub open spec fn is_consistent(dirty: Set<nat>) -> bool {
    &&& dirty.subset_of(all_bones())
    &&& forall|a: nat, j: nat|
        dirty.contains(a) && j < BONE_COUNT && #[trigger] is_descendant_or_self(j, a)
            ==> #[trigger] dirty.contains(j)
}

/// Per-bone "needs forward-kinematics recompute" flags, one bit per bone.
#[derive(Debug, Clone, Copy)]
pub struct DirtyFlags {
    bits: u32,
}

impl View for DirtyFlags {
    type V = Set<nat>;

    /// The indices of the dirty bones.
    closed spec fn view(&self) -> Set<nat> {
        bit_set(self.bits)
    }
}

impl Default for DirtyFlags {
    fn default() -> (r: DirtyFlags)
        ensures
            r@ == Set::<nat>::empty(),
    {
        DirtyFlags::cleared()
    }
}

impl DirtyFlags {
    /// Every bone marked dirty.
    pub fn all_dirty() -> (r: DirtyFlags)
        ensures
            r@ == all_bones(),
    {
        let r = DirtyFlags { bits: 0x3fff };
        assert forall|k: nat| #[trigger] bit_set(0x3fff).contains(k) == all_bones().contains(k) by {
            if k < 32 {
                lemma_bit_low(k as u32);
            }
        }
        assert(r@ =~= all_bones());
        r
    }

    /// No bone marked dirty.
    pub fn cleared() -> (r: DirtyFlags)
        ensures
            r@ == Set::<nat>::empty(),
    {
        proof {
            lemma_bit_set_empty(0);
        }
        DirtyFlags { bits: 0 }
    }

    /// Whether `bone` needs recomputation.
    pub fn is_dirty(&self, bone: BoneId) -> (r: bool)
        ensures
            r == self@.contains(bone.spec_index()),
    {
        let i = bone.index() as u32;
        proof {
            lemma_bit_test(self.bits, i);
        }
        (self.bits & (1u32 << i)) != 0
    }

    /// Whether any bone needs recomputation.
    pub fn is_any_dirty(&self) -> (r: bool)
        ensures
            r == (self@ != Set::<nat>::empty()),
    {
        proof {
            lemma_bit_set_empty(self.bits);
        }
        self.bits != 0
    }

    /// These flags with `bone` and every one of its descendants marked dirty.
    pub fn with_marked_dirty(self, bone: BoneId) -> (r: DirtyFlags)
        ensures
            r@ == marked(self@, bone.spec_index()),
    {
        let mask = descendant_mask(bone);
        let r = DirtyFlags { bits: self.bits | mask };
        assert forall|k: nat| #[trigger]
            r@.contains(k) == marked(self@, bone.spec_index()).contains(k) by {
            if k < 32 {
                lemma_bit_or(self.bits, mask, k as u32);
                assert(bit_set(mask).contains(k) == has_bit(mask, k as u32));
            }
        }
        assert(r@ =~= marked(self@, bone.spec_index()));
        r
    }

    /// These flags with `bone` alone marked clean; its descendants keep their
    /// flags.
    pub fn with_cleared(self, bone: BoneId) -> (r: DirtyFlags)
        ensures
            r@ == self@.remove(bone.spec_index()),
    {
        let i = bone.index() as u32;
        let r = DirtyFlags { bits: self.bits & !(1u32 << i) };
        assert forall|k: nat| #[trigger]
            r@.contains(k) == self@.remove(bone.spec_index()).contains(k) by {
            if k < 32 {
                lemma_bit_and_not(self.bits, i, k as u32);
            }
        }
        assert(r@ =~= self@.remove(bone.spec_index()));
        r
    }

    /// Marks `bone` and every one of its descendants dirty.
    pub fn mark_dirty(&mut self, bone: BoneId)
        ensures
            final(self)@ == marked(old(self)@, bone.spec_index()),
    {
        *self = self.with_marked_dirty(bone);
    }

    /// Marks `bone` alone clean.
    pub fn clear(&mut self, bone: BoneId)
        ensures
            final(self)@ == old(self)@.remove(bone.spec_index()),
    {
        *self = self.with_cleared(bone);
    }

    /// Marks every bone clean.
    pub fn clear_all(&mut self)
        ensures
            final(self)@ == Set::<nat>::empty(),
    {
        *self = DirtyFlags::cleared();
    }

    /// The bones to recompute, in order, so that `bone`'s world transform is
    /// up to date: nothing when it is clean, else every dirty bone with a
    /// smaller index in increasing order, then `bone` itself. Since parents
    /// precede children, each listed bone's ancestors are clean or listed
    /// before it.
    pub fn compute_order(&self, bone: BoneId) -> (r: Vec<BoneId>)
        ensures
            forall|a: int, b: int|
                0 <= a < b < r@.len() ==> r@[a].spec_index() < r@[b].spec_index(),
            forall|k: int|
                0 <= k < r@.len() ==> recomputed(self@, bone.spec_index()).contains(
                    #[trigger] r@[k].spec_index(),
                ),
            forall|j: nat|
                #[trigger] recomputed(self@, bone.spec_index()).contains(j) ==> exists|k: int|
                    0 <= k < r@.len() && (#[trigger] r@[k]).spec_index() == j,
            self@.contains(bone.spec_index()) ==> r@.len() > 0 && r@.last() == bone,
    {
        let mut r: Vec<BoneId> = Vec::new();
        if !self.is_dirty(bone) {
            return r;
        }
        let b = bone.index();
        let mut i: usize = 0;
        while i <= b
            invariant
                b == bone.spec_index(),
                b < BONE_COUNT,
                i <= b + 1,
                self@.contains(b as nat),
                forall|x: int, y: int|
                    0 <= x < y < r@.len() ==> r@[x].spec_index() < r@[y].spec_index(),
                forall|k: int|
                    0 <= k < r@.len() ==> (#[trigger] r@[k]).spec_index() < i && self@.contains(
                        r@[k].spec_index(),
                    ),
                forall|j: nat|
                    j < i && #[trigger] self@.contains(j) ==> exists|k: int|
                        0 <= k < r@.len() && (#[trigger] r@[k]).spec_index() == j,
                r@.len() > 0 ==> r@.last().spec_index() == i - 1 || r@.last().spec_index() < i,
                i == b + 1 ==> r@.len() > 0 && r@.last() == bone,
            decreases b + 1 - i,
        {
            let c = BoneId::from_index(i).unwrap();
            let ghost prev = r@;
            if self.is_dirty(c) {
                r.push(c);
                assert(r@[r@.len() - 1].spec_index() == i);
            }
            assert forall|j: nat| j < i + 1 && #[trigger] self@.contains(j) implies exists|k: int|
                0 <= k < r@.len() && (#[trigger] r@[k]).spec_index() == j by {
                if j == i {
                    assert(r@[r@.len() - 1].spec_index() == j);
                } else {
                    let k = choose|k: int| 0 <= k < prev.len() && (#[trigger] prev[k]).spec_index() == j;
                    assert(r@[k] == prev[k]);
                }
            }
            if i == b {
                assert(r@.last() == bone);
            }
            i = i + 1;
        }
        r
    }
}

/// Marking a bone dirty from clean flags leaves exactly that bone and its
/// descendants dirty: every unrelated bone stays clean.
pub proof fn lemma_dirty_propagation(bone: nat, j: nat)
    requires
        bone < BONE_COUNT,
    ensures
        marked(Set::empty(), bone).contains(j) == (j < BONE_COUNT && is_descendant_or_self(
            j,
            bone,
        )),
{
}

/// After the bones that `compute_order` lists have been recomputed and
/// cleared, starting from dirty flags a pose can be in, the requested bone
/// and every one of its ancestors are clean, and the remaining flags are
/// still ones a pose can be in.
pub proof fn lemma_lazy_evaluation(dirty: Set<nat>, bone: nat, ancestor: nat)
    requires
        is_consistent(dirty),
        bone < BONE_COUNT,
        is_descendant_or_self(bone, ancestor),
    ensures
        !dirty.difference(recomputed(dirty, bone)).contains(ancestor),
        is_consistent(dirty.difference(recomputed(dirty, bone))),
{
    lemma_ancestor_precedes(bone, ancestor);
    let rest = dirty.difference(recomputed(dirty, bone));
    if dirty.contains(ancestor) {
        assert(dirty.contains(bone));
    }
    assert forall|a: nat, j: nat|
        rest.contains(a) && j < BONE_COUNT && #[trigger] is_descendant_or_self(j, a) implies #[trigger]
        rest.contains(j) by {
        lemma_ancestor_precedes(j, a);
    }
}

/// Flags with every bone dirty, or none, are ones a pose can be in, and
/// marking a bone dirty keeps them so.
pub proof fn lemma_marking_keeps_consistency(dirty: Set<nat>, bone: nat)
    requires
        is_consistent(dirty),
        bone < BONE_COUNT,
    ensures
        is_consistent(marked(dirty, bone)),
        is_consistent(all_bones()),
        is_consistent(Set::empty()),
{
    assert forall|a: nat, j: nat|
        marked(dirty, bone).contains(a) && j < BONE_COUNT && #[trigger] is_descendant_or_self(
            j,
            a,
        ) implies #[trigger] marked(dirty, bone).contains(j) by {
        if !dirty.contains(a) {
            lemma_descendant_transitive(j, a, bone);
        }
    }
}

/// A descendant of a descendant is a descendant.
pub proof fn lemma_descendant_transitive(j: nat, a: nat, i: nat)
    requires
        is_descendant_or_self(j, a),
        is_descendant_or_self(a, i),
    ensures
        is_descendant_or_self(j, i),
    decreases j,
{
    if j != a {
        let p = crate::bone::parent_index(j).unwrap();
        lemma_descendant_transitive(p, a, i);
    }
}

} // verus!
