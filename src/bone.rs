use vstd::prelude::*;

verus! {

/// Number of bones in the skeleton.
pub const BONE_COUNT: usize = 14;

/// Identifier of one skeletal bone.
///
/// The variants are listed in topological order: every bone's parent comes
/// before the bone itself, so a single pass in index order visits parents
/// before their children.
#[derive(Debug, Clone, Copy, PartialEq, Eq, Structural, Hash)]
pub enum BoneId {
    Hips,
    Spine,
    Neck,
    Head,
    LeftShoulder,
    LeftUpperArm,
    LeftForearm,
    RightShoulder,
    RightUpperArm,
    RightForearm,
    LeftThigh,
    LeftShin,
    RightThigh,
    RightShin,
}

/// The bone with a given dense index, if there is one.
pub open spec fn bone_at(i: nat) -> Option<BoneId> {
    if i == 0 {
        Some(BoneId::Hips)
    } else if i == 1 {
        Some(BoneId::Spine)
    } else if i == 2 {
        Some(BoneId::Neck)
    } else if i == 3 {
        Some(BoneId::Head)
    } else if i == 4 {
        Some(BoneId::LeftShoulder)
    } else if i == 5 {
        Some(BoneId::LeftUpperArm)
    } else if i == 6 {
        Some(BoneId::LeftForearm)
    } else if i == 7 {
        Some(BoneId::RightShoulder)
    } else if i == 8 {
        Some(BoneId::RightUpperArm)
    } else if i == 9 {
        Some(BoneId::RightForearm)
    } else if i == 10 {
        Some(BoneId::LeftThigh)
    } else if i == 11 {
        Some(BoneId::LeftShin)
    } else if i == 12 {
        Some(BoneId::RightThigh)
    } else if i == 13 {
        Some(BoneId::RightShin)
    } else {
        None
    }
}

/// Index of the parent of the bone with index `i` (`None` for the root or
/// for an index that names no bone).
pub open spec fn parent_index(i: nat) -> Option<nat> {
    match bone_at(i) {
        Some(b) => match b.spec_parent() {
            Some(p) => Some(p.spec_index()),
            None => None,
        },
        None => None,
    }
}

/// `j` lies strictly below `i` in the hierarchy.
pub open spec fn is_proper_descendant(j: nat, i: nat) -> bool
    decreases j, 0nat,
{
    match parent_index(j) {
        Some(p) => p < j && is_descendant_or_self(p, i),
        None => false,
    }
}

/// `j` is `i` itself or lies below it in the hierarchy.
pub open spec fn is_descendant_or_self(j: nat, i: nat) -> bool
    decreases j, 1nat,
{
    j == i || is_proper_descendant(j, i)
}

/// The indices of `i` and all of its descendants.
pub open spec fn subtree(i: nat) -> Set<nat> {
    Set::new(|j: nat| j < BONE_COUNT && is_descendant_or_self(j, i))
}

/// The indices of all bones.
pub open spec fn all_bones() -> Set<nat> {
    Set::new(|j: nat| j < BONE_COUNT)
}

impl BoneId {
    pub open spec fn spec_index(self) -> nat {
        match self {
            BoneId::Hips => 0,
            BoneId::Spine => 1,
            BoneId::Neck => 2,
            BoneId::Head => 3,
            BoneId::LeftShoulder => 4,
            BoneId::LeftUpperArm => 5,
            BoneId::LeftForearm => 6,
            BoneId::RightShoulder => 7,
            BoneId::RightUpperArm => 8,
            BoneId::RightForearm => 9,
            BoneId::LeftThigh => 10,
            BoneId::LeftShin => 11,
            BoneId::RightThigh => 12,
            BoneId::RightShin => 13,
        }
    }

    pub open spec fn spec_parent(self) -> Option<BoneId> {
        match self {
            BoneId::Hips => None,
            BoneId::Spine => Some(BoneId::Hips),
            BoneId::Neck => Some(BoneId::Spine),
            BoneId::Head => Some(BoneId::Neck),
            BoneId::LeftShoulder => Some(BoneId::Neck),
            BoneId::LeftUpperArm => Some(BoneId::LeftShoulder),
            BoneId::LeftForearm => Some(BoneId::LeftUpperArm),
            BoneId::RightShoulder => Some(BoneId::Neck),
            BoneId::RightUpperArm => Some(BoneId::RightShoulder),
            BoneId::RightForearm => Some(BoneId::RightUpperArm),
            BoneId::LeftThigh => Some(BoneId::Hips),
            BoneId::LeftShin => Some(BoneId::LeftThigh),
            BoneId::RightThigh => Some(BoneId::Hips),
            BoneId::RightShin => Some(BoneId::RightThigh),
        }
    }

    /// Dense array index of this bone.
    pub fn index(self) -> (r: usize)
        ensures
            r as nat == self.spec_index(),
            r < BONE_COUNT,
            bone_at(r as nat) == Some(self),
    {
        match self {
            BoneId::Hips => 0,
            BoneId::Spine => 1,
            BoneId::Neck => 2,
            BoneId::Head => 3,
            BoneId::LeftShoulder => 4,
            BoneId::LeftUpperArm => 5,
            BoneId::LeftForearm => 6,
            BoneId::RightShoulder => 7,
            BoneId::RightUpperArm => 8,
            BoneId::RightForearm => 9,
            BoneId::LeftThigh => 10,
            BoneId::LeftShin => 11,
            BoneId::RightThigh => 12,
            BoneId::RightShin => 13,
        }
    }

    /// Checked conversion from a dense index; `None` when `i` names no bone.
    pub fn from_index(i: usize) -> (r: Option<BoneId>)
        ensures
            r == bone_at(i as nat),
            r.is_some() <==> i < BONE_COUNT,
            r matches Some(b) ==> b.spec_index() == i,
    {
        match i {
            0 => Some(BoneId::Hips),
            1 => Some(BoneId::Spine),
            2 => Some(BoneId::Neck),
            3 => Some(BoneId::Head),
            4 => Some(BoneId::LeftShoulder),
            5 => Some(BoneId::LeftUpperArm),
            6 => Some(BoneId::LeftForearm),
            7 => Some(BoneId::RightShoulder),
            8 => Some(BoneId::RightUpperArm),
            9 => Some(BoneId::RightForearm),
            10 => Some(BoneId::LeftThigh),
            11 => Some(BoneId::LeftShin),
            12 => Some(BoneId::RightThigh),
            13 => Some(BoneId::RightShin),
            _ => None,
        }
    }

    /// Parent of this bone in the hierarchy; `None` for the root.
    pub fn parent(self) -> (r: Option<BoneId>)
        ensures
            r == self.spec_parent(),
            r matches Some(p) ==> p.spec_index() < self.spec_index(),
            r matches Some(p) ==> parent_index(self.spec_index()) == Some(p.spec_index()),
            r.is_none() ==> parent_index(self.spec_index()).is_none(),
    {
        match self {
            BoneId::Hips => None,
            BoneId::Spine => Some(BoneId::Hips),
            BoneId::Neck => Some(BoneId::Spine),
            BoneId::Head => Some(BoneId::Neck),
            BoneId::LeftShoulder => Some(BoneId::Neck),
            BoneId::LeftUpperArm => Some(BoneId::LeftShoulder),
            BoneId::LeftForearm => Some(BoneId::LeftUpperArm),
            BoneId::RightShoulder => Some(BoneId::Neck),
            BoneId::RightUpperArm => Some(BoneId::RightShoulder),
            BoneId::RightForearm => Some(BoneId::RightUpperArm),
            BoneId::LeftThigh => Some(BoneId::Hips),
            BoneId::LeftShin => Some(BoneId::LeftThigh),
            BoneId::RightThigh => Some(BoneId::Hips),
            BoneId::RightShin => Some(BoneId::RightThigh),
        }
    }

    /// Every bone, in topological (index) order.
    pub fn all() -> (r: Vec<BoneId>)
        ensures
            r@.len() == BONE_COUNT,
            forall|k: int| 0 <= k < BONE_COUNT ==> (#[trigger] r@[k]).spec_index() == k,
    {
        let mut r: Vec<BoneId> = Vec::new();
        let mut i: usize = 0;
        while i < BONE_COUNT
            invariant
                i <= BONE_COUNT,
                r@.len() == i,
                forall|k: int| 0 <= k < i ==> (#[trigger] r@[k]).spec_index() == k,
            decreases BONE_COUNT - i,
        {
            match BoneId::from_index(i) {
                Some(b) => r.push(b),
                None => {},
            }
            i = i + 1;
        }
        r
    }

    /// Whether `ancestor` lies strictly above `self` in the hierarchy.
    pub fn is_descendant_of(self, ancestor: BoneId) -> (r: bool)
        ensures
            r == is_proper_descendant(self.spec_index(), ancestor.spec_index()),
    {
        let mut current = self;
        loop
            invariant
                is_proper_descendant(self.spec_index(), ancestor.spec_index())
                    == is_proper_descendant(current.spec_index(), ancestor.spec_index()),
            decreases current.spec_index(),
        {
            match current.parent() {
                Some(p) => {
                    if p == ancestor {
                        return true;
                    }
                    current = p;
                },
                None => {
                    return false;
                },
            }
        }
    }
}

/// Every bone's parent has a smaller index than the bone.
pub proof fn lemma_parent_precedes(i: nat)
    ensures
        parent_index(i) matches Some(p) ==> p < i,
        parent_index(i).is_some() ==> i < BONE_COUNT,
        i < BONE_COUNT && i != 0 ==> parent_index(i).is_some(),
{
}

/// An ancestor never has a larger index than its descendant.
pub proof fn lemma_ancestor_precedes(j: nat, i: nat)
    requires
        is_descendant_or_self(j, i),
    ensures
        i <= j,
    decreases j,
{
    if j != i {
        lemma_parent_precedes(j);
        let p = parent_index(j).unwrap();
        lemma_ancestor_precedes(p, i);
    }
}

} // verus!
