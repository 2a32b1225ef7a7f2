use vstd::prelude::*;
use crate::matrix::Mat4;
use crate::skin::{SkinMatrix, is_skin_of, skin_matrix, skins_in_range};

verus! {

/// Why a mesh could not be skinned this frame.
#[derive(Clone, Copy, Debug, PartialEq, Eq, Structural)]
pub enum SkinError {
    /// The joint in this slot of the binding has no world transform this frame.
    MissingJointTransform { slot: usize },
    /// Positions, joint indices or joint weights are absent, or their lengths differ.
    MissingVertexAttribute,
    /// A vertex names a joint slot that the binding does not have.
    JointIndexOutOfRange { vertex: usize },
    /// A coordinate, matrix entry or weight exceeds the fixed-point limits.
    ValueOutOfRange,
}

/// A mesh's joints, by handle, beside the inverse bind pose of each.
///
/// Slot `i` of both sequences is the same joint.
#[derive(Debug)]
pub struct SkinBinding {
    pub joints: Vec<usize>,
    pub inverse_bindposes: Vec<Mat4>,
}

impl SkinBinding {
    /// Both sequences have one entry per joint slot.
    pub open spec fn wf(&self) -> bool {
        self.joints@.len() == self.inverse_bindposes@.len()
    }

    /// Every inverse bind pose is in range.
    pub open spec fn in_range(&self) -> bool {
        forall|i: int| 0 <= i < self.inverse_bindposes@.len() ==> #[trigger] self.inverse_bindposes@[i].in_range()
    }

    /// Pairs joint handles with inverse bind poses; `None` when their counts differ.
    pub fn new(joints: Vec<usize>, inverse_bindposes: Vec<Mat4>) -> (r: Option<SkinBinding>)
        ensures
            r is Some <==> joints@.len() == inverse_bindposes@.len(),
            r matches Some(b) ==> b.joints@ == joints@ && b.inverse_bindposes@ == inverse_bindposes@ && b.wf(),
    {
        if joints.len() == inverse_bindposes.len() {
            Some(SkinBinding { joints, inverse_bindposes })
        } else {
            None
        }
    }

    /// Whether every inverse bind pose is in range.
    pub fn fits(&self) -> (r: bool)
        ensures
            r == self.in_range(),
    {
        let n = self.inverse_bindposes.len();
        let mut i: usize = 0;
        while i < n
            invariant
                n == self.inverse_bindposes@.len(),
                i <= n,
                forall|k: int| 0 <= k < i ==> #[trigger] self.inverse_bindposes@[k].in_range(),
            decreases n - i,
        {
            if !self.inverse_bindposes[i].fits() {
                return false;
            }
            i += 1;
        }
        true
    }
}

/// The world transform of joint handle `h` this frame, if one was computed.
pub open spec fn world_of(world: Seq<Option<Mat4>>, h: usize) -> Option<Mat4> {
    if h < world.len() {
        world[h as int]
    } else {
        None
    }
}

/// Every world transform that is present is in range.
pub open spec fn transforms_in_range(world: Seq<Option<Mat4>>) -> bool {
    forall|h: int| 0 <= h < world.len() ==> (#[trigger] world[h] matches Some(m) ==> m.in_range())
}

/// Whether every world transform that is present is in range.
pub fn transforms_fit(world: &Vec<Option<Mat4>>) -> (r: bool)
    ensures
        r == transforms_in_range(world@),
{
    let n = world.len();
    let mut i: usize = 0;
    while i < n
        invariant
            n == world@.len(),
            i <= n,
            forall|h: int| 0 <= h < i ==> (#[trigger] world@[h] matches Some(m) ==> m.in_range()),
        decreases n - i,
    {
        if let Some(m) = &world[i] {
            if !m.fits() {
                return false;
            }
        }
        i += 1;
    }
    true
}

/// The joint in `slot` of the binding has a world transform this frame.
pub open spec fn resolved(binding: SkinBinding, world: Seq<Option<Mat4>>, slot: int) -> bool {
    world_of(world, binding.joints@[slot]) is Some
}

/// `skins` holds, slot by slot, `world_transform(joint) * inverse_bindpose`.
pub open spec fn are_skins_of(skins: Seq<SkinMatrix>, binding: SkinBinding, world: Seq<Option<Mat4>>) -> bool {
    &&& skins.len() == binding.joints@.len()
    &&& forall|i: int|
        0 <= i < skins.len() ==> is_skin_of(
            #[trigger] skins[i],
            world_of(world, binding.joints@[i])->Some_0,
            binding.inverse_bindposes@[i],
        )
}

/// Computes the skin matrix of every joint slot of the binding.
///
/// Fails with `MissingJointTransform` on the first slot whose joint has no
/// world transform; no substitute is ever used.
pub fn skin_matrices(binding: &SkinBinding, world: &Vec<Option<Mat4>>) -> (r: Result<Vec<SkinMatrix>, SkinError>)
    requires
        binding.wf(),
        binding.in_range(),
        transforms_in_range(world@),
    ensures
        r is Ok <==> forall|i: int| 0 <= i < binding.joints@.len() ==> resolved(*binding, world@, i),
        r matches Ok(skins) ==> are_skins_of(skins@, *binding, world@) && skins_in_range(skins@),
        r matches Err(e) ==> (e matches SkinError::MissingJointTransform { slot } && slot < binding.joints@.len()
            && !resolved(*binding, world@, slot as int) && forall|i: int| 0 <= i < slot ==> resolved(*binding, world@, i)),
{
    let n = binding.joints.len();
    let mut out: Vec<SkinMatrix> = Vec::new();
    let mut i: usize = 0;
    while i < n
        invariant
            n == binding.joints@.len(),
            binding.wf(),
            binding.in_range(),
            transforms_in_range(world@),
            i <= n,
            out@.len() == i,
            forall|k: int| 0 <= k < i ==> resolved(*binding, world@, k),
            forall|k: int|
                0 <= k < i ==> is_skin_of(
                    #[trigger] out@[k],
                    world_of(world@, binding.joints@[k])->Some_0,
                    binding.inverse_bindposes@[k],
                ),
            skins_in_range(out@),
        decreases n - i,
    {
        let h = binding.joints[i];
        if h >= world.len() {
            proof {
                assert(!resolved(*binding, world@, i as int));
            }
            return Err(SkinError::MissingJointTransform { slot: i });
        }
        match &world[h] {
            None => {
                proof {
                    assert(!resolved(*binding, world@, i as int));
                }
                return Err(SkinError::MissingJointTransform { slot: i });
            },
            Some(w) => {
                proof {
                    assert(binding.inverse_bindposes@[i as int].in_range());
                    assert(world@[h as int] matches Some(m) ==> m.in_range());
                }
                let s = skin_matrix(w, &binding.inverse_bindposes[i]);
                out.push(s);
            },
        }
        i += 1;
    }
    Ok(out)
}

} // verus!
