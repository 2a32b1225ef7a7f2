use vstd::prelude::*;
use crate::fixed::{ONE, within};
use crate::aabb::{Aabb, compute_aabb, is_aabb_result};
use crate::binding::{SkinBinding, SkinError, are_skins_of, resolved, skin_matrices, transforms_fit, transforms_in_range, world_of};
use crate::matrix::{Mat4, Point3};
use crate::skin::{
    SkinMatrix, blend_at, blend_scale, is_skinned, joints_below, product_at, skin_vertex, skinned_coord, skins_in_range,
    weights_in_range,
};

verus! {

/// A mesh's per-vertex skinning attributes, as parallel arrays; an absent
/// array is `None`.
#[derive(Debug)]
pub struct VertexAttributes {
    /// Bind-pose positions.
    pub positions: Option<Vec<Point3>>,
    /// Four joint slots per vertex, into the skin binding.
    pub joint_indices: Option<Vec<[u16; 4]>>,
    /// Four weights per vertex, one per joint slot, at scale `ONE`.
    pub joint_weights: Option<Vec<[i64; 4]>>,
}

impl VertexAttributes {
    /// All three arrays are present, one entry per vertex in each.
    pub open spec fn complete(&self) -> bool {
        &&& self.positions is Some
        &&& self.joint_indices is Some
        &&& self.joint_weights is Some
        &&& self.positions->Some_0@.len() == self.joint_indices->Some_0@.len()
        &&& self.positions->Some_0@.len() == self.joint_weights->Some_0@.len()
    }

    /// Every position and every weight that is present lies within the fixed-point limits.
    pub open spec fn in_range(&self) -> bool {
        &&& self.positions matches Some(ps) ==> positions_in_range(ps@)
        &&& self.joint_weights matches Some(ws) ==> all_weights_in_range(ws@)
    }

    /// Whether every position and weight that is present lies within the limits.
    pub fn fits(&self) -> (r: bool)
        ensures
            r == self.in_range(),
    {
        let ok_positions = match &self.positions {
            Some(ps) => positions_fit(ps),
            None => true,
        };
        let ok_weights = match &self.joint_weights {
            Some(ws) => weights_fit(ws),
            None => true,
        };
        ok_positions && ok_weights
    }
}

/// Every point of `ps` is in range.
pub open spec fn positions_in_range(ps: Seq<Point3>) -> bool {
    forall|i: int| 0 <= i < ps.len() ==> #[trigger] ps[i].in_range()
}

/// Every weight of `ws` is in range.
pub open spec fn all_weights_in_range(ws: Seq<[i64; 4]>) -> bool {
    forall|i: int| 0 <= i < ws.len() ==> weights_in_range(#[trigger] ws[i])
}

fn positions_fit(ps: &Vec<Point3>) -> (r: bool)
    ensures
        r == positions_in_range(ps@),
{
    let n = ps.len();
    let mut i: usize = 0;
    while i < n
        invariant
            n == ps@.len(),
            i <= n,
            forall|k: int| 0 <= k < i ==> #[trigger] ps@[k].in_range(),
        decreases n - i,
    {
        if !ps[i].fits() {
            return false;
        }
        i += 1;
    }
    true
}

fn weights_fit(ws: &Vec<[i64; 4]>) -> (r: bool)
    ensures
        r == all_weights_in_range(ws@),
{
    let n = ws.len();
    let mut i: usize = 0;
    while i < n
        invariant
            n == ws@.len(),
            i <= n,
            forall|k: int| 0 <= k < i ==> weights_in_range(#[trigger] ws@[k]),
        decreases n - i,
    {
        let w = ws[i];
        let mut k: usize = 0;
        while k < 4
            invariant
                k <= 4,
                i < n,
                n == ws@.len(),
                w == ws@[i as int],
                forall|j: int| 0 <= j < k ==> -ONE <= #[trigger] w[j] <= ONE,
            decreases 4 - k,
        {
            if w[k] < -ONE || w[k] > ONE {
                proof {
                    assert(!within(w[k as int] as int, ONE as int));
                }
                return false;
            }
            k += 1;
        }
        i += 1;
    }
    true
}

/// Skins every vertex with the given skin matrices.
///
/// Fails with `JointIndexOutOfRange` on the first vertex that names a slot
/// past the end of `skins`.
pub fn skin_vertices(
    skins: &Vec<SkinMatrix>,
    positions: &Vec<Point3>,
    joint_indices: &Vec<[u16; 4]>,
    joint_weights: &Vec<[i64; 4]>,
) -> (r: Result<Vec<Point3>, SkinError>)
    requires
        positions@.len() == joint_indices@.len(),
        positions@.len() == joint_weights@.len(),
        skins_in_range(skins@),
        positions_in_range(positions@),
        all_weights_in_range(joint_weights@),
    ensures
        r is Ok <==> forall|v: int| 0 <= v < joint_indices@.len() ==> joints_below(#[trigger] joint_indices@[v], skins@.len() as int),
        r matches Ok(qs) ==> qs@.len() == positions@.len() && forall|v: int|
            0 <= v < qs@.len() ==> is_skinned(#[trigger] qs@[v], skins@, joint_indices@[v], joint_weights@[v], positions@[v]),
        r matches Err(e) ==> (e matches SkinError::JointIndexOutOfRange { vertex } && vertex < joint_indices@.len()
            && !joints_below(joint_indices@[vertex as int], skins@.len() as int) && forall|v: int|
            0 <= v < vertex ==> joints_below(#[trigger] joint_indices@[v], skins@.len() as int)),
{
    let n = positions.len();
    let m = skins.len();
    let mut out: Vec<Point3> = Vec::new();
    let mut v: usize = 0;
    while v < n
        invariant
            n == positions@.len(),
            n == joint_indices@.len(),
            n == joint_weights@.len(),
            m == skins@.len(),
            skins_in_range(skins@),
            positions_in_range(positions@),
            all_weights_in_range(joint_weights@),
            v <= n,
            out@.len() == v,
            forall|k: int| 0 <= k < v ==> joints_below(#[trigger] joint_indices@[k], m as int),
            forall|k: int|
                0 <= k < v ==> is_skinned(#[trigger] out@[k], skins@, joint_indices@[k], joint_weights@[k], positions@[k]),
        decreases n - v,
    {
        let joints = joint_indices[v];
        if (joints[0] as usize) >= m || (joints[1] as usize) >= m || (joints[2] as usize) >= m || (joints[3] as usize)
            >= m {
            return Err(SkinError::JointIndexOutOfRange { vertex: v });
        }
        proof {
            assert(positions@[v as int].in_range());
            assert(weights_in_range(joint_weights@[v as int]));
        }
        let q = skin_vertex(skins, &joints, &joint_weights[v], &positions[v]);
        out.push(q);
        v += 1;
    }
    Ok(out)
}

/// Entry `(r, c)` of the skin matrix of binding slot `slot` this frame.
pub open spec fn slot_skin_at(binding: SkinBinding, world: Seq<Option<Mat4>>, slot: int, r: int, c: int) -> int {
    product_at(world_of(world, binding.joints@[slot])->Some_0, binding.inverse_bindposes@[slot], r, c)
}

/// Entry `(r, c)` of a vertex's blend of this frame's skin matrices.
pub open spec fn frame_blend_at(
    binding: SkinBinding,
    world: Seq<Option<Mat4>>,
    joints: [u16; 4],
    weights: [i64; 4],
    r: int,
    c: int,
) -> int {
    weights[0] * slot_skin_at(binding, world, joints[0] as int, r, c) + weights[1] * slot_skin_at(
        binding,
        world,
        joints[1] as int,
        r,
        c,
    ) + weights[2] * slot_skin_at(binding, world, joints[2] as int, r, c) + weights[3] * slot_skin_at(
        binding,
        world,
        joints[3] as int,
        r,
        c,
    )
}

/// Coordinate `r` of a vertex's world-space position this frame, rounded down.
pub open spec fn frame_coord(
    binding: SkinBinding,
    world: Seq<Option<Mat4>>,
    joints: [u16; 4],
    weights: [i64; 4],
    p: Point3,
    r: int,
) -> int {
    (frame_blend_at(binding, world, joints, weights, r, 0) * p.hom(0) + frame_blend_at(binding, world, joints, weights, r, 1)
        * p.hom(1) + frame_blend_at(binding, world, joints, weights, r, 2) * p.hom(2) + frame_blend_at(
        binding,
        world,
        joints,
        weights,
        r,
        3,
    ) * p.hom(3)) / blend_scale()
}

/// `q` is the world-space position this frame of the vertex at bind-pose `p`.
pub open spec fn is_frame_position(
    q: Point3,
    binding: SkinBinding,
    world: Seq<Option<Mat4>>,
    joints: [u16; 4],
    weights: [i64; 4],
    p: Point3,
) -> bool {
    &&& q.x == frame_coord(binding, world, joints, weights, p, 0)
    &&& q.y == frame_coord(binding, world, joints, weights, p, 1)
    &&& q.z == frame_coord(binding, world, joints, weights, p, 2)
}

proof fn lemma_skinned_is_frame(
    skins: Seq<SkinMatrix>,
    binding: SkinBinding,
    world: Seq<Option<Mat4>>,
    joints: [u16; 4],
    weights: [i64; 4],
    p: Point3,
    q: Point3,
)
    requires
        are_skins_of(skins, binding, world),
        joints_below(joints, skins.len() as int),
        is_skinned(q, skins, joints, weights, p),
    ensures
        is_frame_position(q, binding, world, joints, weights, p),
{
    assert(joints[0] < skins.len() && joints[1] < skins.len() && joints[2] < skins.len() && joints[3] < skins.len());
    assert forall|r: int, c: int| 0 <= r < 4 && 0 <= c < 4 implies #[trigger] blend_at(skins, joints, weights, r, c)
        == frame_blend_at(binding, world, joints, weights, r, c) by {
        assert(skins[joints[0] as int].at(r, c) == slot_skin_at(binding, world, joints[0] as int, r, c));
        assert(skins[joints[1] as int].at(r, c) == slot_skin_at(binding, world, joints[1] as int, r, c));
        assert(skins[joints[2] as int].at(r, c) == slot_skin_at(binding, world, joints[2] as int, r, c));
        assert(skins[joints[3] as int].at(r, c) == slot_skin_at(binding, world, joints[3] as int, r, c));
    }
    assert(skinned_coord(skins, joints, weights, p, 0) == frame_coord(binding, world, joints, weights, p, 0));
    assert(skinned_coord(skins, joints, weights, p, 1) == frame_coord(binding, world, joints, weights, p, 1));
    assert(skinned_coord(skins, joints, weights, p, 2) == frame_coord(binding, world, joints, weights, p, 2));
}

/// One frame's skinning result: world-space positions and their bounding box.
#[derive(Debug)]
pub struct SkinnedFrame {
    pub positions: Vec<Point3>,
    /// `None` when the mesh has no vertices.
    pub aabb: Option<Aabb>,
}

/// Every joint slot of the binding has a world transform this frame.
pub open spec fn all_resolved(binding: SkinBinding, world: Seq<Option<Mat4>>) -> bool {
    forall|i: int| 0 <= i < binding.joints@.len() ==> resolved(binding, world, i)
}

/// Every vertex names joint slots that the binding has.
pub open spec fn all_joints_below(joint_indices: Seq<[u16; 4]>, n: int) -> bool {
    forall|v: int| 0 <= v < joint_indices.len() ==> joints_below(#[trigger] joint_indices[v], n)
}

/// Skins a mesh for one frame and bounds the result.
///
/// Checks in this order: the attribute arrays (`MissingVertexAttribute`),
/// the fixed-point limits (`ValueOutOfRange`), the joints' world transforms
/// (`MissingJointTransform`), the vertices' joint slots
/// (`JointIndexOutOfRange`).
pub fn skinned_vertex_locations(binding: &SkinBinding, world: &Vec<Option<Mat4>>, attributes: &VertexAttributes) -> (r:
    Result<SkinnedFrame, SkinError>)
    requires
        binding.wf(),
    ensures
        (r == Err::<SkinnedFrame, SkinError>(SkinError::MissingVertexAttribute)) <==> !attributes.complete(),
        (r == Err::<SkinnedFrame, SkinError>(SkinError::ValueOutOfRange)) <==> attributes.complete() && !(binding.in_range()
            && transforms_in_range(world@) && attributes.in_range()),
        (r matches Err(SkinError::MissingJointTransform { .. })) <==> attributes.complete() && binding.in_range()
            && transforms_in_range(world@) && attributes.in_range() && !all_resolved(*binding, world@),
        r matches Err(SkinError::MissingJointTransform { slot }) ==> slot < binding.joints@.len() && !resolved(
            *binding,
            world@,
            slot as int,
        ) && forall|i: int| 0 <= i < slot ==> resolved(*binding, world@, i),
        (r matches Err(SkinError::JointIndexOutOfRange { .. })) <==> attributes.complete() && binding.in_range()
            && transforms_in_range(world@) && attributes.in_range() && all_resolved(*binding, world@) && !all_joints_below(
            attributes.joint_indices->Some_0@,
            binding.joints@.len() as int,
        ),
        r matches Err(SkinError::JointIndexOutOfRange { vertex }) ==> vertex < attributes.joint_indices->Some_0@.len()
            && !joints_below(attributes.joint_indices->Some_0@[vertex as int], binding.joints@.len() as int) && forall|v: int|
            0 <= v < vertex ==> joints_below(#[trigger] attributes.joint_indices->Some_0@[v], binding.joints@.len() as int),
        r matches Ok(f) ==> {
            let ps = attributes.positions->Some_0@;
            let js = attributes.joint_indices->Some_0@;
            let ws = attributes.joint_weights->Some_0@;
            &&& f.positions@.len() == ps.len()
            &&& forall|v: int|
                0 <= v < ps.len() ==> is_frame_position(#[trigger] f.positions@[v], *binding, world@, js[v], ws[v], ps[v])
            &&& is_aabb_result(f.aabb, f.positions@)
        },
{
    let (positions, joint_indices, joint_weights) = match (
        &attributes.positions,
        &attributes.joint_indices,
        &attributes.joint_weights,
    ) {
        (Some(p), Some(j), Some(w)) => (p, j, w),
        _ => {
            return Err(SkinError::MissingVertexAttribute);
        },
    };
    if positions.len() != joint_indices.len() || positions.len() != joint_weights.len() {
        return Err(SkinError::MissingVertexAttribute);
    }
    if !(binding.fits() && transforms_fit(world) && attributes.fits()) {
        return Err(SkinError::ValueOutOfRange);
    }
    let skins = match skin_matrices(binding, world) {
        Ok(s) => s,
        Err(e) => {
            return Err(e);
        },
    };
    let qs = match skin_vertices(&skins, positions, joint_indices, joint_weights) {
        Ok(q) => q,
        Err(e) => {
            return Err(e);
        },
    };
    proof {
        assert forall|v: int| 0 <= v < positions@.len() implies is_frame_position(
            #[trigger] qs@[v],
            *binding,
            world@,
            joint_indices@[v],
            joint_weights@[v],
            positions@[v],
        ) by {
            lemma_skinned_is_frame(skins@, *binding, world@, joint_indices@[v], joint_weights@[v], positions@[v], qs@[v]);
        }
    }
    let aabb = compute_aabb(qs.as_slice());
    Ok(SkinnedFrame { positions: qs, aabb })
}

} // verus!
