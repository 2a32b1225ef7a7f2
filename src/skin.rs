use vstd::prelude::*;
use crate::fixed::{ONE, ENTRY_LIMIT, SKIN_LIMIT, within, lemma_mul_within, lemma_div_within, lemma_div_cancel};
use crate::matrix::{Mat4, Point3};

verus! {

/// A joint's world transform composed with its inverse bind pose.
///
/// Entries carry the scale `ONE * ONE`: no rounding happens in the product.
#[derive(Clone, Copy, Debug)]
pub struct SkinMatrix {
    pub m: [[i64; 4]; 4],
}

impl SkinMatrix {
    /// Entry at row `r`, column `c`.
    pub open spec fn at(self, r: int, c: int) -> int {
        self.m[r][c] as int
    }

    /// Every entry lies within `SKIN_LIMIT`.
    pub open spec fn in_range(self) -> bool {
        forall|r: int, c: int| 0 <= r < 4 && 0 <= c < 4 ==> within(#[trigger] self.at(r, c), SKIN_LIMIT as int)
    }
}

/// Entry `(r, c)` of the exact product `a * b`.
pub open spec fn product_at(a: Mat4, b: Mat4, r: int, c: int) -> int {
    a.at(r, 0) * b.at(0, c) + a.at(r, 1) * b.at(1, c) + a.at(r, 2) * b.at(2, c) + a.at(r, 3) * b.at(3, c)
}

/// `s` is `world * inverse_bindpose`, the inverse bind pose applied first.
pub open spec fn is_skin_of(s: SkinMatrix, world: Mat4, inverse_bindpose: Mat4) -> bool {
    forall|r: int, c: int| 0 <= r < 4 && 0 <= c < 4 ==> #[trigger] s.at(r, c) == product_at(world, inverse_bindpose, r, c)
}

fn product_entry(a: &Mat4, b: &Mat4, r: usize, c: usize) -> (e: i64)
    requires
        a.in_range(),
        b.in_range(),
        r < 4,
        c < 4,
    ensures
        e == product_at(*a, *b, r as int, c as int),
        within(e as int, SKIN_LIMIT as int),
{
    proof {
        let l = ENTRY_LIMIT as int;
        assert(within(a.at(r as int, 0), l) && within(a.at(r as int, 1), l));
        assert(within(a.at(r as int, 2), l) && within(a.at(r as int, 3), l));
        assert(within(b.at(0, c as int), l) && within(b.at(1, c as int), l));
        assert(within(b.at(2, c as int), l) && within(b.at(3, c as int), l));
        lemma_mul_within(a.at(r as int, 0), b.at(0, c as int), l, l);
        lemma_mul_within(a.at(r as int, 1), b.at(1, c as int), l, l);
        lemma_mul_within(a.at(r as int, 2), b.at(2, c as int), l, l);
        lemma_mul_within(a.at(r as int, 3), b.at(3, c as int), l, l);
    }
    a.m[r][0] * b.m[0][c] + a.m[r][1] * b.m[1][c] + a.m[r][2] * b.m[2][c] + a.m[r][3] * b.m[3][c]
}

fn product_row(a: &Mat4, b: &Mat4, r: usize) -> (row: [i64; 4])
    requires
        a.in_range(),
        b.in_range(),
        r < 4,
    ensures
        forall|c: int| 0 <= c < 4 ==> #[trigger] row[c] == product_at(*a, *b, r as int, c),
        forall|c: int| 0 <= c < 4 ==> within(#[trigger] row[c] as int, SKIN_LIMIT as int),
{
    [product_entry(a, b, r, 0), product_entry(a, b, r, 1), product_entry(a, b, r, 2), product_entry(a, b, r, 3)]
}

/// The skin matrix of one joint: `world * inverse_bindpose`.
pub fn skin_matrix(world: &Mat4, inverse_bindpose: &Mat4) -> (s: SkinMatrix)
    requires
        world.in_range(),
        inverse_bindpose.in_range(),
    ensures
        is_skin_of(s, *world, *inverse_bindpose),
        s.in_range(),
{
    SkinMatrix {
        m: [
            product_row(world, inverse_bindpose, 0),
            product_row(world, inverse_bindpose, 1),
            product_row(world, inverse_bindpose, 2),
            product_row(world, inverse_bindpose, 3),
        ],
    }
}

/// A weighted sum of skin matrices; entries carry the scale `ONE * ONE * ONE`.
#[derive(Clone, Copy, Debug)]
pub struct BlendMatrix {
    pub m: [[i128; 4]; 4],
}

impl BlendMatrix {
    /// Entry at row `r`, column `c`.
    pub open spec fn at(self, r: int, c: int) -> int {
        self.m[r][c] as int
    }
}

/// Entry `(r, c)` of `w[0] * s[j[0]] + w[1] * s[j[1]] + w[2] * s[j[2]] + w[3] * s[j[3]]`.
pub open spec fn blend_at(skins: Seq<SkinMatrix>, joints: [u16; 4], weights: [i64; 4], r: int, c: int) -> int {
    weights[0] * skins[joints[0] as int].at(r, c) + weights[1] * skins[joints[1] as int].at(r, c)
        + weights[2] * skins[joints[2] as int].at(r, c) + weights[3] * skins[joints[3] as int].at(r, c)
}

/// The four joint slots of a vertex all name one of `n` skin matrices.
pub open spec fn joints_below(joints: [u16; 4], n: int) -> bool {
    forall|k: int| 0 <= k < 4 ==> #[trigger] joints[k] < n
}

/// Each weight lies within `[-ONE, ONE]`.
pub open spec fn weights_in_range(weights: [i64; 4]) -> bool {
    forall|k: int| 0 <= k < 4 ==> within(#[trigger] weights[k] as int, ONE as int)
}

/// Every skin matrix of `skins` is in range.
pub open spec fn skins_in_range(skins: Seq<SkinMatrix>) -> bool {
    forall|i: int| 0 <= i < skins.len() ==> #[trigger] skins[i].in_range()
}

/// Bound on the entries of a blend of in-range skin matrices.
pub open spec fn blend_limit() -> int {
    4 * (ONE as int) * (SKIN_LIMIT as int)
}

fn blend_entry(skins: &Vec<SkinMatrix>, joints: &[u16; 4], weights: &[i64; 4], r: usize, c: usize) -> (e: i128)
    requires
        skins_in_range(skins@),
        joints_below(*joints, skins@.len() as int),
        weights_in_range(*weights),
        r < 4,
        c < 4,
    ensures
        e == blend_at(skins@, *joints, *weights, r as int, c as int),
        within(e as int, blend_limit()),
{
    let s0 = skins[joints[0] as usize].m[r][c];
    let s1 = skins[joints[1] as usize].m[r][c];
    let s2 = skins[joints[2] as usize].m[r][c];
    let s3 = skins[joints[3] as usize].m[r][c];
    proof {
        assert(joints[0] < skins@.len() && joints[1] < skins@.len());
        assert(joints[2] < skins@.len() && joints[3] < skins@.len());
        assert(skins@[joints[0] as int].in_range() && skins@[joints[1] as int].in_range());
        assert(skins@[joints[2] as int].in_range() && skins@[joints[3] as int].in_range());
        assert(within(skins@[joints[0] as int].at(r as int, c as int), SKIN_LIMIT as int));
        assert(within(skins@[joints[1] as int].at(r as int, c as int), SKIN_LIMIT as int));
        assert(within(skins@[joints[2] as int].at(r as int, c as int), SKIN_LIMIT as int));
        assert(within(skins@[joints[3] as int].at(r as int, c as int), SKIN_LIMIT as int));
        assert(within(weights[0] as int, ONE as int) && within(weights[1] as int, ONE as int));
        assert(within(weights[2] as int, ONE as int) && within(weights[3] as int, ONE as int));
        lemma_mul_within(weights[0] as int, s0 as int, ONE as int, SKIN_LIMIT as int);
        lemma_mul_within(weights[1] as int, s1 as int, ONE as int, SKIN_LIMIT as int);
        lemma_mul_within(weights[2] as int, s2 as int, ONE as int, SKIN_LIMIT as int);
        lemma_mul_within(weights[3] as int, s3 as int, ONE as int, SKIN_LIMIT as int);
    }
    (weights[0] as i128) * (s0 as i128) + (weights[1] as i128) * (s1 as i128) + (weights[2] as i128) * (s2 as i128)
        + (weights[3] as i128) * (s3 as i128)
}

fn blend_row(skins: &Vec<SkinMatrix>, joints: &[u16; 4], weights: &[i64; 4], r: usize) -> (row: [i128; 4])
    requires
        skins_in_range(skins@),
        joints_below(*joints, skins@.len() as int),
        weights_in_range(*weights),
        r < 4,
    ensures
        forall|c: int| 0 <= c < 4 ==> #[trigger] row[c] == blend_at(skins@, *joints, *weights, r as int, c),
        forall|c: int| 0 <= c < 4 ==> within(#[trigger] row[c] as int, blend_limit()),
{
    [
        blend_entry(skins, joints, weights, r, 0),
        blend_entry(skins, joints, weights, r, 1),
        blend_entry(skins, joints, weights, r, 2),
        blend_entry(skins, joints, weights, r, 3),
    ]
}

/// Blends the skin matrices that a vertex names, each scaled by its weight.
///
/// The weights are used as given: they are not renormalized.
pub fn skin_model(joint_matrices: &Vec<SkinMatrix>, indexes: &[u16; 4], weights: &[i64; 4]) -> (b: BlendMatrix)
    requires
        skins_in_range(joint_matrices@),
        joints_below(*indexes, joint_matrices@.len() as int),
        weights_in_range(*weights),
    ensures
        forall|r: int, c: int| 0 <= r < 4 && 0 <= c < 4 ==> #[trigger] b.at(r, c) == blend_at(joint_matrices@, *indexes, *weights, r, c),
        forall|r: int, c: int| 0 <= r < 4 && 0 <= c < 4 ==> within(#[trigger] b.at(r, c), blend_limit()),
{
    BlendMatrix {
        m: [
            blend_row(joint_matrices, indexes, weights, 0),
            blend_row(joint_matrices, indexes, weights, 1),
            blend_row(joint_matrices, indexes, weights, 2),
            blend_row(joint_matrices, indexes, weights, 3),
        ],
    }
}

/// The fixed-point scale of a blended product before it is brought back to points.
pub open spec fn blend_scale() -> int {
    (ONE as int) * (ONE as int) * (ONE as int)
}

/// Row `r` of the blend matrix applied to the homogeneous point, at the scale
/// `blend_scale() * ONE`.
pub open spec fn applied_at(b: BlendMatrix, p: Point3, r: int) -> int {
    b.at(r, 0) * p.hom(0) + b.at(r, 1) * p.hom(1) + b.at(r, 2) * p.hom(2) + b.at(r, 3) * p.hom(3)
}

/// `q` is `p` moved by `b`, each coordinate rounded down to the fixed-point grid.
pub open spec fn is_transformed(q: Point3, b: BlendMatrix, p: Point3) -> bool {
    &&& q.x == applied_at(b, p, 0) / blend_scale()
    &&& q.y == applied_at(b, p, 1) / blend_scale()
    &&& q.z == applied_at(b, p, 2) / blend_scale()
}

/// Every entry of `b` lies within `blend_limit()`.
pub open spec fn blend_in_range(b: BlendMatrix) -> bool {
    forall|r: int, c: int| 0 <= r < 4 && 0 <= c < 4 ==> within(#[trigger] b.at(r, c), blend_limit())
}

fn transform_coord(b: &BlendMatrix, p: &Point3, r: usize) -> (v: i64)
    requires
        blend_in_range(*b),
        p.in_range(),
        r < 3,
    ensures
        v == applied_at(*b, *p, r as int) / blend_scale(),
{
    let ghost ri = r as int;
    let ghost bl = blend_limit();
    let ghost el = ENTRY_LIMIT as int;
    proof {
        assert(within(b.at(ri, 0), bl) && within(b.at(ri, 1), bl));
        assert(within(b.at(ri, 2), bl) && within(b.at(ri, 3), bl));
        lemma_mul_within(b.at(ri, 0), p.hom(0), bl, el);
        lemma_mul_within(b.at(ri, 1), p.hom(1), bl, el);
        lemma_mul_within(b.at(ri, 2), p.hom(2), bl, el);
        lemma_mul_within(b.at(ri, 3), p.hom(3), bl, el);
    }
    let n: i128 = b.m[r][0] * (p.x as i128) + b.m[r][1] * (p.y as i128) + b.m[r][2] * (p.z as i128) + b.m[r][3]
        * (ONE as i128);
    proof {
        assert(n == applied_at(*b, *p, ri));
        lemma_div_within(n as int, blend_scale(), SKIN_LIMIT as int);
    }
    let d: i128 = (ONE as i128) * (ONE as i128) * (ONE as i128);
    match n.checked_div_euclid(d) {
        Some(q) => q as i64,
        None => {
            proof {
                assert(false);
            }
            0
        },
    }
}

/// Moves a bind-pose point by a blend matrix (the blend scale divided out,
/// rounding down).
pub fn transform_point(b: &BlendMatrix, p: &Point3) -> (q: Point3)
    requires
        blend_in_range(*b),
        p.in_range(),
    ensures
        is_transformed(q, *b, *p),
{
    Point3 { x: transform_coord(b, p, 0), y: transform_coord(b, p, 1), z: transform_coord(b, p, 2) }
}

/// Row `r` of the blended matrix applied to the homogeneous point `p`.
pub open spec fn blended_row_at(skins: Seq<SkinMatrix>, joints: [u16; 4], weights: [i64; 4], p: Point3, r: int) -> int {
    blend_at(skins, joints, weights, r, 0) * p.hom(0) + blend_at(skins, joints, weights, r, 1) * p.hom(1)
        + blend_at(skins, joints, weights, r, 2) * p.hom(2) + blend_at(skins, joints, weights, r, 3) * p.hom(3)
}

/// Coordinate `r` of the skinned position of bind-pose point `p`:
/// `(sum_k w_k * skin[j_k]) * p`, brought back to the fixed-point grid by
/// rounding down.
pub open spec fn skinned_coord(skins: Seq<SkinMatrix>, joints: [u16; 4], weights: [i64; 4], p: Point3, r: int) -> int {
    blended_row_at(skins, joints, weights, p, r) / blend_scale()
}

/// `q` is the skinned position of `p`.
pub open spec fn is_skinned(q: Point3, skins: Seq<SkinMatrix>, joints: [u16; 4], weights: [i64; 4], p: Point3) -> bool {
    &&& q.x == skinned_coord(skins, joints, weights, p, 0)
    &&& q.y == skinned_coord(skins, joints, weights, p, 1)
    &&& q.z == skinned_coord(skins, joints, weights, p, 2)
}

/// The world-space position of one vertex: its weighted blend of skin
/// matrices applied to its bind-pose position.
pub fn skin_vertex(skins: &Vec<SkinMatrix>, joints: &[u16; 4], weights: &[i64; 4], p: &Point3) -> (q: Point3)
    requires
        skins_in_range(skins@),
        joints_below(*joints, skins@.len() as int),
        weights_in_range(*weights),
        p.in_range(),
    ensures
        is_skinned(q, skins@, *joints, *weights, *p),
{
    let b = skin_model(skins, joints, weights);
    proof {
        assert forall|r: int, c: int| 0 <= r < 4 && 0 <= c < 4 implies within(#[trigger] b.at(r, c), blend_limit()) by {}
    }
    transform_point(&b, p)
}

/// The skin matrix that leaves every point where it is.
pub open spec fn is_identity_skin(s: SkinMatrix) -> bool {
    forall|r: int, c: int| 0 <= r < 4 && 0 <= c < 4 ==> #[trigger] s.at(r, c) == if r == c { (ONE as int) * (ONE as int) } else { 0 }
}

/// The sum of a vertex's four weights.
pub open spec fn weight_sum(weights: [i64; 4]) -> int {
    weights[0] + weights[1] + weights[2] + weights[3]
}

/// A vertex whose weights sum to one and whose joints all have the identity
/// skin matrix stays at its bind-pose position.
pub proof fn lemma_identity_invariance(skins: Seq<SkinMatrix>, joints: [u16; 4], weights: [i64; 4], p: Point3)
    requires
        joints_below(joints, skins.len() as int),
        weight_sum(weights) == ONE,
        forall|k: int| 0 <= k < 4 ==> is_identity_skin(#[trigger] skins[joints[k] as int]),
    ensures
        forall|r: int| 0 <= r < 3 ==> #[trigger] skinned_coord(skins, joints, weights, p, r) == p.hom(r),
{
    assert(is_identity_skin(skins[joints[0] as int]) && is_identity_skin(skins[joints[1] as int]));
    assert(is_identity_skin(skins[joints[2] as int]) && is_identity_skin(skins[joints[3] as int]));
    assert forall|r: int| 0 <= r < 3 implies #[trigger] skinned_coord(skins, joints, weights, p, r) == p.hom(r) by {
        assert forall|c: int| 0 <= c < 4 implies #[trigger] blend_at(skins, joints, weights, r, c) == if r == c {
            blend_scale()
        } else {
            0
        } by {
            assert(skins[joints[0] as int].at(r, c) == skins[joints[1] as int].at(r, c));
            assert(skins[joints[0] as int].at(r, c) == skins[joints[2] as int].at(r, c));
            assert(skins[joints[0] as int].at(r, c) == skins[joints[3] as int].at(r, c));
        }
        assert(blended_row_at(skins, joints, weights, p, r) == blend_scale() * p.hom(r));
        vstd::arithmetic::div_mod::lemma_div_multiples_vanish(p.hom(r), blend_scale());
    }
}

/// A vertex held by one joint alone (weights `(1, 0, 0, 0)`) lands where
/// that joint's `world * inverse_bindpose` takes its bind-pose position.
pub proof fn lemma_single_influence(
    skins: Seq<SkinMatrix>,
    joints: [u16; 4],
    weights: [i64; 4],
    p: Point3,
    world: Mat4,
    inverse_bindpose: Mat4,
)
    requires
        joints_below(joints, skins.len() as int),
        weights[0] == ONE && weights[1] == 0 && weights[2] == 0 && weights[3] == 0,
        is_skin_of(skins[joints[0] as int], world, inverse_bindpose),
    ensures
        forall|r: int| 0 <= r < 3 ==> #[trigger] skinned_coord(skins, joints, weights, p, r) == (product_at(
            world,
            inverse_bindpose,
            r,
            0,
        ) * p.hom(0) + product_at(world, inverse_bindpose, r, 1) * p.hom(1) + product_at(world, inverse_bindpose, r, 2)
            * p.hom(2) + product_at(world, inverse_bindpose, r, 3) * p.hom(3)) / ((ONE as int) * (ONE as int)),
{
    let o = ONE as int;
    assert forall|r: int| 0 <= r < 3 implies #[trigger] skinned_coord(skins, joints, weights, p, r) == (product_at(
        world,
        inverse_bindpose,
        r,
        0,
    ) * p.hom(0) + product_at(world, inverse_bindpose, r, 1) * p.hom(1) + product_at(world, inverse_bindpose, r, 2)
        * p.hom(2) + product_at(world, inverse_bindpose, r, 3) * p.hom(3)) / (o * o) by {
        let x = product_at(world, inverse_bindpose, r, 0) * p.hom(0) + product_at(world, inverse_bindpose, r, 1) * p.hom(1)
            + product_at(world, inverse_bindpose, r, 2) * p.hom(2) + product_at(world, inverse_bindpose, r, 3) * p.hom(3);
        assert forall|c: int| 0 <= c < 4 implies #[trigger] blend_at(skins, joints, weights, r, c) == o * product_at(
            world,
            inverse_bindpose,
            r,
            c,
        ) by {}
        let a0 = product_at(world, inverse_bindpose, r, 0);
        let a1 = product_at(world, inverse_bindpose, r, 1);
        let a2 = product_at(world, inverse_bindpose, r, 2);
        let a3 = product_at(world, inverse_bindpose, r, 3);
        assert((o * a0) * p.hom(0) + (o * a1) * p.hom(1) + (o * a2) * p.hom(2) + (o * a3) * p.hom(3) == o * x)
            by (nonlinear_arith)
            requires
                x == a0 * p.hom(0) + a1 * p.hom(1) + a2 * p.hom(2) + a3 * p.hom(3),
        ;
        assert(blended_row_at(skins, joints, weights, p, r) == o * x);
        lemma_div_cancel(x, o, o * o);
        assert(o * (o * o) == blend_scale());
    }
}

/// Blending is linear in the skin matrices: blending matrices interpolated
/// entry by entry with parameter `t` (at scale `ONE`) gives the same
/// interpolation of the two blends.
pub proof fn lemma_blend_linear(
    a: Seq<SkinMatrix>,
    b: Seq<SkinMatrix>,
    mixed: Seq<SkinMatrix>,
    joints: [u16; 4],
    weights: [i64; 4],
    t: int,
)
    requires
        a.len() == b.len() && b.len() == mixed.len(),
        joints_below(joints, a.len() as int),
        forall|k: int, r: int, c: int|
            0 <= k < a.len() && 0 <= r < 4 && 0 <= c < 4 ==> #[trigger] mixed[k].at(r, c) == (ONE - t) * a[k].at(r, c) + t
                * b[k].at(r, c),
    ensures
        forall|r: int, c: int|
            0 <= r < 4 && 0 <= c < 4 ==> #[trigger] blend_at(mixed, joints, weights, r, c) == (ONE - t) * blend_at(
                a,
                joints,
                weights,
                r,
                c,
            ) + t * blend_at(b, joints, weights, r, c),
{
    assert forall|r: int, c: int| 0 <= r < 4 && 0 <= c < 4 implies #[trigger] blend_at(mixed, joints, weights, r, c) == (
    ONE - t) * blend_at(a, joints, weights, r, c) + t * blend_at(b, joints, weights, r, c) by {
        let u = ONE - t;
        let j0 = joints[0] as int;
        let j1 = joints[1] as int;
        let j2 = joints[2] as int;
        let j3 = joints[3] as int;
        assert(j0 < a.len() && j1 < a.len() && j2 < a.len() && j3 < a.len());
        assert(mixed[j0].at(r, c) == u * a[j0].at(r, c) + t * b[j0].at(r, c));
        assert(mixed[j1].at(r, c) == u * a[j1].at(r, c) + t * b[j1].at(r, c));
        assert(mixed[j2].at(r, c) == u * a[j2].at(r, c) + t * b[j2].at(r, c));
        assert(mixed[j3].at(r, c) == u * a[j3].at(r, c) + t * b[j3].at(r, c));
        lemma_weighted_mix(weights[0] as int, a[j0].at(r, c), b[j0].at(r, c), u, t);
        lemma_weighted_mix(weights[1] as int, a[j1].at(r, c), b[j1].at(r, c), u, t);
        lemma_weighted_mix(weights[2] as int, a[j2].at(r, c), b[j2].at(r, c), u, t);
        lemma_weighted_mix(weights[3] as int, a[j3].at(r, c), b[j3].at(r, c), u, t);
        let wa0 = weights[0] * a[j0].at(r, c);
        let wa1 = weights[1] * a[j1].at(r, c);
        let wa2 = weights[2] * a[j2].at(r, c);
        let wa3 = weights[3] * a[j3].at(r, c);
        let wb0 = weights[0] * b[j0].at(r, c);
        let wb1 = weights[1] * b[j1].at(r, c);
        let wb2 = weights[2] * b[j2].at(r, c);
        let wb3 = weights[3] * b[j3].at(r, c);
        assert(u * (wa0 + wa1 + wa2 + wa3) + t * (wb0 + wb1 + wb2 + wb3) == (u * wa0 + t * wb0) + (u * wa1 + t * wb1) + (u
            * wa2 + t * wb2) + (u * wa3 + t * wb3)) by (nonlinear_arith);
    }
}

proof fn lemma_weighted_mix(w: int, x: int, y: int, u: int, t: int)
    ensures
        w * (u * x + t * y) == u * (w * x) + t * (w * y),
{
    assert(w * (u * x + t * y) == u * (w * x) + t * (w * y)) by (nonlinear_arith);
}

} // verus!
