use skinning::aabb::{compute_aabb, Aabb};
use skinning::binding::{skin_matrices, transforms_fit, SkinBinding, SkinError};
use skinning::fixed::{ENTRY_LIMIT, ONE};
use skinning::matrix::{Mat4, Point3};
use skinning::mesh::{skin_vertices, skinned_vertex_locations, VertexAttributes};
use skinning::skin::{skin_matrix, skin_model, skin_vertex, transform_point, BlendMatrix, SkinMatrix};

const HALF: i64 = ONE / 2;
const QUARTER: i64 = ONE / 4;

fn pt(x: i64, y: i64, z: i64) -> Point3 {
    Point3 { x, y, z }
}

fn translation(x: i64, y: i64, z: i64) -> Mat4 {
    Mat4 { m: [[ONE, 0, 0, x], [0, ONE, 0, y], [0, 0, ONE, z], [0, 0, 0, ONE]] }
}

/// A quarter turn about the Z axis: (x, y) goes to (-y, x).
fn rotation_z_quarter() -> Mat4 {
    Mat4 { m: [[0, -ONE, 0, 0], [ONE, 0, 0, 0], [0, 0, ONE, 0], [0, 0, 0, ONE]] }
}

fn strip_attributes() -> VertexAttributes {
    let positions = vec![
        pt(0, 0, 0),
        pt(ONE, 0, 0),
        pt(0, HALF, 0),
        pt(ONE, HALF, 0),
        pt(0, ONE, 0),
        pt(ONE, ONE, 0),
        pt(0, ONE + HALF, 0),
        pt(ONE, ONE + HALF, 0),
        pt(0, 2 * ONE, 0),
        pt(ONE, 2 * ONE, 0),
    ];
    let joint_indices = vec![
        [0u16, 0, 0, 0],
        [0, 0, 0, 0],
        [0, 1, 0, 0],
        [0, 1, 0, 0],
        [0, 1, 0, 0],
        [0, 1, 0, 0],
        [0, 1, 0, 0],
        [0, 1, 0, 0],
        [0, 1, 0, 0],
        [0, 1, 0, 0],
    ];
    let joint_weights = vec![
        [ONE, 0, 0, 0],
        [ONE, 0, 0, 0],
        [3 * QUARTER, QUARTER, 0, 0],
        [3 * QUARTER, QUARTER, 0, 0],
        [HALF, HALF, 0, 0],
        [HALF, HALF, 0, 0],
        [QUARTER, 3 * QUARTER, 0, 0],
        [QUARTER, 3 * QUARTER, 0, 0],
        [0, ONE, 0, 0],
        [0, ONE, 0, 0],
    ];
    VertexAttributes {
        positions: Some(positions),
        joint_indices: Some(joint_indices),
        joint_weights: Some(joint_weights),
    }
}

fn strip_binding() -> SkinBinding {
    let ibp = translation(-HALF, -ONE, 0);
    SkinBinding::new(vec![0, 1], vec![ibp, ibp]).unwrap()
}

#[test]
fn end_to_end_two_joint_strip() {
    let world = vec![Some(Mat4::identity()), Some(rotation_z_quarter())];
    let frame = skinned_vertex_locations(&strip_binding(), &world, &strip_attributes()).unwrap();
    let expected = vec![
        pt(-HALF, -ONE, 0),
        pt(HALF, -ONE, 0),
        pt(-QUARTER, -HALF, 0),
        pt(HALF, -QUARTER, 0),
        pt(-QUARTER, -QUARTER, 0),
        pt(QUARTER, QUARTER, 0),
        pt(-HALF, -QUARTER, 0),
        pt(-QUARTER, HALF, 0),
        pt(-ONE, -HALF, 0),
        pt(-ONE, HALF, 0),
    ];
    assert_eq!(frame.positions, expected);
    let b = frame.aabb.unwrap();
    assert_eq!(b.min, pt(-ONE, -ONE, 0));
    assert_eq!(b.max, pt(HALF, HALF, 0));
    assert_eq!(b.center(), pt(-QUARTER, -QUARTER, 0));
    assert_eq!(b.half_extents(), pt(3 * QUARTER, 3 * QUARTER, 0));
    for p in &frame.positions {
        assert!(b.min.x <= p.x && p.x <= b.max.x);
        assert!(b.min.y <= p.y && p.y <= b.max.y);
        assert!(b.min.z <= p.z && p.z <= b.max.z);
    }
}

#[test]
fn strip_at_rest_only_moves_by_inverse_bind_pose() {
    let world = vec![Some(Mat4::identity()), Some(Mat4::identity())];
    let attrs = strip_attributes();
    let frame = skinned_vertex_locations(&strip_binding(), &world, &attrs).unwrap();
    let positions = attrs.positions.unwrap();
    for (q, p) in frame.positions.iter().zip(positions.iter()) {
        assert_eq!(*q, pt(p.x - HALF, p.y - ONE, p.z));
    }
}

#[test]
fn missing_joint_transform_is_signalled() {
    let world = vec![Some(Mat4::identity()), None];
    let r = skinned_vertex_locations(&strip_binding(), &world, &strip_attributes());
    assert_eq!(r.unwrap_err(), SkinError::MissingJointTransform { slot: 1 });
}

#[test]
fn dangling_joint_handle_is_missing_transform() {
    let world = vec![Some(Mat4::identity())];
    let r = skin_matrices(&strip_binding(), &world);
    assert_eq!(r.unwrap_err(), SkinError::MissingJointTransform { slot: 1 });
    let binding = SkinBinding::new(vec![3, 0], vec![Mat4::identity(), Mat4::identity()]).unwrap();
    let world = vec![None, Some(Mat4::identity())];
    assert_eq!(skin_matrices(&binding, &world).unwrap_err(), SkinError::MissingJointTransform { slot: 0 });
}

#[test]
fn missing_vertex_attribute_is_signalled() {
    let world = vec![Some(Mat4::identity()), Some(Mat4::identity())];
    let mut attrs = strip_attributes();
    attrs.joint_weights = None;
    let r = skinned_vertex_locations(&strip_binding(), &world, &attrs);
    assert_eq!(r.unwrap_err(), SkinError::MissingVertexAttribute);

    let mut attrs = strip_attributes();
    attrs.positions.as_mut().unwrap().pop();
    let r = skinned_vertex_locations(&strip_binding(), &world, &attrs);
    assert_eq!(r.unwrap_err(), SkinError::MissingVertexAttribute);

    let mut attrs = strip_attributes();
    attrs.positions = None;
    let r = skinned_vertex_locations(&strip_binding(), &vec![], &attrs);
    assert_eq!(r.unwrap_err(), SkinError::MissingVertexAttribute);
}

#[test]
fn joint_index_out_of_range_is_signalled() {
    let world = vec![Some(Mat4::identity()), Some(Mat4::identity())];
    let mut attrs = strip_attributes();
    attrs.joint_indices.as_mut().unwrap()[4] = [0, 2, 0, 0];
    attrs.joint_indices.as_mut().unwrap()[7] = [5, 0, 0, 0];
    let r = skinned_vertex_locations(&strip_binding(), &world, &attrs);
    assert_eq!(r.unwrap_err(), SkinError::JointIndexOutOfRange { vertex: 4 });
}

#[test]
fn value_out_of_range_is_signalled() {
    let world = vec![Some(Mat4::identity()), Some(translation(ENTRY_LIMIT + 1, 0, 0))];
    assert!(!transforms_fit(&world));
    let r = skinned_vertex_locations(&strip_binding(), &world, &strip_attributes());
    assert_eq!(r.unwrap_err(), SkinError::ValueOutOfRange);

    let world = vec![Some(Mat4::identity()), Some(Mat4::identity())];
    let mut attrs = strip_attributes();
    attrs.joint_weights.as_mut().unwrap()[0] = [ONE + 1, 0, 0, 0];
    assert!(!attrs.fits());
    let r = skinned_vertex_locations(&strip_binding(), &world, &attrs);
    assert_eq!(r.unwrap_err(), SkinError::ValueOutOfRange);

    let mut attrs = strip_attributes();
    attrs.positions.as_mut().unwrap()[2] = pt(0, -ENTRY_LIMIT - 1, 0);
    let r = skinned_vertex_locations(&strip_binding(), &world, &attrs);
    assert_eq!(r.unwrap_err(), SkinError::ValueOutOfRange);
}

#[test]
fn binding_needs_one_pose_per_joint() {
    assert!(SkinBinding::new(vec![0, 1], vec![Mat4::identity()]).is_none());
    let b = SkinBinding::new(vec![0], vec![Mat4::identity()]).unwrap();
    assert_eq!(b.joints, vec![0]);
    assert!(b.fits());
    let far = SkinBinding::new(vec![0], vec![translation(0, 0, ENTRY_LIMIT + 1)]).unwrap();
    assert!(!far.fits());
}

#[test]
fn identity_skins_keep_bind_pose() {
    let id = skin_matrix(&Mat4::identity(), &Mat4::identity());
    let skins = vec![id, id, id];
    let p = pt(3 * ONE + 7, -5 * ONE - 3, 123);
    let weights = [ONE / 8, 3 * QUARTER, ONE / 8, 0];
    let q = skin_vertex(&skins, &[0, 1, 2, 0], &weights, &p);
    assert_eq!(q, p);
}

#[test]
fn single_influence_matches_direct_transform() {
    let world = rotation_z_quarter();
    let ibp = translation(-HALF, -ONE, 0);
    let other = skin_matrix(&translation(9 * ONE, 9 * ONE, 9 * ONE), &Mat4::identity());
    let skins = vec![other, skin_matrix(&world, &ibp)];
    let p = pt(ONE, 2 * ONE, 3 * ONE);
    let q = skin_vertex(&skins, &[1, 0, 0, 0], &[ONE, 0, 0, 0], &p);
    // world * ibp takes (x, y, z) to (1 - y, x - 0.5, z)
    assert_eq!(q, pt(ONE - 2 * ONE, ONE - HALF, 3 * ONE));
}

fn mix(a: &SkinMatrix, b: &SkinMatrix, t: i64) -> SkinMatrix {
    let mut m = [[0i64; 4]; 4];
    for r in 0..4 {
        for c in 0..4 {
            m[r][c] = (ONE - t) * a.m[r][c] + t * b.m[r][c];
        }
    }
    SkinMatrix { m }
}

#[test]
fn blend_is_linear_in_skin_matrices() {
    let ibp = translation(-HALF, -ONE, 0);
    let rest = vec![skin_matrix(&Mat4::identity(), &ibp), skin_matrix(&Mat4::identity(), &ibp)];
    let turned = vec![skin_matrix(&Mat4::identity(), &ibp), skin_matrix(&rotation_z_quarter(), &ibp)];
    let t = QUARTER;
    let mixed = vec![mix(&rest[0], &turned[0], t), mix(&rest[1], &turned[1], t)];
    let joints = [0u16, 1, 0, 0];
    let weights = [HALF, HALF, 0, 0];
    let a = skin_model(&rest, &joints, &weights);
    let b = skin_model(&turned, &joints, &weights);
    let m = skin_model(&mixed, &joints, &weights);
    for r in 0..4 {
        for c in 0..4 {
            assert_eq!(m.m[r][c], (ONE - t) as i128 * a.m[r][c] + t as i128 * b.m[r][c]);
        }
    }
}

#[test]
fn skin_model_blends_weighted_matrices() {
    let s0 = skin_matrix(&translation(ONE, 0, 0), &Mat4::identity());
    let s1 = skin_matrix(&translation(0, 2 * ONE, 0), &Mat4::identity());
    let b = skin_model(&vec![s0, s1], &[0, 1, 1, 0], &[HALF, QUARTER, QUARTER, 0]);
    let o3 = (ONE as i128) * (ONE as i128) * (ONE as i128);
    assert_eq!(b.m[0][0], o3);
    assert_eq!(b.m[0][3], o3 / 2);
    assert_eq!(b.m[1][3], o3);
    assert_eq!(b.m[2][3], 0);
    assert_eq!(b.m[3][3], o3);
}

#[test]
fn skin_matrix_applies_inverse_bind_pose_first() {
    let s = skin_matrix(&rotation_z_quarter(), &translation(ONE, 0, 0));
    let o2 = ONE * ONE;
    // rotating after translating moves the translation to the Y axis
    assert_eq!(s.m[0][3], 0);
    assert_eq!(s.m[1][3], o2);
    let t = skin_matrix(&translation(ONE, 0, 0), &rotation_z_quarter());
    assert_eq!(t.m[0][3], o2);
    assert_eq!(t.m[1][3], 0);
}

#[test]
fn transform_rounds_down() {
    let mut m = [[0i128; 4]; 4];
    m[0][3] = -1;
    m[1][3] = 1;
    let q = transform_point(&BlendMatrix { m }, &pt(5, 6, 7));
    assert_eq!(q, pt(-1, 0, 0));
}

#[test]
fn skin_vertices_checks_joint_slots() {
    let id = skin_matrix(&Mat4::identity(), &Mat4::identity());
    let ps = vec![pt(1, 2, 3), pt(4, 5, 6)];
    let r = skin_vertices(&vec![id], &ps, &vec![[0, 0, 0, 0], [0, 0, 1, 0]], &vec![[ONE, 0, 0, 0], [ONE, 0, 0, 0]]);
    assert_eq!(r.unwrap_err(), SkinError::JointIndexOutOfRange { vertex: 1 });
    let r = skin_vertices(&vec![id], &ps, &vec![[0, 0, 0, 0], [0, 0, 0, 0]], &vec![[ONE, 0, 0, 0], [ONE, 0, 0, 0]]);
    assert_eq!(r.unwrap(), ps);
}

#[test]
fn aabb_order_independent() {
    let a = vec![pt(1, 5, -3), pt(-2, 0, 4), pt(7, -1, 2), pt(0, 0, 0)];
    let b = vec![pt(7, -1, 2), pt(0, 0, 0), pt(1, 5, -3), pt(-2, 0, 4)];
    let ra = compute_aabb(&a).unwrap();
    assert_eq!(ra, compute_aabb(&b).unwrap());
    assert_eq!(ra, Aabb { min: pt(-2, -1, -3), max: pt(7, 5, 4) });
}

#[test]
fn aabb_single_point() {
    let p = pt(3 * ONE, -ONE, 17);
    let b = compute_aabb(&[p]).unwrap();
    assert_eq!(b.center(), p);
    assert_eq!(b.half_extents(), pt(0, 0, 0));
}

#[test]
fn aabb_empty_is_none() {
    assert!(compute_aabb(&[]).is_none());
    let world = vec![Some(Mat4::identity())];
    let binding = SkinBinding::new(vec![0], vec![Mat4::identity()]).unwrap();
    let attrs = VertexAttributes { positions: Some(vec![]), joint_indices: Some(vec![]), joint_weights: Some(vec![]) };
    let frame = skinned_vertex_locations(&binding, &world, &attrs).unwrap();
    assert!(frame.positions.is_empty());
    assert!(frame.aabb.is_none());
}

#[test]
fn aabb_extreme_values() {
    let b = compute_aabb(&[pt(i64::MIN, 0, i64::MAX), pt(i64::MAX, 0, i64::MIN)]).unwrap();
    assert_eq!(b.center(), pt(-1, 0, -1));
    assert_eq!(b.half_extents(), pt(i64::MAX, 0, i64::MAX));
}

#[test]
fn fits_checks_limits() {
    assert!(Mat4::identity().fits());
    assert!(!translation(-ENTRY_LIMIT - 1, 0, 0).fits());
    assert!(pt(ENTRY_LIMIT, -ENTRY_LIMIT, 0).fits());
    assert!(!pt(0, 0, ENTRY_LIMIT + 1).fits());
}
