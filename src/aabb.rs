use vstd::prelude::*;
use crate::matrix::Point3;

verus! {

/// An axis-aligned box given by its least and greatest corner.
#[derive(Clone, Copy, Debug, PartialEq, Eq, Structural)]
pub struct Aabb {
    pub min: Point3,
    pub max: Point3,
}

impl Aabb {
    /// Coordinate `axis` of the centre, rounded down.
    pub open spec fn center_at(self, axis: int) -> int {
        (self.min.hom(axis) + self.max.hom(axis)) / 2
    }

    /// Coordinate `axis` of the half-extents, rounded down.
    pub open spec fn half_extent_at(self, axis: int) -> int {
        (self.max.hom(axis) - self.min.hom(axis)) / 2
    }

    /// The centre of the box, `(min + max) / 2` rounded down.
    pub fn center(&self) -> (c: Point3)
        requires
            self.min.x <= self.max.x && self.min.y <= self.max.y && self.min.z <= self.max.z,
        ensures
            c.x == self.center_at(0) && c.y == self.center_at(1) && c.z == self.center_at(2),
    {
        Point3 {
            x: mid(self.min.x, self.max.x),
            y: mid(self.min.y, self.max.y),
            z: mid(self.min.z, self.max.z),
        }
    }

    /// The half-extents of the box, `(max - min) / 2` rounded down.
    pub fn half_extents(&self) -> (h: Point3)
        requires
            self.min.x <= self.max.x && self.min.y <= self.max.y && self.min.z <= self.max.z,
        ensures
            h.x == self.half_extent_at(0) && h.y == self.half_extent_at(1) && h.z == self.half_extent_at(2),
    {
        Point3 {
            x: half_span(self.min.x, self.max.x),
            y: half_span(self.min.y, self.max.y),
            z: half_span(self.min.z, self.max.z),
        }
    }
}

fn mid(a: i64, b: i64) -> (m: i64)
    requires
        a <= b,
    ensures
        m == (a + b) / 2,
{
    let s: i128 = a as i128 + b as i128;
    match s.checked_div_euclid(2) {
        Some(q) => q as i64,
        None => {
            proof {
                assert(false);
            }
            0
        },
    }
}

fn half_span(a: i64, b: i64) -> (h: i64)
    requires
        a <= b,
    ensures
        h == (b - a) / 2,
{
    let s: i128 = b as i128 - a as i128;
    match s.checked_div_euclid(2) {
        Some(q) => q as i64,
        None => {
            proof {
                assert(false);
            }
            0
        },
    }
}

/// `v` is the least coordinate on `axis` of the points of `s`.
pub open spec fn is_least(v: int, s: Seq<Point3>, axis: int) -> bool {
    &&& forall|k: int| 0 <= k < s.len() ==> v <= #[trigger] s[k].hom(axis)
    &&& exists|k: int| 0 <= k < s.len() && s[k].hom(axis) == v
}

/// `v` is the greatest coordinate on `axis` of the points of `s`.
pub open spec fn is_greatest(v: int, s: Seq<Point3>, axis: int) -> bool {
    &&& forall|k: int| 0 <= k < s.len() ==> #[trigger] s[k].hom(axis) <= v
    &&& exists|k: int| 0 <= k < s.len() && s[k].hom(axis) == v
}

/// `b` is the smallest axis-aligned box that holds every point of `s`.
pub open spec fn is_bounds_of(b: Aabb, s: Seq<Point3>) -> bool {
    &&& is_least(b.min.x as int, s, 0) && is_greatest(b.max.x as int, s, 0)
    &&& is_least(b.min.y as int, s, 1) && is_greatest(b.max.y as int, s, 1)
    &&& is_least(b.min.z as int, s, 2) && is_greatest(b.max.z as int, s, 2)
}

/// `r` is the bounding box of `s`: none for no points, the tight box otherwise.
pub open spec fn is_aabb_result(r: Option<Aabb>, s: Seq<Point3>) -> bool {
    &&& (r is None <==> s.len() == 0)
    &&& (r matches Some(b) ==> is_bounds_of(b, s))
}

/// Computes the axis-aligned bounding box of `values` in one pass; `None`
/// when there are no values.
pub fn compute_aabb(values: &[Point3]) -> (r: Option<Aabb>)
    ensures
        is_aabb_result(r, values@),
{
    let n = values.len();
    if n == 0 {
        return None;
    }
    let mut lo = values[0];
    let mut hi = values[0];
    let ghost mut w: Seq<int> = seq![0int, 0int, 0int, 0int, 0int, 0int];
    let mut i: usize = 1;
    while i < n
        invariant
            n == values@.len(),
            1 <= i <= n,
            w.len() == 6,
            forall|j: int| 0 <= j < 6 ==> 0 <= #[trigger] w[j] < i,
            values@[w[0]].x == lo.x && values@[w[1]].y == lo.y && values@[w[2]].z == lo.z,
            values@[w[3]].x == hi.x && values@[w[4]].y == hi.y && values@[w[5]].z == hi.z,
            forall|k: int| 0 <= k < i ==> lo.x <= (#[trigger] values@[k]).x && lo.y <= values@[k].y && lo.z <= values@[k].z,
            forall|k: int| 0 <= k < i ==> hi.x >= (#[trigger] values@[k]).x && hi.y >= values@[k].y && hi.z >= values@[k].z,
        decreases n - i,
    {
        let p = values[i];
        if p.x < lo.x {
            lo.x = p.x;
            proof { w = w.update(0, i as int); }
        }
        if p.y < lo.y {
            lo.y = p.y;
            proof { w = w.update(1, i as int); }
        }
        if p.z < lo.z {
            lo.z = p.z;
            proof { w = w.update(2, i as int); }
        }
        if p.x > hi.x {
            hi.x = p.x;
            proof { w = w.update(3, i as int); }
        }
        if p.y > hi.y {
            hi.y = p.y;
            proof { w = w.update(4, i as int); }
        }
        if p.z > hi.z {
            hi.z = p.z;
            proof { w = w.update(5, i as int); }
        }
        i += 1;
    }
    let b = Aabb { min: lo, max: hi };
    proof {
        let s = values@;
        assert(s[w[0]].hom(0) == lo.x);
        assert(s[w[1]].hom(1) == lo.y);
        assert(s[w[2]].hom(2) == lo.z);
        assert(s[w[3]].hom(0) == hi.x);
        assert(s[w[4]].hom(1) == hi.y);
        assert(s[w[5]].hom(2) == hi.z);
        assert(forall|k: int| 0 <= k < s.len() ==> lo.x <= (#[trigger] s[k]).hom(0) <= hi.x);
        assert(forall|k: int| 0 <= k < s.len() ==> lo.y <= (#[trigger] s[k]).hom(1) <= hi.y);
        assert(forall|k: int| 0 <= k < s.len() ==> lo.z <= (#[trigger] s[k]).hom(2) <= hi.z);
    }
    Some(b)
}

/// Bounding boxes do not depend on the order of the points: two sequences
/// that hold the same points, each as often, get the same result.
pub proof fn lemma_aabb_order_independent(s1: Seq<Point3>, s2: Seq<Point3>, r1: Option<Aabb>, r2: Option<Aabb>)
    requires
        s1.to_multiset() == s2.to_multiset(),
        is_aabb_result(r1, s1),
        is_aabb_result(r2, s2),
    ensures
        r1 == r2,
{
    s1.to_multiset_ensures();
    s2.to_multiset_ensures();
    if let Some(b1) = r1 {
        let b2 = r2->Some_0;
        lemma_bounds_transfer(b1, s1, s2);
        lemma_bounds_unique(b1, b2, s2);
    }
}

/// Each point of `s1` is a point of `s2` and back: a box of `s1` bounds `s2`.
proof fn lemma_bounds_transfer(b: Aabb, s1: Seq<Point3>, s2: Seq<Point3>)
    requires
        s1.to_multiset() == s2.to_multiset(),
        is_bounds_of(b, s1),
    ensures
        is_bounds_of(b, s2),
{
    s1.to_multiset_ensures();
    s2.to_multiset_ensures();
    assert forall|k: int| 0 <= k < s2.len() implies s1.contains(#[trigger] s2[k]) by {
        assert(s2.contains(s2[k]));
        assert(s2.to_multiset().count(s2[k]) > 0);
    }
    assert forall|k: int| 0 <= k < s1.len() implies s2.contains(#[trigger] s1[k]) by {
        assert(s1.contains(s1[k]));
        assert(s1.to_multiset().count(s1[k]) > 0);
    }
    assert forall|axis: int| 0 <= axis < 3 implies
        is_least(b.min.hom(axis), s2, axis) && is_greatest(b.max.hom(axis), s2, axis) by {
        assert(is_least(b.min.hom(axis), s1, axis) && is_greatest(b.max.hom(axis), s1, axis));
        assert forall|k: int| 0 <= k < s2.len() implies b.min.hom(axis) <= #[trigger] s2[k].hom(axis) <= b.max.hom(axis) by {
            assert(s1.contains(s2[k]));
            let j = choose|j: int| 0 <= j < s1.len() && s1[j] == s2[k];
            assert(b.min.hom(axis) <= s1[j].hom(axis) <= b.max.hom(axis));
        }
        let lo = choose|k: int| 0 <= k < s1.len() && s1[k].hom(axis) == b.min.hom(axis);
        let hi = choose|k: int| 0 <= k < s1.len() && s1[k].hom(axis) == b.max.hom(axis);
        assert(s2.contains(s1[lo]));
        assert(s2.contains(s1[hi]));
    }
    assert(is_least(b.min.hom(0), s2, 0) && is_greatest(b.max.hom(0), s2, 0));
    assert(is_least(b.min.hom(1), s2, 1) && is_greatest(b.max.hom(1), s2, 1));
    assert(is_least(b.min.hom(2), s2, 2) && is_greatest(b.max.hom(2), s2, 2));
}

/// A sequence has one bounding box.
proof fn lemma_bounds_unique(b1: Aabb, b2: Aabb, s: Seq<Point3>)
    requires
        is_bounds_of(b1, s),
        is_bounds_of(b2, s),
    ensures
        b1 == b2,
{
    assert forall|axis: int| 0 <= axis < 3 implies b1.min.hom(axis) == b2.min.hom(axis) && b1.max.hom(axis) == b2.max.hom(axis) by {
        assert(is_least(b1.min.hom(axis), s, axis) && is_greatest(b1.max.hom(axis), s, axis));
        assert(is_least(b2.min.hom(axis), s, axis) && is_greatest(b2.max.hom(axis), s, axis));
        let i1 = choose|k: int| 0 <= k < s.len() && s[k].hom(axis) == b1.min.hom(axis);
        let i2 = choose|k: int| 0 <= k < s.len() && s[k].hom(axis) == b2.min.hom(axis);
        let j1 = choose|k: int| 0 <= k < s.len() && s[k].hom(axis) == b1.max.hom(axis);
        let j2 = choose|k: int| 0 <= k < s.len() && s[k].hom(axis) == b2.max.hom(axis);
        assert(s[i1].hom(axis) >= b2.min.hom(axis));
        assert(s[i2].hom(axis) >= b1.min.hom(axis));
        assert(s[j1].hom(axis) <= b2.max.hom(axis));
        assert(s[j2].hom(axis) <= b1.max.hom(axis));
    }
    assert(b1.min.hom(0) == b2.min.hom(0) && b1.min.hom(1) == b2.min.hom(1) && b1.min.hom(2) == b2.min.hom(2));
    assert(b1.max.hom(0) == b2.max.hom(0) && b1.max.hom(1) == b2.max.hom(1) && b1.max.hom(2) == b2.max.hom(2));
}

/// The box of a single point is that point: its centre is the point and its
/// half-extents are zero.
pub proof fn lemma_aabb_single_point(p: Point3, b: Aabb)
    requires
        is_bounds_of(b, seq![p]),
    ensures
        b.min == p,
        b.max == p,
        forall|axis: int| 0 <= axis < 3 ==> #[trigger] b.center_at(axis) == p.hom(axis) && b.half_extent_at(axis) == 0,
{
    let s = seq![p];
    assert(s[0] == p);
    assert(is_least(b.min.hom(0), s, 0) && is_greatest(b.max.hom(0), s, 0));
    assert(is_least(b.min.hom(1), s, 1) && is_greatest(b.max.hom(1), s, 1));
    assert(is_least(b.min.hom(2), s, 2) && is_greatest(b.max.hom(2), s, 2));
    assert(b.min.x <= p.x <= b.max.x && b.min.y <= p.y <= b.max.y && b.min.z <= p.z <= b.max.z);
    assert(b.min.x == p.x && b.max.x == p.x) by {
        let i = choose|k: int| 0 <= k < s.len() && s[k].hom(0) == b.min.hom(0);
        let j = choose|k: int| 0 <= k < s.len() && s[k].hom(0) == b.max.hom(0);
        assert(i == 0 && j == 0);
    }
    assert(b.min.y == p.y && b.max.y == p.y) by {
        let i = choose|k: int| 0 <= k < s.len() && s[k].hom(1) == b.min.hom(1);
        let j = choose|k: int| 0 <= k < s.len() && s[k].hom(1) == b.max.hom(1);
        assert(i == 0 && j == 0);
    }
    assert(b.min.z == p.z && b.max.z == p.z) by {
        let i = choose|k: int| 0 <= k < s.len() && s[k].hom(2) == b.min.hom(2);
        let j = choose|k: int| 0 <= k < s.len() && s[k].hom(2) == b.max.hom(2);
        assert(i == 0 && j == 0);
    }
}

} // verus!
