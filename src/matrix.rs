use vstd::prelude::*;
use crate::fixed::{ONE, ENTRY_LIMIT, within};

verus! {

/// A point whose coordinates are fixed-point values.
#[derive(Clone, Copy, Debug, PartialEq, Eq, Structural)]
pub struct Point3 {
    pub x: i64,
    pub y: i64,
    pub z: i64,
}

impl Point3 {
    /// Coordinate `i` of the homogeneous point `(x, y, z, 1)`.
    pub open spec fn hom(self, i: int) -> int {
        if i == 0 {
            self.x as int
        } else if i == 1 {
            self.y as int
        } else if i == 2 {
            self.z as int
        } else {
            ONE as int
        }
    }

    /// Whether every coordinate lies within `ENTRY_LIMIT`.
    pub fn fits(&self) -> (r: bool)
        ensures
            r == self.in_range(),
    {
        -ENTRY_LIMIT <= self.x && self.x <= ENTRY_LIMIT && -ENTRY_LIMIT <= self.y && self.y <= ENTRY_LIMIT
            && -ENTRY_LIMIT <= self.z && self.z <= ENTRY_LIMIT
    }

    /// Every coordinate lies within `ENTRY_LIMIT`.
    pub open spec fn in_range(self) -> bool {
        within(self.x as int, ENTRY_LIMIT as int) && within(self.y as int, ENTRY_LIMIT as int) && within(
            self.z as int,
            ENTRY_LIMIT as int,
        )
    }
}

/// A row-major affine transform in fixed point: `m[r][c]` is row `r`, column `c`.
#[derive(Clone, Copy, Debug)]
pub struct Mat4 {
    pub m: [[i64; 4]; 4],
}

impl Mat4 {
    /// Entry at row `r`, column `c`.
    pub open spec fn at(self, r: int, c: int) -> int {
        self.m[r][c] as int
    }

    /// Every entry lies within `ENTRY_LIMIT`.
    pub open spec fn in_range(self) -> bool {
        forall|r: int, c: int| 0 <= r < 4 && 0 <= c < 4 ==> within(#[trigger] self.at(r, c), ENTRY_LIMIT as int)
    }

    /// Whether every entry lies within `ENTRY_LIMIT`.
    pub fn fits(&self) -> (r: bool)
        ensures
            r == self.in_range(),
    {
        let mut r: usize = 0;
        while r < 4
            invariant
                r <= 4,
                forall|i: int, j: int| 0 <= i < r && 0 <= j < 4 ==> within(#[trigger] self.at(i, j), ENTRY_LIMIT as int),
            decreases 4 - r,
        {
            let mut c: usize = 0;
            while c < 4
                invariant
                    r < 4,
                    c <= 4,
                    forall|i: int, j: int| 0 <= i < r && 0 <= j < 4 ==> within(#[trigger] self.at(i, j), ENTRY_LIMIT as int),
                    forall|j: int| 0 <= j < c ==> within(#[trigger] self.at(r as int, j), ENTRY_LIMIT as int),
                decreases 4 - c,
            {
                let v = self.m[r][c];
                if v < -ENTRY_LIMIT || v > ENTRY_LIMIT {
                    proof {
                        assert(!within(self.at(r as int, c as int), ENTRY_LIMIT as int));
                    }
                    return false;
                }
                c += 1;
            }
            r += 1;
        }
        true
    }

    /// The identity transform.
    pub fn identity() -> (r: Mat4)
        ensures
            forall|i: int, j: int| 0 <= i < 4 && 0 <= j < 4 ==> #[trigger] r.at(i, j) == if i == j { ONE as int } else { 0 },
    {
        Mat4 { m: [[ONE, 0, 0, 0], [0, ONE, 0, 0], [0, 0, ONE, 0], [0, 0, 0, ONE]] }
    }
}

} // verus!
