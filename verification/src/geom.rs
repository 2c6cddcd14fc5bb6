//! Fixed-point 2D tile coordinates.
//!
//! One tile is `SCALE` subtile units; every gameplay position is stored in
//! subtile units, so a position is tile-aligned exactly when both components
//! are multiples of `SCALE`. Coordinates are kept within `±POS_LIMIT`, which
//! both models a finite world and keeps all arithmetic (including squared
//! distances) inside `i64`.

use vstd::prelude::*;

verus! {

/// Subtile units per tile.
pub const SCALE: i64 = 1000;

/// Largest coordinate magnitude, in subtile units, that any position,
/// waypoint or motion target may have.
pub const POS_LIMIT: i64 = 1_000_000_000;

/// Largest tile index the level loader accepts (so that a tile coordinate
/// times `SCALE` stays within `POS_LIMIT`).
pub const TILE_LIMIT: i64 = 1_000_000;

/// Largest speed, in subtile units per second.
pub const SPEED_LIMIT: i64 = 1_000_000;

/// Largest tick duration, in milliseconds (one day).
pub const DT_LIMIT: i64 = 86_400_000;

/// Milliseconds per second; a speed (subtiles/second) times a tick duration
/// (milliseconds) divided by this gives the distance covered in subtiles.
pub const MS_PER_S: i64 = 1000;

/// A 2D coordinate in subtile units.
#[derive(Clone, Copy, PartialEq, Eq, Structural, Debug)]
pub struct Vec2 {
    pub x: i64,
    pub y: i64,
}

impl Vec2 {
    /// Both components within `±POS_LIMIT`.
    pub open spec fn in_limit(self) -> bool {
        -POS_LIMIT <= self.x <= POS_LIMIT && -POS_LIMIT <= self.y <= POS_LIMIT
    }

    /// The position of tile `(tx, ty)` in subtile units.
    pub open spec fn spec_of_tile(tx: int, ty: int) -> Vec2 {
        Vec2 { x: (tx * SCALE) as i64, y: (ty * SCALE) as i64 }
    }

    /// The position of tile `(tx, ty)` in subtile units.
    pub fn of_tile(tx: i64, ty: i64) -> (r: Vec2)
        requires
            -TILE_LIMIT <= tx <= TILE_LIMIT,
            -TILE_LIMIT <= ty <= TILE_LIMIT,
        ensures
            r == Vec2::spec_of_tile(tx as int, ty as int),
            r.in_limit(),
    {
        Vec2 { x: tx * SCALE, y: ty * SCALE }
    }

    /// Squared Euclidean distance between `a` and `b`, in subtile units.
    pub open spec fn spec_dist2(a: Vec2, b: Vec2) -> int {
        (a.x - b.x) * (a.x - b.x) + (a.y - b.y) * (a.y - b.y)
    }

    /// Squared Euclidean distance between `a` and `b`.
    pub fn dist2(a: Vec2, b: Vec2) -> (r: i64)
        requires
            a.in_limit(),
            b.in_limit(),
        ensures
            r == Vec2::spec_dist2(a, b),
    {
        let dx: i64 = a.x - b.x;
        let dy: i64 = a.y - b.y;
        proof {
            assert(0 <= dx as int * dx as int <= 4_000_000_000_000_000_000) by (nonlinear_arith)
                requires
                    -2_000_000_000 <= dx as int <= 2_000_000_000,
            ;
            assert(0 <= dy as int * dy as int <= 4_000_000_000_000_000_000) by (nonlinear_arith)
                requires
                    -2_000_000_000 <= dy as int <= 2_000_000_000,
            ;
        }
        dx * dx + dy * dy
    }
}

/// The sign of `v`: -1, 0 or 1.
pub open spec fn spec_sign(v: int) -> int {
    if v > 0 {
        1
    } else if v < 0 {
        -1
    } else {
        0
    }
}

/// The component-wise sign of `to - from`: the unit direction (in the
/// Chebyshev sense) that leads from `from` toward `to`.
pub open spec fn spec_dir_toward(from: Vec2, to: Vec2) -> Vec2 {
    Vec2 { x: spec_sign(to.x - from.x) as i64, y: spec_sign(to.y - from.y) as i64 }
}

/// A direction vector whose components are each -1, 0 or 1.
pub open spec fn is_unit_dir(d: Vec2) -> bool {
    -1 <= d.x <= 1 && -1 <= d.y <= 1
}

/// The component-wise sign of `to - from`.
pub fn dir_toward(from: Vec2, to: Vec2) -> (r: Vec2)
    requires
        from.in_limit(),
        to.in_limit(),
    ensures
        r == spec_dir_toward(from, to),
        is_unit_dir(r),
{
    let dx: i64 = if to.x > from.x {
        1
    } else if to.x < from.x {
        -1
    } else {
        0
    };
    let dy: i64 = if to.y > from.y {
        1
    } else if to.y < from.y {
        -1
    } else {
        0
    };
    Vec2 { x: dx, y: dy }
}

} // verus!
