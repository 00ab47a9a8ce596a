use vstd::prelude::*;

verus! {

/// Milli-units per world unit: positions, velocities and angles are
/// fixed-point values measured in thousandths of a unit (or of a radian).
pub const MILLI: i64 = 1000;

/// Half-extent of the player ship and radius of every asteroid (20 units),
/// in milli-units. Entities wrap once they are this far past a world edge.
pub const ENTITY_SIZE: i64 = 20 * MILLI;

/// Magnitude cap on every coordinate, velocity, heading and world dimension
/// the simulation accepts; keeps all fixed-point arithmetic inside `i64`.
pub const LIMIT: i64 = 1_000_000_000;

/// The value `v` is small enough to take part in the simulation's arithmetic.
pub open spec fn fits(v: int) -> bool {
    -LIMIT <= v <= LIMIT
}

/// The value `v` may lie a few wrap periods outside the world (as a freshly
/// wrapped coordinate can) while still being safe to square in the
/// collision test's 128-bit arithmetic.
pub open spec fn near_world(v: int) -> bool {
    -8 * LIMIT <= v <= 8 * LIMIT
}

/// Toroidal wraparound of one coordinate: a value more than `size` past the
/// upper edge `bound` comes back by twice `bound + size`; one more than
/// `size` before the lower edge `0` moves forward by the same amount.
pub open spec fn wrapped(v: int, bound: int, size: int) -> int {
    if v > bound + size {
        v - 2 * (bound + size)
    } else if v < -size {
        v + 2 * (bound + size)
    } else {
        v
    }
}

/// Apply `wrapped` to a freshly integrated coordinate.
pub(crate) fn wrap_coord(v: i64, bound: i64, size: i64) -> (r: i64)
    requires
        -2 * LIMIT <= v <= 2 * LIMIT,
        0 < bound <= LIMIT,
        0 < size <= LIMIT,
    ensures
        r == wrapped(v as int, bound as int, size as int),
        -3 * LIMIT <= r <= 3 * LIMIT,
{
    let edge = bound + size;
    if v > edge {
        v - 2 * edge
    } else if v < -size {
        v + 2 * edge
    } else {
        v
    }
}

/// A coordinate that ends a tick inside the wrap margins is exactly the old
/// coordinate advanced by the velocity: no boundary is crossed, so the
/// position changes by precisely `(vx, vy)`.
pub proof fn lemma_no_wrap_moves_by_velocity(x: int, vx: int, bound: int, size: int)
    requires
        -size <= x + vx <= bound + size,
    ensures
        wrapped(x + vx, bound, size) == x + vx,
{
}

/// A coordinate that exceeds `bound + size` reappears at exactly
/// `2 * (bound + size)` less, and (as long as it had not run further than one
/// whole wrap period past the edge) the adjusted value is back inside the
/// drawable band `[-(bound + size), bound + size]`.
pub proof fn lemma_wrap_high_reenters(v: int, bound: int, size: int)
    requires
        bound + size < v <= 3 * (bound + size),
    ensures
        wrapped(v, bound, size) == v - 2 * (bound + size),
        -(bound + size) <= wrapped(v, bound, size) <= bound + size,
{
}

} // verus!
