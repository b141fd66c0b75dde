//! Wraparound arithmetic on a toroidal grid.
use vstd::prelude::*;

verus! {

/// The coordinate reached from `a` after a step of `delta` on an axis of
/// `extent` cells, wrapping around at both ends.
pub open spec fn wrap(a: int, delta: int, extent: int) -> int {
    (a + delta + extent) % extent
}

/// A wrapped coordinate always lies on the axis.
pub proof fn lemma_wrap_in_range(a: int, delta: int, extent: int)
    requires
        extent > 0,
    ensures
        0 <= wrap(a, delta, extent) < extent,
{
}

/// Moves coordinate `a` by `b` on an axis of `c` cells, wrapping around.
pub fn wrap_add(a: usize, b: isize, c: usize) -> (r: usize)
    requires
        c > 0,
    ensures
        r == wrap(a as int, b as int, c as int),
        r < c,
{
    let sum: i128 = a as i128 + b as i128 + c as i128;
    match sum.checked_rem_euclid(c as i128) {
        Some(m) => m as usize,
        None => 0,
    }
}

/// Moves the point `(x, y)` by `(dx, dy)` on a grid of `lx` by `ly` cells.
pub fn wrap_add_2d(p: (usize, usize), d: (isize, isize), l: (usize, usize)) -> (r: (usize, usize))
    requires
        l.0 > 0,
        l.1 > 0,
    ensures
        r.0 == wrap(p.0 as int, d.0 as int, l.0 as int),
        r.1 == wrap(p.1 as int, d.1 as int, l.1 as int),
        r.0 < l.0,
        r.1 < l.1,
{
    (wrap_add(p.0, d.0, l.0), wrap_add(p.1, d.1, l.1))
}

} // verus!
