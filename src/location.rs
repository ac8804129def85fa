use vstd::prelude::*;

verus! {

/// A point on the integer plane.
#[derive(Clone, Copy, Debug, PartialEq, Eq, Structural)]
pub struct Location(pub i32, pub i32);

/// The square of the Euclidean distance between two points. The square root
/// is monotone, so comparing these orders points exactly as their Euclidean
/// distances do.
pub open spec fn dist_sq(a: Location, b: Location) -> int {
    (a.0 - b.0) * (a.0 - b.0) + (a.1 - b.1) * (a.1 - b.1)
}

impl Location {
    /// The squared Euclidean distance to `other`, exact.
    pub fn squared_distance_to(&self, other: &Location) -> (r: u128)
        ensures
            r as int == dist_sq(*self, *other),
    {
        let dx: i128 = self.0 as i128 - other.0 as i128;
        let dy: i128 = self.1 as i128 - other.1 as i128;
        assert(0 <= dx * dx < 0x1_0000_0000_0000_0000) by (nonlinear_arith)
            requires
                -0x1_0000_0000 < dx < 0x1_0000_0000,
        ;
        assert(0 <= dy * dy < 0x1_0000_0000_0000_0000) by (nonlinear_arith)
            requires
                -0x1_0000_0000 < dy < 0x1_0000_0000,
        ;
        (dx * dx + dy * dy) as u128
    }
}

/// Distance is symmetric.
pub proof fn lemma_distance_symmetric(a: Location, b: Location)
    ensures
        dist_sq(a, b) == dist_sq(b, a),
{
    assert((a.0 - b.0) * (a.0 - b.0) == (b.0 - a.0) * (b.0 - a.0)) by (nonlinear_arith);
    assert((a.1 - b.1) * (a.1 - b.1) == (b.1 - a.1) * (b.1 - a.1)) by (nonlinear_arith);
}

/// Distance is never negative, and zero exactly when the points are equal.
pub proof fn lemma_distance_zero_iff_equal(a: Location, b: Location)
    ensures
        dist_sq(a, b) >= 0,
        dist_sq(a, b) == 0 <==> a == b,
{
    let dx = a.0 - b.0;
    let dy = a.1 - b.1;
    assert(dx * dx >= 0 && dy * dy >= 0) by (nonlinear_arith);
    assert(dx * dx == 0 ==> dx == 0) by (nonlinear_arith);
    assert(dy * dy == 0 ==> dy == 0) by (nonlinear_arith);
    if dist_sq(a, b) == 0 {
        assert(dx * dx == 0 && dy * dy == 0);
        assert(a.0 == b.0 && a.1 == b.1);
        assert(a == b);
    }
    if a == b {
        assert(dx == 0 && dy == 0);
        assert(dx * dx == 0 && dy * dy == 0) by (nonlinear_arith)
            requires
                dx == 0 && dy == 0,
        ;
    }
}

} // verus!
