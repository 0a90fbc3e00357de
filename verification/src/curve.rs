//! When a NURBS curve's definition adds up.
//!
//! A NURBS curve -- a SPLINE's, or a HATCH boundary's spline edge -- is its
//! degree, knots, control points and weights. Whether those counts define a
//! curve at all is a question of the counts alone, the same for every
//! consumer that evaluates it.

use vstd::prelude::*;

verus! {

/// Whether a curve of `degree` over `knot_count` knots, `control_count`
/// control points and `weight_count` weights has a definition that adds
/// up: the degree is at least 1 and below the number of control points, the
/// knot count is control points + degree + 1, and the weights, when given,
/// are one per control point (none at all means every weight is 1).
pub open spec fn nurbs_counts_agree(
    degree: int,
    knot_count: int,
    control_count: int,
    weight_count: int,
) -> bool {
    &&& degree >= 1
    &&& control_count > degree
    &&& knot_count == control_count + degree + 1
    &&& (weight_count == 0 || weight_count == control_count)
}

/// Whether a curve of `degree` over `knot_count` knots, `control_count`
/// control points and `weight_count` weights has counts that define one.
pub fn counts_define_a_curve(
    degree: u32,
    knot_count: usize,
    control_count: usize,
    weight_count: usize,
) -> (ok: bool)
    ensures
        ok == nurbs_counts_agree(
            degree as int,
            knot_count as int,
            control_count as int,
            weight_count as int,
        ),
{
    let p = degree as u128;
    let n = control_count as u128;
    if p == 0 || n <= p {
        return false;
    }
    if (knot_count as u128) != n + p + 1 {
        return false;
    }
    weight_count == 0 || weight_count == control_count
}

/// Every degree of at least 1 defines a curve over more control points than
/// the degree, with one knot more than control points and degree together,
/// and weights one per control point or none: a polyline's straight pieces
/// (degree 1) as much as a cubic's.
pub proof fn every_degree_from_one_defines_curves(degree: int, control_count: int)
    requires
        1 <= degree < control_count,
    ensures
        nurbs_counts_agree(degree, control_count + degree + 1, control_count, 0),
        nurbs_counts_agree(degree, control_count + degree + 1, control_count, control_count),
{
}

/// A definition that adds up has exactly one knot count for its degree and
/// control points, a degree below its control points, and weights one per
/// control point or none; degree 0, a degree as high as the control points,
/// any other knot count, and any other weight count define no curve.
pub proof fn only_matching_counts_define_a_curve(
    degree: int,
    knot_count: int,
    control_count: int,
    weight_count: int,
)
    ensures
        nurbs_counts_agree(degree, knot_count, control_count, weight_count) ==> (1 <= degree
            < control_count && knot_count == control_count + degree + 1 && (weight_count == 0
            || weight_count == control_count)),
        degree == 0 ==> !nurbs_counts_agree(degree, knot_count, control_count, weight_count),
{
}

} // verus!
