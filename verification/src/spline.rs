//! The knot vector of the cubic B-spline along which the duck swims: a
//! clamped uniform knot vector, `degree + 1` zeros, then `1, 2, ...`, then
//! `degree + 1` copies of `num_points - degree`. The spline's parameter runs
//! over `0..num_points - degree`.

use vstd::prelude::*;

verus! {

/// Degree of the duck's path.
pub const DEGREE: usize = 3;

/// Number of control points of the duck's path.
pub const NUM_POINTS: usize = 8;

/// The `i`-th knot of the clamped uniform knot vector.
pub open spec fn knot(num_points: int, degree: int, i: int) -> int {
    if i <= degree {
        0
    } else if i < num_points {
        i - degree
    } else {
        num_points - degree
    }
}

/// The clamped uniform knot vector for `num_points` control points and the
/// given degree.
pub fn clamped_knots(num_points: usize, degree: usize) -> (knots: Vec<u32>)
    requires
        degree < num_points,
        num_points + degree + 1 <= usize::MAX,
        num_points <= u32::MAX,
    ensures
        knots@.len() == num_points + degree + 1,
        forall|i: int|
            0 <= i < knots@.len() ==> #[trigger] knots@[i] == knot(
                num_points as int,
                degree as int,
                i,
            ),
{
    let mut knots: Vec<u32> = Vec::new();
    let mut z: usize = 0;
    while z < degree + 1
        invariant
            z <= degree + 1,
            degree < num_points,
            knots@.len() == z,
            forall|i: int| 0 <= i < z ==> #[trigger] knots@[i] == 0,
        decreases degree + 1 - z,
    {
        knots.push(0);
        z = z + 1;
    }
    let internal_knots = num_points - degree;
    let mut i: usize = 1;
    while i < internal_knots
        invariant
            1 <= i <= internal_knots,
            internal_knots == num_points - degree,
            num_points <= u32::MAX,
            knots@.len() == degree + i,
            forall|k: int|
                0 <= k < knots@.len() ==> #[trigger] knots@[k] == knot(
                    num_points as int,
                    degree as int,
                    k,
                ),
        decreases internal_knots - i,
    {
        knots.push(i as u32);
        i = i + 1;
    }
    let mut e: usize = 0;
    while e < degree + 1
        invariant
            e <= degree + 1,
            degree < num_points,
            num_points + degree + 1 <= usize::MAX,
            internal_knots == num_points - degree,
            num_points <= u32::MAX,
            knots@.len() == num_points + e,
            forall|k: int|
                0 <= k < knots@.len() ==> #[trigger] knots@[k] == knot(
                    num_points as int,
                    degree as int,
                    k,
                ),
        decreases degree + 1 - e,
    {
        knots.push(internal_knots as u32);
        e = e + 1;
    }
    knots
}

/// The knot vector of the duck's path.
pub fn duck_path_knots() -> (knots: Vec<u32>)
    ensures
        knots@ == seq![0u32, 0, 0, 0, 1, 2, 3, 4, 5, 5, 5, 5],
{
    let knots = clamped_knots(NUM_POINTS, DEGREE);
    assert(knots@ =~= seq![0u32, 0, 0, 0, 1, 2, 3, 4, 5, 5, 5, 5]);
    knots
}

/// Law: the knots never decrease; the first `degree + 1` are 0 and the
/// last `degree + 1` are `num_points - degree`, where the parameter ends.
pub proof fn law_knots_clamped(num_points: int, degree: int, i: int, j: int)
    requires
        0 <= degree < num_points,
        0 <= i <= j < num_points + degree + 1,
    ensures
        0 <= knot(num_points, degree, i) <= knot(num_points, degree, j) <= num_points - degree,
        i <= degree ==> knot(num_points, degree, i) == 0,
        j >= num_points ==> knot(num_points, degree, j) == num_points - degree,
{
}

/// Law: the span search of the spline evaluation finds, for a parameter in
/// `m..m + 1` with `0 <= m < num_points - degree`, the span `k = m + degree`:
/// `knot(k) <= t < knot(k + 1)` there, and `degree <= k < num_points`, the
/// range that the search runs over.
pub proof fn law_unit_spans(num_points: int, degree: int, m: int)
    requires
        0 <= degree < num_points,
        0 <= m < num_points - degree,
    ensures
        degree <= m + degree < num_points,
        knot(num_points, degree, m + degree) == m,
        knot(num_points, degree, m + degree + 1) == m + 1,
{
}

/// Law: de Boor's evaluation in the span `k` gathers the control points
/// `k - degree + j` for `j` in `0..=degree`, and in each round `r` in
/// `1..=degree`, for `j` in `r..=degree`, reads the knots `k - degree + j`
/// and `k - degree + j + degree - r + 1`: all of them exist.
pub proof fn law_de_boor_reads_in_range(num_points: int, degree: int, k: int, r: int, j: int)
    requires
        0 <= degree < num_points,
        degree <= k < num_points,
        0 <= j <= degree,
    ensures
        0 <= k - degree + j < num_points,
        1 <= r <= j ==> 0 <= k - degree + j < k - degree + j + degree - r + 1 < num_points
            + degree + 1,
{
}

} // verus!
