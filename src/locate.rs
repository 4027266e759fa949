use vstd::prelude::*;

verus! {

/// Which cubic segment of a spline answers for a position.
#[derive(Debug, Clone, Copy, PartialEq, Eq, Structural)]
pub enum Segment {
    /// At or left of the first knot: the curve continues as a line there.
    Before,
    /// The segment that starts at knot `i` and ends at knot `i + 1`.
    Within(usize),
    /// At or right of the last knot (and right of the first).
    After,
}

/// Finds the segment for `pos` among the knot keys `knots`.
///
/// Inside the range of the knots this is the segment that starts at the
/// greatest knot not above `pos`, found by bisection: a position equal to an
/// interior knot belongs to the segment that starts there.
pub fn locate(knots: &Vec<i64>, pos: i64) -> (r: Segment)
    requires
        knots.len() >= 1,
    ensures
        r == Segment::Before <==> pos <= knots@[0],
        r == Segment::After <==> knots@[0] < pos && knots@[knots.len() - 1] <= pos,
        r matches Segment::Within(i) ==> i + 1 < knots.len() && knots@[i as int] <= pos
            && pos < knots@[i + 1],
{
    let n = knots.len();
    if pos <= knots[0] {
        return Segment::Before;
    }
    if pos >= knots[n - 1] {
        return Segment::After;
    }
    let mut lower: usize = 0;
    let mut upper: usize = n - 1;
    while upper - lower > 1
        invariant
            n == knots.len(),
            lower < upper < n,
            knots@[lower as int] <= pos,
            pos < knots@[upper as int],
        decreases upper - lower,
    {
        let center: usize = lower + (upper - lower) / 2;
        if knots[center] <= pos {
            lower = center;
        } else {
            upper = center;
        }
    }
    Segment::Within(lower)
}

} // verus!
