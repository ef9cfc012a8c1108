//! Half-open intervals `[start, end)` over signed pixel coordinates.

use std::ops::Range;
use vstd::prelude::*;

verus! {

/// Whether `i` lies in the half-open interval `r`.
pub open spec fn contains(r: Range<isize>, i: int) -> bool {
    r.start <= i < r.end
}

/// Whether both bounds of `r` stay in range when moved by `k`.
pub open spec fn can_shift(r: Range<isize>, k: int) -> bool {
    &&& isize::MIN <= r.start + k <= isize::MAX
    &&& isize::MIN <= r.end + k <= isize::MAX
}

/// `r` with both bounds moved by `k`.
pub open spec fn shifted(r: Range<isize>, k: int) -> Range<isize> {
    Range { start: (r.start + k) as isize, end: (r.end + k) as isize }
}

/// The overlap of `a` and `b`, where they share at least one point: from
/// the later start to the earlier end, when that is not empty.
pub open spec fn overlap(a: Range<isize>, b: Range<isize>) -> Option<Range<isize>> {
    let start = if a.start < b.start { b.start } else { a.start };
    let end = if a.end < b.end { a.end } else { b.end };
    if start < end {
        Some(Range { start, end })
    } else {
        None
    }
}

/// Moves both bounds of `r` by `k`.
pub fn offset(r: &Range<isize>, k: isize) -> (t: Range<isize>)
    requires
        can_shift(*r, k as int),
    ensures
        t == shifted(*r, k as int),
        t.start == r.start + k,
        t.end == r.end + k,
{
    (r.start + k)..(r.end + k)
}

/// The overlapping part of two intervals; `None` where they share no point,
/// which includes two intervals that only touch and any empty interval.
///
/// Only comparisons are made, so bounds near the ends of `isize` are fine.
pub fn intersect(a: &Range<isize>, b: &Range<isize>) -> (r: Option<Range<isize>>)
    ensures
        r == overlap(*a, *b),
{
    let start = if a.start < b.start { b.start } else { a.start };
    let end = if a.end < b.end { a.end } else { b.end };
    if start < end {
        Some(start..end)
    } else {
        None
    }
}

/// Intersection does not depend on the order of its arguments.
pub proof fn lemma_intersect_commutes(a: Range<isize>, b: Range<isize>)
    ensures
        overlap(a, b) == overlap(b, a),
{
}

/// A non-empty interval intersected with itself is itself; an empty one
/// gives nothing, as it holds no point.
pub proof fn lemma_intersect_self(a: Range<isize>)
    requires
        a.start <= a.end,
    ensures
        a.start < a.end ==> overlap(a, a) == Some(a),
        a.start == a.end ==> overlap(a, a) is None,
{
}

/// The intersection holds exactly the points that lie in both intervals,
/// and is never empty.
pub proof fn lemma_intersect_is_common_part(a: Range<isize>, b: Range<isize>)
    ensures
        overlap(a, b) is Some ==> overlap(a, b).unwrap().start < overlap(a, b).unwrap().end,
        forall|i: int|
            (contains(a, i) && contains(b, i)) <==> (overlap(a, b) is Some && contains(
                overlap(a, b).unwrap(),
                i,
            )),
{
}

/// Moving an interval by `k` and then by `-k` gives it back.
pub proof fn lemma_offset_round_trip(a: Range<isize>, k: int)
    requires
        can_shift(a, k),
    ensures
        can_shift(shifted(a, k), -k),
        shifted(shifted(a, k), -k) == a,
{
}

} // verus!
