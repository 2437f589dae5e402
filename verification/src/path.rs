//! Structural edits on the ordered sequence of path points.
//!
//! Every operation validates its index and is a no-op out of range: a
//! structural edit never panics. Each one changes the length by exactly
//! one (or truncates to the index) and keeps the relative order of the
//! untouched points, which the lemmas below state point by point.

use crate::bezier::BezPoint;
use vstd::prelude::*;

verus! {

/// Appends a point at the end of the path.
pub fn append(points: &mut Vec<BezPoint>, p: BezPoint)
    ensures
        final(points)@ == old(points)@.push(p),
{
    points.push(p);
}

/// Inserts a point immediately after `index`; out of range, a no-op.
pub fn insert_after(points: &mut Vec<BezPoint>, index: usize, p: BezPoint)
    ensures
        index < old(points)@.len() ==> final(points)@ == old(points)@.insert(index + 1, p),
        index >= old(points)@.len() ==> final(points)@ == old(points)@,
{
    if index < points.len() {
        points.insert(index + 1, p);
    }
}

/// Removes the point at `index`; out of range, a no-op.
pub fn remove_at(points: &mut Vec<BezPoint>, index: usize)
    ensures
        index < old(points)@.len() ==> final(points)@ == old(points)@.remove(index as int),
        index >= old(points)@.len() ==> final(points)@ == old(points)@,
{
    if index < points.len() {
        points.remove(index);
    }
}

/// Keeps the points before `index` and drops the rest; an `index` past
/// the end keeps everything.
pub fn truncate_before(points: &mut Vec<BezPoint>, index: usize)
    ensures
        index <= old(points)@.len() ==> final(points)@ == old(points)@.subrange(0, index as int),
        index > old(points)@.len() ==> final(points)@ == old(points)@,
{
    points.truncate(index);
}

/// Inserting after `i` grows the path by exactly one, places the new
/// point at `i + 1`, and leaves every other point, and their relative
/// order, unchanged.
pub proof fn lemma_insert_keeps_rest(s: Seq<BezPoint>, i: int, p: BezPoint)
    requires
        0 <= i < s.len(),
    ensures
        s.insert(i + 1, p).len() == s.len() + 1,
        s.insert(i + 1, p)[i + 1] == p,
        forall|j: int| 0 <= j <= i ==> s.insert(i + 1, p)[j] == s[j],
        forall|j: int| i < j < s.len() ==> s.insert(i + 1, p)[j + 1] == s[j],
{
}

/// Removing index `i` shrinks the path by exactly one and keeps the
/// remaining points in their relative order.
pub proof fn lemma_remove_keeps_rest(s: Seq<BezPoint>, i: int)
    requires
        0 <= i < s.len(),
    ensures
        s.remove(i).len() == s.len() - 1,
        forall|j: int| 0 <= j < i ==> s.remove(i)[j] == s[j],
        forall|j: int| i <= j < s.len() - 1 ==> s.remove(i)[j] == s[j + 1],
{
}

/// Trimming at `i` yields a path of length exactly `i` whose points are
/// the first `i` points, unchanged.
pub proof fn lemma_trim_prefix(s: Seq<BezPoint>, i: int)
    requires
        0 <= i <= s.len(),
    ensures
        s.subrange(0, i).len() == i,
        forall|j: int| 0 <= j < i ==> s.subrange(0, i)[j] == s[j],
{
}

} // verus!
