//! Which segments a polyline is made of.
//!
//! A polyline's vertices each carry the bulge of the segment that leaves
//! them: the segment to the next vertex, and for the last vertex of a closed
//! polyline, the one back to the first. Which vertex pairs those are is the
//! same for every consumer, whatever it then draws for each segment.

use vstd::prelude::*;

verus! {

/// How many segments a polyline of `n` vertices has: none below two
/// vertices, one per vertex when it is closed, one fewer when it is open.
pub open spec fn segment_count(n: int, closed: bool) -> int {
    if n < 2 {
        0
    } else if closed {
        n
    } else {
        n - 1
    }
}

/// A polyline's segments in order, as the indices of the two vertices each
/// runs between: the segment leaving each vertex, and for a closed polyline
/// also the one from the last vertex back to the first. The segment from
/// vertex `i` follows vertex `i`'s bulge.
pub fn segment_ends(vertex_count: usize, closed: bool) -> (ends: Vec<(usize, usize)>)
    ensures
        ends@.len() == segment_count(vertex_count as int, closed),
        forall|i: int|
            0 <= i < ends@.len() ==> #[trigger] ends@[i] == (i as usize, ((i + 1)
                % vertex_count as int) as usize),
{
    let n = vertex_count;
    let count = if n < 2 {
        0
    } else if closed {
        n
    } else {
        n - 1
    };
    let mut ends: Vec<(usize, usize)> = Vec::new();
    let mut i: usize = 0;
    while i < count
        invariant
            i <= count,
            count == segment_count(n as int, closed),
            count <= n,
            ends@.len() == i,
            forall|k: int|
                0 <= k < i ==> #[trigger] ends@[k] == (k as usize, ((k + 1) % n as int) as usize),
        decreases count - i,
    {
        let next = if i + 1 == n {
            0
        } else {
            i + 1
        };
        assert(next == (i + 1) % (n as int)) by {
            if i + 1 == n {
                vstd::arithmetic::div_mod::lemma_mod_self_0(n as int);
            } else {
                vstd::arithmetic::div_mod::lemma_small_mod((i + 1) as nat, n as nat);
            }
        }
        ends.push((i, next));
        i += 1;
    }
    ends
}

} // verus!
