//! Index buffers for drawing quads as pairs of triangles.
use vstd::prelude::*;

verus! {

/// The vertex offset, within its quad, of the `k`-th of the six indices of a quad:
/// the triangles `0 1 2` and `0 2 3`.
pub open spec fn quad_corner(k: int) -> int {
    if k == 0 || k == 3 {
        0
    } else if k == 1 {
        1
    } else if k == 2 || k == 4 {
        2
    } else {
        3
    }
}

/// Fills `indices` with the triangle indices of `size` quads whose four
/// vertices each are stored one after another.
pub fn create_indices_for_quads(indices: &mut Vec<u16>, size: usize)
    requires
        size * 6 <= usize::MAX,
        size * 6 == old(indices).len(),
        size * 4 <= 0xFFFF,
    ensures
        final(indices).len() == old(indices).len(),
        forall|q: int, k: int|
            0 <= q < size && 0 <= k < 6 ==> #[trigger] final(indices)@[6 * q + k] == 4 * q + quad_corner(k),
{
    let total = size * 6;
    let mut i: usize = 0;
    let mut j: u16 = 0;
    while i < total
        invariant
            total == size * 6,
            size * 4 <= 0xFFFF,
            indices.len() == total,
            i % 6 == 0,
            i <= total,
            j == (i / 6) * 4,
            forall|q: int, k: int|
                0 <= q < i / 6 && 0 <= k < 6 ==> #[trigger] indices@[6 * q + k] == 4 * q + quad_corner(k),
        decreases total - i,
    {
        assert(i + 6 <= total);
        assert(j + 3 < 0x1_0000) by {
            assert((i / 6) < size);
        }
        indices.set(i, j);
        indices.set(i + 1, j + 1);
        indices.set(i + 2, j + 2);
        indices.set(i + 3, j);
        indices.set(i + 4, j + 2);
        indices.set(i + 5, j + 3);
        assert forall|q: int, k: int| 0 <= q < (i + 6) / 6 && 0 <= k < 6 implies #[trigger] indices@[6 * q
            + k] == 4 * q + quad_corner(k) by {
            if q == i / 6 {
                assert(6 * q + k == i + k);
            } else {
                assert(6 * q + k < i);
            }
        }
        i += 6;
        j += 4;
    }
}

} // verus!
