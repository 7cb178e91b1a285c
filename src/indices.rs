//! Triangulation of the `(size+1) x (size+1)` vertex grid into an index buffer.
use vstd::prelude::*;
use crate::arith::lemma_split;

verus! {

/// The largest grid size whose index buffer can be built: every index fits in
/// a `u32` and the buffer's length fits in a `usize`.
pub open spec fn index_buffer_fits(size: nat) -> bool {
    &&& (size + 1) * (size + 1) <= u32::MAX as int + 1
    &&& 6 * size * size <= usize::MAX as int
}

/// The `k`-th of the six indices that cover cell `c` of the first row: two
/// triangles `(c, c+s+1, c+1)` and `(c+1, c+s+1, c+s+2)`.
pub open spec fn quad_index(size: int, c: int, k: int) -> int {
    if k == 0 {
        c
    } else if k == 1 || k == 4 {
        c + size + 1
    } else if k == 2 || k == 3 {
        c + 1
    } else {
        c + size + 2
    }
}

/// The index at position `p` of the buffer: row `p / (6*size)` repeats the
/// first row shifted by one row of vertices (`size + 1`) per row.
pub open spec fn index_at(size: int, p: int) -> int {
    let w = 6 * size;
    let q = p % w;
    (p / w) * (size + 1) + quad_index(size, q / 6, q % 6)
}

/// Every index of a grid of `size >= 1` cells addresses a grid vertex: none
/// reaches the border vertices stored after the `(size+1)^2` grid points.
pub proof fn lemma_index_in_grid(size: nat, p: int)
    requires
        size >= 1,
        0 <= p < 6 * size * size,
    ensures
        0 <= index_at(size as int, p) < (size + 1) * (size + 1),
{
    let s = size as int;
    let w = 6 * s;
    let r = p / w;
    let q = p % w;
    assert(p == w * r + q && 0 <= q < w) by (nonlinear_arith)
        requires
            w > 0,
            r == p / w,
            q == p % w,
    ;
    assert(0 <= r < s) by (nonlinear_arith)
        requires
            w == 6 * s,
            p == w * r + q,
            0 <= q < w,
            0 <= p < 6 * s * s,
            s >= 1,
    ;
    assert(q / 6 < s);
    assert(r * (s + 1) <= (s - 1) * (s + 1)) by (nonlinear_arith)
        requires
            r <= s - 1,
            s >= 1,
    ;
    assert((s - 1) * (s + 1) + 2 * s + 2 == (s + 1) * (s + 1)) by (nonlinear_arith);
    assert(r * (s + 1) >= 0) by (nonlinear_arith)
        requires
            r >= 0,
            s >= 1,
    ;
}

/// Builds the triangle index buffer of a grid of `size x size` cells: the
/// first row is emitted cell by cell, then each further row is the previous
/// row's `6 * size` indices shifted by `size + 1`.
pub fn build_indices(size: u32) -> (r: Vec<u32>)
    requires
        index_buffer_fits(size as nat),
    ensures
        r@.len() == 6 * size * size,
        forall|p: int| 0 <= p < r@.len() ==> r@[p] as int == index_at(size as int, p),
        forall|p: int| 0 <= p < r@.len() ==> r@[p] < (size + 1) * (size + 1),
{
    let ghost s = size as int;
    let mut indices: Vec<u32> = Vec::new();
    if size == 0 {
        return indices;
    }
    assert(6 * s <= 6 * s * s) by (nonlinear_arith)
        requires
            s >= 1,
    ;
    assert(2 * s + 2 <= (s + 1) * (s + 1)) by (nonlinear_arith)
        requires
            s >= 1,
    ;
    let w: usize = 6 * (size as usize);
    // First row: six indices per cell, with a cursor that walks the cell's corners.
    let mut n: u32 = 0;
    let mut c: u32 = 0;
    while c < size
        invariant
            s == size,
            s >= 1,
            w == 6 * s,
            index_buffer_fits(size as nat),
            2 * s + 2 <= (s + 1) * (s + 1),
            c <= size,
            n == c,
            indices@.len() == 6 * c,
            forall|p: int| 0 <= p < indices@.len() ==> indices@[p] as int == index_at(s, p),
        decreases size - c,
    {
        let ghost prev = indices@;
        indices.push(n);
        n = n + size + 1;
        indices.push(n);
        n = n - size;
        indices.push(n);
        indices.push(n);
        n = n + size;
        indices.push(n);
        indices.push(n + 1);
        n = n - size;
        proof {
            let cc = c as int;
            assert(indices@ =~= prev + seq![
                cc as u32,
                (cc + s + 1) as u32,
                (cc + 1) as u32,
                (cc + 1) as u32,
                (cc + s + 1) as u32,
                (cc + s + 2) as u32,
            ]);
            assert forall|p: int| 0 <= p < indices@.len() implies indices@[p] as int == index_at(
                s,
                p,
            ) by {
                if p >= 6 * cc {
                    lemma_split(p, w as int, 0, p);
                    lemma_split(p, 6, cc, p - 6 * cc);
                    assert((p / (w as int)) * (s + 1) == 0) by (nonlinear_arith)
                        requires
                            p / (w as int) == 0,
                    ;
                    assert(index_at(s, p) == quad_index(s, cc, p - 6 * cc));
                } else {
                    assert(indices@[p] == prev[p]);
                }
            }
        }
        c = c + 1;
    }
    // Further rows: shift the previous row by one row of vertices.
    let mut row: u32 = 1;
    while row < size
        invariant
            s == size,
            s >= 1,
            w == 6 * s,
            index_buffer_fits(size as nat),
            1 <= row <= size,
            indices@.len() == w * row,
            forall|p: int| 0 <= p < indices@.len() ==> indices@[p] as int == index_at(s, p),
        decreases size - row,
    {
        let ghost start = indices@.len() as int;
        assert(w * row <= w * s) by (nonlinear_arith)
            requires
                row <= s,
                w >= 0,
        ;
        assert(w * row >= w) by (nonlinear_arith)
            requires
                row >= 1,
                w >= 0,
        ;
        let base: usize = indices.len() - w;
        let mut j: usize = 0;
        while j < w
            invariant
                s == size,
                s >= 1,
                w == 6 * s,
                index_buffer_fits(size as nat),
                1 <= row < size,
                start == w * row,
                base == start - w,
                j <= w,
                indices@.len() == start + j,
                forall|p: int| 0 <= p < indices@.len() ==> indices@[p] as int == index_at(s, p),
            decreases w - j,
        {
            proof {
                assert(w * row + w <= w * s) by (nonlinear_arith)
                    requires
                        row + 1 <= s,
                        w >= 0,
                ;
                assert(w * row + w <= 6 * s * s) by (nonlinear_arith)
                    requires
                        w * row + w <= w * s,
                        w == 6 * s,
                ;
                assert(base + j == w * (row - 1) + j) by (nonlinear_arith)
                    requires
                        base == w * row - w,
                ;
                lemma_split(base + j, w as int, row - 1, j as int);
                lemma_split(start + j, w as int, row as int, j as int);
                lemma_index_in_grid(size as nat, start + j);
                assert(row * (s + 1) == (row - 1) * (s + 1) + s + 1) by (nonlinear_arith);
            }
            let v = indices[base + j];
            proof {
                let jj = j as int;
                let qd = quad_index(s, jj / 6, jj % 6);
                assert(v as int == index_at(s, base + jj));
                assert((base + jj) / (w as int) == row - 1);
                assert((base + jj) % (w as int) == jj);
                assert(v as int == (row - 1) * (s + 1) + qd);
                assert(index_at(s, start + jj) == row * (s + 1) + qd);
                assert(index_at(s, start + jj) < (s + 1) * (s + 1));
            }
            indices.push(v + size + 1);
            j = j + 1;
        }
        assert(w * row + w == w * (row + 1)) by (nonlinear_arith);
        row = row + 1;
    }
    proof {
        assert forall|p: int| 0 <= p < indices@.len() implies indices@[p] < (size + 1) * (size
            + 1) by {
            assert(w * s == 6 * s * s) by (nonlinear_arith)
                requires
                    w == 6 * s,
            ;
            lemma_index_in_grid(size as nat, p);
        }
    }
    indices
}

} // verus!
