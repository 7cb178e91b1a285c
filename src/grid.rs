//! The vertex buffer: a `(size+1) x (size+1)` grid of sampled heights in
//! row-major order, followed by the border vertices, and the coordinates at
//! which the height field is sampled for each grid point.
use vstd::prelude::*;
use crate::arith::lemma_split;
use crate::config::CHUNK_RES;

verus! {

/// A mesh vertex: integer grid coordinates `x`, `z` and a fixed-point height `y`.
#[derive(Clone, Copy, Debug, PartialEq, Eq, Structural)]
pub struct Vertex {
    pub x: u32,
    pub y: i64,
    pub z: u32,
}

/// Number of grid points of a grid of `size x size` cells.
pub open spec fn grid_len(size: nat) -> nat {
    (size + 1) * (size + 1)
}

/// Number of border vertices appended after the grid points.
pub open spec fn border_len(size: nat) -> nat {
    2 * (size + 3)
}

/// Grid sizes whose vertex buffer fits in memory and whose coordinates fit in a `u32`.
pub open spec fn grid_fits(size: nat) -> bool {
    &&& size + 3 <= u32::MAX
    &&& grid_len(size) + border_len(size) <= usize::MAX
}

/// Vertex `p` of the buffer: grid point `p` (column `p % (size+1)`, row
/// `p / (size+1)`) with height `heights[p]`, or else border vertex
/// `(i, 0, 0)` / `(i, 0, 1)` for `i = (p - grid_len) / 2`.
pub open spec fn vertex_at(size: nat, heights: Seq<i64>, p: int) -> Vertex {
    let w = size as int + 1;
    let g = grid_len(size) as int;
    if p < g {
        Vertex { x: (p % w) as u32, y: heights[p], z: (p / w) as u32 }
    } else {
        Vertex { x: ((p - g) / 2) as u32, y: 0, z: ((p - g) % 2) as u32 }
    }
}

/// The sample offset in force at grid point `p`, in tenths of a cell: a tenth
/// of a chunk along `z` for the first point, and for every later point the
/// previous point's column and row scaled by the chunk resolution.
pub open spec fn sample_offset(size: nat, p: int) -> (int, int) {
    let w = size as int + 1;
    if p == 0 {
        (0, CHUNK_RES as int)
    } else {
        (10 * (CHUNK_RES as int) * ((p - 1) % w), 10 * (CHUNK_RES as int) * ((p - 1) / w))
    }
}

/// The coordinates, in tenths of a cell, at which grid point `p` is sampled:
/// its column and row plus the offset in force there.
pub open spec fn sample_point(size: nat, p: int) -> (int, int) {
    let w = size as int + 1;
    let o = sample_offset(size, p);
    (10 * (p % w) + o.0, 10 * (p / w) + o.1)
}

/// Lists, in row-major order (row `z` outer, column `x` inner), the
/// coordinates in tenths of a cell at which each grid point's height is
/// sampled.
pub fn sample_points(size: u32) -> (r: Vec<(u64, u64)>)
    requires
        grid_fits(size as nat),
    ensures
        r@.len() == grid_len(size as nat),
        forall|p: int|
            0 <= p < r@.len() ==> r@[p].0 as int == sample_point(size as nat, p).0 && r@[p].1 as int
                == sample_point(size as nat, p).1,
{
    let ghost w = size as int + 1;
    let mut points: Vec<(u64, u64)> = Vec::new();
    let mut off_x: u64 = 0;
    let mut off_z: u64 = CHUNK_RES as u64;
    let mut z: u32 = 0;
    while z <= size
        invariant
            w == size + 1,
            grid_fits(size as nat),
            z <= size + 1,
            points@.len() == z * w,
            off_x as int == sample_offset(size as nat, z * w).0,
            off_z as int == sample_offset(size as nat, z * w).1,
            forall|p: int|
                0 <= p < points@.len() ==> points@[p].0 as int == sample_point(size as nat, p).0
                    && points@[p].1 as int == sample_point(size as nat, p).1,
        decreases size + 1 - z,
    {
        let mut x: u32 = 0;
        while x <= size
            invariant
                w == size + 1,
                grid_fits(size as nat),
                z <= size,
                x <= size + 1,
                points@.len() == z * w + x,
                off_x as int == sample_offset(size as nat, z * w + x).0,
                off_z as int == sample_offset(size as nat, z * w + x).1,
                forall|p: int|
                    0 <= p < points@.len() ==> points@[p].0 as int == sample_point(size as nat, p).0
                        && points@[p].1 as int == sample_point(size as nat, p).1,
            decreases size + 1 - x,
        {
            let ghost p = z * w + x;
            proof {
                assert(CHUNK_RES == 128);
                lemma_split(p, w, z as int, x as int);
                assert(off_x <= 1280 * size && off_z <= 1280 * size + 128) by {
                    if p > 0 {
                        assert(0 <= (p - 1) % w < w) by (nonlinear_arith)
                            requires
                                w > 0,
                        ;
                        assert((p - 1) / w <= size) by (nonlinear_arith)
                            requires
                                0 <= p - 1,
                                p == z * w + x,
                                z <= size,
                                x <= size,
                                w == size + 1,
                        ;
                        let c = CHUNK_RES as int;
                        let (a, b) = ((p - 1) % w, (p - 1) / w);
                        assert(10 * c * a <= 1280 * size && 10 * c * b <= 1280 * size)
                            by (nonlinear_arith)
                            requires
                                c == 128,
                                0 <= a <= size,
                                0 <= b <= size,
                        ;
                    }
                }
            }
            points.push((10 * (x as u64) + off_x, 10 * (z as u64) + off_z));
            let step: u64 = 10 * (CHUNK_RES as u64);
            proof {
                assert(step * x == 1280 * x && step * z == 1280 * z) by (nonlinear_arith)
                    requires
                        step == 1280,
                ;
            }
            off_x = step * (x as u64);
            off_z = step * (z as u64);
            proof {
                lemma_split(p + 1 - 1, w, z as int, x as int);
            }
            x = x + 1;
        }
        proof {
            assert(z * w + w == (z + 1) * w) by (nonlinear_arith);
        }
        z = z + 1;
    }
    points
}

/// Builds the vertex buffer of a grid of `size x size` cells from the sampled
/// heights of its `(size+1)^2` points, given in row-major order.
pub fn build_grid(size: u32, heights: &Vec<i64>) -> (r: Vec<Vertex>)
    requires
        grid_fits(size as nat),
        heights@.len() == grid_len(size as nat),
    ensures
        r@.len() == grid_len(size as nat) + border_len(size as nat),
        forall|p: int| 0 <= p < r@.len() ==> r@[p] == vertex_at(size as nat, heights@, p),
{
    let ghost w = size as int + 1;
    let ghost g = grid_len(size as nat) as int;
    let mut vertices: Vec<Vertex> = Vec::new();
    let mut z: u32 = 0;
    let mut k: usize = 0;
    while z <= size
        invariant
            w == size + 1,
            g == w * w,
            grid_fits(size as nat),
            heights@.len() == g,
            z <= size + 1,
            k == z * w,
            vertices@.len() == k,
            forall|p: int| 0 <= p < vertices@.len() ==> vertices@[p] == vertex_at(size as nat, heights@, p),
        decreases size + 1 - z,
    {
        let mut x: u32 = 0;
        while x <= size
            invariant
                w == size + 1,
                g == w * w,
                grid_fits(size as nat),
                heights@.len() == g,
                z <= size,
                x <= size + 1,
                k == z * w + x,
                vertices@.len() == k,
                forall|p: int| 0 <= p < vertices@.len() ==> vertices@[p] == vertex_at(size as nat, heights@, p),
            decreases size + 1 - x,
        {
            proof {
                lemma_split(k as int, w, z as int, x as int);
                assert(k < g) by (nonlinear_arith)
                    requires
                        k == z * w + x,
                        z < w,
                        x < w,
                        g == w * w,
                ;
            }
            vertices.push(Vertex { x, y: heights[k], z });
            k = k + 1;
            x = x + 1;
        }
        proof {
            assert(z * w + w == (z + 1) * w) by (nonlinear_arith);
        }
        z = z + 1;
    }
    assert(k == g) by (nonlinear_arith)
        requires
            k == z * w,
            z == w,
            g == w * w,
    ;
    let mut i: u32 = 0;
    while i < size + 3
        invariant
            g == grid_len(size as nat),
            grid_fits(size as nat),
            i <= size + 3,
            vertices@.len() == g + 2 * i,
            forall|p: int| 0 <= p < vertices@.len() ==> vertices@[p] == vertex_at(size as nat, heights@, p),
        decreases size + 3 - i,
    {
        vertices.push(Vertex { x: i, y: 0, z: 0 });
        vertices.push(Vertex { x: i, y: 0, z: 1 });
        proof {
            lemma_split(2 * i as int, 2, i as int, 0);
            lemma_split(2 * i as int + 1, 2, i as int, 1);
        }
        i = i + 1;
    }
    vertices
}

/// Building the grid twice from the same size and the same sampled heights
/// gives identical vertex buffers, and listing the sample coordinates twice
/// gives identical lists: each is determined by its inputs.
pub proof fn lemma_grid_deterministic(
    size: nat,
    heights: Seq<i64>,
    a: Seq<Vertex>,
    b: Seq<Vertex>,
    pa: Seq<(u64, u64)>,
    pb: Seq<(u64, u64)>,
)
    requires
        a.len() == grid_len(size) + border_len(size),
        forall|p: int| 0 <= p < a.len() ==> a[p] == vertex_at(size, heights, p),
        b.len() == grid_len(size) + border_len(size),
        forall|p: int| 0 <= p < b.len() ==> b[p] == vertex_at(size, heights, p),
        pa.len() == grid_len(size),
        forall|p: int|
            0 <= p < pa.len() ==> pa[p].0 as int == sample_point(size, p).0 && pa[p].1 as int
                == sample_point(size, p).1,
        pb.len() == grid_len(size),
        forall|p: int|
            0 <= p < pb.len() ==> pb[p].0 as int == sample_point(size, p).0 && pb[p].1 as int
                == sample_point(size, p).1,
    ensures
        a == b,
        pa == pb,
{
    assert(a =~= b);
    assert(forall|p: int| 0 <= p < pa.len() ==> pa[p] == pb[p]);
    assert(pa =~= pb);
}

} // verus!
