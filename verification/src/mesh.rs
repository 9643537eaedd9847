//! Indexed triangle meshes built from a finished heightfield.
//!
//! The builder emits three synchronized buffers: one vertex position
//! per lattice point in row-major order, one constant "up" normal per
//! vertex, and six indices — two counter-clockwise triangles — per
//! grid cell. A grid of side below two has cells to triangulate in
//! neither direction, so its index buffer is empty; the positions and
//! normals are still emitted.

use vstd::prelude::*;
use vstd::arithmetic::div_mod::lemma_fundamental_div_mod_converse;
use vstd::arithmetic::div_mod::lemma_mod_division_less_than_divisor;
use vstd::arithmetic::div_mod::lemma_multiply_divide_lt;

use crate::field::{lemma_square_bound, HeightField};
use crate::rat::Rat;
use crate::MAX_SIDE;

verus! {

/// One vertex: the planar lattice coordinates and the exact elevation.
/// The planar coordinates are used directly, at unit spacing.
#[derive(Clone, Copy, Debug, PartialEq, Eq, Structural)]
pub struct Vertex {
    pub x: usize,
    pub y: Rat,
    pub z: usize,
}

/// One vertex normal. The builder emits the constant up vector
/// `(0, 1, 0)` for every vertex; it does not recompute normals from
/// the carved surface.
#[derive(Clone, Copy, Debug, PartialEq, Eq, Structural)]
pub struct Normal {
    pub x: i8,
    pub y: i8,
    pub z: i8,
}

/// A renderer-ready mesh: three synchronized buffers, never mutated
/// after construction.
#[derive(Clone, Debug)]
pub struct Mesh {
    pub positions: Vec<Vertex>,
    pub normals: Vec<Normal>,
    pub indices: Vec<u32>,
}

/// The number of quad cells of a grid of side `side`: `(side - 1)^2`
/// for `side >= 2`, none otherwise.
pub open spec fn quad_count(side: int) -> int {
    if side >= 2 {
        (side - 1) * (side - 1)
    } else {
        0
    }
}

/// The vertex at buffer position `i` of the mesh of `f`: lattice
/// point `(i / side, i % side)` at its elevation in `f`.
pub open spec fn vertex_at(f: HeightField, i: int) -> Vertex {
    Vertex {
        x: (i / (f.side as int)) as usize,
        y: f.heights@[i],
        z: (i % (f.side as int)) as usize,
    }
}

/// The value of entry `j` of the index buffer for a grid of side
/// `side`. Entries come in groups of six per cell; cell `(cx, cz)`
/// has its lower corner at vertex `cx * side + cz` and emits
/// triangle A `(idx, idx + 1, idx + side)`, then triangle B
/// `(idx + 1, idx + 1 + side, idx + side)` — both counter-clockwise
/// under the renderer convention the winding is written for.
pub open spec fn index_at(side: int, j: int) -> int {
    let cell = j / 6;
    let k = j % 6;
    let cx = cell / (side - 1);
    let cz = cell % (side - 1);
    let idx = cx * side + cz;
    if k == 0 {
        idx
    } else if k == 1 {
        idx + 1
    } else if k == 2 {
        idx + side
    } else if k == 3 {
        idx + 1
    } else if k == 4 {
        idx + 1 + side
    } else {
        idx + side
    }
}

/// Cell corners stay inside the vertex buffer: the largest index a
/// cell can emit is below `side * side`.
proof fn lemma_cell_corner_bounds(side: int, cx: int, cz: int)
    by (nonlinear_arith)
    requires
        side >= 2,
        0 <= cx <= side - 2,
        0 <= cz <= side - 2,
    ensures
        0 <= cx * side + cz,
        cx * side + cz + 1 + side < side * side,
{
}

/// Builds the mesh of a finished heightfield: `side * side` positions
/// and normals, `6 * (side - 1)^2` indices for `side >= 2` and none
/// otherwise; every position carries its lattice point's elevation,
/// every normal is the constant up vector, and every index buffer
/// entry is pinned by `index_at`.
pub fn build_mesh(field: &HeightField) -> (m: Mesh)
    requires
        field.wf(),
    ensures
        m.positions@.len() == (field.side as int) * (field.side as int),
        m.normals@.len() == (field.side as int) * (field.side as int),
        m.indices@.len() == 6 * quad_count(field.side as int),
        forall|i: int| 0 <= i < m.positions@.len() ==> m.positions@[i] == vertex_at(*field, i),
        forall|i: int| 0 <= i < m.normals@.len() ==> m.normals@[i] == (Normal { x: 0, y: 1, z: 0 }),
        forall|j: int| 0 <= j < m.indices@.len() ==> m.indices@[j] as int == index_at(
            field.side as int,
            j,
        ),
{
    let side = field.side;
    let total = field.heights.len();
    proof {
        lemma_square_bound(side as int, MAX_SIDE as int);
    }

    let mut positions: Vec<Vertex> = Vec::new();
    let mut normals: Vec<Normal> = Vec::new();
    let mut i: usize = 0;
    while i < total
        invariant
            field.wf(),
            side == field.side,
            total == field.heights@.len(),
            i <= total,
            positions@.len() == i,
            normals@.len() == i,
            forall|k: int| 0 <= k < i ==> positions@[k] == vertex_at(*field, k),
            forall|k: int| 0 <= k < i ==> normals@[k] == (Normal { x: 0, y: 1, z: 0 }),
        decreases total - i,
    {
        let x = i / side;
        let z = i % side;
        positions.push(Vertex { x, y: field.heights[i], z });
        normals.push(Normal { x: 0, y: 1, z: 0 });
        i = i + 1;
    }

    let mut indices: Vec<u32> = Vec::new();
    if side >= 2 {
        let span = side - 1;
        proof {
            lemma_square_bound(span as int, MAX_SIDE as int);
        }
        let cells: usize = span * span;
        let mut cell: usize = 0;
        while cell < cells
            invariant
                2 <= side <= MAX_SIDE,
                span == side - 1,
                cells == (span as int) * (span as int),
                cell <= cells,
                indices@.len() == 6 * cell,
                forall|j: int| 0 <= j < indices@.len() ==> indices@[j] as int == index_at(
                    side as int,
                    j,
                ),
            decreases cells - cell,
        {
            proof {
                lemma_multiply_divide_lt(cell as int, span as int, span as int);
                lemma_mod_division_less_than_divisor(cell as int, span as int);
            }
            let cx = cell / span;
            let cz = cell % span;
            proof {
                lemma_cell_corner_bounds(side as int, cx as int, cz as int);
                lemma_square_bound(side as int, MAX_SIDE as int);
            }
            let idx = cx * side + cz;
            indices.push(idx as u32);
            indices.push((idx + 1) as u32);
            indices.push((idx + side) as u32);
            indices.push((idx + 1) as u32);
            indices.push((idx + 1 + side) as u32);
            indices.push((idx + side) as u32);
            proof {
                lemma_square_bound(side as int, MAX_SIDE as int);
                assert forall|j: int| 6 * cell <= j < 6 * cell + 6 implies indices@[j] as int
                    == index_at(side as int, j) by {
                    lemma_fundamental_div_mod_converse(j, 6, cell as int, j - 6 * cell);
                };
            }
            cell = cell + 1;
        }
    }
    Mesh { positions, normals, indices }
}

} // verus!
