//! Mesh builder behaviour: buffer sizes, vertex layout, normals, and
//! index winding.

use crater_terrain::field::HeightField;
use crater_terrain::mesh::{build_mesh, Normal};
use crater_terrain::rat::Rat;

#[test]
fn buffer_sizes_for_small_grids() {
    for side in [2usize, 3, 5, 8] {
        let field = HeightField::flat(side, 0);
        let mesh = build_mesh(&field);
        assert_eq!(mesh.positions.len(), side * side);
        assert_eq!(mesh.normals.len(), side * side);
        assert_eq!(mesh.indices.len(), 6 * (side - 1) * (side - 1));
    }
}

#[test]
fn degenerate_single_point_grid() {
    let field = HeightField::flat(1, 250);
    let mesh = build_mesh(&field);
    assert_eq!(mesh.positions.len(), 1);
    assert_eq!(mesh.normals.len(), 1);
    assert_eq!(mesh.indices.len(), 0);
    assert_eq!(mesh.positions[0].x, 0);
    assert_eq!(mesh.positions[0].z, 0);
    assert!(mesh.positions[0].y.eq_val(&Rat::new(1, 4)));
}

#[test]
fn winding_of_first_cell_on_three_by_three() {
    let field = HeightField::flat(3, 0);
    let mesh = build_mesh(&field);
    // Cell (0, 0): triangle A then triangle B.
    assert_eq!(&mesh.indices[0..6], &[0, 1, 3, 1, 4, 3]);
}

#[test]
fn winding_of_every_cell_on_three_by_three() {
    let field = HeightField::flat(3, 0);
    let mesh = build_mesh(&field);
    let mut expected: Vec<u32> = Vec::new();
    for cx in 0..2u32 {
        for cz in 0..2u32 {
            let idx = cx * 3 + cz;
            expected.extend_from_slice(&[idx, idx + 1, idx + 3, idx + 1, idx + 4, idx + 3]);
        }
    }
    assert_eq!(mesh.indices, expected);
}

#[test]
fn positions_are_row_major_with_heights() {
    let side = 4usize;
    let mut field = HeightField::flat(side, 0);
    // Give one point a recognizable elevation.
    field.heights[2 * side + 3] = Rat::new(7, 2);
    let mesh = build_mesh(&field);
    for x in 0..side {
        for z in 0..side {
            let v = mesh.positions[x * side + z];
            assert_eq!(v.x, x);
            assert_eq!(v.z, z);
            if (x, z) == (2, 3) {
                assert!(v.y.eq_val(&Rat::new(7, 2)));
            } else {
                assert!(v.y.eq_val(&Rat::new(0, 1)));
            }
        }
    }
}

#[test]
fn normals_are_constant_up() {
    let field = HeightField::flat(6, -500);
    let mesh = build_mesh(&field);
    for n in &mesh.normals {
        assert_eq!(*n, Normal { x: 0, y: 1, z: 0 });
    }
}

#[test]
fn indices_stay_inside_vertex_buffer() {
    let field = HeightField::flat(7, 0);
    let mesh = build_mesh(&field);
    for &i in &mesh.indices {
        assert!((i as usize) < mesh.positions.len());
    }
}
