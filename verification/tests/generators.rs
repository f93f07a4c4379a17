//! Generator enumeration: cardinality, column-major order, the early
//! termination cap, and the exactly-centered cell.

use scene_core::particle_system::{
    generate_grid_instances, generate_sphere_instances, GridParams, SphereParams,
};

fn grid(rows: usize) -> GridParams {
    GridParams { rows, spacing: 1.0f32.to_bits(), center: [0u32; 3] }
}

#[test]
fn grid_cardinality_is_rows_squared() {
    for rows in [1usize, 2, 3, 7, 10] {
        let p = grid(rows);
        let instances = generate_grid_instances(rows * rows, &p);
        assert_eq!(instances.len(), rows * rows);
    }
}

#[test]
fn grid_ten_rows_yields_hundred_column_major() {
    let p = grid(10);
    let instances = generate_grid_instances(100, &p);
    assert_eq!(instances.len(), 100);
    // Column-major: the outer loop walks columns, the inner one rows.
    assert_eq!((instances[0].col, instances[0].row), (0, 0));
    assert_eq!((instances[1].col, instances[1].row), (0, 1));
    assert_eq!((instances[10].col, instances[10].row), (1, 0));
    assert_eq!((instances[99].col, instances[99].row), (9, 9));
}

#[test]
fn grid_center_cell_identity_rotation() {
    // With an even row count one cell coincides exactly with the half-extent
    // displacement and keeps the identity rotation: cell (5, 5) of a 10-row
    // grid.
    let p = grid(10);
    let instances = generate_grid_instances(100, &p);
    for inst in &instances {
        assert_eq!(inst.centered, inst.col == 5 && inst.row == 5);
    }
    assert!(instances[55].centered);
}

#[test]
fn grid_odd_rows_have_no_centered_cell() {
    // With an odd row count no cell sits exactly on the center.
    let p = grid(9);
    let instances = generate_grid_instances(81, &p);
    assert!(instances.iter().all(|i| !i.centered));
}

#[test]
fn grid_cap_stops_enumeration_early() {
    // The cap only binds when it is smaller than the full layout.
    let p = grid(4);
    let capped = generate_grid_instances(10, &p);
    assert_eq!(capped.len(), 10);
    assert_eq!((capped[9].col, capped[9].row), (2, 1));
    let over = generate_grid_instances(1000, &p);
    assert_eq!(over.len(), 16);
}

#[test]
fn sphere_cardinality_is_count() {
    for count in [1usize, 2, 50, 1000] {
        let p = SphereParams { count, radius: 1.0f32.to_bits(), center: [0u32; 3] };
        let instances = generate_sphere_instances(&p);
        assert_eq!(instances.len(), count);
        for (k, inst) in instances.iter().enumerate() {
            assert_eq!(inst.index, k);
        }
    }
}

#[test]
fn single_cell_grid_is_centered_only_for_even_rows() {
    // The smallest grid: one cell at (0, 0). An odd row count has no
    // exactly-centered cell, so even this one is rotated.
    let p = grid(1);
    let instances = generate_grid_instances(1, &p);
    assert_eq!(instances.len(), 1);
    assert!(!instances[0].centered);
    // Rows of two: the centered cell is (1, 1).
    let p2 = grid(2);
    let instances2 = generate_grid_instances(4, &p2);
    assert!(!instances2[0].centered);
    assert!(instances2[3].centered);
}
