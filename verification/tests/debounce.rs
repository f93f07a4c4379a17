//! Debounced rebuild scheduling: coalescing of rapid edits, the quiet
//! window, and buffer reallocation policy.

use scene_core::particle_system::{
    BufferUpdate, GridParams, GridParticleSystem, SphereParams, SphereParticleSystem, DEBOUNCE_MS,
};

fn grid_system(rows: usize, now: u64) -> GridParticleSystem {
    GridParticleSystem::new(
        "g".to_string(),
        GridParams { rows, spacing: 1.0f32.to_bits(), center: [0u32; 3] },
        "cube.obj".to_string(),
        "default".to_string(),
        now,
    )
}

#[test]
fn fresh_system_needs_no_rebuild() {
    let s = grid_system(5, 100);
    assert_eq!(s.num_instances(), 25);
    assert!(!s.needs_rebuild(100 + DEBOUNCE_MS * 10));
}

#[test]
fn marks_within_window_coalesce_into_one_rebuild() {
    // Several rapid edits, then quiet: exactly one rebuild is due, and after
    // running it nothing further is.
    let mut s = grid_system(5, 0);
    s.mark_dirty(10);
    s.mark_dirty(15);
    s.mark_dirty(18);
    // Inside the window after the last edit: not yet due.
    assert!(!s.needs_rebuild(18));
    assert!(!s.needs_rebuild(18 + DEBOUNCE_MS - 1));
    // Past the window: due exactly once.
    assert!(s.needs_rebuild(18 + DEBOUNCE_MS));
    let _ = s.rebuild();
    assert!(!s.needs_rebuild(18 + DEBOUNCE_MS));
    assert!(!s.needs_rebuild(u64::MAX));
}

#[test]
fn rebuild_reallocates_only_on_count_change() {
    let mut s = grid_system(5, 0);
    // Unchanged parameters: the buffer is overwritten in place.
    s.mark_dirty(1);
    match s.rebuild() {
        BufferUpdate::WriteInPlace { len } => assert_eq!(len, 25),
        BufferUpdate::Reallocate { .. } => panic!("count unchanged, no reallocation expected"),
    }
    // A changed row count resizes the buffer to the new length.
    let p = GridParams { rows: 6, spacing: 1.0f32.to_bits(), center: [0u32; 3] };
    s.update_params(p, 2);
    assert!(s.needs_rebuild(2 + DEBOUNCE_MS));
    match s.rebuild() {
        BufferUpdate::Reallocate { len } => assert_eq!(len, 36),
        BufferUpdate::WriteInPlace { .. } => panic!("count changed, reallocation expected"),
    }
    assert_eq!(s.num_instances(), 36);
}

#[test]
fn update_params_marks_dirty_only_on_row_change() {
    let mut s = grid_system(5, 0);
    let same_rows = GridParams { rows: 5, spacing: 2.0f32.to_bits(), center: [0u32; 3] };
    s.update_params(same_rows, 50);
    assert!(!s.needs_rebuild(50 + DEBOUNCE_MS));
    let new_rows = GridParams { rows: 7, spacing: 2.0f32.to_bits(), center: [0u32; 3] };
    s.update_params(new_rows, 60);
    assert!(s.needs_rebuild(60 + DEBOUNCE_MS));
}

#[test]
fn sphere_debounce_mirrors_grid() {
    let mut s = SphereParticleSystem::new(
        "s".to_string(),
        SphereParams { count: 40, radius: 1.0f32.to_bits(), center: [0u32; 3] },
        "cube.obj".to_string(),
        "default".to_string(),
        0,
    );
    assert_eq!(s.num_instances(), 40);
    s.mark_dirty(5);
    s.mark_dirty(9);
    assert!(!s.needs_rebuild(9 + DEBOUNCE_MS - 1));
    assert!(s.needs_rebuild(9 + DEBOUNCE_MS));
    let p = SphereParams { count: 41, radius: 1.0f32.to_bits(), center: [0u32; 3] };
    s.update_params(p, 10);
    match s.rebuild() {
        BufferUpdate::Reallocate { len } => assert_eq!(len, 41),
        BufferUpdate::WriteInPlace { .. } => panic!("count changed, reallocation expected"),
    }
    assert!(!s.needs_rebuild(u64::MAX));
}
