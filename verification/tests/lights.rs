//! Light slot allocator behavior: first-fit allocation, capacity, removal,
//! compaction order, and the count invariant.

use scene_core::light::{LightManager, MAX_LIGHTS};

fn fb(v: f32) -> u32 {
    v.to_bits()
}

fn pos(x: f32, y: f32, z: f32) -> [u32; 3] {
    [fb(x), fb(y), fb(z)]
}

fn color(r: f32, g: f32, b: f32, a: f32) -> [u32; 4] {
    [fb(r), fb(g), fb(b), fb(a)]
}

#[test]
fn new_manager_is_empty() {
    let lm = LightManager::new();
    assert_eq!(lm.num_lights(), 0);
    assert_eq!(lm.max_lights(), MAX_LIGHTS);
    assert!(!lm.is_dirty());
    for i in 0..MAX_LIGHTS {
        assert!(!lm.is_active(i));
        assert!(lm.get_light(i).is_none());
    }
}

#[test]
fn add_light_first_fit_and_dirty() {
    let mut lm = LightManager::new();
    let s = lm.add_light(&pos(1.0, 2.0, 3.0), &color(1.0, 1.0, 1.0, 1.0));
    assert_eq!(s, Some(0));
    assert!(lm.is_dirty());
    assert!(lm.is_active(0));
    let l = lm.get_light(0).unwrap();
    assert_eq!(l.position, [fb(1.0), fb(2.0), fb(3.0), fb(1.0)]);
    assert_eq!(l.color, color(1.0, 1.0, 1.0, 1.0));
    let s2 = lm.add_light(&pos(4.0, 5.0, 6.0), &color(1.0, 0.0, 0.0, 1.0));
    assert_eq!(s2, Some(1));
}

#[test]
fn capacity_exceeded_returns_none_and_leaves_state() {
    // Ten adds succeed; the eleventh reports exhausted capacity and changes
    // nothing.
    let mut lm = LightManager::new();
    for i in 0..MAX_LIGHTS {
        let s = lm.add_light(&pos(i as f32, 0.0, 0.0), &color(1.0, 1.0, 1.0, 1.0));
        assert_eq!(s, Some(i));
    }
    assert_eq!(lm.num_lights(), 10);
    let before: Vec<[u32; 4]> = (0..MAX_LIGHTS)
        .map(|i| lm.get_light(i).unwrap().position)
        .collect();
    let s = lm.add_light(&pos(99.0, 99.0, 99.0), &color(0.0, 0.0, 0.0, 0.0));
    assert_eq!(s, None);
    assert_eq!(lm.num_lights(), 10);
    for i in 0..MAX_LIGHTS {
        assert_eq!(lm.get_light(i).unwrap().position, before[i]);
    }
}

#[test]
fn removed_slot_is_refilled_first() {
    // Add three, remove the middle one, add a fourth: first-fit puts it in
    // the freed slot one.
    let mut lm = LightManager::new();
    lm.add_light(&pos(0.0, 0.0, 0.0), &color(1.0, 0.0, 0.0, 1.0));
    lm.add_light(&pos(1.0, 0.0, 0.0), &color(0.0, 1.0, 0.0, 1.0));
    lm.add_light(&pos(2.0, 0.0, 0.0), &color(0.0, 0.0, 1.0, 1.0));
    lm.remove_light(1);
    assert!(!lm.is_active(1));
    assert_eq!(lm.num_lights(), 2);
    let s = lm.add_light(&pos(7.0, 7.0, 7.0), &color(1.0, 1.0, 0.0, 1.0));
    assert_eq!(s, Some(1));
    // Compaction packs the three lights in ascending slot order: 0, 1, 2 —
    // so the replacement sits between the two originals.
    let gpu = lm.sync_to_gpu();
    assert_eq!(gpu.num_lights, 3);
    assert_eq!(gpu.lights[0].position[0], fb(0.0));
    assert_eq!(gpu.lights[1].position[0], fb(7.0));
    assert_eq!(gpu.lights[2].position[0], fb(2.0));
}

#[test]
fn sync_count_matches_num_lights() {
    // The mask population count, num_lights and the packed count agree under
    // an arbitrary add/remove history.
    let mut lm = LightManager::new();
    for i in 0..7 {
        lm.add_light(&pos(i as f32, 1.0, 1.0), &color(1.0, 1.0, 1.0, 1.0));
    }
    lm.remove_light(2);
    lm.remove_light(5);
    lm.remove_light(2); // already dead: mask unchanged
    assert_eq!(lm.num_lights(), 5);
    let gpu = lm.sync_to_gpu();
    assert_eq!(gpu.num_lights, lm.num_lights());
    // Slots beyond the packed count are zeroed.
    for k in gpu.num_lights as usize..MAX_LIGHTS {
        assert_eq!(gpu.lights[k].position, [0u32; 4]);
        assert_eq!(gpu.lights[k].color, [0u32; 4]);
    }
}

#[test]
fn remove_out_of_range_is_noop() {
    let mut lm = LightManager::new();
    lm.add_light(&pos(1.0, 1.0, 1.0), &color(1.0, 1.0, 1.0, 1.0));
    lm.clear_dirty();
    lm.remove_light(MAX_LIGHTS);
    assert!(!lm.is_dirty());
    assert_eq!(lm.num_lights(), 1);
}

#[test]
fn update_light_only_touches_live_slots() {
    let mut lm = LightManager::new();
    lm.add_light(&pos(1.0, 1.0, 1.0), &color(1.0, 1.0, 1.0, 1.0));
    lm.update_light(0, &pos(9.0, 9.0, 9.0), &color(0.5, 0.5, 0.5, 1.0));
    assert_eq!(lm.get_light(0).unwrap().position[0], fb(9.0));
    lm.clear_dirty();
    lm.update_light(3, &pos(8.0, 8.0, 8.0), &color(0.5, 0.5, 0.5, 1.0));
    assert!(!lm.is_dirty());
    assert!(lm.get_light(3).is_none());
}

#[test]
fn with_lights_fills_slots_in_order() {
    let given = vec![
        (pos(2.0, 2.0, 2.0), color(1.0, 1.0, 1.0, 1.0)),
        (pos(-2.0, 2.0, 2.0), color(1.0, 0.0, 0.0, 1.0)),
    ];
    let lm = LightManager::with_lights(&given);
    assert_eq!(lm.num_lights(), 2);
    assert_eq!(lm.get_light(0).unwrap().position[0], fb(2.0));
    assert_eq!(lm.get_light(1).unwrap().position[0], fb(-2.0));
    assert_eq!(lm.get_light(1).unwrap().color, color(1.0, 0.0, 0.0, 1.0));
}
