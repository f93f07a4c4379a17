//! Whole-scene behavior: the frame duties, material lifecycle with its
//! error cases, background-load tracking, and the world snapshot round
//! trip.

use scene_core::model::{assemble_model, MeshSummary, ParsedMaterial};
use scene_core::particle_system::{
    GeneratorType, GridParams, ParticleSystemDesc, SphereParams, SphereParticleSystem,
};
use scene_core::scripting::log_from_js;
use scene_core::state::{LoadResult, MaterialError, State};
use scene_core::world::WorldData;

fn bits(v: f32) -> u32 {
    v.to_bits()
}

fn fresh_state() -> State {
    let desc = ParticleSystemDesc::Grid {
        count: 100,
        params: GridParams { rows: 10, spacing: bits(1.0), center: [0u32; 3] },
    };
    State::new(desc, 0)
}

#[test]
fn new_state_defaults() {
    let s = fresh_state();
    assert_eq!(s.clear_color, [bits(0.1), bits(0.2), bits(0.3), bits(1.0)]);
    assert_eq!(s.camera.position, [bits(0.0), bits(5.0), bits(10.0)]);
    assert_eq!(s.camera.yaw_deg, bits(-90.0));
    assert_eq!(s.light_manager.num_lights(), 2);
    assert_eq!(s.light_manager.model_path(), "cube.obj");
    assert_eq!(s.light_manager.material_key(), "default");
    let main = s.particle_system_manager.get_grid(&"main".to_string()).unwrap();
    assert_eq!(main.num_instances(), 100);
    assert_eq!(main.model_path(), "cube.obj");
    assert!(s.materials.contains_key(&"default".to_string()));
}

#[test]
fn frame_light_sync_fires_once_per_change() {
    let mut s = fresh_state();
    // A fresh state's default lights were just installed, so one sync is due.
    let first = s.frame_light_sync();
    assert!(first.is_some());
    assert_eq!(first.unwrap().num_lights, 2);
    // Nothing changed since: no further sync.
    assert!(s.frame_light_sync().is_none());
    s.light_manager.add_light(&[0u32; 3], &[bits(1.0); 4]);
    let third = s.frame_light_sync();
    assert_eq!(third.unwrap().num_lights, 3);
}

#[test]
fn script_color_failure_retains_previous() {
    let mut s = fresh_state();
    let before = s.clear_color;
    s.frame_script_color(None);
    assert_eq!(s.clear_color, before);
    let green = [bits(0.0), bits(1.0), bits(0.0), bits(1.0)];
    s.frame_script_color(Some(green));
    assert_eq!(s.clear_color, green);
}

#[test]
fn create_material_rejects_duplicates() {
    // A created key sticks; creating it again is refused and the first
    // material is untouched.
    let mut s = fresh_state();
    s.textures.get_or_register(&"bark.png".to_string(), 7);
    let red = [bits(1.0), bits(0.0), bits(0.0), bits(1.0)];
    let key = s.create_material("tree".to_string(), "bark.png".to_string(), red).unwrap();
    assert_eq!(key, "custom/tree");
    let blue = [bits(0.0), bits(0.0), bits(1.0), bits(1.0)];
    let again = s.create_material("tree".to_string(), "bark.png".to_string(), blue);
    assert_eq!(again, Err(MaterialError::DuplicateKey));
    let kept = s.materials.get(&key).unwrap();
    assert_eq!(kept.properties.color, red);
    assert_eq!(kept.texture_path, "bark.png");
}

#[test]
fn create_material_requires_loaded_texture() {
    let mut s = fresh_state();
    let r = s.create_material("x".to_string(), "missing.png".to_string(), [bits(1.0); 4]);
    assert_eq!(r, Err(MaterialError::TextureNotFound));
}

#[test]
fn material_editability_follows_provenance() {
    let mut s = fresh_state();
    s.textures.get_or_register(&"a.png".to_string(), 1);
    let key = s.create_material("mine".to_string(), "a.png".to_string(), [bits(1.0); 4]).unwrap();
    // System material: visible but read-only, never deletable.
    assert!(!s.is_material_editable(&"default".to_string()));
    assert!(!s.is_material_deletable(&"default".to_string()));
    // Custom material: editable and deletable.
    assert!(s.is_material_editable(&key));
    assert!(s.is_material_deletable(&key));
    // Unknown key: neither.
    assert!(!s.is_material_editable(&"ghostly".to_string()));
    assert!(!s.is_material_deletable(&"ghostly".to_string()));
}

#[test]
fn change_material_texture_paths() {
    let mut s = fresh_state();
    s.textures.get_or_register(&"a.png".to_string(), 1);
    s.textures.get_or_register(&"b.png".to_string(), 2);
    let key = s.create_material("m".to_string(), "a.png".to_string(), [bits(0.5); 4]).unwrap();
    // Unknown material.
    assert_eq!(
        s.change_material_texture(&"nope".to_string(), &"b.png".to_string()),
        Err(MaterialError::MaterialNotFound)
    );
    // Unregistered texture.
    assert_eq!(
        s.change_material_texture(&key, &"c.png".to_string()),
        Err(MaterialError::TextureNotFound)
    );
    // Same texture: accepted, nothing changes.
    assert_eq!(s.change_material_texture(&key, &"a.png".to_string()), Ok(()));
    // Real change: path swaps, tint survives.
    assert_eq!(s.change_material_texture(&key, &"b.png".to_string()), Ok(()));
    let m = s.materials.get(&key).unwrap();
    assert_eq!(m.texture_path, "b.png");
    assert_eq!(m.properties.color, [bits(0.5); 4]);
}

#[test]
fn set_material_tint_updates_in_place() {
    let mut s = fresh_state();
    s.textures.get_or_register(&"a.png".to_string(), 1);
    let key = s.create_material("m".to_string(), "a.png".to_string(), [bits(1.0); 4]).unwrap();
    let teal = [bits(0.0), bits(0.7), bits(0.7), bits(1.0)];
    assert!(s.set_material_tint(&key, teal));
    assert_eq!(s.materials.get(&key).unwrap().properties.color, teal);
    assert_eq!(s.materials.get(&key).unwrap().texture_path, "a.png");
    assert!(!s.set_material_tint(&"nope".to_string(), teal));
}

#[test]
fn load_tracking_state_machine() {
    // Requested -> InFlight -> Registered, with idempotent enqueue at every
    // stage.
    let mut s = fresh_state();
    s.request_model_load("tree.obj".to_string());
    s.request_model_load("tree.obj".to_string());
    let dispatched = s.dispatch_pending_loads();
    assert_eq!(dispatched, vec!["tree.obj".to_string()]);
    // In flight: a new request for the same path is dropped.
    s.request_model_load("tree.obj".to_string());
    assert!(s.dispatch_pending_loads().is_empty());
    // The loader finishes; the registries take the result.
    let (model, materials) = assemble_model(&"tree.obj".to_string(), &vec![], &vec![]);
    s.handle_load_result(LoadResult::Loaded { path: "tree.obj".to_string(), model, materials });
    assert!(s.lookup_model(&"tree.obj".to_string()).is_some());
    // Registered: requesting again is a no-op.
    s.request_model_load("tree.obj".to_string());
    assert!(s.dispatch_pending_loads().is_empty());
}

#[test]
fn failed_load_allows_retry() {
    let mut s = fresh_state();
    s.request_model_load("bad.obj".to_string());
    let dispatched = s.dispatch_pending_loads();
    assert_eq!(dispatched.len(), 1);
    s.handle_load_result(LoadResult::Failed { path: "bad.obj".to_string() });
    assert!(s.lookup_model(&"bad.obj".to_string()).is_none());
    // The failure released the path, so it can be requested and dispatched
    // again.
    s.request_model_load("bad.obj".to_string());
    assert_eq!(s.dispatch_pending_loads(), vec!["bad.obj".to_string()]);
}

#[test]
fn world_round_trip_reproduces_scene() {
    let mut s = fresh_state();
    s.light_manager.add_light(
        &[bits(4.0), bits(5.0), bits(6.0)],
        &[bits(0.2), bits(0.4), bits(0.6), bits(1.0)],
    );
    let sphere = SphereParticleSystem::new(
        "cloud".to_string(),
        SphereParams { count: 64, radius: bits(2.0), center: [bits(1.0); 3] },
        "ball.obj".to_string(),
        "default".to_string(),
        5,
    );
    s.particle_system_manager.add_sphere("cloud".to_string(), sphere);
    let teal = [bits(0.0), bits(0.5), bits(0.5), bits(1.0)];
    s.set_clear_color(teal);

    let snapshot = s.export_world();
    assert_eq!(snapshot.background_color, teal);
    assert_eq!(snapshot.lights.len(), 3);
    assert_eq!(snapshot.particle_systems.len(), 2);

    let mut restored = fresh_state();
    // Make the restored scene start out different.
    restored.light_manager.remove_light(0);
    restored.particle_system_manager.remove(&"main".to_string());
    restored.load_world(snapshot, 99);

    assert_eq!(restored.clear_color, s.clear_color);
    assert_eq!(restored.camera.position, s.camera.position);
    assert_eq!(restored.light_manager.num_lights(), 3);
    let packed_a = s.light_manager.sync_to_gpu();
    let packed_b = restored.light_manager.sync_to_gpu();
    assert_eq!(packed_a.num_lights, packed_b.num_lights);
    for k in 0..packed_a.num_lights as usize {
        assert_eq!(packed_a.lights[k].position, packed_b.lights[k].position);
        assert_eq!(packed_a.lights[k].color, packed_b.lights[k].color);
    }
    assert_eq!(restored.light_manager.model_path(), s.light_manager.model_path());
    let main = restored.particle_system_manager.get_grid(&"main".to_string()).unwrap();
    assert_eq!(main.params().rows, 10);
    assert_eq!(main.model_path(), "cube.obj");
    let cloud = restored.particle_system_manager.get_sphere(&"cloud".to_string()).unwrap();
    assert_eq!(cloud.params().count, 64);
    assert_eq!(cloud.params().radius, bits(2.0));
    assert_eq!(cloud.model_path(), "ball.obj");
    // Models referenced by the snapshot but not yet cached are queued.
    let queued = restored.dispatch_pending_loads();
    assert!(queued.contains(&"cube.obj".to_string()));
    assert!(queued.contains(&"ball.obj".to_string()));
}

#[test]
fn generator_type_survives_export() {
    let s = fresh_state();
    let w = s.export_world();
    match &w.particle_systems[0].generator {
        GeneratorType::Grid(p) => assert_eq!(p.rows, 10),
        GeneratorType::Sphere(_) => panic!("the initial system is a grid"),
    }
}

#[test]
fn world_data_defaults() {
    let w = WorldData::default();
    assert_eq!(w.background_color, [bits(0.1), bits(0.2), bits(0.3), bits(1.0)]);
    assert_eq!(w.camera.fovy_deg, bits(45.0));
    assert_eq!(w.camera.znear, bits(0.1));
    assert_eq!(w.camera.zfar, bits(1000.0));
    assert!(w.lights.is_empty());
    assert!(w.particle_systems.is_empty());
    assert_eq!(scene_core::world::default_model(), "cube.obj");
    assert_eq!(scene_core::world::default_mesh_index(), 0);
}

#[test]
fn log_line_formatting() {
    assert_eq!(log_from_js("hello".to_string()), "[Rust Log]: hello");
    assert_eq!(log_from_js(String::new()), "[Rust Log]: ");
}

#[test]
fn default_resource_names() {
    assert_eq!(scene_core::defaults::initial_model_path(), "cube.obj");
    assert_eq!(scene_core::defaults::default_material_key(), "default");
    assert_eq!(scene_core::defaults::light_model_path(), "cube.obj");
    assert_eq!(scene_core::defaults::light_material_key(), "default");
    assert_eq!(scene_core::defaults::particle_system_model_path(), "cube.obj");
    assert_eq!(scene_core::defaults::particle_system_material_key(), "default");
}

#[test]
fn materials_by_source_filters() {
    let mut s = fresh_state();
    s.textures.get_or_register(&"a.png".to_string(), 1);
    s.create_material("one".to_string(), "a.png".to_string(), [bits(1.0); 4]).unwrap();
    s.create_material("two".to_string(), "a.png".to_string(), [bits(1.0); 4]).unwrap();
    let customs = s.materials_by_source(&scene_core::model::MaterialSource::Custom);
    assert_eq!(customs.len(), 2);
    assert_eq!(customs[0].0, "custom/one");
    assert_eq!(customs[1].0, "custom/two");
    let systems = s.materials_by_source(&scene_core::model::MaterialSource::System);
    assert_eq!(systems.len(), 1);
    assert_eq!(systems[0].0, "default");
}

#[test]
fn load_empty_world_clears_lights() {
    // An empty snapshot leaves no lights; the light manager falls back to
    // its built-in model and material references.
    let mut s = fresh_state();
    s.load_world(WorldData::default(), 0);
    assert_eq!(s.light_manager.num_lights(), 0);
    assert_eq!(s.light_manager.sync_to_gpu().num_lights, 0);
    assert_eq!(s.light_manager.model_path(), "teapot.obj");
    assert_eq!(s.particle_system_manager.count(), 0);
}
