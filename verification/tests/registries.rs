//! Registries: texture dedup, material creation and mutation with their
//! error cases, model-name derivation, and the particle-system manager's
//! keyed ownership.

use scene_core::model::{
    assemble_model, model_name_of_path, MaterialSource, MeshSummary, ParsedMaterial,
    TextureRegistry,
};
use scene_core::particle_system::{
    GridParams, GridParticleSystem, ParticleSystemKind, ParticleSystemManager, SphereParams,
    SphereParticleSystem,
};
use scene_core::state::MaterialError;

#[test]
fn texture_get_or_register_deduplicates() {
    // Two check-then-inserts for one path refer to the same handle, and the
    // second upload is discarded.
    let mut reg = TextureRegistry::new();
    let (h1, fresh1) = reg.get_or_register(&"tree.png".to_string(), 41);
    assert_eq!((h1, fresh1), (41, true));
    let (h2, fresh2) = reg.get_or_register(&"tree.png".to_string(), 77);
    assert_eq!(h2, h1);
    assert!(!fresh2);
    assert_eq!(reg.len(), 1);
    assert_eq!(reg.lookup(&"tree.png".to_string()), Some(41));
    assert_eq!(reg.lookup(&"rock.png".to_string()), None);
}

#[test]
fn model_name_derivation() {
    assert_eq!(model_name_of_path(&"teapot.obj".to_string()), "teapot");
    assert_eq!(model_name_of_path(&"models/deep/cube.obj".to_string()), "cube");
    assert_eq!(model_name_of_path(&"plain".to_string()), "plain");
    assert_eq!(model_name_of_path(&"dir/".to_string()), "");
    assert_eq!(model_name_of_path(&"x.obj.obj".to_string()), "x");
}

#[test]
fn assemble_model_keys_and_defaults() {
    let mats = vec![
        ParsedMaterial { name: "wood".to_string(), diffuse_texture: "wood.png".to_string() },
        ParsedMaterial { name: "steel".to_string(), diffuse_texture: "steel.png".to_string() },
    ];
    let meshes = vec![
        MeshSummary { num_elements: 36, vertex_count: 24, material_id: Some(1) },
        MeshSummary { num_elements: 12, vertex_count: 8, material_id: Some(9) },
        MeshSummary { num_elements: 6, vertex_count: 4, material_id: None },
    ];
    let (model, out) = assemble_model(&"assets/table.obj".to_string(), &mats, &meshes);
    assert_eq!(model.name, "table");
    assert_eq!(model.material_keys, vec!["table/wood".to_string(), "table/steel".to_string()]);
    assert_eq!(out.len(), 2);
    assert_eq!(out[0].0, "table/wood");
    assert_eq!(out[0].1.texture_path, "wood.png");
    match &out[0].1.source {
        MaterialSource::Model(m) => assert_eq!(m, "table"),
        _ => panic!("model materials carry model provenance"),
    }
    // Mesh material resolution: a valid index picks its key; an out-of-range
    // index and a missing one fall back to the default key.
    assert_eq!(model.meshes[0].material_key, "table/steel");
    assert_eq!(model.meshes[1].material_key, "default");
    assert_eq!(model.meshes[2].material_key, "default");
    assert_eq!(model.meshes[0].num_elements, 36);
    assert_eq!(model.meshes[0].vertex_count, 24);
}

#[test]
fn assemble_model_without_materials_uses_default() {
    let (model, out) = assemble_model(&"ball.obj".to_string(), &vec![], &vec![]);
    assert_eq!(model.material_keys, vec!["default".to_string()]);
    assert!(out.is_empty());
}

#[test]
fn manager_add_get_remove() {
    let mut mgr = ParticleSystemManager::new();
    let g = GridParticleSystem::new(
        "a".to_string(),
        GridParams { rows: 3, spacing: 0, center: [0; 3] },
        "cube.obj".to_string(),
        "default".to_string(),
        0,
    );
    let s = SphereParticleSystem::new(
        "b".to_string(),
        SphereParams { count: 9, radius: 0, center: [0; 3] },
        "cube.obj".to_string(),
        "default".to_string(),
        0,
    );
    mgr.add_grid("a".to_string(), g);
    mgr.add_sphere("b".to_string(), s);
    assert_eq!(mgr.count(), 2);
    assert!(matches!(mgr.get_kind(&"a".to_string()), Some(ParticleSystemKind::Grid)));
    assert!(matches!(mgr.get_kind(&"b".to_string()), Some(ParticleSystemKind::Sphere)));
    assert!(mgr.get_kind(&"c".to_string()).is_none());
    assert_eq!(mgr.get_grid(&"a".to_string()).unwrap().num_instances(), 9);
    let names = mgr.all_names();
    assert_eq!(names, vec!["a".to_string(), "b".to_string()]);
    assert!(mgr.remove(&"a".to_string()));
    assert!(!mgr.remove(&"a".to_string()));
    assert_eq!(mgr.count(), 1);
}

#[test]
fn manager_overwrite_changes_kind() {
    // The last writer wins, across families: re-registering a name as a
    // sphere replaces the grid that held it.
    let mut mgr = ParticleSystemManager::new();
    let g = GridParticleSystem::new(
        "x".to_string(),
        GridParams { rows: 2, spacing: 0, center: [0; 3] },
        "cube.obj".to_string(),
        "default".to_string(),
        0,
    );
    mgr.add_grid("x".to_string(), g);
    let s = SphereParticleSystem::new(
        "x".to_string(),
        SphereParams { count: 5, radius: 0, center: [0; 3] },
        "cube.obj".to_string(),
        "default".to_string(),
        0,
    );
    mgr.add_sphere("x".to_string(), s);
    assert_eq!(mgr.count(), 1);
    assert!(matches!(mgr.get_kind(&"x".to_string()), Some(ParticleSystemKind::Sphere)));
    assert!(mgr.get_grid(&"x".to_string()).is_none());
}

#[test]
fn material_error_variants() {
    assert_ne!(MaterialError::DuplicateKey, MaterialError::TextureNotFound);
    assert_ne!(MaterialError::TextureNotFound, MaterialError::MaterialNotFound);
}

#[test]
fn manager_mutable_access_by_name() {
    let mut mgr = ParticleSystemManager::new();
    let g = GridParticleSystem::new(
        "a".to_string(),
        GridParams { rows: 4, spacing: 0, center: [0; 3] },
        "cube.obj".to_string(),
        "default".to_string(),
        0,
    );
    mgr.add_grid("a".to_string(), g);
    mgr.get_grid_mut(&"a".to_string()).unwrap().mark_dirty(5);
    assert!(mgr.get_grid(&"a".to_string()).unwrap().needs_rebuild(100));
    assert!(mgr.get_grid_mut(&"b".to_string()).is_none());
    assert!(mgr.get_sphere_mut(&"a".to_string()).is_none());
}
