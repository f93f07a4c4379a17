//! Central default resource names, so the same paths and keys are used
//! everywhere a scene falls back to its built-in assets.

use vstd::prelude::*;

verus! {

/// Model path used for the initial scene and as the fallback for loads.
pub fn initial_model_path() -> (r: String)
    ensures
        r@ == "cube.obj"@,
{
    "cube.obj".to_owned()
}

/// Material key used when nothing more specific is available.
pub fn default_material_key() -> (r: String)
    ensures
        r@ == "default"@,
{
    "default".to_owned()
}

/// Model path used to visualize light sources.
pub fn light_model_path() -> (r: String)
    ensures
        r@ == "cube.obj"@,
{
    "cube.obj".to_owned()
}

/// Material key used to visualize light sources.
pub fn light_material_key() -> (r: String)
    ensures
        r@ == "default"@,
{
    "default".to_owned()
}

/// Model path a particle system falls back to.
pub fn particle_system_model_path() -> (r: String)
    ensures
        r@ == "cube.obj"@,
{
    "cube.obj".to_owned()
}

/// Material key a particle system falls back to.
pub fn particle_system_material_key() -> (r: String)
    ensures
        r@ == "default"@,
{
    "default".to_owned()
}

} // verus!
