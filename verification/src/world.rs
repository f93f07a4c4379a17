//! The persistence-friendly snapshot of a whole scene: background color,
//! camera pose, lights, and particle-system configurations. Every value the
//! renderer treats as a 32-bit float is carried as its bit pattern, so a
//! snapshot round-trips exactly. Transient state — GPU handles and the
//! bookkeeping of loads still in flight — has no place here.

use vstd::prelude::*;
use crate::particle_system::GeneratorType;

verus! {

/// Bit patterns of the default background color `[0.1, 0.2, 0.3, 1.0]`.
pub const BG_R_BITS: u32 = 0x3DCC_CCCD;

pub const BG_G_BITS: u32 = 0x3E4C_CCCD;

pub const BG_B_BITS: u32 = 0x3E99_999A;

pub const BG_A_BITS: u32 = 0x3F80_0000;

/// Camera position and view parameters, as float bit patterns.
#[derive(Clone, Copy, Debug)]
pub struct CameraData {
    pub position: [u32; 3],
    pub yaw_deg: u32,
    pub pitch_deg: u32,
    pub fovy_deg: u32,
    pub znear: u32,
    pub zfar: u32,
}

impl Default for CameraData {
    /// The starting camera: at `[0, 5, 10]`, yaw -90°, pitch -20°, a 45°
    /// field of view, and near and far planes at 0.1 and 1000.
    fn default() -> (r: CameraData)
        ensures
            r.position@ =~= seq![0u32, 0x40A0_0000u32, 0x4120_0000u32],
            r.yaw_deg == 0xC2B4_0000u32,
            r.pitch_deg == 0xC1A0_0000u32,
            r.fovy_deg == 0x4234_0000u32,
            r.znear == 0x3DCC_CCCDu32,
            r.zfar == 0x447A_0000u32,
    {
        CameraData {
            position: [0u32, 0x40A0_0000u32, 0x4120_0000u32],
            yaw_deg: 0xC2B4_0000u32,
            pitch_deg: 0xC1A0_0000u32,
            fovy_deg: 0x4234_0000u32,
            znear: 0x3DCC_CCCDu32,
            zfar: 0x447A_0000u32,
        }
    }
}

/// One light as persisted: position, color, and the model and material the
/// light pass renders with.
#[derive(Clone, Debug)]
pub struct LightParams {
    pub position: [u32; 3],
    pub color: [u32; 4],
    pub model: String,
    pub material_key: String,
}

/// One particle system as persisted.
#[derive(Clone, Debug)]
pub struct ParticleSystemData {
    pub name: String,
    pub model: String,
    pub material_key: String,
    pub generator: GeneratorType,
}

impl ParticleSystemData {
    pub fn name(&self) -> (r: &String)
        ensures
            r == &self.name,
    {
        &self.name
    }
}

/// The whole persisted world.
#[derive(Clone, Debug)]
pub struct WorldData {
    pub background_color: [u32; 4],
    pub camera: CameraData,
    pub lights: Vec<LightParams>,
    pub particle_systems: Vec<ParticleSystemData>,
}

impl Default for WorldData {
    /// An empty world over the default background and camera.
    fn default() -> (r: WorldData)
        ensures
            r.background_color@ =~= seq![BG_R_BITS, BG_G_BITS, BG_B_BITS, BG_A_BITS],
            r.camera.position@ =~= seq![0u32, 0x40A0_0000u32, 0x4120_0000u32],
            r.lights@ =~= Seq::<LightParams>::empty(),
            r.particle_systems@ =~= Seq::<ParticleSystemData>::empty(),
    {
        WorldData {
            background_color: [BG_R_BITS, BG_G_BITS, BG_B_BITS, BG_A_BITS],
            camera: CameraData::default(),
            lights: Vec::new(),
            particle_systems: Vec::new(),
        }
    }
}

/// The model path a persisted entry falls back to when none was recorded.
pub fn default_model() -> (r: String)
    ensures
        r@ == "cube.obj"@,
{
    crate::defaults::particle_system_model_path()
}

/// The mesh index a persisted entry falls back to.
pub fn default_mesh_index() -> (r: usize)
    ensures
        r == 0,
{
    0
}

} // verus!
