//! The engine's live state: background color, camera pose, the light
//! manager, every particle system, and the asset registries with their
//! background-load bookkeeping. The per-frame duties that need no GPU or
//! I/O are here as well: deciding when lights re-sync, folding completed
//! background loads into the registries, draining the pending-load queue,
//! and converting the whole state to and from a persistable snapshot.

use vstd::prelude::*;
use crate::light::{LightManager, LightArrayGpu, MAX_LIGHTS};
use crate::model::{
    Model,
    MaterialDesc,
    MaterialProperties,
    MaterialSource,
    TextureRegistry,
    custom_material_key,
    spec_custom_key,
};
use crate::particle_system::{
    GeneratorType,
    GridParticleSystem,
    ParticleSystemManager,
    SphereParticleSystem,
    ParticleSystemDesc,
};
use crate::strmap::StrMap;
use crate::world::{WorldData, CameraData, LightParams, ParticleSystemData};

verus! {

/// Why a material operation was refused.
#[derive(Clone, Copy, Debug, PartialEq, Eq, Structural)]
pub enum MaterialError {
    DuplicateKey,
    TextureNotFound,
    MaterialNotFound,
}

/// The outcome of one background model load, as the loader reports it back
/// over the channel. A failure carries the path as data, so no error text
/// ever needs parsing.
pub enum LoadResult {
    Loaded { path: String, model: Model, materials: Vec<(String, MaterialDesc)> },
    Failed { path: String },
}

/// Two provenance tags of the same kind (and, for model materials, the same
/// model).
pub open spec fn spec_same_source(a: MaterialSource, b: MaterialSource) -> bool {
    match a {
        MaterialSource::System => b is System,
        MaterialSource::Custom => b is Custom,
        MaterialSource::Model(x) => b matches MaterialSource::Model(y) && x@ == y@,
    }
}

fn same_source(a: &MaterialSource, b: &MaterialSource) -> (r: bool)
    ensures
        r == spec_same_source(*a, *b),
{
    match a {
        MaterialSource::System => match b {
            MaterialSource::System => true,
            _ => false,
        },
        MaterialSource::Custom => match b {
            MaterialSource::Custom => true,
            _ => false,
        },
        MaterialSource::Model(x) => match b {
            MaterialSource::Model(y) => *x == *y,
            _ => false,
        },
    }
}

/// The material entries whose provenance matches `src`, in registry order.
pub open spec fn spec_mats_by_source(
    s: Seq<(String, MaterialDesc)>,
    src: MaterialSource,
) -> Seq<(String, MaterialDesc)>
    decreases s.len(),
{
    if s.len() == 0 {
        Seq::empty()
    } else {
        spec_mats_by_source(s.drop_last(), src) + if spec_same_source(s.last().1.source, src) {
            seq![s.last()]
        } else {
            Seq::empty()
        }
    }
}

/// A registry map extended by a batch of entries, first to last.
pub open spec fn spec_insert_all<V>(
    m: Map<Seq<char>, V>,
    s: Seq<(String, V)>,
) -> Map<Seq<char>, V>
    decreases s.len(),
{
    if s.len() == 0 {
        m
    } else {
        spec_insert_all(m, s.drop_last()).insert(s.last().0@, s.last().1)
    }
}


/// One exported light entry: the compacted light's position without its
/// homogeneous coordinate, its color, and the manager's shared model and
/// material references.
pub open spec fn spec_light_param_matches(
    l: LightParams,
    c: crate::light::Light,
    lm: LightManager,
) -> bool {
    l.position@ =~= c.position@.take(3) && l.color == c.color && l.model@ == lm.model_path@
        && l.material_key@ == lm.material_key@
}

/// One exported particle-system entry taken from a grid registry entry.
pub open spec fn spec_ps_data_matches_grid(
    d: ParticleSystemData,
    e: (String, GridParticleSystem),
) -> bool {
    d.name@ == e.0@ && d.model@ == e.1.model_path@ && d.material_key@ == e.1.material_key@ && (
    d.generator matches GeneratorType::Grid(p) && p == e.1.params)
}

/// One exported particle-system entry taken from a sphere registry entry.
pub open spec fn spec_ps_data_matches_sphere(
    d: ParticleSystemData,
    e: (String, SphereParticleSystem),
) -> bool {
    d.name@ == e.0@ && d.model@ == e.1.model_path@ && d.material_key@ == e.1.material_key@ && (
    d.generator matches GeneratorType::Sphere(p) && p == e.1.params)
}

/// What `export_world` promises of its snapshot: background and camera are
/// copied, the lights are the live ones in ascending slot order, and the
/// particle systems are every grid system followed by every sphere system,
/// each in registration order.
pub open spec fn spec_is_export(s: State, w: WorldData) -> bool {
    let g = s.particle_system_manager.grids.entries@.len() as int;
    let sp = s.particle_system_manager.spheres.entries@.len() as int;
    w.background_color == s.clear_color && w.camera == s.camera && w.lights@.len()
        == s.light_manager.spec_num_lights() && (forall|k: int|
        0 <= k < w.lights@.len() ==> spec_light_param_matches(
            #[trigger] w.lights@[k],
            s.light_manager.spec_compacted()[k],
            s.light_manager,
        )) && w.particle_systems@.len() == g + sp && (forall|i: int|
        0 <= i < g ==> spec_ps_data_matches_grid(
            #[trigger] w.particle_systems@[i],
            s.particle_system_manager.grids.entries@[i],
        )) && (forall|i: int|
        0 <= i < sp ==> spec_ps_data_matches_sphere(
            #[trigger] w.particle_systems@[g + i],
            s.particle_system_manager.spheres.entries@[i],
        ))
}

/// What loading a snapshot's light list leaves in the light manager: the
/// first ten listed lights in slots zero upward, every higher slot dead, and
/// the shared model and material taken from the first light when there is
/// one (a lightless snapshot keeps the manager's own defaults).
pub open spec fn spec_lights_loaded(lm: LightManager, ls: Seq<LightParams>) -> bool {
    lm.wf() && lm.spec_homogeneous() && lm.spec_num_lights() == (if ls.len() < MAX_LIGHTS {
        ls.len() as int
    } else {
        MAX_LIGHTS as int
    }) && (forall|i: int| 0 <= i < ls.len() && i < MAX_LIGHTS ==> #[trigger] lm.spec_is_active(i))
        && (forall|i: int|
        0 <= i < ls.len() && i < MAX_LIGHTS ==> (#[trigger] lm.lights@[i]).position@ =~= ls[
            i
        ].position@.push(crate::light::F32_ONE_BITS) && lm.lights@[i].color == ls[i].color) && (
    forall|i: int| ls.len() <= i < MAX_LIGHTS ==> !(#[trigger] lm.spec_is_active(i))) && (ls.len()
        > 0 ==> lm.model_path@ == ls[0].model@ && lm.material_key@ == ls[0].material_key@) && (
    ls.len() == 0 ==> lm.model_path@ == "teapot.obj"@ && lm.material_key@ == "teapot/default"@)
}

/// The grid configurations of a snapshot's particle-system list, in order.
pub open spec fn spec_grid_cfgs(s: Seq<ParticleSystemData>) -> Seq<ParticleSystemData>
    decreases s.len(),
{
    if s.len() == 0 {
        Seq::empty()
    } else {
        spec_grid_cfgs(s.drop_last()) + if s.last().generator is Grid {
            seq![s.last()]
        } else {
            Seq::empty()
        }
    }
}

/// The sphere configurations of a snapshot's particle-system list, in order.
pub open spec fn spec_sphere_cfgs(s: Seq<ParticleSystemData>) -> Seq<ParticleSystemData>
    decreases s.len(),
{
    if s.len() == 0 {
        Seq::empty()
    } else {
        spec_sphere_cfgs(s.drop_last()) + if s.last().generator is Sphere {
            seq![s.last()]
        } else {
            Seq::empty()
        }
    }
}

/// No two configurations share a name.
pub open spec fn spec_distinct_names(s: Seq<ParticleSystemData>) -> bool {
    forall|i: int, j: int|
        0 <= i < j < s.len() ==> (#[trigger] s[i]).name@ != (#[trigger] s[j]).name@
}

/// A grid registry entry holding exactly one configuration, freshly built at
/// `now`.
pub open spec fn spec_entry_matches_grid_cfg(
    e: (String, GridParticleSystem),
    d: ParticleSystemData,
    now: u64,
) -> bool {
    e.0@ == d.name@ && e.1.name@ == d.name@ && e.1.model_path@ == d.model@ && e.1.material_key@
        == d.material_key@ && (d.generator matches GeneratorType::Grid(p) && e.1.params == p)
        && !e.1.needs_rebuild && e.1.last_edit_ms == now
}

/// A sphere registry entry holding exactly one configuration.
pub open spec fn spec_entry_matches_sphere_cfg(
    e: (String, SphereParticleSystem),
    d: ParticleSystemData,
    now: u64,
) -> bool {
    e.0@ == d.name@ && e.1.name@ == d.name@ && e.1.model_path@ == d.model@ && e.1.material_key@
        == d.material_key@ && (d.generator matches GeneratorType::Sphere(p) && e.1.params == p)
        && !e.1.needs_rebuild && e.1.last_edit_ms == now
}

/// The manager holds exactly the given configurations: its grid entries are
/// the grid configurations in order, its sphere entries the sphere ones.
pub open spec fn spec_cfgs_match(
    mgr: ParticleSystemManager,
    s: Seq<ParticleSystemData>,
    now: u64,
) -> bool {
    mgr.grids.entries@.len() == spec_grid_cfgs(s).len() && (forall|i: int|
        0 <= i < mgr.grids.entries@.len() ==> spec_entry_matches_grid_cfg(
            #[trigger] mgr.grids.entries@[i],
            spec_grid_cfgs(s)[i],
            now,
        )) && mgr.spheres.entries@.len() == spec_sphere_cfgs(s).len() && (forall|i: int|
        0 <= i < mgr.spheres.entries@.len() ==> spec_entry_matches_sphere_cfg(
            #[trigger] mgr.spheres.entries@[i],
            spec_sphere_cfgs(s)[i],
            now,
        ))
}

/// What loading a snapshot's particle-system list leaves in the manager.
/// With distinct names — and every exported snapshot has them — the entries
/// are exactly the listed configurations.
pub open spec fn spec_ps_loaded(
    mgr: ParticleSystemManager,
    s: Seq<ParticleSystemData>,
    now: u64,
) -> bool {
    mgr.wf() && mgr.all_valid() && (spec_distinct_names(s) ==> spec_cfgs_match(mgr, s, now))
}

/// A referenced model is accounted for: loaded, being loaded, or queued.
pub open spec fn spec_load_covered(s: State, path: Seq<char>) -> bool {
    s.models@.contains_key(path) || s.in_flight_model_loads@.contains_key(path)
        || s.pending_model_loads@.contains_key(path)
}


/// Every filtered grid configuration is one of the listed configurations.
proof fn lemma_grid_cfgs_elem(s: Seq<ParticleSystemData>, k: int)
    requires
        0 <= k < spec_grid_cfgs(s).len(),
    ensures
        exists|i: int| 0 <= i < s.len() && #[trigger] s[i] == spec_grid_cfgs(s)[k],
    decreases s.len(),
{
    let prev = spec_grid_cfgs(s.drop_last());
    if k < prev.len() {
        lemma_grid_cfgs_elem(s.drop_last(), k);
        let i = choose|i: int| 0 <= i < s.drop_last().len() && #[trigger] s.drop_last()[i] == prev[
            k
        ];
        assert(s[i] == spec_grid_cfgs(s)[k]);
    } else {
        assert(s[s.len() - 1] == spec_grid_cfgs(s)[k]);
    }
}

proof fn lemma_sphere_cfgs_elem(s: Seq<ParticleSystemData>, k: int)
    requires
        0 <= k < spec_sphere_cfgs(s).len(),
    ensures
        exists|i: int| 0 <= i < s.len() && #[trigger] s[i] == spec_sphere_cfgs(s)[k],
    decreases s.len(),
{
    let prev = spec_sphere_cfgs(s.drop_last());
    if k < prev.len() {
        lemma_sphere_cfgs_elem(s.drop_last(), k);
        let i = choose|i: int| 0 <= i < s.drop_last().len() && #[trigger] s.drop_last()[i] == prev[
            k
        ];
        assert(s[i] == spec_sphere_cfgs(s)[k]);
    } else {
        assert(s[s.len() - 1] == spec_sphere_cfgs(s)[k]);
    }
}

/// Under distinct names, the configuration about to be registered is not yet
/// in either registry of a manager that holds the earlier configurations.
proof fn lemma_cfg_name_fresh(
    mgr0: ParticleSystemManager,
    s: Seq<ParticleSystemData>,
    p: int,
    now: u64,
)
    requires
        0 <= p < s.len(),
        spec_distinct_names(s),
        spec_cfgs_match(mgr0, s.take(p), now),
    ensures
        !mgr0.grids@.contains_key(s[p].name@),
        !mgr0.spheres@.contains_key(s[p].name@),
{
    let prefix = s.take(p);
    let nm = s[p].name@;
    crate::strmap::lemma_map_domain(mgr0.grids.entries@, nm);
    if mgr0.grids@.contains_key(nm) {
        let e = choose|e: int|
            0 <= e < mgr0.grids.entries@.len() && (#[trigger] mgr0.grids.entries@[e]).0@ == nm;
        lemma_grid_cfgs_elem(prefix, e);
        let i2 = choose|i2: int|
            0 <= i2 < prefix.len() && #[trigger] prefix[i2] == spec_grid_cfgs(prefix)[e];
        assert(prefix[i2] == s[i2]);
        assert(s[i2].name@ == nm);
        assert(false);
    }
    crate::strmap::lemma_map_domain(mgr0.spheres.entries@, nm);
    if mgr0.spheres@.contains_key(nm) {
        let e = choose|e: int|
            0 <= e < mgr0.spheres.entries@.len() && (#[trigger] mgr0.spheres.entries@[e]).0@ == nm;
        lemma_sphere_cfgs_elem(prefix, e);
        let i2 = choose|i2: int|
            0 <= i2 < prefix.len() && #[trigger] prefix[i2] == spec_sphere_cfgs(prefix)[e];
        assert(prefix[i2] == s[i2]);
        assert(s[i2].name@ == nm);
        assert(false);
    }
}

/// Registering the next configuration extends the matched prefix by one.
proof fn lemma_cfgs_push_grid(
    mgr0: ParticleSystemManager,
    mgr: ParticleSystemManager,
    s: Seq<ParticleSystemData>,
    p: int,
    now: u64,
    e: (String, GridParticleSystem),
)
    requires
        0 <= p < s.len(),
        spec_cfgs_match(mgr0, s.take(p), now),
        s[p].generator is Grid,
        spec_entry_matches_grid_cfg(e, s[p], now),
        mgr.grids.entries@ =~= mgr0.grids.entries@.push(e),
        mgr.spheres.entries@ =~= mgr0.spheres.entries@,
    ensures
        spec_cfgs_match(mgr, s.take(p + 1), now),
{
    let prefix = s.take(p);
    let next = s.take(p + 1);
    assert(next.drop_last() =~= prefix);
    assert(next.last() == s[p]);
    assert(spec_grid_cfgs(next) =~= spec_grid_cfgs(prefix) + seq![s[p]]);
    assert(spec_sphere_cfgs(next) =~= spec_sphere_cfgs(prefix));
    assert forall|i: int|
        0 <= i < mgr.grids.entries@.len() implies spec_entry_matches_grid_cfg(
        #[trigger] mgr.grids.entries@[i],
        spec_grid_cfgs(next)[i],
        now,
    ) by {
        if i < mgr0.grids.entries@.len() {
            assert(mgr.grids.entries@[i] == mgr0.grids.entries@[i]);
            assert(spec_grid_cfgs(next)[i] == spec_grid_cfgs(prefix)[i]);
        } else {
            assert(mgr.grids.entries@[i] == e);
            assert(spec_grid_cfgs(next)[i] == s[p]);
        }
    }
    assert forall|i: int|
        0 <= i < mgr.spheres.entries@.len() implies spec_entry_matches_sphere_cfg(
        #[trigger] mgr.spheres.entries@[i],
        spec_sphere_cfgs(next)[i],
        now,
    ) by {
        assert(mgr.spheres.entries@[i] == mgr0.spheres.entries@[i]);
        assert(spec_sphere_cfgs(next)[i] == spec_sphere_cfgs(prefix)[i]);
    }
}

proof fn lemma_cfgs_push_sphere(
    mgr0: ParticleSystemManager,
    mgr: ParticleSystemManager,
    s: Seq<ParticleSystemData>,
    p: int,
    now: u64,
    e: (String, SphereParticleSystem),
)
    requires
        0 <= p < s.len(),
        spec_cfgs_match(mgr0, s.take(p), now),
        s[p].generator is Sphere,
        spec_entry_matches_sphere_cfg(e, s[p], now),
        mgr.spheres.entries@ =~= mgr0.spheres.entries@.push(e),
        mgr.grids.entries@ =~= mgr0.grids.entries@,
    ensures
        spec_cfgs_match(mgr, s.take(p + 1), now),
{
    let prefix = s.take(p);
    let next = s.take(p + 1);
    assert(next.drop_last() =~= prefix);
    assert(next.last() == s[p]);
    assert(spec_sphere_cfgs(next) =~= spec_sphere_cfgs(prefix) + seq![s[p]]);
    assert(spec_grid_cfgs(next) =~= spec_grid_cfgs(prefix));
    assert forall|i: int|
        0 <= i < mgr.spheres.entries@.len() implies spec_entry_matches_sphere_cfg(
        #[trigger] mgr.spheres.entries@[i],
        spec_sphere_cfgs(next)[i],
        now,
    ) by {
        if i < mgr0.spheres.entries@.len() {
            assert(mgr.spheres.entries@[i] == mgr0.spheres.entries@[i]);
            assert(spec_sphere_cfgs(next)[i] == spec_sphere_cfgs(prefix)[i]);
        } else {
            assert(mgr.spheres.entries@[i] == e);
            assert(spec_sphere_cfgs(next)[i] == s[p]);
        }
    }
    assert forall|i: int|
        0 <= i < mgr.grids.entries@.len() implies spec_entry_matches_grid_cfg(
        #[trigger] mgr.grids.entries@[i],
        spec_grid_cfgs(next)[i],
        now,
    ) by {
        assert(mgr.grids.entries@[i] == mgr0.grids.entries@[i]);
        assert(spec_grid_cfgs(next)[i] == spec_grid_cfgs(prefix)[i]);
    }
}

/// The engine state the renderer and UI operate on.
pub struct State {
    pub clear_color: [u32; 4],
    pub camera: CameraData,
    pub light_manager: LightManager,
    pub particle_system_manager: ParticleSystemManager,
    pub textures: TextureRegistry,
    pub materials: StrMap<MaterialDesc>,
    pub models: StrMap<Model>,
    pub pending_model_loads: StrMap<()>,
    pub in_flight_model_loads: StrMap<()>,
}

impl State {
    /// Registries are well-formed; a path is never pending and loaded, nor
    /// pending and in flight, at once.
    pub open spec fn wf(self) -> bool {
        self.light_manager.wf() && self.particle_system_manager.wf() && self.textures.wf()
            && self.materials.wf() && self.models.wf() && self.pending_model_loads.wf()
            && self.in_flight_model_loads.wf() && (forall|k: Seq<char>|
            #[trigger] self.pending_model_loads@.contains_key(k) ==> !self.models@.contains_key(k)
                && !self.in_flight_model_loads@.contains_key(k))
    }

    /// A fresh scene: the default background and camera, the two default
    /// lights (white at `[2, 2, 2]`, red at `[-2, 2, 2]`) rendered with the
    /// default light model and material, one grid particle system named
    /// `main` built from the description the scripting host supplied, and a
    /// material registry holding only the built-in default material over the
    /// plain white texture.
    pub fn new(system_desc: ParticleSystemDesc, now_ms: u64) -> (r: State)
        requires
            system_desc matches ParticleSystemDesc::Grid { count: _, params } && params.valid(),
        ensures
            r.wf(),
            r.clear_color@ =~= seq![
                crate::world::BG_R_BITS,
                crate::world::BG_G_BITS,
                crate::world::BG_B_BITS,
                crate::world::BG_A_BITS,
            ],
            r.light_manager.spec_num_lights() == 2,
            r.light_manager.spec_is_active(0) && r.light_manager.spec_is_active(1),
            r.light_manager.lights@[0].position@ =~= seq![
                0x4000_0000u32,
                0x4000_0000u32,
                0x4000_0000u32,
                crate::light::F32_ONE_BITS,
            ],
            r.light_manager.lights@[1].position@ =~= seq![
                0xC000_0000u32,
                0x4000_0000u32,
                0x4000_0000u32,
                crate::light::F32_ONE_BITS,
            ],
            r.light_manager.model_path@ == "cube.obj"@,
            r.light_manager.material_key@ == "default"@,
            r.light_manager.spec_homogeneous(),
            system_desc matches ParticleSystemDesc::Grid { count: _, params } ==> (
            r.particle_system_manager.grids.entries@.len() == 1
                && r.particle_system_manager.grids.entries@[0].0@ == "main"@
                && r.particle_system_manager.grids.entries@[0].1.params == params
                && r.particle_system_manager.grids.entries@[0].1.model_path@ == "cube.obj"@
                && r.particle_system_manager.grids.entries@[0].1.material_key@ == "default"@
                && r.particle_system_manager.all_valid()),
            r.particle_system_manager.spheres.entries@.len() == 0,
            r.textures.map@ =~= Map::<Seq<char>, u64>::empty(),
            r.materials@.contains_key("default"@),
            r.materials@["default"@].source is System,
            r.materials@["default"@].texture_path@ == "white.png"@,
            crate::model::spec_white(r.materials@["default"@].properties),
            r.materials.entries@.len() == 1,
            r.models@ =~= Map::<Seq<char>, Model>::empty(),
            r.pending_model_loads@ =~= Map::<Seq<char>, ()>::empty(),
            r.in_flight_model_loads@ =~= Map::<Seq<char>, ()>::empty(),
    {
        let one: u32 = 0x4000_0000;
        let neg: u32 = 0xC000_0000;
        let white: u32 = crate::light::F32_ONE_BITS;
        let mut light_positions: Vec<([u32; 3], [u32; 4])> = Vec::new();
        light_positions.push(([one, one, one], [white, white, white, white]));
        light_positions.push(([neg, one, one], [white, 0u32, 0u32, white]));
        let mut light_manager = LightManager::with_lights(&light_positions);
        let ghost lm0 = light_manager;
        light_manager.set_model_path(crate::defaults::light_model_path());
        light_manager.set_material_key(crate::defaults::light_material_key());
        proof {
            assert(lm0.spec_is_active(0));
            assert(lm0.spec_is_active(1));
            assert(light_manager.spec_is_active(0) && light_manager.spec_is_active(1));
            assert forall|i: int|
                0 <= i < MAX_LIGHTS && #[trigger] light_manager.spec_is_active(i) implies
            light_manager.lights@[i].position@[3] == crate::light::F32_ONE_BITS by {
                assert(lm0.spec_is_active(i));
            }
        }

        let ParticleSystemDesc::Grid { count: _, params } = system_desc;
        let grid = GridParticleSystem::new(
            "main".to_owned(),
            params,
            crate::defaults::initial_model_path(),
            crate::defaults::default_material_key(),
            now_ms,
        );
        let mut particle_system_manager = ParticleSystemManager::new();
        particle_system_manager.add_grid("main".to_owned(), grid);

        let mut materials: StrMap<MaterialDesc> = StrMap::new();
        materials.insert(
            crate::defaults::default_material_key(),
            MaterialDesc {
                name: crate::defaults::default_material_key(),
                texture_path: "white.png".to_owned(),
                properties: MaterialProperties::default(),
                source: MaterialSource::System,
            },
        );
        State {
            clear_color: [
                crate::world::BG_R_BITS,
                crate::world::BG_G_BITS,
                crate::world::BG_B_BITS,
                crate::world::BG_A_BITS,
            ],
            camera: CameraData::default(),
            light_manager,
            particle_system_manager,
            textures: TextureRegistry::new(),
            materials,
            models: StrMap::new(),
            pending_model_loads: StrMap::new(),
            in_flight_model_loads: StrMap::new(),
        }
    }

    /// The loaded model registered under a path, if any.
    pub fn lookup_model(&self, path: &String) -> (r: Option<&Model>)
        requires
            self.wf(),
        ensures
            match r {
                Some(m) => self.models@.contains_key(path@) && *m == self.models@[path@],
                None => !self.models@.contains_key(path@),
            },
    {
        self.models.get(path)
    }

    /// Fold one finished load into the registries: its materials enter the
    /// material registry (last writer wins), the model enters the model
    /// registry, and the path stops being pending or in flight.
    pub fn register_loaded_model(
        &mut self,
        path: String,
        model: Model,
        materials: Vec<(String, MaterialDesc)>,
    )
        requires
            old(self).wf(),
        ensures
            final(self).wf(),
            final(self).models@ =~= old(self).models@.insert(path@, model),
            final(self).materials@ =~= spec_insert_all(old(self).materials@, materials@),
            final(self).in_flight_model_loads@ =~= old(self).in_flight_model_loads@.remove(path@),
            final(self).pending_model_loads@ =~= old(self).pending_model_loads@.remove(path@),
            final(self).clear_color == old(self).clear_color,
            final(self).camera == old(self).camera,
            final(self).light_manager == old(self).light_manager,
            final(self).particle_system_manager == old(self).particle_system_manager,
            final(self).textures == old(self).textures,
    {
        let n = materials.len();
        let mut i: usize = 0;
        while i < n
            invariant
                i <= n,
                n == materials@.len(),
                self.materials.wf(),
                self.materials@ =~= spec_insert_all(old(self).materials@, materials@.take(i as int)),
                self.models == old(self).models,
                self.pending_model_loads == old(self).pending_model_loads,
                self.in_flight_model_loads == old(self).in_flight_model_loads,
                self.clear_color == old(self).clear_color,
                self.camera == old(self).camera,
                self.light_manager == old(self).light_manager,
                self.particle_system_manager == old(self).particle_system_manager,
                self.textures == old(self).textures,
            decreases n - i,
        {
            let entry = &materials[i];
            self.materials.insert(entry.0.clone(), entry.1.clone());
            proof {
                assert(materials@.take(i + 1).drop_last() =~= materials@.take(i as int));
                assert(materials@.take(i + 1).last() == materials@[i as int]);
            }
            i = i + 1;
        }
        proof {
            assert(materials@.take(n as int) =~= materials@);
        }
        self.models.insert(path.clone(), model);
        self.in_flight_model_loads.remove(&path);
        self.pending_model_loads.remove(&path);
    }

    /// Fold one result from the loader channel into the state: a success is
    /// registered; a failure only releases its path from the in-flight set,
    /// so a later request can retry it.
    pub fn handle_load_result(&mut self, result: LoadResult)
        requires
            old(self).wf(),
        ensures
            final(self).wf(),
            match result {
                LoadResult::Loaded { path, model, materials } => final(self).models@ =~= old(self).models@.insert(path@, model) && final(self).materials@ =~= spec_insert_all(
                    old(self).materials@,
                    materials@,
                ) && final(self).in_flight_model_loads@ =~= old(self).in_flight_model_loads@.remove(path@),
                LoadResult::Failed { path } => final(self).in_flight_model_loads@ =~= old(self).in_flight_model_loads@.remove(path@) && final(self).models@ =~= old(self).models@
                    && final(self).materials@ =~= old(self).materials@,
            },
            final(self).clear_color == old(self).clear_color,
            final(self).camera == old(self).camera,
            final(self).light_manager == old(self).light_manager,
            final(self).particle_system_manager == old(self).particle_system_manager,
            final(self).textures == old(self).textures,
    {
        match result {
            LoadResult::Loaded { path, model, materials } => {
                self.register_loaded_model(path, model, materials);
            },
            LoadResult::Failed { path } => {
                self.in_flight_model_loads.remove(&path);
            },
        }
    }

    /// Ask for a model to be loaded in the background. A path already
    /// loaded, already in flight, or already queued is not queued again.
    pub fn request_model_load(&mut self, path: String)
        requires
            old(self).wf(),
        ensures
            final(self).wf(),
            final(self).pending_model_loads@ =~= if old(self).models@.contains_key(path@) || old(self).in_flight_model_loads@.contains_key(path@) || old(self).pending_model_loads@.contains_key(path@) {
                old(self).pending_model_loads@
            } else {
                old(self).pending_model_loads@.insert(path@, ())
            },
            final(self).models == old(self).models,
            final(self).in_flight_model_loads == old(self).in_flight_model_loads,
            final(self).materials == old(self).materials,
            final(self).clear_color == old(self).clear_color,
            final(self).camera == old(self).camera,
            final(self).light_manager == old(self).light_manager,
            final(self).particle_system_manager == old(self).particle_system_manager,
            final(self).textures == old(self).textures,
    {
        if !self.models.contains_key(&path) && !self.in_flight_model_loads.contains_key(&path)
            && !self.pending_model_loads.contains_key(&path) {
            self.pending_model_loads.insert(path, ());
        }
    }

    /// Take the whole pending queue and mark every path in it as in flight.
    /// The returned paths, in queue order, are what the caller must hand to
    /// the background loader. A pending path can be neither loaded nor in
    /// flight, so nothing is filtered and nothing is loaded twice.
    pub fn dispatch_pending_loads(&mut self) -> (r: Vec<String>)
        requires
            old(self).wf(),
        ensures
            final(self).wf(),
            r@.len() == old(self).pending_model_loads.entries@.len(),
            forall|i: int|
                0 <= i < r@.len() ==> r@[i]@ == (
                #[trigger] old(self).pending_model_loads.entries@[i]).0@,
            final(self).pending_model_loads@ =~= Map::<Seq<char>, ()>::empty(),
            final(self).in_flight_model_loads@ =~= spec_insert_all(
                old(self).in_flight_model_loads@,
                old(self).pending_model_loads.entries@,
            ),
            forall|i: int| 0 <= i < r@.len() ==> !old(self).models@.contains_key(r@[i]@),
            forall|i: int|
                0 <= i < r@.len() ==> !old(self).in_flight_model_loads@.contains_key(r@[i]@),
            final(self).models == old(self).models,
            final(self).materials == old(self).materials,
            final(self).clear_color == old(self).clear_color,
            final(self).camera == old(self).camera,
            final(self).light_manager == old(self).light_manager,
            final(self).particle_system_manager == old(self).particle_system_manager,
            final(self).textures == old(self).textures,
    {
        let paths = self.pending_model_loads.keys();
        let ghost pending_entries = self.pending_model_loads.entries@;
        let n = paths.len();
        let mut i: usize = 0;
        while i < n
            invariant
                i <= n,
                self.light_manager.wf(),
                self.particle_system_manager.wf(),
                self.textures.wf(),
                self.materials.wf(),
                self.models.wf(),
                self.pending_model_loads.wf(),
                n == paths@.len(),
                n == pending_entries.len(),
                forall|j: int| 0 <= j < n ==> paths@[j]@ == (#[trigger] pending_entries[j]).0@,
                self.pending_model_loads == old(self).pending_model_loads,
                pending_entries == old(self).pending_model_loads.entries@,
                self.in_flight_model_loads.wf(),
                self.in_flight_model_loads@ =~= spec_insert_all(
                    old(self).in_flight_model_loads@,
                    pending_entries.take(i as int),
                ),
                self.models == old(self).models,
                self.materials == old(self).materials,
                self.clear_color == old(self).clear_color,
                self.camera == old(self).camera,
                self.light_manager == old(self).light_manager,
                self.particle_system_manager == old(self).particle_system_manager,
                self.textures == old(self).textures,
            decreases n - i,
        {
            self.in_flight_model_loads.insert(paths[i].clone(), ());
            proof {
                assert(pending_entries.take(i + 1).drop_last() =~= pending_entries.take(i as int));
                assert(pending_entries.take(i + 1).last() == pending_entries[i as int]);
                assert(pending_entries.take(i + 1).last().0@ == paths@[i as int]@);
            }
            i = i + 1;
        }
        proof {
            assert(pending_entries.take(n as int) =~= pending_entries);
        }
        self.pending_model_loads = StrMap::new();
        proof {
            assert forall|i: int| 0 <= i < paths@.len() implies !old(self).models@.contains_key(
                paths@[i]@,
            ) && !old(self).in_flight_model_loads@.contains_key(paths@[i]@) by {
                crate::strmap::lemma_map_index(pending_entries, i);
                assert(old(self).pending_model_loads@.contains_key(pending_entries[i].0@));
            }
        }
        paths
    }

    /// The once-per-frame light duty: when an edit left the lights dirty,
    /// pack them for the renderer and clear the flag; otherwise leave the
    /// buffer alone so an unchanged frame costs nothing.
    pub fn frame_light_sync(&mut self) -> (r: Option<LightArrayGpu>)
        requires
            old(self).wf(),
        ensures
            final(self).wf(),
            match r {
                Some(gpu) => old(self).light_manager.dirty && gpu.num_lights == old(self).light_manager.spec_num_lights() && gpu.lights@.subrange(0, gpu.num_lights as int)
                    =~= old(self).light_manager.spec_compacted() && final(self).light_manager == (
                LightManager { dirty: false, ..old(self).light_manager }),
                None => !old(self).light_manager.dirty && *final(self) == *old(self),
            },
            final(self).clear_color == old(self).clear_color,
            final(self).camera == old(self).camera,
            final(self).particle_system_manager == old(self).particle_system_manager,
            final(self).materials == old(self).materials,
            final(self).models == old(self).models,
            final(self).textures == old(self).textures,
            final(self).pending_model_loads == old(self).pending_model_loads,
            final(self).in_flight_model_loads == old(self).in_flight_model_loads,
    {
        if self.light_manager.is_dirty() {
            let gpu = self.light_manager.sync_to_gpu();
            self.light_manager.clear_dirty();
            Some(gpu)
        } else {
            None
        }
    }

    /// Adopt a new background color. Clamping into the unit range is the
    /// renderer's concern when it converts the bit patterns for the surface.
    pub fn set_clear_color(&mut self, color: [u32; 4])
        ensures
            *final(self) == (State { clear_color: color, ..*old(self) }),
    {
        self.clear_color = color;
    }

    /// Fold the scripting host's per-frame answer into the state: a color on
    /// success, nothing on failure — a failed call leaves the previous
    /// background in place rather than disturbing the frame.
    pub fn frame_script_color(&mut self, result: Option<[u32; 4]>)
        ensures
            *final(self) == match result {
                Some(c) => (State { clear_color: c, ..*old(self) }),
                None => *old(self),
            },
    {
        match result {
            Some(c) => {
                self.clear_color = c;
            },
            None => {},
        }
    }

    /// Create a material at runtime under the key `custom/<name>`. The key
    /// must be fresh — creation never overwrites — and the texture must
    /// already be registered: creation does not load on demand. Exactly on
    /// those two failures an error comes back and the state is untouched.
    pub fn create_material(&mut self, name: String, texture_path: String, color: [u32; 4]) -> (r:
        Result<String, MaterialError>)
        requires
            old(self).wf(),
        ensures
            final(self).wf(),
            match r {
                Ok(key) => key@ == spec_custom_key(name@) && !old(self).materials@.contains_key(
                    key@,
                ) && old(self).textures.map@.contains_key(texture_path@) && final(self).materials@
                    =~= old(self).materials@.insert(
                    key@,
                    MaterialDesc {
                        name,
                        texture_path,
                        properties: MaterialProperties { color },
                        source: MaterialSource::Custom,
                    },
                ) && final(self).materials.entries@ =~= old(self).materials.entries@.push(
                    (key, final(self).materials@[key@]),
                ),
                Err(e) => *final(self) == *old(self) && ((e == MaterialError::DuplicateKey && old(self).materials@.contains_key(spec_custom_key(name@))) || (e
                    == MaterialError::TextureNotFound && !old(self).materials@.contains_key(
                    spec_custom_key(name@),
                ) && !old(self).textures.map@.contains_key(texture_path@))),
            },
            final(self).clear_color == old(self).clear_color,
            final(self).camera == old(self).camera,
            final(self).light_manager == old(self).light_manager,
            final(self).particle_system_manager == old(self).particle_system_manager,
            final(self).textures == old(self).textures,
            final(self).models == old(self).models,
            final(self).pending_model_loads == old(self).pending_model_loads,
            final(self).in_flight_model_loads == old(self).in_flight_model_loads,
    {
        let material_key = custom_material_key(&name);
        if self.materials.contains_key(&material_key) {
            return Err(MaterialError::DuplicateKey);
        }
        if !self.textures.contains(&texture_path) {
            return Err(MaterialError::TextureNotFound);
        }
        let desc = MaterialDesc {
            name,
            texture_path,
            properties: MaterialProperties { color },
            source: MaterialSource::Custom,
        };
        let key_out = material_key.clone();
        self.materials.insert(material_key, desc);
        Ok(key_out)
    }

    /// Re-tint a material in place. Only the tint changes: the texture
    /// binding survives, so the renderer re-uploads one small uniform buffer
    /// and rebuilds nothing. An absent key is left as a no-op.
    pub fn set_material_tint(&mut self, key: &String, color: [u32; 4]) -> (r: bool)
        requires
            old(self).wf(),
        ensures
            final(self).wf(),
            r == old(self).materials@.contains_key(key@),
            final(self).materials@ =~= if old(self).materials@.contains_key(key@) {
                old(self).materials@.insert(
                    key@,
                    MaterialDesc {
                        properties: MaterialProperties { color },
                        ..old(self).materials@[key@]
                    },
                )
            } else {
                old(self).materials@
            },
            final(self).clear_color == old(self).clear_color,
            final(self).camera == old(self).camera,
            final(self).light_manager == old(self).light_manager,
            final(self).particle_system_manager == old(self).particle_system_manager,
            final(self).textures == old(self).textures,
            final(self).models == old(self).models,
            final(self).pending_model_loads == old(self).pending_model_loads,
            final(self).in_flight_model_loads == old(self).in_flight_model_loads,
    {
        match self.materials.index_of(key) {
            Some(i) => {
                proof {
                    crate::strmap::lemma_map_index(self.materials.entries@, i as int);
                }
                let ghost entries0 = self.materials.entries@;
                let desc = self.materials.value_at_mut(i);
                let updated = MaterialDesc {
                    name: desc.name.clone(),
                    texture_path: desc.texture_path.clone(),
                    properties: MaterialProperties { color },
                    source: desc.source.clone(),
                };
                *desc = updated;
                proof {
                    crate::strmap::lemma_map_update(
                        entries0,
                        i as int,
                        self.materials.entries@[i as int].1,
                    );
                }
                true
            },
            None => {
                proof {
                    crate::strmap::lemma_map_domain(self.materials.entries@, key@);
                }
                false
            },
        }
    }

    /// Point a material at another already-registered texture, keeping its
    /// tint and provenance; the renderer rebuilds the bind group from the new
    /// texture. Pointing it at the texture it already uses is a no-op.
    /// Exactly an unknown material or an unregistered texture is refused,
    /// and then nothing changes.
    pub fn change_material_texture(&mut self, key: &String, new_texture_path: &String) -> (r:
        Result<(), MaterialError>)
        requires
            old(self).wf(),
        ensures
            final(self).wf(),
            match r {
                Ok(_) => old(self).materials@.contains_key(key@) && (if old(self).materials@[key@].texture_path@ == new_texture_path@ {
                    *final(self) == *old(self)
                } else {
                    old(self).textures.map@.contains_key(new_texture_path@) && final(self).materials@ =~= old(self).materials@.insert(
                        key@,
                        MaterialDesc {
                            texture_path: *new_texture_path,
                            ..old(self).materials@[key@]
                        },
                    )
                }),
                Err(e) => *final(self) == *old(self) && ((e == MaterialError::MaterialNotFound
                    && !old(self).materials@.contains_key(key@)) || (e
                    == MaterialError::TextureNotFound && old(self).materials@.contains_key(key@)
                    && old(self).materials@[key@].texture_path@ != new_texture_path@ && !old(self).textures.map@.contains_key(new_texture_path@))),
            },
            final(self).clear_color == old(self).clear_color,
            final(self).camera == old(self).camera,
            final(self).light_manager == old(self).light_manager,
            final(self).particle_system_manager == old(self).particle_system_manager,
            final(self).textures == old(self).textures,
            final(self).models == old(self).models,
            final(self).pending_model_loads == old(self).pending_model_loads,
            final(self).in_flight_model_loads == old(self).in_flight_model_loads,
    {
        let i = match self.materials.index_of(key) {
            Some(i) => i,
            None => {
                proof {
                    crate::strmap::lemma_map_domain(self.materials.entries@, key@);
                }
                return Err(MaterialError::MaterialNotFound);
            },
        };
        proof {
            crate::strmap::lemma_map_index(self.materials.entries@, i as int);
        }
        let same = self.materials.value_at(i).texture_path == *new_texture_path;
        if same {
            return Ok(());
        }
        if !self.textures.contains(new_texture_path) {
            return Err(MaterialError::TextureNotFound);
        }
        let ghost entries0 = self.materials.entries@;
        let desc = self.materials.value_at_mut(i);
        let updated = MaterialDesc {
            name: desc.name.clone(),
            texture_path: new_texture_path.clone(),
            properties: desc.properties,
            source: desc.source.clone(),
        };
        *desc = updated;
        proof {
            crate::strmap::lemma_map_update(
                entries0,
                i as int,
                self.materials.entries@[i as int].1,
            );
        }
        Ok(())
    }

    /// Whether a material may be edited: it exists and is not one of the
    /// built-in system materials.
    pub fn is_material_editable(&self, material_key: &String) -> (r: bool)
        requires
            self.wf(),
        ensures
            r == (self.materials@.contains_key(material_key@) && !(
            self.materials@[material_key@].source is System)),
    {
        match self.materials.get(material_key) {
            Some(desc) => match desc.source {
                MaterialSource::System => false,
                MaterialSource::Model(_) => true,
                MaterialSource::Custom => true,
            },
            None => false,
        }
    }

    /// Whether a material may be deleted: it exists and was user-created.
    pub fn is_material_deletable(&self, material_key: &String) -> (r: bool)
        requires
            self.wf(),
        ensures
            r == (self.materials@.contains_key(material_key@)
                && self.materials@[material_key@].source is Custom),
    {
        match self.materials.get(material_key) {
            Some(desc) => match desc.source {
                MaterialSource::Custom => true,
                _ => false,
            },
            None => false,
        }
    }

    /// The materials of one provenance kind, as key/description snapshots in
    /// registry order.
    pub fn materials_by_source(&self, source: &MaterialSource) -> (r: Vec<(String, MaterialDesc)>)
        requires
            self.wf(),
        ensures
            r@ =~= spec_mats_by_source(self.materials.entries@, *source),
    {
        let n = self.materials.len();
        let mut r: Vec<(String, MaterialDesc)> = Vec::new();
        let mut i: usize = 0;
        while i < n
            invariant
                i <= n,
                n == self.materials.entries@.len(),
                r@ =~= spec_mats_by_source(self.materials.entries@.take(i as int), *source),
            decreases n - i,
        {
            let key = self.materials.key_at(i);
            let desc = self.materials.value_at(i);
            if same_source(&desc.source, source) {
                r.push((key.clone(), desc.clone()));
            }
            proof {
                assert(self.materials.entries@.take(i + 1).drop_last()
                    =~= self.materials.entries@.take(i as int));
                assert(self.materials.entries@.take(i + 1).last()
                    == self.materials.entries@[i as int]);
            }
            i = i + 1;
        }
        proof {
            assert(self.materials.entries@.take(n as int) =~= self.materials.entries@);
        }
        r
    }

    /// Convert the live state to its persistable snapshot: the background
    /// color, the camera pose, every live light compacted in ascending slot
    /// order with the shared light model and material, and every particle
    /// system's configuration, grids first.
    pub fn export_world(&self) -> (w: WorldData)
        requires
            self.wf(),
        ensures
            spec_is_export(*self, w),
    {
        let mut lights: Vec<LightParams> = Vec::new();
        let ghost lm = self.light_manager;
        let mut i: usize = 0;
        proof {
            crate::light::lemma_compact_len(lm.lights@, lm.active_mask, 0);
        }
        while i < MAX_LIGHTS
            invariant
                self.wf(),
                lm == self.light_manager,
                i <= MAX_LIGHTS,
                lights@.len() == crate::light::compact_lights(
                    lm.lights@,
                    lm.active_mask,
                    i as int,
                ).len(),
                forall|k: int|
                    0 <= k < lights@.len() ==> spec_light_param_matches(
                        #[trigger] lights@[k],
                        crate::light::compact_lights(lm.lights@, lm.active_mask, i as int)[k],
                        lm,
                    ),
            decreases MAX_LIGHTS - i,
        {
            let ghost prev = crate::light::compact_lights(lm.lights@, lm.active_mask, i as int);
            let ghost cur = crate::light::compact_lights(lm.lights@, lm.active_mask, i as int + 1);
            match self.light_manager.get_light(i) {
                Some(light) => {
                    let lp = LightParams {
                        position: [light.position[0], light.position[1], light.position[2]],
                        color: light.color,
                        model: self.light_manager.model_path().clone(),
                        material_key: self.light_manager.material_key().clone(),
                    };
                    lights.push(lp);
                    proof {
                        assert(cur =~= prev + seq![lm.lights@[i as int]]);
                        assert forall|k: int|
                            0 <= k < lights@.len() implies spec_light_param_matches(
                            #[trigger] lights@[k],
                            cur[k],
                            lm,
                        ) by {
                            if k < prev.len() {
                                assert(cur[k] == prev[k]);
                                assert(lights@[k] == lights@.drop_last()[k]);
                            } else {
                                assert(cur[k] == lm.lights@[i as int]);
                            }
                        }
                    }
                },
                None => {
                    proof {
                        assert(cur =~= prev);
                    }
                },
            }
            i = i + 1;
        }
        proof {
            crate::light::lemma_compact_len(lm.lights@, lm.active_mask, MAX_LIGHTS as int);
        }

        let mut particle_systems: Vec<ParticleSystemData> = Vec::new();
        let mgr = &self.particle_system_manager;
        let g = mgr.grids.len();
        let mut j: usize = 0;
        while j < g
            invariant
                self.wf(),
                mgr == &self.particle_system_manager,
                j <= g,
                g == mgr.grids.entries@.len(),
                particle_systems@.len() == j,
                forall|k: int|
                    0 <= k < j ==> spec_ps_data_matches_grid(
                        #[trigger] particle_systems@[k],
                        mgr.grids.entries@[k],
                    ),
            decreases g - j,
        {
            let name = mgr.grids.key_at(j);
            let sys = mgr.grids.value_at(j);
            particle_systems.push(
                ParticleSystemData {
                    name: name.clone(),
                    model: sys.model_path.clone(),
                    material_key: sys.material_key.clone(),
                    generator: GeneratorType::Grid(sys.params),
                },
            );
            j = j + 1;
        }
        let sp = mgr.spheres.len();
        let mut k: usize = 0;
        while k < sp
            invariant
                self.wf(),
                mgr == &self.particle_system_manager,
                k <= sp,
                g == mgr.grids.entries@.len(),
                sp == mgr.spheres.entries@.len(),
                particle_systems@.len() == g + k,
                forall|t: int|
                    0 <= t < g ==> spec_ps_data_matches_grid(
                        #[trigger] particle_systems@[t],
                        mgr.grids.entries@[t],
                    ),
                forall|t: int|
                    0 <= t < k ==> spec_ps_data_matches_sphere(
                        #[trigger] particle_systems@[g + t],
                        mgr.spheres.entries@[t],
                    ),
            decreases sp - k,
        {
            let name = mgr.spheres.key_at(k);
            let sys = mgr.spheres.value_at(k);
            particle_systems.push(
                ParticleSystemData {
                    name: name.clone(),
                    model: sys.model_path.clone(),
                    material_key: sys.material_key.clone(),
                    generator: GeneratorType::Sphere(sys.params),
                },
            );
            k = k + 1;
        }

        WorldData {
            background_color: self.clear_color,
            camera: self.camera,
            lights,
            particle_systems,
        }
    }

    /// Replace the live scene with a snapshot: the camera and background are
    /// adopted, the lights and particle systems are rebuilt from scratch,
    /// and every model the snapshot references that is not already cached is
    /// queued for a background load. Registries of loaded assets survive:
    /// loading a world never drops a texture, material or model.
    pub fn load_world(&mut self, data: WorldData, now_ms: u64)
        requires
            old(self).wf(),
            forall|i: int|
                0 <= i < data.particle_systems@.len()
                    ==> (#[trigger] data.particle_systems@[i]).generator.valid(),
        ensures
            final(self).wf(),
            final(self).camera == data.camera,
            final(self).clear_color == data.background_color,
            spec_lights_loaded(final(self).light_manager, data.lights@),
            spec_ps_loaded(final(self).particle_system_manager, data.particle_systems@, now_ms),
            final(self).models == old(self).models,
            final(self).materials == old(self).materials,
            final(self).textures == old(self).textures,
            final(self).in_flight_model_loads == old(self).in_flight_model_loads,
            forall|k: Seq<char>|
                old(self).pending_model_loads@.contains_key(k) ==> final(self).pending_model_loads@.contains_key(k),
            forall|i: int|
                0 <= i < data.lights@.len() ==> spec_load_covered(
                    *final(self),
                    (#[trigger] data.lights@[i]).model@,
                ),
            forall|i: int|
                0 <= i < data.particle_systems@.len() ==> spec_load_covered(
                    *final(self),
                    (#[trigger] data.particle_systems@[i]).model@,
                ),
    {
        let nl = data.lights.len();
        let mut i: usize = 0;
        while i < nl
            invariant
                self.wf(),
                i <= nl,
                nl == data.lights@.len(),
                self.models == old(self).models,
                self.materials == old(self).materials,
                self.textures == old(self).textures,
                self.in_flight_model_loads == old(self).in_flight_model_loads,
                self.camera == old(self).camera,
                self.clear_color == old(self).clear_color,
                self.light_manager == old(self).light_manager,
                self.particle_system_manager == old(self).particle_system_manager,
                forall|k: Seq<char>|
                    old(self).pending_model_loads@.contains_key(k)
                        ==> self.pending_model_loads@.contains_key(k),
                forall|t: int|
                    0 <= t < i ==> spec_load_covered(*self, (#[trigger] data.lights@[t]).model@),
            decreases nl - i,
        {
            self.request_model_load(data.lights[i].model.clone());
            i = i + 1;
        }
        let np = data.particle_systems.len();
        let mut j: usize = 0;
        while j < np
            invariant
                self.wf(),
                j <= np,
                np == data.particle_systems@.len(),
                nl == data.lights@.len(),
                self.models == old(self).models,
                self.materials == old(self).materials,
                self.textures == old(self).textures,
                self.in_flight_model_loads == old(self).in_flight_model_loads,
                self.camera == old(self).camera,
                self.clear_color == old(self).clear_color,
                self.light_manager == old(self).light_manager,
                self.particle_system_manager == old(self).particle_system_manager,
                forall|k: Seq<char>|
                    old(self).pending_model_loads@.contains_key(k)
                        ==> self.pending_model_loads@.contains_key(k),
                forall|t: int|
                    0 <= t < nl ==> spec_load_covered(*self, (#[trigger] data.lights@[t]).model@),
                forall|t: int|
                    0 <= t < j ==> spec_load_covered(
                        *self,
                        (#[trigger] data.particle_systems@[t]).model@,
                    ),
            decreases np - j,
        {
            self.request_model_load(data.particle_systems[j].model.clone());
            j = j + 1;
        }

        self.camera = data.camera;
        self.clear_color = data.background_color;

        let mut pairs: Vec<([u32; 3], [u32; 4])> = Vec::new();
        let mut t: usize = 0;
        while t < nl
            invariant
                t <= nl,
                nl == data.lights@.len(),
                pairs@.len() == t,
                forall|k: int|
                    0 <= k < t ==> (#[trigger] pairs@[k]).0 == data.lights@[k].position
                        && pairs@[k].1 == data.lights@[k].color,
            decreases nl - t,
        {
            let lp = &data.lights[t];
            pairs.push((lp.position, lp.color));
            t = t + 1;
        }
        let mut lm = LightManager::with_lights(&pairs);
        let ghost lm0 = lm;
        if data.lights.len() > 0 {
            lm.set_model_path(data.lights[0].model.clone());
            lm.set_material_key(data.lights[0].material_key.clone());
        }
        proof {
            assert forall|q: int| 0 <= q < data.lights@.len() && q < MAX_LIGHTS implies
            #[trigger] lm.spec_is_active(q) by {
                assert(lm0.spec_is_active(q));
            }
            assert forall|q: int| data.lights@.len() <= q < MAX_LIGHTS implies !(
            #[trigger] lm.spec_is_active(q)) by {
                assert(!lm0.spec_is_active(q));
            }
            assert forall|q: int|
                0 <= q < data.lights@.len() && q < MAX_LIGHTS implies (
            #[trigger] lm.lights@[q]).position@ =~= data.lights@[q].position@.push(
                crate::light::F32_ONE_BITS,
            ) && lm.lights@[q].color == data.lights@[q].color by {
                assert(lm0.lights@[q].position@ =~= pairs@[q].0@.push(crate::light::F32_ONE_BITS));
                assert(pairs@[q].0 == data.lights@[q].position);
            }
            assert forall|q: int|
                0 <= q < MAX_LIGHTS && #[trigger] lm.spec_is_active(q) implies lm.lights@[q].position@[3]
                == crate::light::F32_ONE_BITS by {
                assert(lm0.spec_is_active(q));
            }
        }
        self.light_manager = lm;

        let mut mgr = ParticleSystemManager::new();
        let mut p: usize = 0;
        while p < np
            invariant
                p <= np,
                np == data.particle_systems@.len(),
                forall|i2: int|
                    0 <= i2 < np ==> (#[trigger] data.particle_systems@[i2]).generator.valid(),
                mgr.wf(),
                mgr.all_valid(),
                spec_distinct_names(data.particle_systems@) ==> spec_cfgs_match(
                    mgr,
                    data.particle_systems@.take(p as int),
                    now_ms,
                ),
            decreases np - p,
        {
            let d = &data.particle_systems[p];
            let ghost mgr0 = mgr;
            let ghost prefix = data.particle_systems@.take(p as int);
            match &d.generator {
                GeneratorType::Grid(params) => {
                    let sys = GridParticleSystem::new(
                        d.name.clone(),
                        *params,
                        d.model.clone(),
                        d.material_key.clone(),
                        now_ms,
                    );
                    mgr.add_grid(d.name.clone(), sys);
                },
                GeneratorType::Sphere(params) => {
                    let sys = SphereParticleSystem::new(
                        d.name.clone(),
                        *params,
                        d.model.clone(),
                        d.material_key.clone(),
                        now_ms,
                    );
                    mgr.add_sphere(d.name.clone(), sys);
                },
            }
            proof {
                if spec_distinct_names(data.particle_systems@) {
                    let sfull = data.particle_systems@;
                    lemma_cfg_name_fresh(mgr0, sfull, p as int, now_ms);
                    match sfull[p as int].generator {
                        GeneratorType::Grid(_) => {
                            let e = mgr.grids.entries@.last();
                            lemma_cfgs_push_grid(mgr0, mgr, sfull, p as int, now_ms, e);
                        },
                        GeneratorType::Sphere(_) => {
                            let e = mgr.spheres.entries@.last();
                            lemma_cfgs_push_sphere(mgr0, mgr, sfull, p as int, now_ms, e);
                        },
                    }
                }
            }
            p = p + 1;
        }
        proof {
            assert(data.particle_systems@.take(np as int) =~= data.particle_systems@);
        }
        self.particle_system_manager = mgr;
        proof {
            assert forall|k: Seq<char>|
                #[trigger] self.pending_model_loads@.contains_key(k) implies !self.models@.contains_key(
                k,
            ) && !self.in_flight_model_loads@.contains_key(k) by {}
        }
    }
}


proof fn lemma_grid_cfgs_concat(a: Seq<ParticleSystemData>, b: Seq<ParticleSystemData>)
    ensures
        spec_grid_cfgs(a + b) =~= spec_grid_cfgs(a) + spec_grid_cfgs(b),
        spec_sphere_cfgs(a + b) =~= spec_sphere_cfgs(a) + spec_sphere_cfgs(b),
    decreases b.len(),
{
    if b.len() == 0 {
        assert(a + b =~= a);
    } else {
        lemma_grid_cfgs_concat(a, b.drop_last());
        assert((a + b).drop_last() =~= a + b.drop_last());
        assert((a + b).last() == b.last());
    }
}

proof fn lemma_grid_cfgs_all(s: Seq<ParticleSystemData>)
    requires
        forall|i: int| 0 <= i < s.len() ==> (#[trigger] s[i]).generator is Grid,
    ensures
        spec_grid_cfgs(s) =~= s,
        spec_sphere_cfgs(s) =~= Seq::<ParticleSystemData>::empty(),
    decreases s.len(),
{
    if s.len() > 0 {
        lemma_grid_cfgs_all(s.drop_last());
    }
}

proof fn lemma_sphere_cfgs_all(s: Seq<ParticleSystemData>)
    requires
        forall|i: int| 0 <= i < s.len() ==> (#[trigger] s[i]).generator is Sphere,
    ensures
        spec_sphere_cfgs(s) =~= s,
        spec_grid_cfgs(s) =~= Seq::<ParticleSystemData>::empty(),
    decreases s.len(),
{
    if s.len() > 0 {
        lemma_sphere_cfgs_all(s.drop_last());
    }
}

/// Saving a scene and loading the snapshot back reproduces it: the same
/// background color and camera pose, the same live lights — same count, and
/// in compacted order the same positions and colors — the same shared light
/// model and material whenever any light exists, and particle systems with
/// the same names, generator parameters, model paths and material keys, in
/// the same order. Transient state (GPU handles, in-flight load bookkeeping,
/// debounce timestamps) is deliberately not part of a snapshot.
pub proof fn lemma_world_round_trip(s1: State, w: WorldData, s2: State, now: u64)
    requires
        s1.wf(),
        s1.light_manager.spec_homogeneous(),
        spec_is_export(s1, w),
        s2.camera == w.camera,
        s2.clear_color == w.background_color,
        spec_lights_loaded(s2.light_manager, w.lights@),
        spec_ps_loaded(s2.particle_system_manager, w.particle_systems@, now),
    ensures
        s2.camera == s1.camera,
        s2.clear_color == s1.clear_color,
        s2.light_manager.spec_num_lights() == s1.light_manager.spec_num_lights(),
        forall|k: int|
            0 <= k < s1.light_manager.spec_compacted().len() ==> (
            #[trigger] s2.light_manager.spec_compacted()[k]).position@
                =~= s1.light_manager.spec_compacted()[k].position@
                && s2.light_manager.spec_compacted()[k].color
                == s1.light_manager.spec_compacted()[k].color,
        w.lights@.len() > 0 ==> s2.light_manager.model_path@ == s1.light_manager.model_path@
            && s2.light_manager.material_key@ == s1.light_manager.material_key@,
        s2.particle_system_manager.grids.entries@.len()
            == s1.particle_system_manager.grids.entries@.len(),
        s2.particle_system_manager.spheres.entries@.len()
            == s1.particle_system_manager.spheres.entries@.len(),
        forall|i: int|
            0 <= i < s1.particle_system_manager.grids.entries@.len() ==> (
            #[trigger] s2.particle_system_manager.grids.entries@[i]).0@
                == s1.particle_system_manager.grids.entries@[i].0@
                && s2.particle_system_manager.grids.entries@[i].1.params
                == s1.particle_system_manager.grids.entries@[i].1.params
                && s2.particle_system_manager.grids.entries@[i].1.model_path@
                == s1.particle_system_manager.grids.entries@[i].1.model_path@
                && s2.particle_system_manager.grids.entries@[i].1.material_key@
                == s1.particle_system_manager.grids.entries@[i].1.material_key@,
        forall|i: int|
            0 <= i < s1.particle_system_manager.spheres.entries@.len() ==> (
            #[trigger] s2.particle_system_manager.spheres.entries@[i]).0@
                == s1.particle_system_manager.spheres.entries@[i].0@
                && s2.particle_system_manager.spheres.entries@[i].1.params
                == s1.particle_system_manager.spheres.entries@[i].1.params
                && s2.particle_system_manager.spheres.entries@[i].1.model_path@
                == s1.particle_system_manager.spheres.entries@[i].1.model_path@
                && s2.particle_system_manager.spheres.entries@[i].1.material_key@
                == s1.particle_system_manager.spheres.entries@[i].1.material_key@,
{
    let lm1 = s1.light_manager;
    let lm2 = s2.light_manager;
    let n = w.lights@.len() as int;
    crate::light::lemma_count_at_most(lm1.active_mask, MAX_LIGHTS as int);
    assert(n <= MAX_LIGHTS);
    assert(lm2.spec_num_lights() == n);
    assert forall|j: int| 0 <= j < MAX_LIGHTS implies crate::light::mask_bit(lm2.active_mask, j)
        == (j < n) by {
        if j < n {
            assert(lm2.spec_is_active(j));
        } else {
            assert(!lm2.spec_is_active(j));
        }
    }
    crate::light::lemma_compact_of_low(lm2.lights@, lm2.active_mask, n, MAX_LIGHTS as int);
    crate::light::lemma_compact_len(lm1.lights@, lm1.active_mask, MAX_LIGHTS as int);
    crate::light::lemma_compact_homogeneous(lm1);
    assert forall|k: int|
        0 <= k < lm1.spec_compacted().len() implies (#[trigger] lm2.spec_compacted()[k]).position@
        =~= lm1.spec_compacted()[k].position@ && lm2.spec_compacted()[k].color
        == lm1.spec_compacted()[k].color by {
        assert(lm2.spec_compacted()[k] == lm2.lights@[k]);
        assert(lm2.lights@[k].position@ =~= w.lights@[k].position@.push(
            crate::light::F32_ONE_BITS,
        ));
        assert(w.lights@[k].position@ =~= lm1.spec_compacted()[k].position@.take(3));
        assert(lm1.spec_compacted()[k].position@[3] == crate::light::F32_ONE_BITS);
        assert(lm1.spec_compacted()[k].position@.len() == 4);
        assert(lm2.lights@[k].position@ =~= lm1.spec_compacted()[k].position@);
        assert(lm2.lights@[k].color == w.lights@[k].color);
        assert(w.lights@[k].color == lm1.spec_compacted()[k].color);
    }

    let mgr1 = s1.particle_system_manager;
    let mgr2 = s2.particle_system_manager;
    let g = mgr1.grids.entries@.len() as int;
    let sp = mgr1.spheres.entries@.len() as int;
    let ps = w.particle_systems@;
    assert forall|i: int, j: int|
        0 <= i < j < ps.len() implies (#[trigger] ps[i]).name@ != (#[trigger] ps[j]).name@ by {
        if j < g {
            assert(ps[i].name@ == mgr1.grids.entries@[i].0@);
            assert(ps[j].name@ == mgr1.grids.entries@[j].0@);
        } else if i >= g {
            assert(ps[g + (i - g)] == ps[i]);
            assert(ps[g + (j - g)] == ps[j]);
            assert(ps[i].name@ == mgr1.spheres.entries@[i - g].0@);
            assert(ps[j].name@ == mgr1.spheres.entries@[j - g].0@);
        } else {
            assert(ps[g + (j - g)] == ps[j]);
            assert(ps[i].name@ == mgr1.grids.entries@[i].0@);
            assert(ps[j].name@ == mgr1.spheres.entries@[j - g].0@);
            if ps[i].name@ == ps[j].name@ {
                crate::strmap::lemma_map_index(mgr1.grids.entries@, i);
                crate::strmap::lemma_map_index(mgr1.spheres.entries@, j - g);
                assert(mgr1.grids@.contains_key(ps[i].name@));
                assert(mgr1.spheres@.contains_key(ps[i].name@));
                assert(false);
            }
        }
    }
    assert(spec_distinct_names(ps));
    assert(spec_cfgs_match(mgr2, ps, now));
    let a = ps.take(g);
    let b = ps.skip(g);
    assert(ps =~= a + b);
    assert forall|i: int| 0 <= i < a.len() implies (#[trigger] a[i]).generator is Grid by {
        assert(a[i] == ps[i]);
        assert(spec_ps_data_matches_grid(ps[i], mgr1.grids.entries@[i]));
    }
    assert forall|i: int| 0 <= i < b.len() implies (#[trigger] b[i]).generator is Sphere by {
        assert(ps[g + i] == b[i]);
        assert(spec_ps_data_matches_sphere(ps[g + i], mgr1.spheres.entries@[i]));
    }
    lemma_grid_cfgs_concat(a, b);
    lemma_grid_cfgs_all(a);
    lemma_sphere_cfgs_all(b);
    assert(spec_grid_cfgs(ps) =~= a);
    assert(spec_sphere_cfgs(ps) =~= b);
    assert(mgr2.grids.entries@.len() == g);
    assert(mgr2.spheres.entries@.len() == sp);
    assert forall|i: int|
        0 <= i < g implies (#[trigger] mgr2.grids.entries@[i]).0@ == mgr1.grids.entries@[i].0@
        && mgr2.grids.entries@[i].1.params == mgr1.grids.entries@[i].1.params
        && mgr2.grids.entries@[i].1.model_path@ == mgr1.grids.entries@[i].1.model_path@
        && mgr2.grids.entries@[i].1.material_key@ == mgr1.grids.entries@[i].1.material_key@ by {
        assert(spec_entry_matches_grid_cfg(mgr2.grids.entries@[i], spec_grid_cfgs(ps)[i], now));
        assert(spec_grid_cfgs(ps)[i] == ps[i]);
        assert(spec_ps_data_matches_grid(ps[i], mgr1.grids.entries@[i]));
    }
    assert forall|i: int|
        0 <= i < sp implies (#[trigger] mgr2.spheres.entries@[i]).0@
        == mgr1.spheres.entries@[i].0@ && mgr2.spheres.entries@[i].1.params
        == mgr1.spheres.entries@[i].1.params && mgr2.spheres.entries@[i].1.model_path@
        == mgr1.spheres.entries@[i].1.model_path@ && mgr2.spheres.entries@[i].1.material_key@
        == mgr1.spheres.entries@[i].1.material_key@ by {
        assert(spec_entry_matches_sphere_cfg(
            mgr2.spheres.entries@[i],
            spec_sphere_cfgs(ps)[i],
            now,
        ));
        assert(spec_sphere_cfgs(ps)[i] == b[i]);
        assert(b[i] == ps[g + i]);
        assert(spec_ps_data_matches_sphere(ps[g + i], mgr1.spheres.entries@[i]));
    }
}


} // verus!
