//! Particle systems: declarative generator parameters, the instance
//! enumeration they induce, edit-debounced rebuild scheduling, and a keyed
//! manager owning every system. Spacing, radius and center components are
//! 32-bit float bit patterns; the float evaluation of instance transforms is
//! the renderer's job and takes the enumeration produced here as its input.
//! Time enters only as a millisecond count supplied by the caller, so the
//! debounce policy is checkable against any clock.

use vstd::prelude::*;
use crate::strmap::StrMap;

verus! {

/// Quiet period after the last edit before a rebuild may run, in
/// milliseconds.
pub const DEBOUNCE_MS: u64 = 20;

/// A square grid layout: `rows * rows` instances on the XZ plane, spaced and
/// recentered by the renderer using `spacing` and `center`.
#[derive(Clone, Copy, Debug)]
pub struct GridParams {
    pub rows: usize,
    pub spacing: u32,
    pub center: [u32; 3],
}

impl GridParams {
    /// At least one row, and few enough that the instance count fits `u32`.
    pub open spec fn valid(self) -> bool {
        1 <= self.rows <= 0xFFFF
    }
}

/// A Fibonacci-sphere layout: `count` instances on a unit sphere, scaled and
/// recentered by the renderer using `radius` and `center`.
#[derive(Clone, Copy, Debug)]
pub struct SphereParams {
    pub count: usize,
    pub radius: u32,
    pub center: [u32; 3],
}

impl SphereParams {
    pub open spec fn valid(self) -> bool {
        1 <= self.count <= 0xFFFF_FFFF
    }
}

/// Uniform data a grid system hands to its shader.
#[derive(Clone, Copy, Debug)]
pub struct GridTransformUniform {
    pub center: [u32; 3],
    pub spacing: u32,
}

/// Uniform data a sphere system hands to its shader.
#[derive(Clone, Copy, Debug)]
pub struct SphereTransformUniform {
    pub center: [u32; 3],
    pub radius: u32,
}

/// A generator configuration of either family.
#[derive(Clone, Copy, Debug)]
pub enum GeneratorType {
    Grid(GridParams),
    Sphere(SphereParams),
}

impl GeneratorType {
    pub open spec fn valid(self) -> bool {
        match self {
            GeneratorType::Grid(p) => p.valid(),
            GeneratorType::Sphere(p) => p.valid(),
        }
    }
}

/// Description of a starting particle system, as the scripting collaborator
/// reports it.
#[derive(Clone, Copy, Debug)]
pub enum ParticleSystemDesc {
    Grid { count: usize, params: GridParams },
}

/// One cell of a grid layout. The cells are enumerated column-major: the
/// outer loop walks `col` (the X direction), the inner one `row` (the Z
/// direction). `centered` marks the one cell, present only for an even row
/// count, that sits exactly on the grid's center after the half-extent
/// displacement; its instance keeps the identity rotation while every other
/// cell is rotated a quarter-turn around its position vector.
#[derive(Clone, Copy, Debug)]
pub struct GridInstance {
    pub col: usize,
    pub row: usize,
    pub centered: bool,
}

/// The cell at position `k` of the enumeration.
pub open spec fn spec_grid_instance(rows: int, k: int) -> GridInstance {
    GridInstance {
        col: (k / rows) as usize,
        row: (k % rows) as usize,
        centered: 2 * (k / rows) == rows && 2 * (k % rows) == rows,
    }
}

/// One point of a sphere layout: position `index` of the golden-spiral walk.
#[derive(Clone, Copy, Debug)]
pub struct SphereInstance {
    pub index: usize,
}

/// With at most `0xFFFF` rows, the full instance count fits in 32 bits.
pub proof fn lemma_rows_sq_fits(rows: int)
    by (nonlinear_arith)
    requires
        0 <= rows <= 0xFFFF,
    ensures
        rows * rows <= 0xFFFF_FFFF,
{
}

/// How many instances a grid of `rows` rows yields under a cap of `count`.
pub open spec fn spec_grid_len(count: int, rows: int) -> int {
    if count < rows * rows {
        count
    } else {
        rows * rows
    }
}

/// Enumerate the grid cells, column-major, stopping early once `count`
/// instances exist. The cap only binds when `count` is smaller than the full
/// `rows * rows` layout.
pub fn generate_grid_instances(count: usize, params: &GridParams) -> (r: Vec<GridInstance>)
    requires
        params.valid(),
    ensures
        r@.len() == spec_grid_len(count as int, params.rows as int),
        forall|k: int|
            0 <= k < r@.len() ==> #[trigger] r@[k] == spec_grid_instance(params.rows as int, k),
{
    let rows = params.rows;
    proof {
        lemma_rows_sq_fits(rows as int);
    }
    let total = rows * rows;
    let n = if count < total {
        count
    } else {
        total
    };
    let mut instances: Vec<GridInstance> = Vec::new();
    let mut k: usize = 0;
    while k < n
        invariant
            params.valid(),
            rows == params.rows,
            n == spec_grid_len(count as int, rows as int),
            n <= rows * rows,
            k <= n,
            instances@.len() == k,
            forall|j: int|
                0 <= j < k ==> #[trigger] instances@[j] == spec_grid_instance(rows as int, j),
        decreases n - k,
    {
        let col = k / rows;
        let row = k % rows;
        proof {
            assert(k / rows < rows) by (nonlinear_arith)
                requires
                    1 <= rows,
                    k < rows * rows,
            ;
            assert(k % rows < rows);
        }
        let centered = col * 2 == rows && row * 2 == rows;
        instances.push(GridInstance { col, row, centered });
        k = k + 1;
    }
    instances
}

/// Enumerate the sphere points in spiral order.
pub fn generate_sphere_instances(params: &SphereParams) -> (r: Vec<SphereInstance>)
    requires
        params.valid(),
    ensures
        r@.len() == params.count,
        forall|k: int| 0 <= k < r@.len() ==> (#[trigger] r@[k]).index == k,
{
    let count = params.count;
    let mut instances: Vec<SphereInstance> = Vec::new();
    let mut k: usize = 0;
    while k < count
        invariant
            k <= count,
            instances@.len() == k,
            forall|j: int| 0 <= j < k ==> (#[trigger] instances@[j]).index == j,
        decreases count - k,
    {
        instances.push(SphereInstance { index: k });
        k = k + 1;
    }
    instances
}

/// Milliseconds elapsed from `last` to `now` under a monotone reading; an
/// earlier `now` counts as no elapsed time.
pub open spec fn spec_elapsed_ms(last: u64, now: u64) -> int {
    if now >= last {
        now - last
    } else {
        0
    }
}

/// What the renderer must do to a system's instance buffer after a rebuild:
/// reallocate it at the new length, or overwrite it in place when the length
/// is unchanged.
#[derive(Clone, Copy, Debug)]
pub enum BufferUpdate {
    Reallocate { len: u32 },
    WriteInPlace { len: u32 },
}

/// A grid particle system: its generator parameters, the asset keys it
/// renders with, the size of the instance buffer the renderer holds for it,
/// and its debounced rebuild state.
#[derive(Clone, Debug)]
pub struct GridParticleSystem {
    pub name: String,
    pub params: GridParams,
    pub model_path: String,
    pub material_key: String,
    pub num_instances: u32,
    pub buffer_capacity: u32,
    pub needs_rebuild: bool,
    pub last_edit_ms: u64,
}

/// The state an edit at time `now` leaves a grid system in.
pub open spec fn spec_grid_marked(s: GridParticleSystem, now: u64) -> GridParticleSystem {
    GridParticleSystem { needs_rebuild: true, last_edit_ms: now, ..s }
}

/// Whether a grid system's rebuild is due at time `now`.
pub open spec fn spec_grid_needs_rebuild(s: GridParticleSystem, now: u64) -> bool {
    s.needs_rebuild && spec_elapsed_ms(s.last_edit_ms, now) >= DEBOUNCE_MS
}

impl GridParticleSystem {
    pub open spec fn wf(self) -> bool {
        self.params.valid()
    }

    /// A new system generates its instances immediately: the advertised count
    /// is the full layout, and the instance buffer is sized to it.
    pub fn new(
        name: String,
        params: GridParams,
        model_path: String,
        material_key: String,
        now_ms: u64,
    ) -> (r: GridParticleSystem)
        requires
            params.valid(),
        ensures
            r.wf(),
            r.name == name,
            r.params == params,
            r.model_path == model_path,
            r.material_key == material_key,
            r.num_instances == params.rows * params.rows,
            r.buffer_capacity == r.num_instances,
            !r.needs_rebuild,
            r.last_edit_ms == now_ms,
    {
        proof {
            lemma_rows_sq_fits(params.rows as int);
        }
        let count = (params.rows * params.rows) as u32;
        GridParticleSystem {
            name,
            params,
            model_path,
            material_key,
            num_instances: count,
            buffer_capacity: count,
            needs_rebuild: false,
            last_edit_ms: now_ms,
        }
    }

    pub fn params(&self) -> (r: &GridParams)
        ensures
            r == &self.params,
    {
        &self.params
    }

    pub fn model_path(&self) -> (r: &String)
        ensures
            r == &self.model_path,
    {
        &self.model_path
    }

    pub fn material_key(&self) -> (r: &String)
        ensures
            r == &self.material_key,
    {
        &self.material_key
    }

    pub fn name(&self) -> (r: &String)
        ensures
            r == &self.name,
    {
        &self.name
    }

    pub fn num_instances(&self) -> (r: u32)
        ensures
            r == self.num_instances,
    {
        self.num_instances
    }

    /// The uniform values the renderer uploads for this system.
    pub fn uniform(&self) -> (r: GridTransformUniform)
        ensures
            r.center == self.params.center,
            r.spacing == self.params.spacing,
    {
        GridTransformUniform { center: self.params.center, spacing: self.params.spacing }
    }

    /// Replace the parameters; a change of the row count schedules a rebuild,
    /// anything else only re-uploads uniforms and leaves the buffer alone.
    pub fn update_params(&mut self, params: GridParams, now_ms: u64)
        requires
            old(self).wf(),
            params.valid(),
        ensures
            final(self).wf(),
            *final(self) == if old(self).params.rows != params.rows {
                spec_grid_marked(GridParticleSystem { params, ..*old(self) }, now_ms)
            } else {
                GridParticleSystem { params, ..*old(self) }
            },
    {
        let old_rows = self.params.rows;
        self.params = params;
        if old_rows != self.params.rows {
            self.mark_dirty(now_ms);
        }
    }

    /// Record an edit: set the rebuild flag and refresh the edit timestamp.
    /// Marking repeatedly only moves the timestamp.
    pub fn mark_dirty(&mut self, now_ms: u64)
        ensures
            *final(self) == spec_grid_marked(*old(self), now_ms),
    {
        self.needs_rebuild = true;
        self.last_edit_ms = now_ms;
    }

    /// A rebuild is due once an edit is pending and the debounce window has
    /// passed since the last edit.
    pub fn needs_rebuild(&self, now_ms: u64) -> (r: bool)
        ensures
            r == spec_grid_needs_rebuild(*self, now_ms),
    {
        let elapsed = if now_ms >= self.last_edit_ms {
            now_ms - self.last_edit_ms
        } else {
            0
        };
        self.needs_rebuild && elapsed >= DEBOUNCE_MS
    }

    /// Regenerate from the current parameters and clear the rebuild flag. The
    /// returned instruction reallocates the renderer's buffer only when the
    /// instance count changed; an unchanged count is overwritten in place.
    pub fn rebuild(&mut self) -> (r: BufferUpdate)
        requires
            old(self).wf(),
        ensures
            final(self).wf(),
            final(self).num_instances == old(self).params.rows * old(self).params.rows,
            final(self).buffer_capacity == final(self).num_instances,
            !final(self).needs_rebuild,
            *final(self) == (GridParticleSystem {
                num_instances: final(self).num_instances,
                buffer_capacity: final(self).buffer_capacity,
                needs_rebuild: false,
                ..*old(self)
            }),
            r == if old(self).buffer_capacity != final(self).num_instances {
                BufferUpdate::Reallocate { len: final(self).num_instances }
            } else {
                BufferUpdate::WriteInPlace { len: final(self).num_instances }
            },
    {
        proof {
            lemma_rows_sq_fits(self.params.rows as int);
        }
        let count = (self.params.rows * self.params.rows) as u32;
        self.num_instances = count;
        self.needs_rebuild = false;
        if self.buffer_capacity != count {
            self.buffer_capacity = count;
            BufferUpdate::Reallocate { len: count }
        } else {
            BufferUpdate::WriteInPlace { len: count }
        }
    }
}

/// A sphere particle system; the same lifecycle as the grid one, with the
/// point count in the role the row count plays there.
#[derive(Clone, Debug)]
pub struct SphereParticleSystem {
    pub name: String,
    pub params: SphereParams,
    pub model_path: String,
    pub material_key: String,
    pub num_instances: u32,
    pub buffer_capacity: u32,
    pub needs_rebuild: bool,
    pub last_edit_ms: u64,
}

/// The state an edit at time `now` leaves a sphere system in.
pub open spec fn spec_sphere_marked(s: SphereParticleSystem, now: u64) -> SphereParticleSystem {
    SphereParticleSystem { needs_rebuild: true, last_edit_ms: now, ..s }
}

/// Whether a sphere system's rebuild is due at time `now`.
pub open spec fn spec_sphere_needs_rebuild(s: SphereParticleSystem, now: u64) -> bool {
    s.needs_rebuild && spec_elapsed_ms(s.last_edit_ms, now) >= DEBOUNCE_MS
}

impl SphereParticleSystem {
    pub open spec fn wf(self) -> bool {
        self.params.valid()
    }

    pub fn new(
        name: String,
        params: SphereParams,
        model_path: String,
        material_key: String,
        now_ms: u64,
    ) -> (r: SphereParticleSystem)
        requires
            params.valid(),
        ensures
            r.wf(),
            r.name == name,
            r.params == params,
            r.model_path == model_path,
            r.material_key == material_key,
            r.num_instances == params.count,
            r.buffer_capacity == r.num_instances,
            !r.needs_rebuild,
            r.last_edit_ms == now_ms,
    {
        let count = params.count as u32;
        SphereParticleSystem {
            name,
            params,
            model_path,
            material_key,
            num_instances: count,
            buffer_capacity: count,
            needs_rebuild: false,
            last_edit_ms: now_ms,
        }
    }

    pub fn params(&self) -> (r: &SphereParams)
        ensures
            r == &self.params,
    {
        &self.params
    }

    pub fn model_path(&self) -> (r: &String)
        ensures
            r == &self.model_path,
    {
        &self.model_path
    }

    pub fn material_key(&self) -> (r: &String)
        ensures
            r == &self.material_key,
    {
        &self.material_key
    }

    pub fn name(&self) -> (r: &String)
        ensures
            r == &self.name,
    {
        &self.name
    }

    pub fn num_instances(&self) -> (r: u32)
        ensures
            r == self.num_instances,
    {
        self.num_instances
    }

    /// The uniform values the renderer uploads for this system.
    pub fn uniform(&self) -> (r: SphereTransformUniform)
        ensures
            r.center == self.params.center,
            r.radius == self.params.radius,
    {
        SphereTransformUniform { center: self.params.center, radius: self.params.radius }
    }

    /// Replace the parameters; a change of the point count schedules a
    /// rebuild.
    pub fn update_params(&mut self, params: SphereParams, now_ms: u64)
        requires
            old(self).wf(),
            params.valid(),
        ensures
            final(self).wf(),
            *final(self) == if old(self).params.count != params.count {
                spec_sphere_marked(SphereParticleSystem { params, ..*old(self) }, now_ms)
            } else {
                SphereParticleSystem { params, ..*old(self) }
            },
    {
        let old_count = self.params.count;
        self.params = params;
        if old_count != self.params.count {
            self.mark_dirty(now_ms);
        }
    }

    /// Record an edit: set the rebuild flag and refresh the edit timestamp.
    pub fn mark_dirty(&mut self, now_ms: u64)
        ensures
            *final(self) == spec_sphere_marked(*old(self), now_ms),
    {
        self.needs_rebuild = true;
        self.last_edit_ms = now_ms;
    }

    /// A rebuild is due once an edit is pending and the debounce window has
    /// passed since the last edit.
    pub fn needs_rebuild(&self, now_ms: u64) -> (r: bool)
        ensures
            r == spec_sphere_needs_rebuild(*self, now_ms),
    {
        let elapsed = if now_ms >= self.last_edit_ms {
            now_ms - self.last_edit_ms
        } else {
            0
        };
        self.needs_rebuild && elapsed >= DEBOUNCE_MS
    }

    /// Regenerate from the current parameters and clear the rebuild flag.
    pub fn rebuild(&mut self) -> (r: BufferUpdate)
        requires
            old(self).wf(),
        ensures
            final(self).wf(),
            final(self).num_instances == old(self).params.count,
            final(self).buffer_capacity == final(self).num_instances,
            !final(self).needs_rebuild,
            *final(self) == (SphereParticleSystem {
                num_instances: final(self).num_instances,
                buffer_capacity: final(self).buffer_capacity,
                needs_rebuild: false,
                ..*old(self)
            }),
            r == if old(self).buffer_capacity != final(self).num_instances {
                BufferUpdate::Reallocate { len: final(self).num_instances }
            } else {
                BufferUpdate::WriteInPlace { len: final(self).num_instances }
            },
    {
        let count = self.params.count as u32;
        self.num_instances = count;
        self.needs_rebuild = false;
        if self.buffer_capacity != count {
            self.buffer_capacity = count;
            BufferUpdate::Reallocate { len: count }
        } else {
            BufferUpdate::WriteInPlace { len: count }
        }
    }
}

/// Repeated edits inside the debounce window coalesce: marking a system dirty
/// at `t1` and again at `t2` leaves exactly the state of a single mark at
/// `t2`, so any burst of edits schedules one rebuild. That rebuild is not due
/// before the window has passed after the final edit, and is due once it has.
pub proof fn lemma_grid_debounce_coalesces(s: GridParticleSystem, t1: u64, t2: u64, q: u64)
    ensures
        spec_grid_marked(spec_grid_marked(s, t1), t2) == spec_grid_marked(s, t2),
        q < t2 + DEBOUNCE_MS ==> !spec_grid_needs_rebuild(spec_grid_marked(s, t2), q),
        q >= t2 + DEBOUNCE_MS ==> spec_grid_needs_rebuild(spec_grid_marked(s, t2), q),
{
}

/// The sphere-system form of the coalescing law.
pub proof fn lemma_sphere_debounce_coalesces(s: SphereParticleSystem, t1: u64, t2: u64, q: u64)
    ensures
        spec_sphere_marked(spec_sphere_marked(s, t1), t2) == spec_sphere_marked(s, t2),
        q < t2 + DEBOUNCE_MS ==> !spec_sphere_needs_rebuild(spec_sphere_marked(s, t2), q),
        q >= t2 + DEBOUNCE_MS ==> spec_sphere_needs_rebuild(spec_sphere_marked(s, t2), q),
{
}

/// Which family a named particle system belongs to.
#[derive(Clone, Copy, Debug, PartialEq, Eq, Structural)]
pub enum ParticleSystemKind {
    Grid,
    Sphere,
}

/// All particle systems, keyed by unique name. A name refers to a grid or a
/// sphere system, never both.
pub struct ParticleSystemManager {
    pub grids: StrMap<GridParticleSystem>,
    pub spheres: StrMap<SphereParticleSystem>,
}

impl ParticleSystemManager {
    pub open spec fn wf(self) -> bool {
        self.grids.wf() && self.spheres.wf() && forall|k: Seq<char>|
            !(#[trigger] self.grids@.contains_key(k) && #[trigger] self.spheres@.contains_key(k))
    }

    /// Every system's own parameters are valid.
    pub open spec fn all_valid(self) -> bool {
        (forall|i: int|
            0 <= i < self.grids.entries@.len() ==> (#[trigger] self.grids.entries@[i]).1.wf())
            && (forall|i: int|
            0 <= i < self.spheres.entries@.len() ==> (#[trigger] self.spheres.entries@[i]).1.wf())
    }

    pub fn new() -> (r: ParticleSystemManager)
        ensures
            r.wf(),
            r.all_valid(),
            r.grids@ =~= Map::<Seq<char>, GridParticleSystem>::empty(),
            r.spheres@ =~= Map::<Seq<char>, SphereParticleSystem>::empty(),
            r.grids.entries@.len() == 0,
            r.spheres.entries@.len() == 0,
    {
        ParticleSystemManager { grids: StrMap::new(), spheres: StrMap::new() }
    }

    /// Register a grid system under a name, overwriting whatever system of
    /// either family held the name before: the last writer wins.
    pub fn add_grid(&mut self, name: String, system: GridParticleSystem)
        requires
            old(self).wf(),
        ensures
            final(self).wf(),
            final(self).grids@ =~= old(self).grids@.insert(name@, system),
            final(self).spheres@ =~= old(self).spheres@.remove(name@),
            !old(self).grids@.contains_key(name@) ==> final(self).grids.entries@ =~= old(self).grids.entries@.push((name, system)),
            !old(self).spheres@.contains_key(name@) ==> final(self).spheres.entries@ =~= old(self).spheres.entries@,
            old(self).all_valid() && system.wf() ==> final(self).all_valid(),
    {
        let ghost gs = self.grids.entries@;
        self.spheres.remove(&name);
        self.grids.insert(name, system);
        proof {
            assert forall|k: Seq<char>|
                !(#[trigger] self.grids@.contains_key(k) && #[trigger] self.spheres@.contains_key(
                    k,
                )) by {}
        }
    }

    /// Register a sphere system under a name, with the same overwrite
    /// semantics.
    pub fn add_sphere(&mut self, name: String, system: SphereParticleSystem)
        requires
            old(self).wf(),
        ensures
            final(self).wf(),
            final(self).spheres@ =~= old(self).spheres@.insert(name@, system),
            final(self).grids@ =~= old(self).grids@.remove(name@),
            !old(self).spheres@.contains_key(name@) ==> final(self).spheres.entries@ =~= old(self).spheres.entries@.push((name, system)),
            !old(self).grids@.contains_key(name@) ==> final(self).grids.entries@ =~= old(self).grids.entries@,
            old(self).all_valid() && system.wf() ==> final(self).all_valid(),
    {
        self.grids.remove(&name);
        self.spheres.insert(name, system);
        proof {
            assert forall|k: Seq<char>|
                !(#[trigger] self.grids@.contains_key(k) && #[trigger] self.spheres@.contains_key(
                    k,
                )) by {}
        }
    }

    /// Remove whichever system holds the name; reports whether one did.
    pub fn remove(&mut self, name: &String) -> (r: bool)
        requires
            old(self).wf(),
        ensures
            final(self).wf(),
            r == (old(self).grids@.contains_key(name@) || old(self).spheres@.contains_key(name@)),
            final(self).grids@ =~= old(self).grids@.remove(name@),
            final(self).spheres@ =~= old(self).spheres@.remove(name@),
            old(self).all_valid() ==> final(self).all_valid(),
    {
        let in_grids = self.grids.remove(name);
        if in_grids {
            proof {
                assert(self.spheres@ =~= self.spheres@.remove(name@));
            }
            true
        } else {
            self.spheres.remove(name)
        }
    }

    pub fn get_kind(&self, name: &String) -> (r: Option<ParticleSystemKind>)
        requires
            self.wf(),
        ensures
            r == if self.grids@.contains_key(name@) {
                Some(ParticleSystemKind::Grid)
            } else if self.spheres@.contains_key(name@) {
                Some(ParticleSystemKind::Sphere)
            } else {
                None::<ParticleSystemKind>
            },
    {
        if self.grids.contains_key(name) {
            Some(ParticleSystemKind::Grid)
        } else if self.spheres.contains_key(name) {
            Some(ParticleSystemKind::Sphere)
        } else {
            None
        }
    }

    pub fn get_grid(&self, name: &String) -> (r: Option<&GridParticleSystem>)
        requires
            self.wf(),
        ensures
            match r {
                Some(s) => self.grids@.contains_key(name@) && *s == self.grids@[name@],
                None => !self.grids@.contains_key(name@),
            },
    {
        self.grids.get(name)
    }

    pub fn get_sphere(&self, name: &String) -> (r: Option<&SphereParticleSystem>)
        requires
            self.wf(),
        ensures
            match r {
                Some(s) => self.spheres@.contains_key(name@) && *s == self.spheres@[name@],
                None => !self.spheres@.contains_key(name@),
            },
    {
        self.spheres.get(name)
    }

    /// The grid systems, in registration order, for iteration by index.
    pub fn grids(&self) -> (r: &StrMap<GridParticleSystem>)
        ensures
            r == &self.grids,
    {
        &self.grids
    }

    /// The sphere systems, in registration order, for iteration by index.
    pub fn spheres(&self) -> (r: &StrMap<SphereParticleSystem>)
        ensures
            r == &self.spheres,
    {
        &self.spheres
    }

    /// Every registered name: the grid names in order, then the sphere names.
    pub fn all_names(&self) -> (r: Vec<String>)
        ensures
            r@.len() == self.grids.entries@.len() + self.spheres.entries@.len(),
            forall|i: int|
                0 <= i < self.grids.entries@.len() ==> r@[i]@ == (
                #[trigger] self.grids.entries@[i]).0@,
            forall|i: int|
                0 <= i < self.spheres.entries@.len() ==> r@[self.grids.entries@.len() + i]@ == (
                #[trigger] self.spheres.entries@[i]).0@,
    {
        let mut names = self.grids.keys();
        let mut sphere_names = self.spheres.keys();
        names.append(&mut sphere_names);
        names
    }

    /// How many systems are registered.
    pub fn count(&self) -> (r: usize)
        requires
            self.grids.entries@.len() + self.spheres.entries@.len() <= usize::MAX,
        ensures
            r == self.grids.entries@.len() + self.spheres.entries@.len(),
    {
        self.grids.len() + self.spheres.len()
    }
}


impl ParticleSystemManager {
    /// Mutable access to a grid system by name. The borrow can change the
    /// system but not the key set: the entry keeps its name and position,
    /// and the sphere registry is untouched.
    pub fn get_grid_mut<'a>(&'a mut self, name: &String) -> (r: Option<
        &'a mut GridParticleSystem,
    >)
        requires
            old(self).wf(),
        ensures
            match r {
                Some(g) => old(self).grids@.contains_key(name@) && *g == old(self).grids@[name@]
                    && final(self).spheres == old(self).spheres && (exists|i: int|
                    0 <= i < old(self).grids.entries@.len() && (
                    #[trigger] old(self).grids.entries@[i]).0@ == name@ && final(self).grids.entries@ =~= old(self).grids.entries@.update(
                        i,
                        (old(self).grids.entries@[i].0, *final(g)),
                    )) && final(self).grids.wf(),
                None => !old(self).grids@.contains_key(name@) && *final(self) == *old(self),
            },
    {
        match self.grids.index_of(name) {
            Some(i) => {
                proof {
                    crate::strmap::lemma_map_index(self.grids.entries@, i as int);
                }
                Some(self.grids.value_at_mut(i))
            },
            None => {
                proof {
                    crate::strmap::lemma_map_domain(self.grids.entries@, name@);
                }
                None
            },
        }
    }

    /// Mutable access to a sphere system by name, under the same frame as
    /// `get_grid_mut`.
    pub fn get_sphere_mut<'a>(&'a mut self, name: &String) -> (r: Option<
        &'a mut SphereParticleSystem,
    >)
        requires
            old(self).wf(),
        ensures
            match r {
                Some(g) => old(self).spheres@.contains_key(name@) && *g == old(self).spheres@[name@] && final(self).grids == old(self).grids && (exists|i: int|
                    0 <= i < old(self).spheres.entries@.len() && (
                    #[trigger] old(self).spheres.entries@[i]).0@ == name@ && final(self).spheres.entries@ =~= old(self).spheres.entries@.update(
                        i,
                        (old(self).spheres.entries@[i].0, *final(g)),
                    )) && final(self).spheres.wf(),
                None => !old(self).spheres@.contains_key(name@) && *final(self) == *old(self),
            },
    {
        match self.spheres.index_of(name) {
            Some(i) => {
                proof {
                    crate::strmap::lemma_map_index(self.spheres.entries@, i as int);
                }
                Some(self.spheres.value_at_mut(i))
            },
            None => {
                proof {
                    crate::strmap::lemma_map_domain(self.spheres.entries@, name@);
                }
                None
            },
        }
    }
}

} // verus!
