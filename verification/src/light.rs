//! Fixed-capacity slot allocator for point lights. Liveness of the ten slots
//! is tracked in a bitmask; a dirty flag records that the in-memory state has
//! diverged from the last state handed to the renderer. Positions and colors
//! are 32-bit float bit patterns (`u32`), stored and moved but never computed
//! with.

use vstd::prelude::*;

verus! {

/// Number of light slots.
pub const MAX_LIGHTS: usize = 10;

/// Bit pattern of the 32-bit float value one, used as the homogeneous
/// coordinate of stored light positions.
pub const F32_ONE_BITS: u32 = 0x3F80_0000;

/// One light: position padded to four components (the fourth is the
/// homogeneous one), and an RGBA color.
#[derive(Clone, Copy, Debug)]
pub struct Light {
    pub position: [u32; 4],
    pub color: [u32; 4],
}

/// A zeroed light, used for empty slots and padding.
pub open spec fn spec_light_zero(l: Light) -> bool {
    l.position@ =~= seq![0u32, 0u32, 0u32, 0u32] && l.color@ =~= seq![0u32, 0u32, 0u32, 0u32]
}

impl Default for Light {
    fn default() -> (r: Light)
        ensures
            spec_light_zero(r),
    {
        Light { position: [0u32, 0u32, 0u32, 0u32], color: [0u32, 0u32, 0u32, 0u32] }
    }
}

/// Whether bit `i` of `m` is set.
pub open spec fn mask_bit(m: u32, i: int) -> bool {
    m & (1u32 << (i as u32)) != 0u32
}

/// How many of the bits below `n` are set in `m`.
pub open spec fn count_active(m: u32, n: int) -> int
    decreases n,
{
    if n <= 0 {
        0
    } else {
        count_active(m, n - 1) + if mask_bit(m, n - 1) {
            1int
        } else {
            0int
        }
    }
}

/// Number of set bits of the whole word.
pub open spec fn popcount(m: u32) -> int
    decreases m,
{
    if m == 0 {
        0
    } else {
        (m % 2) + popcount(m / 2)
    }
}

/// The smallest unoccupied slot index at or after `i`, or `MAX_LIGHTS` when
/// every slot from `i` up is occupied.
pub open spec fn first_free_from(m: u32, i: int) -> int
    decreases MAX_LIGHTS - i,
{
    if i >= MAX_LIGHTS {
        MAX_LIGHTS as int
    } else if !mask_bit(m, i) {
        i
    } else {
        first_free_from(m, i + 1)
    }
}

/// The active lights of the slot array, in ascending slot order, considering
/// slots below `n`.
pub open spec fn compact_lights(lights: Seq<Light>, m: u32, n: int) -> Seq<Light>
    decreases n,
{
    if n <= 0 {
        Seq::empty()
    } else {
        compact_lights(lights, m, n - 1) + if mask_bit(m, n - 1) {
            seq![lights[n - 1]]
        } else {
            Seq::empty()
        }
    }
}

/// The packed form the renderer consumes: the active lights compacted to the
/// front in ascending slot order, zero padding behind them, and the active
/// count.
pub struct LightArrayGpu {
    pub lights: [Light; 10],
    pub num_lights: u32,
    pub padding: [u32; 3],
}

/// Fixed array of light slots with bitmask liveness, a dirty flag, and the
/// shared model/material reference applied to all lights.
pub struct LightManager {
    pub lights: [Light; 10],
    pub active_mask: u32,
    pub dirty: bool,
    pub model_path: String,
    pub material_key: String,
}

/// Counting the same bits of two words gives the same count.
proof fn lemma_count_same(m1: u32, m2: u32, n: int)
    requires
        forall|j: int| 0 <= j < n ==> mask_bit(m1, j) == mask_bit(m2, j),
    ensures
        count_active(m1, n) == count_active(m2, n),
    decreases n,
{
    if n > 0 {
        lemma_count_same(m1, m2, n - 1);
    }
}

/// Setting one clear bit raises the count of the bits below `n` by one, when
/// the bit lies below `n`.
proof fn lemma_count_set_bit(m1: u32, m2: u32, s: int, n: int)
    requires
        0 <= s < n,
        !mask_bit(m1, s),
        mask_bit(m2, s),
        forall|j: int| 0 <= j < n && j != s ==> mask_bit(m1, j) == mask_bit(m2, j),
    ensures
        count_active(m2, n) == count_active(m1, n) + 1,
    decreases n,
{
    if s == n - 1 {
        lemma_count_same(m1, m2, n - 1);
    } else {
        lemma_count_set_bit(m1, m2, s, n - 1);
    }
}

/// Same, for clearing one set bit.
proof fn lemma_count_clear_bit(m1: u32, m2: u32, s: int, n: int)
    requires
        0 <= s < n,
        mask_bit(m1, s),
        !mask_bit(m2, s),
        forall|j: int| 0 <= j < n && j != s ==> mask_bit(m1, j) == mask_bit(m2, j),
    ensures
        count_active(m2, n) == count_active(m1, n) - 1,
    decreases n,
{
    if s == n - 1 {
        lemma_count_same(m1, m2, n - 1);
    } else {
        lemma_count_clear_bit(m1, m2, s, n - 1);
    }
}

/// Bitwise effect of setting bit `s`.
proof fn lemma_or_bit(m: u32, s: u32)
    requires
        s < 32,
    ensures
        mask_bit(m | (1u32 << s), s as int),
        forall|j: int| 0 <= j < 32 && j != s ==> mask_bit(m | (1u32 << s), j) == mask_bit(m, j),
{
    assert((m | (1u32 << s)) & (1u32 << s) != 0u32) by (bit_vector)
        requires
            s < 32,
    ;
    assert forall|j: int| 0 <= j < 32 && j != s implies mask_bit(m | (1u32 << s), j) == mask_bit(
        m,
        j,
    ) by {
        let ju = j as u32;
        assert((m | (1u32 << s)) & (1u32 << ju) == m & (1u32 << ju)) by (bit_vector)
            requires
                s < 32,
                ju < 32,
                ju != s,
        ;
    }
}

/// Bitwise effect of clearing bit `s`.
proof fn lemma_and_not_bit(m: u32, s: u32)
    requires
        s < 32,
    ensures
        !mask_bit(m & !(1u32 << s), s as int),
        forall|j: int| 0 <= j < 32 && j != s ==> mask_bit(m & !(1u32 << s), j) == mask_bit(m, j),
{
    assert((m & !(1u32 << s)) & (1u32 << s) == 0u32) by (bit_vector)
        requires
            s < 32,
    ;
    assert forall|j: int| 0 <= j < 32 && j != s implies mask_bit(m & !(1u32 << s), j) == mask_bit(
        m,
        j,
    ) by {
        let ju = j as u32;
        assert((m & !(1u32 << s)) & (1u32 << ju) == m & (1u32 << ju)) by (bit_vector)
            requires
                s < 32,
                ju < 32,
                ju != s,
        ;
    }
}

/// `count_active` over all ten slots agrees with the population count of the
/// whole mask whenever the mask never uses bits ten and up, which
/// `LightManager` maintains as its invariant.
pub proof fn lemma_count_is_popcount(m: u32, n: int)
    requires
        0 <= n <= 31,
        (m >> (n as u32)) == 0u32,
    ensures
        popcount(m) == count_active(m, n),
    decreases n,
{
    if n == 0 {
        assert(m == 0u32) by (bit_vector)
            requires
                (m >> 0u32) == 0u32,
        ;
    } else if m == 0 {
        lemma_count_zero(n);
    } else {
        let h = m / 2;
        let nu = n as u32;
        let nu1 = (n - 1) as u32;
        assert((h >> nu1) == 0u32) by (bit_vector)
            requires
                (m >> nu) == 0u32,
                0 < nu <= 31,
                nu1 == nu - 1,
                h == m / 2,
        ;
        lemma_count_is_popcount(h, n - 1);
        assert forall|j: int| 0 <= j < n - 1 implies mask_bit(h, j) == mask_bit(m, j + 1) by {
            let ju = j as u32;
            assert(((m / 2) & (1u32 << ju) != 0u32) == (m & (1u32 << (ju + 1)) != 0u32))
                by (bit_vector)
                requires
                    ju < 31,
            ;
        }
        lemma_count_shift(m, h, n - 1);
        lemma_count_split(m, 1, n);
        assert(mask_bit(m, 0) == (m % 2 == 1)) by {
            assert(1u32 << (0 as u32) == 1u32 << 0u32);
            assert((m & (1u32 << 0u32) != 0u32) == (m % 2 == 1u32)) by (bit_vector);
        }
        assert(m % 2 == 0 || m % 2 == 1);
        assert(count_active(m, 0) == 0);
        assert(count_active(m, 1) == if mask_bit(m, 0) {
            1int
        } else {
            0int
        });
        assert(count_active(m, 1) == m % 2);
    }
}

proof fn lemma_count_zero(n: int)
    requires
        0 <= n,
    ensures
        count_active(0u32, n) == 0,
    decreases n,
{
    if n > 0 {
        lemma_count_zero(n - 1);
        let ju = (n - 1) as u32;
        assert(0u32 & (1u32 << ju) == 0u32) by (bit_vector);
    }
}

/// The set bits of `m` at positions `1..n+1` are the set bits of `m / 2` at
/// positions `0..n`.
spec fn count_shifted(m: u32, lo: int, hi: int) -> int
    decreases hi - lo,
{
    if hi <= lo {
        0
    } else {
        count_shifted(m, lo, hi - 1) + if mask_bit(m, hi - 1) {
            1int
        } else {
            0int
        }
    }
}

proof fn lemma_count_split(m: u32, lo: int, hi: int)
    requires
        0 <= lo <= hi,
    ensures
        count_active(m, hi) == count_active(m, lo) + count_shifted(m, lo, hi),
    decreases hi - lo,
{
    if hi > lo {
        lemma_count_split(m, lo, hi - 1);
    }
}

proof fn lemma_count_shift(m: u32, h: u32, n: int)
    requires
        0 <= n,
        forall|j: int| 0 <= j < n ==> mask_bit(h, j) == mask_bit(m, j + 1),
    ensures
        count_active(h, n) == count_shifted(m, 1, n + 1),
    decreases n,
{
    if n > 0 {
        lemma_count_shift(m, h, n - 1);
    }
}

impl LightManager {
    /// The mask never marks slots at or above `MAX_LIGHTS`.
    pub open spec fn wf(self) -> bool {
        self.active_mask < 1024u32
    }

    /// Slot `i` holds a live light.
    pub open spec fn spec_is_active(self, i: int) -> bool {
        0 <= i < MAX_LIGHTS && mask_bit(self.active_mask, i)
    }

    /// Every live light's position carries the homogeneous coordinate one,
    /// as `add_light` and `update_light` store it.
    pub open spec fn spec_homogeneous(self) -> bool {
        forall|i: int|
            0 <= i < MAX_LIGHTS && #[trigger] self.spec_is_active(i) ==> self.lights@[i].position@[3]
                == F32_ONE_BITS
    }

    /// Number of live slots.
    pub open spec fn spec_num_lights(self) -> int {
        count_active(self.active_mask, MAX_LIGHTS as int)
    }

    /// The live lights in ascending slot order.
    pub open spec fn spec_compacted(self) -> Seq<Light> {
        compact_lights(self.lights@, self.active_mask, MAX_LIGHTS as int)
    }

    pub fn new() -> (r: LightManager)
        ensures
            r.wf(),
            r.active_mask == 0u32,
            !r.dirty,
            r.model_path@ == "teapot.obj"@,
            r.material_key@ == "teapot/default"@,
            forall|i: int| 0 <= i < MAX_LIGHTS ==> spec_light_zero(#[trigger] r.lights@[i]),
            r.spec_homogeneous(),
    {
        let z = Light::default();
        let r = LightManager {
            lights: [z, z, z, z, z, z, z, z, z, z],
            active_mask: 0u32,
            dirty: false,
            model_path: "teapot.obj".to_owned(),
            material_key: "teapot/default".to_owned(),
        };
        proof {
            assert forall|i: int| 0 <= i < MAX_LIGHTS implies !r.spec_is_active(i) by {
                let ju = i as u32;
                assert(0u32 & (1u32 << ju) == 0u32) by (bit_vector);
            }
        }
        r
    }

    /// Build a manager holding the given lights, assigned to slots in order.
    pub fn with_lights(lights: &Vec<([u32; 3], [u32; 4])>) -> (r: LightManager)
        ensures
            r.wf(),
            r.model_path@ == "teapot.obj"@,
            r.material_key@ == "teapot/default"@,
            r.spec_num_lights() == if lights@.len() < MAX_LIGHTS {
                lights@.len() as int
            } else {
                MAX_LIGHTS as int
            },
            forall|i: int|
                0 <= i < lights@.len() && i < MAX_LIGHTS ==> #[trigger] r.spec_is_active(i),
            forall|i: int|
                0 <= i < lights@.len() && i < MAX_LIGHTS ==> (#[trigger] r.lights@[i]).position@
                    =~= lights@[i].0@.push(F32_ONE_BITS) && r.lights@[i].color == lights@[i].1,
            forall|i: int| lights@.len() <= i < MAX_LIGHTS ==> !r.spec_is_active(i),
            r.spec_homogeneous(),
    {
        let mut manager = LightManager::new();
        let n = lights.len();
        let mut idx: usize = 0;
        proof {
            lemma_mask_low_bits(0);
            let v0 = low_mask(0);
            assert(v0 == 0u32) by (bit_vector)
                requires
                    v0 == !(0xFFFF_FFFFu32 << 0u32),
            ;
        }
        while idx < n
            invariant
                manager.wf(),
                manager.model_path@ == "teapot.obj"@,
                manager.material_key@ == "teapot/default"@,
                n == lights@.len(),
                idx <= n,
                manager.active_mask == low_mask(
                    if idx < MAX_LIGHTS {
                        idx as u32
                    } else {
                        10u32
                    },
                ),
                forall|i: int|
                    0 <= i < idx && i < MAX_LIGHTS ==> (#[trigger] manager.lights@[i]).position@
                        =~= lights@[i].0@.push(F32_ONE_BITS) && manager.lights@[i].color
                        == lights@[i].1,
            decreases n - idx,
        {
            let (pos, color) = lights[idx];
            let ghost before = manager;
            let ghost bound: u32 = if idx < MAX_LIGHTS {
                idx as u32
            } else {
                10u32
            };
            proof {
                lemma_mask_low_bits(bound);
                lemma_first_free_of_low(manager.active_mask, bound as int);
            }
            let _slot = manager.add_light(&pos, &color);
            proof {
                if idx < MAX_LIGHTS {
                    assert(first_free_from(before.active_mask, 0) == idx as int);
                    assert(manager.lights@[idx as int].position@ =~= lights@[idx as int].0@.push(
                        F32_ONE_BITS,
                    ));
                    assert(manager.lights@[idx as int].color == lights@[idx as int].1);
                    assert forall|i: int| 0 <= i < idx + 1 && i < MAX_LIGHTS implies (
                    #[trigger] manager.lights@[i]).position@ =~= lights@[i].0@.push(F32_ONE_BITS)
                        && manager.lights@[i].color == lights@[i].1 by {
                        if i < idx {
                            assert(manager.lights@[i] == before.lights@[i]);
                        }
                    }
                    let bu = idx as u32;
                    let bu1 = (idx + 1) as u32;
                    let v1 = low_mask(bu);
                    let v2 = low_mask(bu1);
                    assert(manager.active_mask == (before.active_mask | (1u32 << bu)));
                    assert((v1 | (1u32 << bu)) == v2) by (bit_vector)
                        requires
                            v1 == !(0xFFFF_FFFFu32 << bu),
                            v2 == !(0xFFFF_FFFFu32 << bu1),
                            bu1 == bu + 1,
                            bu < 10u32,
                    ;
                }
            }
            idx = idx + 1;
        }
        proof {
            let bound: u32 = if n < MAX_LIGHTS {
                n as u32
            } else {
                10u32
            };
            lemma_mask_low_bits(bound);
            lemma_count_of_low(manager.active_mask, bound as int, MAX_LIGHTS as int);
            assert forall|i: int|
                0 <= i < MAX_LIGHTS && #[trigger] manager.spec_is_active(i) implies
            manager.lights@[i].position@[3] == F32_ONE_BITS by {
                assert(i < bound);
                assert(manager.lights@[i].position@ =~= lights@[i].0@.push(F32_ONE_BITS));
            }
        }
        manager
    }

    pub fn model_path(&self) -> (r: &String)
        ensures
            r == &self.model_path,
    {
        &self.model_path
    }

    pub fn set_model_path(&mut self, path: String)
        ensures
            *final(self) == (LightManager { model_path: path, ..*old(self) }),
    {
        self.model_path = path;
    }

    pub fn material_key(&self) -> (r: &String)
        ensures
            r == &self.material_key,
    {
        &self.material_key
    }

    pub fn set_material_key(&mut self, key: String)
        ensures
            *final(self) == (LightManager { material_key: key, ..*old(self) }),
    {
        self.material_key = key;
    }

    /// First-fit slot allocation: the light lands in the smallest unoccupied
    /// slot; with every slot occupied, nothing changes and `None` reports the
    /// exhausted capacity.
    pub fn add_light(&mut self, pos: &[u32; 3], color: &[u32; 4]) -> (r: Option<usize>)
        requires
            old(self).wf(),
        ensures
            final(self).wf(),
            ({
                let slot = first_free_from(old(self).active_mask, 0);
                let a = *old(self);
                let b = *final(self);
                if slot < MAX_LIGHTS {
                    r == Some(slot as usize) && b.active_mask == (a.active_mask | (1u32 << (
                    slot as u32))) && b.spec_is_active(slot) && b.lights@[slot].position@
                        =~= pos@.push(F32_ONE_BITS) && b.lights@[slot].color == *color && b.dirty
                        && (forall|j: int|
                        0 <= j < MAX_LIGHTS && j != slot ==> (#[trigger] b.lights@[j])
                            == a.lights@[j]) && (forall|j: int|
                        0 <= j < MAX_LIGHTS && j != slot ==> b.spec_is_active(j)
                            == a.spec_is_active(j))
                } else {
                    r == None::<usize> && b == a
                }
            }),
            final(self).spec_num_lights() == if first_free_from(old(self).active_mask, 0)
                < MAX_LIGHTS {
                old(self).spec_num_lights() + 1
            } else {
                old(self).spec_num_lights()
            },
            final(self).model_path == old(self).model_path,
            final(self).material_key == old(self).material_key,
            old(self).spec_homogeneous() ==> final(self).spec_homogeneous(),
    {
        let mut i: usize = 0;
        while i < MAX_LIGHTS
            invariant
                self == old(self),
                self.wf(),
                i <= MAX_LIGHTS,
                first_free_from(self.active_mask, 0) == first_free_from(self.active_mask, i as int),
                forall|j: int| 0 <= j < i ==> mask_bit(self.active_mask, j),
            decreases MAX_LIGHTS - i,
        {
            if self.active_mask & (1u32 << (i as u32)) == 0u32 {
                let ghost m1 = self.active_mask;
                self.lights[i] = Light {
                    position: [pos[0], pos[1], pos[2], F32_ONE_BITS],
                    color: *color,
                };
                self.active_mask = self.active_mask | (1u32 << (i as u32));
                self.dirty = true;
                proof {
                    let iu = i as u32;
                    let m2 = self.active_mask;
                    lemma_or_bit(m1, iu);
                    assert(m2 < 1024u32) by (bit_vector)
                        requires
                            m1 < 1024u32,
                            iu < 10u32,
                            m2 == (m1 | (1u32 << iu)),
                    ;
                    lemma_count_set_bit(m1, m2, i as int, MAX_LIGHTS as int);
                    if old(self).spec_homogeneous() {
                        assert forall|j: int|
                            0 <= j < MAX_LIGHTS && #[trigger] self.spec_is_active(j) implies
                        self.lights@[j].position@[3] == F32_ONE_BITS by {
                            if j != i as int {
                                assert(self.lights@[j] == old(self).lights@[j]);
                                assert(old(self).spec_is_active(j));
                            }
                        }
                    }
                }
                return Some(i);
            }
            i = i + 1;
        }
        None
    }

    /// Clearing a slot: a no-op for an out-of-range index; otherwise the
    /// occupancy bit is cleared (whether or not it was set) and the manager
    /// is marked dirty.
    pub fn remove_light(&mut self, index: usize)
        requires
            old(self).wf(),
        ensures
            final(self).wf(),
            final(self).lights == old(self).lights,
            final(self).model_path == old(self).model_path,
            final(self).material_key == old(self).material_key,
            ({
                let a = *old(self);
                let b = *final(self);
                if index < MAX_LIGHTS {
                    b.active_mask == (a.active_mask & !(1u32 << (index as u32))) && b.dirty
                        && !b.spec_is_active(index as int) && forall|j: int|
                        0 <= j < MAX_LIGHTS && j != index ==> b.spec_is_active(j)
                            == a.spec_is_active(j)
                } else {
                    b == a
                }
            }),
            final(self).spec_num_lights() == if old(self).spec_is_active(index as int) {
                old(self).spec_num_lights() - 1
            } else {
                old(self).spec_num_lights()
            },
            old(self).spec_homogeneous() ==> final(self).spec_homogeneous(),
    {
        if index < MAX_LIGHTS {
            let ghost m1 = self.active_mask;
            self.active_mask = self.active_mask & !(1u32 << (index as u32));
            self.dirty = true;
            proof {
                let iu = index as u32;
                let m2 = self.active_mask;
                lemma_and_not_bit(m1, iu);
                assert(m2 < 1024u32) by (bit_vector)
                    requires
                        m1 < 1024u32,
                        m2 == (m1 & !(1u32 << iu)),
                ;
                if mask_bit(m1, index as int) {
                    lemma_count_clear_bit(m1, m2, index as int, MAX_LIGHTS as int);
                } else {
                    assert(m2 == m1) by (bit_vector)
                        requires
                            m1 & (1u32 << iu) == 0u32,
                            m2 == (m1 & !(1u32 << iu)),
                    ;
                    lemma_count_same(m1, m2, MAX_LIGHTS as int);
                }
                if old(self).spec_homogeneous() {
                    assert(iu as int == index as int);
                    assert forall|j: int|
                        0 <= j < MAX_LIGHTS && #[trigger] self.spec_is_active(j) implies
                    self.lights@[j].position@[3] == F32_ONE_BITS by {
                        if j == index as int {
                            assert(!mask_bit(m2, iu as int));
                            assert(false);
                        } else {
                            assert(mask_bit(m2, j) == mask_bit(m1, j));
                            assert(old(self).spec_is_active(j));
                        }
                    }
                }
            }
        }
    }

    /// Overwrite a live slot in place; a dead or out-of-range slot is left
    /// untouched.
    pub fn update_light(&mut self, index: usize, pos: &[u32; 3], color: &[u32; 4])
        requires
            old(self).wf(),
        ensures
            final(self).wf(),
            final(self).active_mask == old(self).active_mask,
            final(self).model_path == old(self).model_path,
            final(self).material_key == old(self).material_key,
            ({
                let a = *old(self);
                let b = *final(self);
                if a.spec_is_active(index as int) {
                    b.lights@[index as int].position@ =~= pos@.push(F32_ONE_BITS)
                        && b.lights@[index as int].color == *color && b.dirty && forall|j: int|
                        0 <= j < MAX_LIGHTS && j != index ==> b.lights@[j] == a.lights@[j]
                } else {
                    b == a
                }
            }),
            old(self).spec_homogeneous() ==> final(self).spec_homogeneous(),
    {
        if self.is_active(index) {
            self.lights[index] = Light {
                position: [pos[0], pos[1], pos[2], F32_ONE_BITS],
                color: *color,
            };
            self.dirty = true;
            proof {
                let ghost nl = self.lights@[index as int];
                assert(nl.position@.len() == 4);
                assert(nl.position@[3] == F32_ONE_BITS);
                if old(self).spec_homogeneous() {
                    assert forall|j: int|
                        0 <= j < MAX_LIGHTS && #[trigger] self.spec_is_active(j) implies
                    self.lights@[j].position@[3] == F32_ONE_BITS by {
                        if j != index as int {
                            assert(self.lights@[j] == old(self).lights@[j]);
                            assert(self.active_mask == old(self).active_mask);
                            assert(old(self).spec_is_active(j));
                            assert(old(self).lights@[j].position@[3] == F32_ONE_BITS);
                        } else {
                            assert(self.lights@[j] == nl);
                            assert(nl.position@[3] == F32_ONE_BITS);
                        }
                        assert(self.lights@[j].position@[3] == F32_ONE_BITS);
                    }
                }
            }
        }
    }

    /// The light in a slot, when the slot is live.
    pub fn get_light(&self, index: usize) -> (r: Option<&Light>)
        ensures
            if self.spec_is_active(index as int) {
                r == Some(&self.lights@[index as int])
            } else {
                r == None::<&Light>
            },
    {
        if self.is_active(index) {
            Some(&self.lights[index])
        } else {
            None
        }
    }

    /// Pack the live lights for the renderer: compacted to the front in
    /// ascending slot order, zero entries behind them, and the live count.
    pub fn sync_to_gpu(&self) -> (r: LightArrayGpu)
        requires
            self.wf(),
        ensures
            r.num_lights == self.spec_num_lights(),
            r.lights@.subrange(0, r.num_lights as int) =~= self.spec_compacted(),
            forall|k: int|
                self.spec_num_lights() <= k < MAX_LIGHTS ==> spec_light_zero(
                    #[trigger] r.lights@[k],
                ),
            r.padding@ =~= seq![0u32, 0u32, 0u32],
    {
        let z = Light::default();
        let mut gpu_lights: [Light; 10] = [z, z, z, z, z, z, z, z, z, z];
        let mut write_idx: usize = 0;
        let mut i: usize = 0;
        proof {
            lemma_compact_len(self.lights@, self.active_mask, 0);
        }
        while i < MAX_LIGHTS
            invariant
                self.wf(),
                i <= MAX_LIGHTS,
                write_idx == count_active(self.active_mask, i as int),
                write_idx <= i,
                gpu_lights@.subrange(0, write_idx as int) =~= compact_lights(
                    self.lights@,
                    self.active_mask,
                    i as int,
                ),
                forall|k: int|
                    write_idx <= k < MAX_LIGHTS ==> spec_light_zero(#[trigger] gpu_lights@[k]),
            decreases MAX_LIGHTS - i,
        {
            proof {
                lemma_compact_len(self.lights@, self.active_mask, i as int + 1);
            }
            if self.is_active(i) {
                let ghost before = gpu_lights@;
                gpu_lights[write_idx] = self.lights[i];
                proof {
                    assert(gpu_lights@.subrange(0, write_idx as int) =~= before.subrange(
                        0,
                        write_idx as int,
                    ));
                }
                write_idx = write_idx + 1;
            }
            i = i + 1;
        }
        LightArrayGpu {
            lights: gpu_lights,
            num_lights: write_idx as u32,
            padding: [0u32, 0u32, 0u32],
        }
    }

    pub fn is_active(&self, index: usize) -> (r: bool)
        ensures
            r == self.spec_is_active(index as int),
    {
        index < MAX_LIGHTS && (self.active_mask & (1u32 << (index as u32))) != 0u32
    }

    /// Population count of the occupancy mask.
    pub fn num_lights(&self) -> (r: u32)
        requires
            self.wf(),
        ensures
            r == self.spec_num_lights(),
            r == popcount(self.active_mask),
    {
        let mut c: u32 = 0;
        let mut i: usize = 0;
        while i < MAX_LIGHTS
            invariant
                c == count_active(self.active_mask, i as int),
                c <= i,
                i <= MAX_LIGHTS,
            decreases MAX_LIGHTS - i,
        {
            if (self.active_mask & (1u32 << (i as u32))) != 0u32 {
                c = c + 1;
            }
            i = i + 1;
        }
        proof {
            let m = self.active_mask;
            assert((m >> 10u32) == 0u32) by (bit_vector)
                requires
                    m < 1024u32,
            ;
            lemma_count_is_popcount(m, MAX_LIGHTS as int);
        }
        c
    }

    pub fn max_lights(&self) -> (r: usize)
        ensures
            r == MAX_LIGHTS,
    {
        MAX_LIGHTS
    }

    pub fn is_dirty(&self) -> (r: bool)
        ensures
            r == self.dirty,
    {
        self.dirty
    }

    pub fn clear_dirty(&mut self)
        ensures
            *final(self) == (LightManager { dirty: false, ..*old(self) }),
    {
        self.dirty = false;
    }
}

/// The compacted sequence is exactly as long as the count of live slots.
pub proof fn lemma_compact_len(lights: Seq<Light>, m: u32, n: int)
    ensures
        compact_lights(lights, m, n).len() == count_active(m, n),
    decreases n,
{
    if n > 0 {
        lemma_compact_len(lights, m, n - 1);
    }
}

/// The mask whose bits below `i` are set and all others clear.
pub open spec fn low_mask(i: u32) -> u32 {
    !(0xFFFF_FFFFu32 << i)
}

/// Which bits a low mask holds.
pub proof fn lemma_mask_low_bits(i: u32)
    requires
        i <= 10,
    ensures
        low_mask(i) < 1024u32,
        forall|j: int| 0 <= j < 32 ==> mask_bit(low_mask(i), j) == (j < i),
{
    let v = low_mask(i);
    assert(v < 1024u32) by (bit_vector)
        requires
            v == !(0xFFFF_FFFFu32 << i),
            i <= 10,
    ;
    assert forall|j: int| 0 <= j < 32 implies mask_bit(low_mask(i), j) == (j < i) by {
        let ju = j as u32;
        assert((v & (1u32 << ju) != 0u32) == (ju < i)) by (bit_vector)
            requires
                v == !(0xFFFF_FFFFu32 << i),
                i <= 10,
                ju < 32,
        ;
    }
}

/// In a manager whose occupied slots are exactly those below `i`, the first
/// free slot is `i` itself.
pub proof fn lemma_first_free_of_low(m: u32, i: int)
    requires
        0 <= i <= MAX_LIGHTS,
        forall|j: int| 0 <= j < 32 ==> mask_bit(m, j) == (j < i),
    ensures
        first_free_from(m, 0) == i,
{
    lemma_first_free_scan(m, 0, i);
}

proof fn lemma_first_free_scan(m: u32, lo: int, i: int)
    requires
        0 <= lo <= i <= MAX_LIGHTS,
        forall|j: int| 0 <= j < 32 ==> mask_bit(m, j) == (j < i),
    ensures
        first_free_from(m, lo) == i,
    decreases i - lo,
{
    if lo < i {
        lemma_first_free_scan(m, lo + 1, i);
    }
}

/// A mask holding exactly the bits below `b` has `b` live slots.
pub proof fn lemma_count_of_low(m: u32, b: int, n: int)
    requires
        0 <= b <= n <= 32,
        forall|j: int| 0 <= j < 32 ==> mask_bit(m, j) == (j < b),
    ensures
        count_active(m, n) == b,
    decreases n,
{
    if n > b {
        lemma_count_of_low(m, b, n - 1);
    } else {
        lemma_count_all_below(m, n);
    }
}

proof fn lemma_count_all_below(m: u32, n: int)
    requires
        0 <= n,
        forall|j: int| 0 <= j < n ==> mask_bit(m, j),
    ensures
        count_active(m, n) == n,
    decreases n,
{
    if n > 0 {
        lemma_count_all_below(m, n - 1);
    }
}


/// No more bits can be set below `n` than `n`.
pub proof fn lemma_count_at_most(m: u32, n: int)
    requires
        0 <= n,
    ensures
        count_active(m, n) <= n,
    decreases n,
{
    if n > 0 {
        lemma_count_at_most(m, n - 1);
    }
}

/// In a manager whose live slots are exactly those below `b`, compaction
/// reproduces the first `b` slots unchanged.
pub proof fn lemma_compact_of_low(lights: Seq<Light>, m: u32, b: int, n: int)
    requires
        0 <= b <= n,
        b <= lights.len(),
        forall|j: int| 0 <= j < n ==> mask_bit(m, j) == (j < b),
    ensures
        compact_lights(lights, m, n) =~= lights.take(b),
    decreases n,
{
    if n > b {
        lemma_compact_of_low(lights, m, b, n - 1);
    } else {
        lemma_compact_all_below(lights, m, n);
    }
}

proof fn lemma_compact_all_below(lights: Seq<Light>, m: u32, n: int)
    requires
        0 <= n <= lights.len(),
        forall|j: int| 0 <= j < n ==> mask_bit(m, j),
    ensures
        compact_lights(lights, m, n) =~= lights.take(n),
    decreases n,
{
    if n > 0 {
        lemma_compact_all_below(lights, m, n - 1);
        assert(lights.take(n).drop_last() =~= lights.take(n - 1));
        assert(compact_lights(lights, m, n) =~= compact_lights(lights, m, n - 1) + seq![
            lights[n - 1],
        ]);
    }
}

/// Every compacted light comes from a live slot, so in a manager whose live
/// lights all carry the homogeneous one, so do the compacted ones.
pub proof fn lemma_compact_homogeneous(lm: LightManager)
    requires
        lm.spec_homogeneous(),
    ensures
        forall|k: int|
            0 <= k < lm.spec_compacted().len() ==> (#[trigger] lm.spec_compacted()[k]).position@[3]
                == F32_ONE_BITS,
{
    lemma_compact_slots_homogeneous(lm, MAX_LIGHTS as int);
}

proof fn lemma_compact_slots_homogeneous(lm: LightManager, n: int)
    requires
        lm.spec_homogeneous(),
        n <= MAX_LIGHTS,
    ensures
        forall|k: int|
            0 <= k < compact_lights(lm.lights@, lm.active_mask, n).len() ==> (
            #[trigger] compact_lights(lm.lights@, lm.active_mask, n)[k]).position@[3]
                == F32_ONE_BITS,
    decreases n,
{
    if n > 0 {
        lemma_compact_slots_homogeneous(lm, n - 1);
        let prev = compact_lights(lm.lights@, lm.active_mask, n - 1);
        let cur = compact_lights(lm.lights@, lm.active_mask, n);
        assert forall|k: int| 0 <= k < cur.len() implies (#[trigger] cur[k]).position@[3]
            == F32_ONE_BITS by {
            if k < prev.len() {
                assert(cur[k] == prev[k]);
            } else {
                assert(mask_bit(lm.active_mask, n - 1));
                assert(lm.spec_is_active(n - 1));
                assert(cur[k] == lm.lights@[n - 1]);
            }
        }
    }
}


/// The slot-count invariant: however the manager was driven there, the live
/// count is the population count of the occupancy mask, and the packed
/// array the renderer sees holds exactly that many lights.
pub proof fn lemma_light_count_invariant(lm: LightManager)
    requires
        lm.wf(),
    ensures
        lm.spec_num_lights() == popcount(lm.active_mask),
        lm.spec_compacted().len() == lm.spec_num_lights(),
{
    let m = lm.active_mask;
    assert((m >> 10u32) == 0u32) by (bit_vector)
        requires
            m < 1024u32,
    ;
    lemma_count_is_popcount(m, MAX_LIGHTS as int);
    lemma_compact_len(lm.lights@, m, MAX_LIGHTS as int);
}

/// Capacity is a hard limit: with all ten slots live there is no free slot,
/// so the next `add_light` answers `None` and leaves the manager unchanged,
/// as its contract then promises.
pub proof fn lemma_capacity_full(lm: LightManager)
    requires
        lm.wf(),
        lm.spec_num_lights() == MAX_LIGHTS,
    ensures
        first_free_from(lm.active_mask, 0) == MAX_LIGHTS,
{
    lemma_count_full(lm.active_mask, MAX_LIGHTS as int);
    lemma_ff_all_set(lm.active_mask, 0);
}

proof fn lemma_count_full(m: u32, n: int)
    requires
        0 <= n,
        count_active(m, n) == n,
    ensures
        forall|j: int| 0 <= j < n ==> mask_bit(m, j),
    decreases n,
{
    if n > 0 {
        lemma_count_at_most(m, n - 1);
        lemma_count_full(m, n - 1);
    }
}

proof fn lemma_ff_all_set(m: u32, k: int)
    requires
        0 <= k <= MAX_LIGHTS,
        forall|j: int| 0 <= j < MAX_LIGHTS ==> mask_bit(m, j),
    ensures
        first_free_from(m, k) == MAX_LIGHTS,
    decreases MAX_LIGHTS - k,
{
    if k < MAX_LIGHTS {
        lemma_ff_all_set(m, k + 1);
    }
}

} // verus!
