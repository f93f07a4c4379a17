//! Models, materials and the texture registry. A model is a list of meshes
//! with string keys into the material registry; materials carry a texture
//! path, a tint color (float bit patterns) and a provenance tag that governs
//! whether they may be edited or deleted. GPU residency (buffers, bind
//! groups, decoded images) is the renderer's side of the line: here a texture
//! is a registry entry pairing its path with the renderer's handle, and the
//! registry's check-then-insert discipline is what guarantees one upload per
//! path.

use vstd::prelude::*;
use vstd::string::*;
use crate::light::F32_ONE_BITS;
use crate::strmap::StrMap;

verus! {

/// Where a material came from. Built-in materials are read-only; materials
/// discovered while loading a model and user-created ones are editable; only
/// user-created ones may be deleted.
#[derive(Debug)]
pub enum MaterialSource {
    System,
    Model(String),
    Custom,
}

impl Clone for MaterialSource {
    fn clone(&self) -> (r: MaterialSource)
        ensures
            r == *self,
    {
        match self {
            MaterialSource::System => MaterialSource::System,
            MaterialSource::Model(m) => MaterialSource::Model(m.clone()),
            MaterialSource::Custom => MaterialSource::Custom,
        }
    }
}

/// The tint color of a material, as float bit patterns.
#[derive(Clone, Copy, Debug)]
pub struct MaterialProperties {
    pub color: [u32; 4],
}

/// An untinted (white) color.
pub open spec fn spec_white(p: MaterialProperties) -> bool {
    p.color@ =~= seq![F32_ONE_BITS, F32_ONE_BITS, F32_ONE_BITS, F32_ONE_BITS]
}

impl Default for MaterialProperties {
    fn default() -> (r: MaterialProperties)
        ensures
            spec_white(r),
    {
        MaterialProperties { color: [F32_ONE_BITS, F32_ONE_BITS, F32_ONE_BITS, F32_ONE_BITS] }
    }
}

/// A material: display name, the path of its diffuse texture, its tint, and
/// its provenance. The registry is the sole mutator of the tint; anything
/// else sees snapshots.
#[derive(Debug)]
pub struct MaterialDesc {
    pub name: String,
    pub texture_path: String,
    pub properties: MaterialProperties,
    pub source: MaterialSource,
}

impl Clone for MaterialDesc {
    fn clone(&self) -> (r: MaterialDesc)
        ensures
            r == *self,
    {
        MaterialDesc {
            name: self.name.clone(),
            texture_path: self.texture_path.clone(),
            properties: self.properties,
            source: self.source.clone(),
        }
    }
}

/// One mesh of a model: its index count, vertex count, and the key of the
/// material it renders with. The vertex and index buffers themselves live
/// with the renderer, keyed by the model's path.
#[derive(Clone, Debug)]
pub struct Mesh {
    pub name: String,
    pub num_elements: u32,
    pub vertex_count: u32,
    pub material_key: String,
}

/// A loaded model: its name, its meshes, and the material keys discovered
/// when it was loaded.
#[derive(Clone, Debug)]
pub struct Model {
    pub name: String,
    pub meshes: Vec<Mesh>,
    pub material_keys: Vec<String>,
}

/// One material as the OBJ/MTL parser reports it: its name and the file name
/// of its diffuse texture.
#[derive(Clone, Debug)]
pub struct ParsedMaterial {
    pub name: String,
    pub diffuse_texture: String,
}

/// One mesh as the parser reports it: counts and the index of the material
/// it references, if any.
#[derive(Clone, Copy, Debug)]
pub struct MeshSummary {
    pub num_elements: u32,
    pub vertex_count: u32,
    pub material_id: Option<usize>,
}

/// Whether the last four characters read `.obj`.
pub open spec fn spec_has_obj_suffix(s: Seq<char>) -> bool {
    s.len() >= 4 && s[s.len() - 4] == '.' && s[s.len() - 3] == 'o' && s[s.len() - 2] == 'b'
        && s[s.len() - 1] == 'j'
}

/// The string with every trailing `.obj` stripped.
pub open spec fn spec_trim_obj(s: Seq<char>) -> Seq<char>
    decreases s.len(),
{
    if spec_has_obj_suffix(s) {
        spec_trim_obj(s.take(s.len() - 4))
    } else {
        s
    }
}

/// Where the part after the last path separator begins.
pub open spec fn spec_base_start(s: Seq<char>) -> int
    decreases s.len(),
{
    if s.len() == 0 {
        0
    } else if s[s.len() - 1] == '/' {
        s.len() as int
    } else {
        spec_base_start(s.drop_last())
    }
}

pub proof fn lemma_base_start_bounds(s: Seq<char>)
    ensures
        0 <= spec_base_start(s) <= s.len(),
    decreases s.len(),
{
    if s.len() > 0 && s[s.len() - 1] != '/' {
        lemma_base_start_bounds(s.drop_last());
    }
}

/// The model name a file path induces: the component after the last `/`,
/// without its `.obj` suffix.
pub open spec fn spec_model_name(s: Seq<char>) -> Seq<char> {
    spec_trim_obj(s.skip(spec_base_start(s)))
}

/// Whether `s` ends in `.obj`.
fn ends_with_obj(s: &str) -> (r: bool)
    ensures
        r == spec_has_obj_suffix(s@),
{
    let n = s.unicode_len();
    if n < 4 {
        return false;
    }
    s.get_char(n - 4) == '.' && s.get_char(n - 3) == 'o' && s.get_char(n - 2) == 'b' && s.get_char(
        n - 1,
    ) == 'j'
}

/// Derive a model's name from its file path.
pub fn model_name_of_path(path: &String) -> (r: String)
    ensures
        r@ == spec_model_name(path@),
{
    let p = path.as_str();
    let n = p.unicode_len();
    let mut i = n;
    proof {
        assert(path@.take(n as int) =~= path@);
    }
    while i > 0
        invariant
            i <= n,
            n == p@.len(),
            p@ == path@,
            spec_base_start(path@) == spec_base_start(path@.take(i as int)),
        ensures
            i <= n,
            n == p@.len(),
            p@ == path@,
            spec_base_start(path@) == i as int,
        decreases i,
    {
        if p.get_char(i - 1) == '/' {
            proof {
                let t = path@.take(i as int);
                assert(t.len() == i);
                assert(t[t.len() - 1] == path@[i - 1]);
            }
            break;
        }
        proof {
            let t = path@.take(i as int);
            assert(t[t.len() - 1] == path@[i - 1]);
            assert(t.drop_last() =~= path@.take(i as int - 1));
        }
        i = i - 1;
    }
    proof {
        lemma_base_start_bounds(path@);
    }
    let mut name: &str = p.substring_char(i, n);
    proof {
        assert(name@ =~= path@.skip(spec_base_start(path@)));
    }
    let ghost target = spec_trim_obj(name@);
    while ends_with_obj(name)
        invariant
            spec_trim_obj(name@) == target,
        decreases name@.len(),
    {
        let len = name.unicode_len();
        name = name.substring_char(0, len - 4);
        proof {
            assert(name@ =~= target || spec_trim_obj(name@) == target);
        }
    }
    name.to_owned()
}

/// The registry key of a material discovered inside a model: the model name,
/// a slash, the material's own name.
pub fn material_key_for(model_name: &String, mat_name: &String) -> (r: String)
    ensures
        r@ == model_name@.push('/') + mat_name@,
{
    let mut r = model_name.clone();
    r.append("/");
    r.append(mat_name.as_str());
    proof {
        reveal_strlit("/");
        assert(r@ =~= model_name@.push('/') + mat_name@);
    }
    r
}

/// The registry key of a user-created material.
pub open spec fn spec_custom_key(name: Seq<char>) -> Seq<char> {
    "custom/"@ + name
}

pub fn custom_material_key(name: &String) -> (r: String)
    ensures
        r@ == spec_custom_key(name@),
{
    let mut r = "custom/".to_owned();
    r.append(name.as_str());
    r
}

/// The material key a mesh renders with: the key its material index selects,
/// or the default key when it has none or the index is out of range.
pub open spec fn spec_mesh_key(mid: Option<usize>, keys: Seq<String>) -> Seq<char> {
    match mid {
        Some(id) => if id < keys.len() {
            keys[id as int]@
        } else {
            "default"@
        },
        None => "default"@,
    }
}

/// Assemble a loaded model from what the parser found: derive the model
/// name, key every discovered material as `model/material` (falling back to
/// the shared default key when the model brought none), give each discovered
/// material an untinted description with model provenance, and resolve each
/// mesh's material reference.
pub fn assemble_model(
    file_name: &String,
    mats: &Vec<ParsedMaterial>,
    meshes_in: &Vec<MeshSummary>,
) -> (r: (Model, Vec<(String, MaterialDesc)>))
    ensures
        ({
            let mname = spec_model_name(file_name@);
            let model = r.0;
            let out_mats = r.1;
            model.name@ == mname && (mats@.len() > 0 ==> model.material_keys@.len() == mats@.len()
                && forall|i: int|
                0 <= i < mats@.len() ==> (#[trigger] model.material_keys@[i])@ == mname.push('/')
                    + mats@[i].name@) && (mats@.len() == 0 ==> model.material_keys@.len() == 1
                && model.material_keys@[0]@ == "default"@) && out_mats@.len() == mats@.len()
                && (forall|i: int|
                0 <= i < mats@.len() ==> (#[trigger] out_mats@[i]).0@ == mname.push('/')
                    + mats@[i].name@ && out_mats@[i].1.name == mats@[i].name
                    && out_mats@[i].1.texture_path == mats@[i].diffuse_texture && spec_white(
                    out_mats@[i].1.properties,
                ) && (out_mats@[i].1.source matches MaterialSource::Model(m) && m@ == mname))
                && model.meshes@.len() == meshes_in@.len() && (forall|i: int|
                0 <= i < meshes_in@.len() ==> (#[trigger] model.meshes@[i]).name == *file_name
                    && model.meshes@[i].num_elements == meshes_in@[i].num_elements
                    && model.meshes@[i].vertex_count == meshes_in@[i].vertex_count
                    && model.meshes@[i].material_key@ == spec_mesh_key(
                    meshes_in@[i].material_id,
                    model.material_keys@,
                ))
        }),
{
    let model_name = model_name_of_path(file_name);
    let mut material_keys: Vec<String> = Vec::new();
    let mut out_mats: Vec<(String, MaterialDesc)> = Vec::new();
    let n_mats = mats.len();
    let mut i: usize = 0;
    while i < n_mats
        invariant
            i <= n_mats,
            n_mats == mats@.len(),
            model_name@ == spec_model_name(file_name@),
            material_keys@.len() == i,
            out_mats@.len() == i,
            forall|j: int|
                0 <= j < i ==> (#[trigger] material_keys@[j])@ == model_name@.push('/')
                    + mats@[j].name@,
            forall|j: int|
                0 <= j < i ==> (#[trigger] out_mats@[j]).0@ == model_name@.push('/')
                    + mats@[j].name@ && out_mats@[j].1.name == mats@[j].name
                    && out_mats@[j].1.texture_path == mats@[j].diffuse_texture && spec_white(
                    out_mats@[j].1.properties,
                ) && (out_mats@[j].1.source matches MaterialSource::Model(m) && m@ == model_name@),
        decreases n_mats - i,
    {
        let mat = &mats[i];
        let key = material_key_for(&model_name, &mat.name);
        let desc = MaterialDesc {
            name: mat.name.clone(),
            texture_path: mat.diffuse_texture.clone(),
            properties: MaterialProperties::default(),
            source: MaterialSource::Model(model_name.clone()),
        };
        material_keys.push(key.clone());
        out_mats.push((key, desc));
        i = i + 1;
    }
    if material_keys.len() == 0 {
        material_keys.push("default".to_owned());
    }
    let mut meshes: Vec<Mesh> = Vec::new();
    let n_meshes = meshes_in.len();
    let mut m: usize = 0;
    while m < n_meshes
        invariant
            m <= n_meshes,
            n_meshes == meshes_in@.len(),
            meshes@.len() == m,
            forall|j: int|
                0 <= j < m ==> (#[trigger] meshes@[j]).name == *file_name && meshes@[j].num_elements
                    == meshes_in@[j].num_elements && meshes@[j].vertex_count
                    == meshes_in@[j].vertex_count && meshes@[j].material_key@ == spec_mesh_key(
                    meshes_in@[j].material_id,
                    material_keys@,
                ),
        decreases n_meshes - m,
    {
        let summary = meshes_in[m];
        let material_key: String = match summary.material_id {
            Some(id) => {
                if id < material_keys.len() {
                    material_keys[id].clone()
                } else {
                    "default".to_owned()
                }
            },
            None => "default".to_owned(),
        };
        meshes.push(
            Mesh {
                name: file_name.clone(),
                num_elements: summary.num_elements,
                vertex_count: summary.vertex_count,
                material_key,
            },
        );
        m = m + 1;
    }
    (Model { name: model_name, meshes, material_keys }, out_mats)
}

/// A renderer-side texture handle. The registry pairs each path with the
/// handle of the one decoded upload made for it.
pub type TextureHandle = u64;

/// What a deduplicating check-then-insert does to the registry's map.
pub open spec fn spec_get_or_register(
    m: Map<Seq<char>, TextureHandle>,
    path: Seq<char>,
    fresh: TextureHandle,
) -> (Map<Seq<char>, TextureHandle>, TextureHandle) {
    if m.contains_key(path) {
        (m, m[path])
    } else {
        (m.insert(path, fresh), fresh)
    }
}

/// Whatever two loads race for a path, at most one upload is kept: once a
/// path is registered, every later check-then-insert hands back the handle
/// already stored and changes nothing, so both calls refer to the same
/// texture.
pub proof fn lemma_texture_dedup(
    m: Map<Seq<char>, TextureHandle>,
    path: Seq<char>,
    f1: TextureHandle,
    f2: TextureHandle,
)
    ensures
        ({
            let first = spec_get_or_register(m, path, f1);
            let second = spec_get_or_register(first.0, path, f2);
            second.1 == first.1 && second.0 == first.0
        }),
{
}

/// Path-keyed registry of decoded textures. The renderer performs uploads;
/// the registry decides, under one lock, whether a path needs one.
pub struct TextureRegistry {
    pub map: StrMap<TextureHandle>,
}

impl TextureRegistry {
    pub open spec fn wf(self) -> bool {
        self.map.wf()
    }

    pub fn new() -> (r: TextureRegistry)
        ensures
            r.wf(),
            r.map@ =~= Map::<Seq<char>, TextureHandle>::empty(),
    {
        TextureRegistry { map: StrMap::new() }
    }

    /// The handle registered for a path, if any.
    pub fn lookup(&self, path: &String) -> (r: Option<TextureHandle>)
        requires
            self.wf(),
        ensures
            match r {
                Some(h) => self.map@.contains_key(path@) && h == self.map@[path@],
                None => !self.map@.contains_key(path@),
            },
    {
        match self.map.get(path) {
            Some(h) => Some(*h),
            None => None,
        }
    }

    pub fn contains(&self, path: &String) -> (r: bool)
        ensures
            r == self.map@.contains_key(path@),
    {
        self.map.contains_key(path)
    }

    /// The whole check-then-insert, to be run under the registry's lock: an
    /// already-registered path keeps its handle and the fresh upload is to be
    /// discarded; an unknown path is bound to the fresh handle. The flag
    /// reports whether the fresh upload was kept.
    pub fn get_or_register(&mut self, path: &String, fresh: TextureHandle) -> (r: (
        TextureHandle,
        bool,
    ))
        requires
            old(self).wf(),
        ensures
            final(self).wf(),
            (final(self).map@, r.0) == spec_get_or_register(old(self).map@, path@, fresh),
            r.1 == !old(self).map@.contains_key(path@),
    {
        match self.map.get(path) {
            Some(h) => {
                let handle = *h;
                proof {
                    assert(self.map@ =~= spec_get_or_register(old(self).map@, path@, fresh).0);
                }
                (handle, false)
            },
            None => {
                self.map.insert(path.clone(), fresh);
                (fresh, true)
            },
        }
    }

    pub fn len(&self) -> (r: usize)
        ensures
            r == self.map.entries@.len(),
    {
        self.map.len()
    }
}

} // verus!
