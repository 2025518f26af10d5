//! Bookkeeping of loaded glTF scenes and of nodes declared by the node derive.
use vstd::prelude::*;

verus! {

/// Unique identifier for a mesh primitive in a glTF document.
#[derive(Clone, Copy, Debug, PartialEq, Eq, Hash, Structural)]
pub struct PrimitiveKey {
    pub mesh_index: usize,
    pub primitive_index: usize,
}

impl PrimitiveKey {
    /// The key of primitive `primitive_index` of mesh `mesh_index`.
    pub fn new(mesh_index: usize, primitive_index: usize) -> (k: Self)
        ensures
            k.mesh_index == mesh_index,
            k.primitive_index == primitive_index,
    {
        PrimitiveKey { mesh_index, primitive_index }
    }
}

/// Why the `Node` derive refused a type.
#[derive(Clone, Copy, Debug, PartialEq, Eq, Structural)]
pub enum NodeDeriveError {
    /// the type is not a struct
    NotAStruct,
    /// the struct's fields are not named
    UnnamedFields,
    /// no field is marked as the transform
    MissingTransform,
}

/// The shape of a type the `Node` derive is applied to.
pub enum DeriveShape {
    /// a struct with named fields; for each field, whether it carries the
    /// `transform` attribute
    NamedStruct(Vec<bool>),
    /// a struct with unnamed fields, or a unit struct
    OtherStruct,
    /// an enum or a union
    NotStruct,
}

/// The index of the last field marked as the transform, if any.
pub open spec fn last_marked(marked: Seq<bool>) -> Option<usize>
    decreases marked.len(),
{
    if marked.len() == 0 {
        None
    } else if marked.last() {
        Some((marked.len() - 1) as usize)
    } else {
        last_marked(marked.drop_last())
    }
}

/// The field the derived `Node` implementation returns as the transform: the
/// last one marked with the attribute.
pub fn transform_field(shape: &DeriveShape) -> (r: Result<usize, NodeDeriveError>)
    ensures
        shape matches DeriveShape::NotStruct ==> r == Err::<usize, NodeDeriveError>(NodeDeriveError::NotAStruct),
        shape matches DeriveShape::OtherStruct ==> r == Err::<usize, NodeDeriveError>(NodeDeriveError::UnnamedFields),
        shape matches DeriveShape::NamedStruct(marked) ==> r == (match last_marked(marked@) {
            Some(i) => Ok::<usize, NodeDeriveError>(i),
            None => Err(NodeDeriveError::MissingTransform),
        }),
{
    match shape {
        DeriveShape::NotStruct => Err(NodeDeriveError::NotAStruct),
        DeriveShape::OtherStruct => Err(NodeDeriveError::UnnamedFields),
        DeriveShape::NamedStruct(marked) => {
            let mut found: Option<usize> = None;
            let mut i: usize = 0;
            while i < marked.len()
                invariant
                    i <= marked.len(),
                    found == last_marked(marked@.take(i as int)),
                decreases marked.len() - i,
            {
                proof {
                    assert(marked@.take(i + 1).drop_last() =~= marked@.take(i as int));
                }
                if marked[i] {
                    found = Some(i);
                }
                i = i + 1;
            }
            assert(marked@.take(marked.len() as int) =~= marked@);
            match found {
                Some(i) => Ok(i),
                None => Err(NodeDeriveError::MissingTransform),
            }
        },
    }
}

/// The mesh instances a glTF node spawns, in order: one for each primitive of
/// its mesh that has a material, keyed by mesh and primitive index and
/// carrying the material's index. Primitives without a material are skipped.
pub open spec fn node_instances(mesh_index: usize, materials: Seq<Option<usize>>) -> Seq<(PrimitiveKey, usize)>
    decreases materials.len(),
{
    if materials.len() == 0 {
        Seq::empty()
    } else {
        let rest = node_instances(mesh_index, materials.drop_last());
        match materials.last() {
            Some(m) => rest.push(
                (PrimitiveKey { mesh_index, primitive_index: (materials.len() - 1) as usize }, m),
            ),
            None => rest,
        }
    }
}

/// The mesh instances to spawn under a glTF node: none for a node without a
/// mesh, else one per primitive that has a material (`primitive_materials`
/// holds, for each primitive of the mesh in order, its material index).
pub fn primitive_instances(mesh_index: Option<usize>, primitive_materials: &Vec<Option<usize>>) -> (r: Vec<(PrimitiveKey, usize)>)
    ensures
        r@ == (match mesh_index {
            Some(mesh) => node_instances(mesh, primitive_materials@),
            None => Seq::empty(),
        }),
{
    let mut r: Vec<(PrimitiveKey, usize)> = Vec::new();
    match mesh_index {
        None => r,
        Some(mesh) => {
            let mut i: usize = 0;
            while i < primitive_materials.len()
                invariant
                    i <= primitive_materials.len(),
                    r@ == node_instances(mesh, primitive_materials@.take(i as int)),
                decreases primitive_materials.len() - i,
            {
                proof {
                    assert(primitive_materials@.take(i + 1).drop_last() =~= primitive_materials@.take(i as int));
                }
                match primitive_materials[i] {
                    Some(m) => r.push((PrimitiveKey::new(mesh, i), m)),
                    None => {},
                }
                i = i + 1;
            }
            assert(primitive_materials@.take(primitive_materials.len() as int) =~= primitive_materials@);
            r
        },
    }
}

/// What the loader reads of a glTF material: its index in the document (none
/// for the default material) and its name, if it has one.
pub struct GltfMaterialInfo {
    pub index: Option<usize>,
    pub name: Option<String>,
}

/// The index of the material called `name`: the last indexed material of that
/// name, as a later entry replaces an earlier one in a map keyed by name.
pub open spec fn named_material(materials: Seq<GltfMaterialInfo>, name: Seq<char>) -> Option<usize>
    decreases materials.len(),
{
    if materials.len() == 0 {
        None
    } else {
        let m = materials.last();
        if m.index is Some && m.name is Some && m.name->0@ == name {
            m.index
        } else {
            named_material(materials.drop_last(), name)
        }
    }
}

/// The last index recorded for `name` in a list of (name, index) entries.
pub open spec fn last_entry(entries: Seq<(String, usize)>, name: Seq<char>) -> Option<usize>
    decreases entries.len(),
{
    if entries.len() == 0 {
        None
    } else if entries.last().0@ == name {
        Some(entries.last().1)
    } else {
        last_entry(entries.drop_last(), name)
    }
}

/// The names of a glTF document's materials, mapped to their indices.
pub struct MaterialNames {
    entries: Vec<(String, usize)>,
}

impl MaterialNames {
    /// The index recorded for `name`, if any.
    pub closed spec fn lookup(self, name: Seq<char>) -> Option<usize> {
        last_entry(self.entries@, name)
    }

    /// Record the names of the indexed materials of a document.
    pub fn from_materials(materials: &Vec<GltfMaterialInfo>) -> (n: Self)
        ensures
            forall|name: Seq<char>| #[trigger] n.lookup(name) == named_material(materials@, name),
    {
        let mut entries: Vec<(String, usize)> = Vec::new();
        let mut i: usize = 0;
        while i < materials.len()
            invariant
                i <= materials.len(),
                forall|name: Seq<char>|
                    #[trigger] last_entry(entries@, name) == named_material(materials@.take(i as int), name),
            decreases materials.len() - i,
        {
            let ghost before = entries@;
            proof {
                assert(materials@.take(i + 1).drop_last() =~= materials@.take(i as int));
            }
            let ghost m = materials@[i as int];
            proof {
                assert(materials@.take(i + 1).last() == m);
            }
            match (&materials[i].index, &materials[i].name) {
                (Some(idx), Some(name)) => {
                    entries.push((name.clone(), *idx));
                    proof {
                        assert(entries@.drop_last() =~= before);
                        assert forall|n: Seq<char>|
                            #[trigger] last_entry(entries@, n) == named_material(materials@.take(i + 1), n) by {
                            assert(m.index == Some(*idx));
                            assert(m.name == Some(*name));
                            assert(entries@.last().0@ == name@);
                            assert(last_entry(before, n) == named_material(materials@.take(i as int), n));
                        }
                    }
                },
                _ => {
                    proof {
                        assert forall|n: Seq<char>|
                            #[trigger] last_entry(entries@, n) == named_material(materials@.take(i + 1), n) by {
                            assert(last_entry(before, n) == named_material(materials@.take(i as int), n));
                        }
                    }
                },
            }
            i = i + 1;
        }
        assert(materials@.take(materials.len() as int) =~= materials@);
        MaterialNames { entries }
    }

    /// The index of the material called `name`, if the document has one.
    pub fn get_material_by_name(&self, name: &str) -> (r: Option<usize>)
        ensures
            r == self.lookup(name@),
    {
        let key = name.to_owned();
        let mut j: usize = self.entries.len();
        assert(self.entries@.take(j as int) =~= self.entries@);
        while j > 0
            invariant
                j <= self.entries.len(),
                key@ == name@,
                last_entry(self.entries@, name@) == last_entry(self.entries@.take(j as int), name@),
            decreases j,
        {
            proof {
                assert(self.entries@.take(j as int).drop_last() =~= self.entries@.take(j - 1));
            }
            if self.entries[j - 1].0 == key {
                return Some(self.entries[j - 1].1);
            }
            j = j - 1;
        }
        None
    }
}

/// The textures a glTF material refers to, as indices of the document's
/// images, and whether it uses the specular-glossiness workflow.
#[derive(Clone, Copy, Debug, PartialEq, Eq, Structural)]
pub struct GltfMaterialTextures {
    pub specular_glossiness: bool,
    /// specular-glossiness: the diffuse texture
    pub diffuse: Option<usize>,
    /// specular-glossiness: the specular-glossiness texture
    pub specular_glossiness_texture: Option<usize>,
    /// metallic-roughness: the base color texture
    pub base_color: Option<usize>,
    /// metallic-roughness: the metallic-roughness texture
    pub metallic_roughness: Option<usize>,
    pub normal: Option<usize>,
    pub occlusion: Option<usize>,
    pub emissive: Option<usize>,
}

/// The image each texture slot of an engine material takes.
#[derive(Clone, Copy, Debug, PartialEq, Eq, Structural)]
pub struct MaterialTextureSlots {
    pub base_color: Option<usize>,
    pub metallic_roughness: Option<usize>,
    pub normal: Option<usize>,
    pub occlusion: Option<usize>,
    pub emissive: Option<usize>,
}

/// The slots of a material built from `t`: under the specular-glossiness
/// workflow the diffuse texture is the base color and the
/// specular-glossiness texture takes the metallic-roughness slot; the
/// normal, occlusion and emissive textures are the same in both workflows.
pub open spec fn texture_slots(t: GltfMaterialTextures) -> MaterialTextureSlots {
    MaterialTextureSlots {
        base_color: if t.specular_glossiness { t.diffuse } else { t.base_color },
        metallic_roughness: if t.specular_glossiness { t.specular_glossiness_texture } else { t.metallic_roughness },
        normal: t.normal,
        occlusion: t.occlusion,
        emissive: t.emissive,
    }
}

/// The workflow decides only the base-color and metallic-roughness slots:
/// the diffuse and specular-glossiness textures under specular-glossiness,
/// the base-color and metallic-roughness textures otherwise. The normal,
/// occlusion and emissive textures keep their slots under either workflow.
pub proof fn lemma_texture_slots_by_workflow(t: GltfMaterialTextures)
    ensures
        t.specular_glossiness ==> texture_slots(t).base_color == t.diffuse && texture_slots(t).metallic_roughness
            == t.specular_glossiness_texture,
        !t.specular_glossiness ==> texture_slots(t).base_color == t.base_color
            && texture_slots(t).metallic_roughness == t.metallic_roughness,
        texture_slots(t).normal == t.normal,
        texture_slots(t).occlusion == t.occlusion,
        texture_slots(t).emissive == t.emissive,
        texture_slots(GltfMaterialTextures { specular_glossiness: !t.specular_glossiness, ..t }).normal
            == texture_slots(t).normal,
        texture_slots(GltfMaterialTextures { specular_glossiness: !t.specular_glossiness, ..t }).occlusion
            == texture_slots(t).occlusion,
        texture_slots(GltfMaterialTextures { specular_glossiness: !t.specular_glossiness, ..t }).emissive
            == texture_slots(t).emissive,
{
}

/// The slot refers to one of the first `count` images, or to none.
pub open spec fn preloaded(slot: Option<usize>, count: nat) -> bool {
    slot matches Some(i) ==> i < count
}

/// Chooses the images of a material's texture slots. Every chosen image must
/// be one of the `preloaded_images` images loaded with the document (the
/// loader treats any other as a broken invariant).
pub fn material_texture_slots(t: &GltfMaterialTextures, preloaded_images: usize) -> (s: MaterialTextureSlots)
    requires
        preloaded(texture_slots(*t).base_color, preloaded_images as nat),
        preloaded(texture_slots(*t).metallic_roughness, preloaded_images as nat),
        preloaded(t.normal, preloaded_images as nat),
        preloaded(t.occlusion, preloaded_images as nat),
        preloaded(t.emissive, preloaded_images as nat),
    ensures
        s == texture_slots(*t),
        t.specular_glossiness ==> s.base_color == t.diffuse && s.metallic_roughness
            == t.specular_glossiness_texture,
        !t.specular_glossiness ==> s.base_color == t.base_color && s.metallic_roughness == t.metallic_roughness,
        s.normal == t.normal,
        s.occlusion == t.occlusion,
        s.emissive == t.emissive,
{
    proof {
        lemma_texture_slots_by_workflow(*t);
    }
    let (base_color, metallic_roughness) = if t.specular_glossiness {
        (t.diffuse, t.specular_glossiness_texture)
    } else {
        (t.base_color, t.metallic_roughness)
    };
    MaterialTextureSlots {
        base_color,
        metallic_roughness,
        normal: t.normal,
        occlusion: t.occlusion,
        emissive: t.emissive,
    }
}

} // verus!
