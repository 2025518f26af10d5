//! Material state that selects render pipelines.
use vstd::prelude::*;

verus! {

/// How to treat the alpha channel of fragment colors.
#[derive(Clone, Copy, Debug, PartialEq, Eq, Structural)]
pub enum AlphaMode {
    /// mesh is opaque (cant see through it)
    Opaque,
    /// mesh is opaque to a point before being culled
    Mask,
    /// mesh opacity is same as alpha
    Blend,
}

impl AlphaMode {
    /// The code the shaders read for the mode: 0 opaque, 1 mask, 2 blend.
    pub open spec fn code(self) -> u32 {
        match self {
            AlphaMode::Opaque => 0,
            AlphaMode::Mask => 1,
            AlphaMode::Blend => 2,
        }
    }

    /// Meshes of this mode are drawn in the opaque group (opaque or masked).
    pub open spec fn opaque(self) -> bool {
        self == AlphaMode::Opaque || self == AlphaMode::Mask
    }

    /// Whether meshes of this mode are drawn in the opaque group.
    pub fn is_opaque(&self) -> (r: bool)
        ensures
            r == self.opaque(),
    {
        match self {
            AlphaMode::Opaque | AlphaMode::Mask => true,
            AlphaMode::Blend => false,
        }
    }
}

impl Default for AlphaMode {
    fn default() -> (m: AlphaMode)
        ensures
            m == AlphaMode::Opaque,
    {
        AlphaMode::Opaque
    }
}

impl From<AlphaMode> for u32 {
    fn from(value: AlphaMode) -> (r: u32) {
        match value {
            AlphaMode::Opaque => 0,
            AlphaMode::Mask => 1,
            AlphaMode::Blend => 2,
        }
    }
}

impl vstd::std_specs::convert::FromSpecImpl<AlphaMode> for u32 {
    open spec fn obeys_from_spec() -> bool {
        true
    }

    open spec fn from_spec(v: AlphaMode) -> u32 {
        v.code()
    }
}

/// Which faces the rasterizer discards.
#[derive(Clone, Copy, Debug, PartialEq, Eq, Structural)]
pub enum CullMode {
    /// no face is culled
    Disabled,
    Back,
    Front,
}

/// Render stages materials are sorted into.
#[derive(Clone, Copy, Debug, PartialEq, Eq, Structural)]
pub enum PipelineStage {
    Opaque,
    Transparent,
}

/// The blending a pipeline is created with.
#[derive(Clone, Copy, Debug, PartialEq, Eq, Structural)]
pub enum BlendMode {
    Opaque,
    Blend,
}

/// The depth and blend state of a material pipeline: whether it writes
/// depth, and how it blends. Depth is always tested with "less".
#[derive(Clone, Copy, Debug, PartialEq, Eq, Structural)]
pub struct PipelineBlend {
    pub depth_write: bool,
    pub blend: BlendMode,
}

/// The depth and blend state a material pipeline of alpha mode `mode` is
/// created with: opaque and masked materials write depth and do not blend,
/// blended materials blend and leave depth untouched.
pub fn pipeline_blend(mode: AlphaMode) -> (r: PipelineBlend)
    ensures
        r.depth_write == mode.opaque(),
        r.blend == (if mode.opaque() { BlendMode::Opaque } else { BlendMode::Blend }),
{
    match mode {
        AlphaMode::Opaque | AlphaMode::Mask => PipelineBlend { depth_write: true, blend: BlendMode::Opaque },
        AlphaMode::Blend => PipelineBlend { depth_write: false, blend: BlendMode::Blend },
    }
}

/// The pipeline variant a material needs, as a set of flags.
#[derive(Clone, Copy, Debug, PartialEq, Eq, Structural)]
pub struct MaterialPipelineKey {
    pub bits: u8,
}

impl MaterialPipelineKey {
    /// the material blends with what is behind it
    pub const TRANSPARENT: u8 = 0x1;
    /// back faces are culled
    pub const CULL_BACK: u8 = 0x2;
    /// front faces are culled
    pub const CULL_FRONT: u8 = 0x4;

    /// The key with no flag set.
    pub fn empty() -> (k: Self)
        ensures
            k.bits == 0,
    {
        MaterialPipelineKey { bits: 0 }
    }

    /// Whether every flag of `flag` is set.
    pub fn contains(&self, flag: u8) -> (r: bool)
        ensures
            r == (self.bits & flag == flag),
    {
        self.bits & flag == flag
    }

    /// Sets the flags of `flag`.
    pub fn insert(&mut self, flag: u8)
        ensures
            final(self).bits == old(self).bits | flag,
    {
        self.bits = self.bits | flag;
    }
}

/// The flags of the pipeline key of a material with cull mode `cull` and
/// alpha mode `alpha`.
pub open spec fn pipeline_key_bits(cull: CullMode, alpha: AlphaMode) -> u8 {
    ((if cull == CullMode::Back { 2int } else { 0int }) + (if cull == CullMode::Front { 4int } else { 0int }) + (if alpha
        == AlphaMode::Blend {
        1int
    } else {
        0int
    })) as u8
}

/// The pipeline key of a material: cull-back, cull-front and transparent
/// flags from its cull mode and alpha mode.
pub fn pipeline_key(cull: CullMode, alpha: AlphaMode) -> (k: MaterialPipelineKey)
    ensures
        k.bits == pipeline_key_bits(cull, alpha),
{
    let mut key = MaterialPipelineKey::empty();
    if cull == CullMode::Back {
        key.insert(MaterialPipelineKey::CULL_BACK);
    }
    if cull == CullMode::Front {
        key.insert(MaterialPipelineKey::CULL_FRONT);
    }
    if alpha == AlphaMode::Blend {
        key.insert(MaterialPipelineKey::TRANSPARENT);
    }
    proof {
        assert(0u8 | 2u8 == 2u8) by (bit_vector);
        assert(0u8 | 4u8 == 4u8) by (bit_vector);
        assert(0u8 | 1u8 == 1u8) by (bit_vector);
        assert(2u8 | 1u8 == 3u8) by (bit_vector);
        assert(4u8 | 1u8 == 5u8) by (bit_vector);
    }
    key
}

/// Materials share a pipeline key exactly when they agree on culling and on
/// whether they blend; a key never asks to cull both faces.
pub proof fn lemma_pipeline_key_distinguishes(c1: CullMode, a1: AlphaMode, c2: CullMode, a2: AlphaMode)
    ensures
        (pipeline_key_bits(c1, a1) == pipeline_key_bits(c2, a2)) <==> (c1 == c2 && (a1 == AlphaMode::Blend) == (a2
            == AlphaMode::Blend)),
        pipeline_key_bits(c1, a1) & 6u8 != 6u8,
{
    let b = pipeline_key_bits(c1, a1);
    assert(b == 0u8 || b == 1u8 || b == 2u8 || b == 3u8 || b == 4u8 || b == 5u8);
    assert(forall|x: u8| (x == 0u8 || x == 1u8 || x == 2u8 || x == 3u8 || x == 4u8 || x == 5u8) ==> x & 6u8 != 6u8)
        by (bit_vector);
}

// ---------------------------------------------------------------- textures of a material

/// What the asset library reports of a texture a material refers to.
#[derive(Clone, Copy, Debug, PartialEq, Eq, Structural)]
pub enum AssetStatusKind {
    Loaded,
    Error,
    Loading,
    Removed,
    /// any other state the library may report
    Other,
}

/// The texture bound in a material slot.
#[derive(Clone, Copy, Debug, PartialEq, Eq, Structural)]
pub enum TextureSource {
    /// the texture the material refers to
    Own,
    /// the slot's default texture
    Fallback,
    /// the engine's error texture
    ErrorTexture,
}

/// The texture bound in a slot that refers to a texture with status `slot`
/// (`None` when the slot refers to none), or `None` when the material cannot
/// be prepared yet.
pub open spec fn resolve_slot(slot: Option<AssetStatusKind>) -> Option<TextureSource> {
    match slot {
        None => Some(TextureSource::Fallback),
        Some(AssetStatusKind::Loaded) => Some(TextureSource::Own),
        Some(AssetStatusKind::Error) => Some(TextureSource::ErrorTexture),
        Some(AssetStatusKind::Loading) => None,
        Some(AssetStatusKind::Removed) => Some(TextureSource::Fallback),
        Some(AssetStatusKind::Other) => None,
    }
}

/// Resolves one material texture slot.
pub fn resolve_texture(slot: Option<AssetStatusKind>) -> (r: Option<TextureSource>)
    ensures
        r == resolve_slot(slot),
{
    match slot {
        None => Some(TextureSource::Fallback),
        Some(status) => match status {
            AssetStatusKind::Loaded => Some(TextureSource::Own),
            AssetStatusKind::Error => Some(TextureSource::ErrorTexture),
            AssetStatusKind::Loading => None,
            AssetStatusKind::Removed => Some(TextureSource::Fallback),
            AssetStatusKind::Other => None,
        },
    }
}

/// Resolves all texture slots of a material: the textures to bind, slot by
/// slot, or `None` when any slot cannot be resolved yet.
pub fn resolve_textures(slots: &Vec<Option<AssetStatusKind>>) -> (r: Option<Vec<TextureSource>>)
    ensures
        r is None <==> exists|i: int| 0 <= i < slots.len() && resolve_slot(#[trigger] slots[i]) is None,
        r matches Some(v) ==> v.len() == slots.len() && forall|i: int|
            0 <= i < slots.len() ==> resolve_slot(#[trigger] slots[i]) == Some(v[i]),
{
    let mut out: Vec<TextureSource> = Vec::new();
    let mut i: usize = 0;
    while i < slots.len()
        invariant
            i <= slots.len(),
            out.len() == i,
            forall|q: int| 0 <= q < i ==> resolve_slot(#[trigger] slots[q]) == Some(out[q]),
        decreases slots.len() - i,
    {
        match resolve_texture(slots[i]) {
            Some(t) => out.push(t),
            None => {
                return None;
            },
        }
        i = i + 1;
    }
    Some(out)
}

// ---------------------------------------------------------------- prepared GPU state

/// Using a lazily prepared resource once: the resource was `prepared` before
/// (or `None`), preparing it now would give `fresh` (or `None` when it cannot
/// be prepared yet). Gives the state afterwards and the resource handed out.
pub open spec fn lazy_step<D>(prepared: Option<D>, fresh: Option<D>) -> (Option<D>, Option<D>) {
    match prepared {
        Some(d) => (Some(d), Some(d)),
        None => (fresh, fresh),
    }
}

/// The GPU side of a material (its descriptor set), prepared on first use
/// and kept afterwards.
pub struct LazyGpuResource<D> {
    slot: Option<D>,
}

impl<D: Copy> LazyGpuResource<D> {
    /// The resource prepared so far.
    pub closed spec fn prepared(self) -> Option<D> {
        self.slot
    }

    /// Nothing prepared yet.
    pub fn new() -> (r: Self)
        ensures
            r.prepared() is None,
    {
        LazyGpuResource { slot: None }
    }

    /// The resource, if it was prepared before; when this is `None` the
    /// caller prepares it and hands the outcome to `descriptor_set`.
    pub fn get(&self) -> (r: Option<D>)
        ensures
            r == self.prepared(),
    {
        self.slot
    }

    /// The resource for this use: the one prepared before if there is one,
    /// else `fresh`, the outcome of preparing it now, which is kept when it
    /// succeeded.
    pub fn descriptor_set(&mut self, fresh: Option<D>) -> (r: Option<D>)
        ensures
            (final(self).prepared(), r) == lazy_step(old(self).prepared(), fresh),
    {
        match self.slot {
            Some(d) => Some(d),
            None => {
                self.slot = fresh;
                fresh
            },
        }
    }

    /// Drops the prepared resource, as a resize does for descriptors that
    /// refer to the surface's textures; the next use prepares it again.
    pub fn invalidate(&mut self)
        ensures
            final(self).prepared() is None,
    {
        self.slot = None;
    }
}

/// A resource is prepared once: after a use hands one out, every later use
/// hands out the same one, whatever preparing would give then.
pub proof fn lemma_prepared_once<D>(prepared: Option<D>, first: Option<D>, later: Option<D>)
    requires
        lazy_step(prepared, first).1 is Some,
    ensures
        lazy_step(lazy_step(prepared, first).0, later).1 == lazy_step(prepared, first).1,
        lazy_step(lazy_step(prepared, first).0, later).0 == lazy_step(prepared, first).0,
{
}

// ---------------------------------------------------------------- pipeline cache

/// The slot of the pipeline for material type `type_index` and pipeline key
/// `bits`: each (type, key) pair has a slot of its own.
pub open spec fn cache_slot(type_index: u32, bits: u8) -> u64 {
    (type_index * 256 + bits) as u64
}

/// Different material types or keys never share a slot.
pub proof fn lemma_cache_slots_distinct(t1: u32, b1: u8, t2: u32, b2: u8)
    requires
        t1 != t2 || b1 != b2,
    ensures
        cache_slot(t1, b1) != cache_slot(t2, b2),
{
    assert(t1 * 256 + b1 != t2 * 256 + b2) by (nonlinear_arith)
        requires t1 != t2 || b1 != b2, 0 <= b1 < 256, 0 <= b2 < 256;
}

/// The render pipelines built so far, one per material type and pipeline key.
pub struct PipelineCache<P> {
    pipelines: std::collections::HashMap<u64, P>,
}

impl<P: Copy> PipelineCache<P> {
    /// The pipelines by slot.
    pub closed spec fn slots(self) -> Map<u64, P> {
        self.pipelines@
    }

    /// The pipeline cached for a material type and key, if any.
    pub open spec fn cached(self, type_index: u32, key: MaterialPipelineKey) -> Option<P> {
        if self.slots().contains_key(cache_slot(type_index, key.bits)) {
            Some(self.slots()[cache_slot(type_index, key.bits)])
        } else {
            None
        }
    }

    /// No pipeline built yet.
    pub fn new() -> (c: Self)
        ensures
            c.slots() == Map::<u64, P>::empty(),
    {
        PipelineCache { pipelines: std::collections::HashMap::new() }
    }

    /// The pipeline cached for a material type and key, if it was built.
    pub fn get(&self, type_index: u32, key: MaterialPipelineKey) -> (r: Option<P>)
        ensures
            r == self.cached(type_index, key),
    {
        broadcast use vstd::std_specs::hash::group_hash_axioms;

        let slot = type_index as u64 * 256 + key.bits as u64;
        match self.pipelines.get(&slot) {
            Some(p) => Some(*p),
            None => None,
        }
    }

    /// The pipeline for a material type and key: the cached one if there is
    /// one, else `built`, which is kept for later frames. Other entries are
    /// left as they were.
    pub fn get_or_insert(&mut self, type_index: u32, key: MaterialPipelineKey, built: P) -> (r: P)
        ensures
            old(self).cached(type_index, key) matches Some(p) ==> r == p && final(self).slots() == old(self).slots(),
            old(self).cached(type_index, key) is None ==> r == built && final(self).slots() == old(self).slots().insert(
                cache_slot(type_index, key.bits),
                built,
            ),
    {
        broadcast use vstd::std_specs::hash::group_hash_axioms;

        let slot = type_index as u64 * 256 + key.bits as u64;
        match self.pipelines.get(&slot) {
            Some(p) => *p,
            None => {
                self.pipelines.insert(slot, built);
                built
            },
        }
    }
}

} // verus!
