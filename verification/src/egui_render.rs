//! Flattening of egui's tessellated output into single vertex and index buffers.
use vstd::prelude::*;
use crate::lights::{next_pow2, next_power_of_two};

verus! {

/// A tessellated egui shape: a triangle mesh on texture `texture`, or a
/// paint callback the renderer skips.
pub enum Primitive<V, K> {
    Mesh { vertices: Vec<V>, indices: Vec<u32>, texture: K },
    Callback,
}

/// A primitive with the rectangle it is clipped to.
pub struct ClippedPrimitive<V, R, K> {
    pub clip_rect: R,
    pub primitive: Primitive<V, K>,
}

/// A draw call over the flattened buffers: the index range `start..end`,
/// clipped to `clip_rect`, sampling `texture`.
#[derive(Clone, Copy, Debug, PartialEq, Eq)]
pub struct MeshRange<R, K> {
    pub start: u32,
    pub end: u32,
    pub clip_rect: R,
    pub texture: K,
}

/// `indices`, each moved up by `base`.
pub open spec fn shifted(indices: Seq<u32>, base: nat) -> Seq<u32> {
    Seq::new(indices.len(), |i: int| (indices[i] + base) as u32)
}

/// Whether a primitive contributes to the buffers: a mesh with vertices and indices.
pub open spec fn drawn<V, R, K>(p: ClippedPrimitive<V, R, K>) -> bool {
    p.primitive matches Primitive::Mesh { vertices, indices, .. } && vertices.len() > 0 && indices.len() > 0
}

/// The flattened buffers of the primitives `prims`: all drawn meshes'
/// vertices concatenated, their indices moved past the vertices before them,
/// and one draw range per drawn mesh.
pub open spec fn flattened<V, R, K>(prims: Seq<ClippedPrimitive<V, R, K>>) -> (Seq<V>, Seq<u32>, Seq<MeshRange<R, K>>)
    decreases prims.len(),
{
    if prims.len() == 0 {
        (Seq::empty(), Seq::empty(), Seq::empty())
    } else {
        let (vs, is, rs) = flattened(prims.drop_last());
        let p = prims.last();
        match p.primitive {
            Primitive::Mesh { vertices, indices, texture } => {
                if vertices.len() > 0 && indices.len() > 0 {
                    (
                        vs + vertices@,
                        is + shifted(indices@, vs.len()),
                        rs.push(
                            MeshRange {
                                start: is.len() as u32,
                                end: (is.len() + indices.len()) as u32,
                                clip_rect: p.clip_rect,
                                texture,
                            },
                        ),
                    )
                } else {
                    (vs, is, rs)
                }
            },
            Primitive::Callback => (vs, is, rs),
        }
    }
}

/// The flattened buffers fit `u32` counts and index values.
pub open spec fn flatten_fits<V, R, K>(prims: Seq<ClippedPrimitive<V, R, K>>) -> bool
    decreases prims.len(),
{
    if prims.len() == 0 {
        true
    } else {
        let (vs, is, rs) = flattened(prims.drop_last());
        &&& flatten_fits(prims.drop_last())
        &&& match prims.last().primitive {
            Primitive::Mesh { vertices, indices, .. } => vertices.len() > 0 && indices.len() > 0 ==> {
                &&& vs.len() + vertices.len() <= u32::MAX
                &&& is.len() + indices.len() <= u32::MAX
                &&& forall|i: int| 0 <= i < indices.len() ==> indices[i] + vs.len() <= u32::MAX
            },
            Primitive::Callback => true,
        }
    }
}

/// Concatenates the meshes of egui's output into one vertex buffer and one
/// index buffer, with a draw range per mesh; callbacks and empty meshes are
/// skipped.
pub fn flatten_primitives<V: Copy, R: Copy, K: Copy>(prims: &Vec<ClippedPrimitive<V, R, K>>) -> (r: (
    Vec<V>,
    Vec<u32>,
    Vec<MeshRange<R, K>>,
))
    requires
        flatten_fits(prims@),
    ensures
        (r.0@, r.1@, r.2@) == flattened(prims@),
{
    let mut vertices: Vec<V> = Vec::new();
    let mut indices: Vec<u32> = Vec::new();
    let mut ranges: Vec<MeshRange<R, K>> = Vec::new();
    let mut k: usize = 0;
    while k < prims.len()
        invariant
            k <= prims.len(),
            flatten_fits(prims@),
            (vertices@, indices@, ranges@) == flattened(prims@.take(k as int)),
        decreases prims.len() - k,
    {
        proof {
            assert(prims@.take(k + 1).drop_last() =~= prims@.take(k as int));
            lemma_fits_prefix(prims@, k + 1);
        }
        let prim = &prims[k];
        match &prim.primitive {
            Primitive::Mesh { vertices: mv, indices: mi, texture } => {
                if mv.len() > 0 && mi.len() > 0 {
                    let vertex_base = vertices.len() as u32;
                    let index_start = indices.len() as u32;
                    let ghost vs0 = vertices@;
                    let ghost is0 = indices@;
                    let mut i: usize = 0;
                    while i < mv.len()
                        invariant
                            i <= mv.len(),
                            vertices@ == vs0 + mv@.take(i as int),
                        decreases mv.len() - i,
                    {
                        vertices.push(mv[i]);
                        proof {
                            assert(mv@.take(i + 1) =~= mv@.take(i as int).push(mv[i as int]));
                        }
                        i = i + 1;
                    }
                    let mut i: usize = 0;
                    while i < mi.len()
                        invariant
                            i <= mi.len(),
                            vertex_base == vs0.len(),
                            forall|q: int| 0 <= q < mi.len() ==> mi[q] + vs0.len() <= u32::MAX,
                            indices@ == is0 + shifted(mi@.take(i as int), vs0.len()),
                        decreases mi.len() - i,
                    {
                        indices.push(mi[i] + vertex_base);
                        proof {
                            assert(shifted(mi@.take(i + 1), vs0.len()) =~= shifted(mi@.take(i as int), vs0.len()).push(
                                (mi[i as int] + vs0.len()) as u32,
                            ));
                        }
                        i = i + 1;
                    }
                    proof {
                        assert(mv@.take(mv.len() as int) =~= mv@);
                        assert(mi@.take(mi.len() as int) =~= mi@);
                    }
                    ranges.push(
                        MeshRange {
                            start: index_start,
                            end: indices.len() as u32,
                            clip_rect: prim.clip_rect,
                            texture: *texture,
                        },
                    );
                }
            },
            Primitive::Callback => {},
        }
        k = k + 1;
    }
    assert(prims@.take(prims.len() as int) =~= prims@);
    (vertices, indices, ranges)
}

proof fn lemma_fits_prefix<V, R, K>(prims: Seq<ClippedPrimitive<V, R, K>>, n: int)
    requires
        flatten_fits(prims),
        0 <= n <= prims.len(),
    ensures
        flatten_fits(prims.take(n)),
    decreases prims.len(),
{
    if n < prims.len() {
        lemma_fits_prefix(prims.drop_last(), n);
        assert(prims.drop_last().take(n) =~= prims.take(n));
    } else {
        assert(prims.take(n) =~= prims);
    }
}

/// The indices of a mesh primitive address its own vertices.
pub open spec fn mesh_well_formed<V, R, K>(p: ClippedPrimitive<V, R, K>) -> bool {
    p.primitive matches Primitive::Mesh { vertices, indices, .. } ==> forall|i: int|
        0 <= i < indices.len() ==> indices[i] < vertices.len()
}

/// The draw ranges cover the index buffer in order, one after another, and
/// every index addresses a vertex of the buffer.
pub open spec fn flattened_in_bounds<V, R, K>(f: (Seq<V>, Seq<u32>, Seq<MeshRange<R, K>>)) -> bool {
    let (vs, is, rs) = f;
    &&& forall|i: int| 0 <= i < is.len() ==> #[trigger] is[i] < vs.len()
    &&& forall|r: int| 0 <= r < rs.len() ==> (#[trigger] rs[r]).start < rs[r].end <= is.len()
    &&& forall|r: int| 0 < r < rs.len() ==> (#[trigger] rs[r]).start == rs[r - 1].end
    &&& rs.len() == 0 ==> is.len() == 0
    &&& rs.len() > 0 ==> rs[0].start == 0 && rs.last().end == is.len()
}

/// Flattening keeps meshes intact: when each mesh's indices address its own
/// vertices, every flattened index addresses a flattened vertex, and the draw
/// ranges tile the index buffer in order.
pub proof fn lemma_flatten_in_bounds<V, R, K>(prims: Seq<ClippedPrimitive<V, R, K>>)
    requires
        flatten_fits(prims),
        forall|k: int| 0 <= k < prims.len() ==> mesh_well_formed(#[trigger] prims[k]),
    ensures
        flattened_in_bounds(flattened(prims)),
    decreases prims.len(),
{
    if prims.len() > 0 {
        let rest = prims.drop_last();
        assert forall|k: int| 0 <= k < rest.len() implies mesh_well_formed(#[trigger] rest[k]) by {
            assert(rest[k] == prims[k]);
        }
        lemma_flatten_in_bounds(rest);
        let (vs, is, rs) = flattened(rest);
        let p = prims.last();
        assert(mesh_well_formed(prims[prims.len() - 1]));
        match p.primitive {
            Primitive::Mesh { vertices, indices, texture } => {
                if vertices.len() > 0 && indices.len() > 0 {
                    let sh = shifted(indices@, vs.len());
                    let nis = is + sh;
                    let nvs = vs + vertices@;
                    let nrs = rs.push(
                        MeshRange {
                            start: is.len() as u32,
                            end: (is.len() + indices.len()) as u32,
                            clip_rect: p.clip_rect,
                            texture,
                        },
                    );
                    assert(flattened(prims) == (nvs, nis, nrs));
                    assert forall|i: int| 0 <= i < nis.len() implies nis[i] < nvs.len() by {
                        if i >= is.len() {
                            let j = i - is.len();
                            assert(indices[j] < vertices.len());
                            assert(nis[i] == sh[j]);
                        }
                    }
                    assert forall|r: int| 0 < r < nrs.len() implies (#[trigger] nrs[r]).start == nrs[r - 1].end by {
                        if r == nrs.len() - 1 && r > 0 {
                            assert(nrs[r - 1] == rs.last());
                        }
                    }
                }
            },
            Primitive::Callback => {},
        }
    }
}

/// An egui vertex color as the shader reads it: the four bytes of
/// `[r, g, b, a]` read as a little-endian `u32`.
pub open spec fn packed_color(rgba: [u8; 4]) -> u32 {
    (rgba[0] + 0x100 * rgba[1] + 0x1_0000 * rgba[2] + 0x100_0000 * rgba[3]) as u32
}

/// Packs an RGBA color into the `u32` the shader reads, as
/// `u32::from_le_bytes` does.
pub fn pack_color(rgba: [u8; 4]) -> (r: u32)
    ensures
        r == packed_color(rgba),
{
    let r = rgba[0] as u32 + 0x100 * rgba[1] as u32 + 0x1_0000 * rgba[2] as u32 + 0x100_0000 * rgba[3] as u32;
    r
}

/// The bytes of an image's pixels, four per pixel in RGBA order.
pub open spec fn pixel_bytes(pixels: Seq<[u8; 4]>) -> Seq<u8>
    decreases pixels.len(),
{
    if pixels.len() == 0 {
        Seq::empty()
    } else {
        let p = pixels.last();
        pixel_bytes(pixels.drop_last()) + seq![p[0], p[1], p[2], p[3]]
    }
}

/// Lays out an image's RGBA pixels as bytes for upload.
pub fn color_image_bytes(pixels: &Vec<[u8; 4]>) -> (bytes: Vec<u8>)
    ensures
        bytes@ == pixel_bytes(pixels@),
{
    let mut bytes: Vec<u8> = Vec::new();
    let mut i: usize = 0;
    while i < pixels.len()
        invariant
            i <= pixels.len(),
            bytes@ == pixel_bytes(pixels@.take(i as int)),
        decreases pixels.len() - i,
    {
        let p = pixels[i];
        proof {
            assert(pixels@.take(i + 1).drop_last() =~= pixels@.take(i as int));
        }
        bytes.push(p[0]);
        bytes.push(p[1]);
        bytes.push(p[2]);
        bytes.push(p[3]);
        proof {
            assert(bytes@ =~= pixel_bytes(pixels@.take(i + 1)));
        }
        i = i + 1;
    }
    assert(pixels@.take(pixels.len() as int) =~= pixels@);
    bytes
}

/// The capacity a GPU buffer of capacity `capacity` needs to hold `count`
/// elements: unchanged when they fit, else the next power of two.
pub fn grow_capacity(capacity: usize, count: usize) -> (r: usize)
    requires
        count <= usize::MAX / 2 + 1,
    ensures
        r == if count > capacity { next_pow2(count as nat) } else { capacity as nat },
{
    if count > capacity {
        next_power_of_two(count)
    } else {
        capacity
    }
}

/// What to do with a texture delta from egui.
#[derive(Clone, Copy, Debug, PartialEq, Eq, Structural)]
pub enum TextureUpdate {
    /// write the pixels into the existing texture at `(x, y)`
    Region { x: u32, y: u32 },
    /// create a new texture from the pixels
    Create,
}

/// The update for a texture delta placed at `pos` (`None` for a whole
/// image); a partial update needs the texture to exist.
pub fn texture_update(pos: Option<(usize, usize)>, exists: bool) -> (u: TextureUpdate)
    requires
        pos is Some ==> exists,
    ensures
        pos matches Some(p) ==> u == (TextureUpdate::Region { x: p.0 as u32, y: p.1 as u32 }),
        pos is None ==> u == TextureUpdate::Create,
{
    match pos {
        Some(p) => TextureUpdate::Region { x: p.0 as u32, y: p.1 as u32 },
        None => TextureUpdate::Create,
    }
}

// ---------------------------------------------------------------- texture registry

/// The draw ranges among `ranges` whose texture is in `textures`, in order.
pub open spec fn ranges_with_texture<R>(ranges: Seq<MeshRange<R, u64>>, textures: Set<u64>) -> Seq<MeshRange<R, u64>>
    decreases ranges.len(),
{
    if ranges.len() == 0 {
        Seq::empty()
    } else {
        let earlier = ranges_with_texture(ranges.drop_last(), textures);
        if textures.contains(ranges.last().texture) {
            earlier.push(ranges.last())
        } else {
            earlier
        }
    }
}

/// The egui textures the renderer holds, by id.
pub struct EguiTextures {
    ids: std::collections::HashSet<u64>,
}

impl EguiTextures {
    /// The ids of the textures held.
    pub closed spec fn held(self) -> Set<u64> {
        self.ids@
    }

    /// No texture held.
    pub fn new() -> (t: Self)
        ensures
            t.held() == Set::<u64>::empty(),
    {
        EguiTextures { ids: std::collections::HashSet::new() }
    }

    /// Whether texture `id` is held.
    pub fn contains(&self, id: u64) -> (r: bool)
        ensures
            r == self.held().contains(id),
    {
        broadcast use vstd::std_specs::hash::group_hash_axioms;

        self.ids.contains(&id)
    }

    /// Applies an image delta for texture `id` placed at `pos` (`None` for a
    /// whole image): a partial delta is written into the held texture, a
    /// whole one creates (or replaces) the texture.
    pub fn apply_delta(&mut self, id: u64, pos: Option<(usize, usize)>) -> (u: TextureUpdate)
        requires
            pos is Some ==> old(self).held().contains(id),
        ensures
            pos matches Some(p) ==> u == (TextureUpdate::Region { x: p.0 as u32, y: p.1 as u32 })
                && final(self).held() == old(self).held(),
            pos is None ==> u == TextureUpdate::Create && final(self).held() == old(self).held().insert(id),
    {
        broadcast use vstd::std_specs::hash::group_hash_axioms;

        let u = texture_update(pos, true);
        if pos.is_none() {
            self.ids.insert(id);
        }
        u
    }

    /// Releases the textures egui freed this frame; this happens only on a
    /// frame that drew no vertices, otherwise they stay held.
    pub fn free(&mut self, freed: &Vec<u64>, vertex_count: usize)
        ensures
            vertex_count == 0 ==> final(self).held() == old(self).held().difference(freed@.to_set()),
            vertex_count != 0 ==> final(self).held() == old(self).held(),
    {
        broadcast use vstd::std_specs::hash::group_hash_axioms;

        if vertex_count == 0 {
            let ghost start = self.ids@;
            let mut i: usize = 0;
            while i < freed.len()
                invariant
                    i <= freed.len(),
                    self.ids@ == start.difference(freed@.take(i as int).to_set()),
                decreases freed.len() - i,
            {
                self.ids.remove(&freed[i]);
                proof {
                    assert(freed@.take(i + 1) == freed@.take(i as int).push(freed@[i as int]));
                    assert(freed@.take(i + 1).to_set() =~= freed@.take(i as int).to_set().insert(freed@[i as int])) by {
                        freed@.take(i as int).lemma_push_to_set_commute(freed@[i as int]);
                    }
                    assert(self.ids@ =~= start.difference(freed@.take(i + 1).to_set()));
                }
                i = i + 1;
            }
            assert(freed@.take(freed.len() as int) =~= freed@);
        }
    }

    /// The draw ranges that are drawn: those whose texture is held.
    pub fn drawable<R: Copy>(&self, ranges: &Vec<MeshRange<R, u64>>) -> (r: Vec<MeshRange<R, u64>>)
        ensures
            r@ == ranges_with_texture(ranges@, self.held()),
    {
        let mut r: Vec<MeshRange<R, u64>> = Vec::new();
        let mut i: usize = 0;
        while i < ranges.len()
            invariant
                i <= ranges.len(),
                r@ == ranges_with_texture(ranges@.take(i as int), self.held()),
            decreases ranges.len() - i,
        {
            proof {
                assert(ranges@.take(i + 1).drop_last() =~= ranges@.take(i as int));
            }
            let range = ranges[i];
            if self.contains(range.texture) {
                r.push(range);
            }
            i = i + 1;
        }
        assert(ranges@.take(ranges.len() as int) =~= ranges@);
        r
    }
}

} // verus!
