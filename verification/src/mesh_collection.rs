//! Which meshes the render passes take up each frame: the bundles the
//! collection pass prepares, the material buffers it writes, and the draws
//! of the main pass.
use vstd::prelude::*;
use std::collections::HashSet;
use crate::render_order::{batch_key, batch_order, key_le, BatchEntry};

verus! {

/// The positions below `n` that satisfy `p`, in increasing order.
pub open spec fn indices_where(n: nat, p: spec_fn(int) -> bool) -> Seq<usize>
    decreases n,
{
    if n == 0 {
        Seq::empty()
    } else {
        let earlier = indices_where((n - 1) as nat, p);
        if p(n - 1) {
            earlier.push((n - 1) as usize)
        } else {
            earlier
        }
    }
}

// ---------------------------------------------------------------- collection pass

/// What the mesh collection pass learns of a mesh node while preparing it.
#[derive(Clone, Copy, Debug, PartialEq, Eq, Structural)]
pub struct MeshCandidate {
    /// the node refers to a material
    pub has_material: bool,
    /// the node refers to a mesh
    pub has_mesh: bool,
    /// the mesh asset is loaded
    pub mesh_loaded: bool,
    /// the material asset is loaded
    pub material_loaded: bool,
    /// the material's descriptor set could be prepared
    pub descriptor_ready: bool,
    /// for a material that masks with a texture, whether that texture is loaded
    pub alpha_texture: Option<bool>,
    /// the id of the material asset
    pub material_id: u64,
}

/// The mesh gets as far as the pipeline lookup: it has both assets, loaded,
/// and its material's descriptor set.
pub open spec fn reaches_pipeline(c: MeshCandidate) -> bool {
    c.has_material && c.has_mesh && c.mesh_loaded && c.material_loaded && c.descriptor_ready
}

/// The mesh becomes a bundle: it reaches the pipeline lookup and its alpha
/// texture, if any, is loaded.
pub open spec fn collected(c: MeshCandidate) -> bool {
    reaches_pipeline(c) && match c.alpha_texture {
        Some(loaded) => loaded,
        None => true,
    }
}

/// No bundle before position `i` has the material of the mesh at `i`.
pub open spec fn first_of_material(cs: Seq<MeshCandidate>, i: int) -> bool {
    forall|j: int| 0 <= j < i && collected(cs[j]) ==> cs[j].material_id != cs[i].material_id
}

/// The materials of the bundles among the first `n` meshes.
pub open spec fn bundled_materials(cs: Seq<MeshCandidate>, n: int) -> Set<u64> {
    Set::new(|m: u64| exists|j: int| 0 <= j < n && collected(cs[j]) && cs[j].material_id == m)
}

/// What the collection pass does with the meshes of a frame, by position:
/// the meshes whose pipeline is looked up (and built if missing), the meshes
/// that become bundles, and the meshes whose material's shadow buffer is
/// written: the first bundle of each material.
pub struct CollectPlan {
    pub pipelines: Vec<usize>,
    pub bundles: Vec<usize>,
    pub alpha_writes: Vec<usize>,
}

/// Plans the collection pass over the meshes of a frame, in scene order.
pub fn collect_meshes(cs: &Vec<MeshCandidate>) -> (plan: CollectPlan)
    ensures
        plan.pipelines@ == indices_where(cs.len() as nat, |i: int| reaches_pipeline(cs@[i])),
        plan.bundles@ == indices_where(cs.len() as nat, |i: int| collected(cs@[i])),
        plan.alpha_writes@ == indices_where(
            cs.len() as nat,
            |i: int| collected(cs@[i]) && first_of_material(cs@, i),
        ),
{
    broadcast use vstd::std_specs::hash::group_hash_axioms;

    let ghost p_pipe = |i: int| reaches_pipeline(cs@[i]);
    let ghost p_bundle = |i: int| collected(cs@[i]);
    let ghost p_write = |i: int| collected(cs@[i]) && first_of_material(cs@, i);
    let mut pipelines: Vec<usize> = Vec::new();
    let mut bundles: Vec<usize> = Vec::new();
    let mut alpha_writes: Vec<usize> = Vec::new();
    let mut written: HashSet<u64> = HashSet::new();
    let mut k: usize = 0;
    while k < cs.len()
        invariant
            k <= cs.len(),
            p_pipe == (|i: int| reaches_pipeline(cs@[i])),
            p_bundle == (|i: int| collected(cs@[i])),
            p_write == (|i: int| collected(cs@[i]) && first_of_material(cs@, i)),
            pipelines@ == indices_where(k as nat, p_pipe),
            bundles@ == indices_where(k as nat, p_bundle),
            alpha_writes@ == indices_where(k as nat, p_write),
            written@ == bundled_materials(cs@, k as int),
        decreases cs.len() - k,
    {
        let c = cs[k];
        assert(p_pipe(k as int) == reaches_pipeline(c));
        assert(p_bundle(k as int) == collected(c));
        let ready = c.has_material && c.has_mesh && c.mesh_loaded && c.material_loaded && c.descriptor_ready;
        if ready {
            pipelines.push(k);
        }
        let alpha_ok = match c.alpha_texture {
            Some(loaded) => loaded,
            None => true,
        };
        let ghost before = written@;
        if ready && alpha_ok {
            bundles.push(k);
            let fresh = !written.contains(&c.material_id);
            proof {
                assert(fresh == first_of_material(cs@, k as int)) by {
                    if !fresh {
                        let j = choose|j: int| 0 <= j < k && collected(cs@[j]) && cs@[j].material_id == c.material_id;
                        assert(!first_of_material(cs@, k as int));
                    }
                }
            }
            if fresh {
                alpha_writes.push(k);
            }
            written.insert(c.material_id);
            proof {
                assert(written@ =~= bundled_materials(cs@, k + 1)) by {
                    assert forall|m: u64| #[trigger] written@.contains(m) implies bundled_materials(cs@, k + 1).contains(m) by {
                        if m != c.material_id {
                            let j = choose|j: int| 0 <= j < k && collected(cs@[j]) && cs@[j].material_id == m;
                        }
                    }
                    assert forall|m: u64| #[trigger] bundled_materials(cs@, k + 1).contains(m) implies written@.contains(m) by {
                        let j = choose|j: int| 0 <= j < k + 1 && collected(cs@[j]) && cs@[j].material_id == m;
                        if j < k {
                            assert(before.contains(m));
                        }
                    }
                }
            }
        } else {
            proof {
                assert(written@ =~= bundled_materials(cs@, k + 1)) by {
                    assert forall|m: u64| #[trigger] bundled_materials(cs@, k + 1).contains(m) implies written@.contains(m) by {
                        let j = choose|j: int| 0 <= j < k + 1 && collected(cs@[j]) && cs@[j].material_id == m;
                        if j < k {
                            assert(before.contains(m));
                        }
                    }
                    assert forall|m: u64| #[trigger] written@.contains(m) implies bundled_materials(cs@, k + 1).contains(m) by {
                        let j = choose|j: int| 0 <= j < k && collected(cs@[j]) && cs@[j].material_id == m;
                    }
                }
            }
        }
        k = k + 1;
    }
    CollectPlan { pipelines, bundles, alpha_writes }
}

/// Within a frame the shadow buffer of every bundled material is written
/// exactly once: some bundle of the material at or before any of its bundles
/// is a first of its material, and no two firsts share a material.
pub proof fn lemma_each_material_written_once(cs: Seq<MeshCandidate>, i: int)
    requires
        0 <= i < cs.len(),
        collected(cs[i]),
    ensures
        exists|j: int|
            0 <= j <= i && collected(#[trigger] cs[j]) && first_of_material(cs, j) && cs[j].material_id
                == cs[i].material_id,
        forall|j: int, l: int|
            0 <= j < l < cs.len() && collected(#[trigger] cs[j]) && first_of_material(cs, l) ==> cs[j].material_id
                != (#[trigger] cs[l]).material_id,
    decreases i,
{
    if !first_of_material(cs, i) {
        let j = choose|j: int| 0 <= j < i && collected(cs[j]) && cs[j].material_id == cs[i].material_id;
        lemma_each_material_written_once(cs, j);
    }
}

/// The positions listed by `indices_where` are in range, satisfy `p`, come
/// in increasing order, and include every position below `n` that satisfies `p`.
pub proof fn lemma_indices_where(n: nat, p: spec_fn(int) -> bool)
    requires
        n <= usize::MAX,
    ensures
        forall|k: int|
            0 <= k < indices_where(n, p).len() ==> (#[trigger] indices_where(n, p)[k] as int) < n && p(
                indices_where(n, p)[k] as int,
            ),
        forall|j: int, k: int|
            0 <= j < k < indices_where(n, p).len() ==> #[trigger] indices_where(n, p)[j] < #[trigger] indices_where(
                n,
                p,
            )[k],
        forall|i: int| 0 <= i < n && p(i) ==> #[trigger] indices_where(n, p).contains(i as usize),
    decreases n,
{
    if n > 0 {
        let m = (n - 1) as nat;
        lemma_indices_where(m, p);
        let earlier = indices_where(m, p);
        let all = indices_where(n, p);
        assert forall|i: int| 0 <= i < n && p(i) implies #[trigger] all.contains(i as usize) by {
            if i < m {
                assert(earlier.contains(i as usize));
                let k = choose|k: int| 0 <= k < earlier.len() && earlier[k] == i as usize;
                assert(all[k] == earlier[k]);
            } else {
                assert(all[all.len() - 1] == i as usize);
            }
        }
    }
}

/// The order the collection pass hands its bundles on in: exactly the meshes
/// that become bundles, each once, all opaque bundles before all transparent
/// ones, each group sorted by (pipeline, material, mesh). `entries[i]` is what
/// the batching knows of mesh `i`.
pub fn collect_and_batch(cs: &Vec<MeshCandidate>, entries: &Vec<BatchEntry>) -> (order: Vec<usize>)
    requires
        entries.len() == cs.len(),
    ensures
        forall|i: int| 0 <= i < order.len() ==> order[i] < cs.len() && collected(#[trigger] cs@[order[i] as int]),
        forall|i: int, j: int| 0 <= i < order.len() && 0 <= j < order.len() && i != j ==> order[i] != order[j],
        forall|b: usize| b < cs.len() && collected(cs@[b as int]) ==> #[trigger] order@.contains(b),
        forall|i: int, j: int|
            0 <= i < j < order.len() && entries[order[j] as int].is_opaque ==> entries[order[i] as int].is_opaque,
        forall|i: int, j: int|
            0 <= i < j < order.len() && entries[order[i] as int].is_opaque == entries[order[j] as int].is_opaque
                ==> key_le(batch_key(entries[order[i] as int]), batch_key(entries[order[j] as int])),
{
    let plan = collect_meshes(cs);
    let bundles = plan.bundles;
    let ghost p = |i: int| collected(cs@[i]);
    proof {
        lemma_indices_where(cs.len() as nat, p);
    }
    let mut picked: Vec<BatchEntry> = Vec::new();
    let mut k: usize = 0;
    while k < bundles.len()
        invariant
            k <= bundles.len(),
            entries.len() == cs.len(),
            bundles@ == indices_where(cs.len() as nat, p),
            forall|q: int| 0 <= q < bundles.len() ==> (#[trigger] bundles[q] as int) < cs.len(),
            picked.len() == k,
            forall|q: int| 0 <= q < k ==> #[trigger] picked[q] == entries[bundles[q] as int],
        decreases bundles.len() - k,
    {
        picked.push(entries[bundles[k]]);
        k = k + 1;
    }
    let sorted = batch_order(&picked);
    let mut order: Vec<usize> = Vec::new();
    let mut k: usize = 0;
    while k < sorted.len()
        invariant
            k <= sorted.len(),
            sorted.len() == picked.len(),
            picked.len() == bundles.len(),
            forall|q: int| 0 <= q < sorted.len() ==> sorted[q] < picked.len(),
            order.len() == k,
            forall|q: int| 0 <= q < k ==> #[trigger] order[q] == bundles[sorted[q] as int],
        decreases sorted.len() - k,
    {
        order.push(bundles[sorted[k]]);
        k = k + 1;
    }
    proof {
        assert forall|i: int| 0 <= i < order.len() implies order[i] < cs.len() && collected(
            #[trigger] cs@[order[i] as int],
        ) by {
            assert(order[i] == bundles[sorted[i] as int]);
            assert(p(bundles[sorted[i] as int] as int));
        }
        assert forall|i: int, j: int| 0 <= i < order.len() && 0 <= j < order.len() && i != j implies order[i]
            != order[j] by {
            let a = sorted[i] as int;
            let b = sorted[j] as int;
            assert(order[i] == bundles[a] && order[j] == bundles[b]);
            assert(a != b);
            if a < b {
                assert(bundles[a] < bundles[b]);
            } else {
                assert(bundles[b] < bundles[a]);
            }
        }
        assert forall|b: usize| b < cs.len() && collected(cs@[b as int]) implies #[trigger] order@.contains(b) by {
            assert(p(b as int));
            assert(indices_where(cs.len() as nat, p).contains((b as int) as usize));
            assert(bundles@.contains(b));
            let q = choose|q: int| 0 <= q < bundles.len() && bundles[q] == b;
            assert(sorted@.contains(q as usize));
            let k = choose|k: int| 0 <= k < sorted.len() && sorted[k] == q as usize;
            assert(order[k] == b);
        }
        assert forall|i: int| 0 <= i < order.len() implies #[trigger] entries[order[i] as int] == picked[sorted[i] as int] by {
            assert(order[i] == bundles[sorted[i] as int]);
        }
    }
    order
}

// ---------------------------------------------------------------- main pass

/// What the main pass knows of a mesh node when it draws.
#[derive(Clone, Copy, Debug, PartialEq, Eq, Structural)]
pub struct MainPassMesh {
    pub has_material: bool,
    pub has_mesh: bool,
    pub material_loaded: bool,
    pub mesh_loaded: bool,
    /// the material is opaque or masked
    pub is_opaque: bool,
    /// the material's descriptor set is ready
    pub descriptor_ready: bool,
    /// the mesh's world bounding box meets the camera frustum
    pub visible: bool,
}

/// The mesh is drawn by the main pass.
pub open spec fn drawn_in_main_pass(m: MainPassMesh) -> bool {
    m.has_material && m.has_mesh && m.material_loaded && m.mesh_loaded && m.descriptor_ready && m.visible
}

/// The draw order of the main pass: the drawn opaque meshes, then the drawn
/// blended ones, each in scene order.
pub open spec fn main_pass_order(ms: Seq<MainPassMesh>) -> Seq<usize> {
    indices_where(ms.len(), |i: int| drawn_in_main_pass(ms[i]) && ms[i].is_opaque) + indices_where(
        ms.len(),
        |i: int| drawn_in_main_pass(ms[i]) && !ms[i].is_opaque,
    )
}

/// The main pass draws exactly the meshes whose material and mesh are present
/// and loaded, whose descriptor set is ready and which are visible, each
/// once: all opaque ones first, then the blended ones, each group in scene
/// order.
pub proof fn lemma_main_pass_order(ms: Seq<MainPassMesh>)
    requires
        ms.len() <= usize::MAX,
    ensures
        forall|i: int|
            0 <= i < main_pass_order(ms).len() ==> {
                &&& (main_pass_order(ms)[i] as int) < ms.len()
                &&& (#[trigger] ms[main_pass_order(ms)[i] as int]).has_material
                &&& ms[main_pass_order(ms)[i] as int].has_mesh
                &&& ms[main_pass_order(ms)[i] as int].material_loaded
                &&& ms[main_pass_order(ms)[i] as int].mesh_loaded
                &&& ms[main_pass_order(ms)[i] as int].descriptor_ready
                &&& ms[main_pass_order(ms)[i] as int].visible
            },
        forall|b: usize|
            b < ms.len() && ms[b as int].has_material && ms[b as int].has_mesh && ms[b as int].material_loaded
                && ms[b as int].mesh_loaded && ms[b as int].descriptor_ready && ms[b as int].visible
                ==> #[trigger] main_pass_order(ms).contains(b),
        forall|i: int, j: int|
            0 <= i < main_pass_order(ms).len() && 0 <= j < main_pass_order(ms).len() && i != j
                ==> main_pass_order(ms)[i] != main_pass_order(ms)[j],
        forall|i: int, j: int|
            0 <= i < j < main_pass_order(ms).len() && ms[main_pass_order(ms)[j] as int].is_opaque
                ==> ms[main_pass_order(ms)[i] as int].is_opaque,
        forall|i: int, j: int|
            0 <= i < j < main_pass_order(ms).len() && ms[main_pass_order(ms)[i] as int].is_opaque
                == ms[main_pass_order(ms)[j] as int].is_opaque ==> main_pass_order(ms)[i] < main_pass_order(ms)[j],
{
    let po = |i: int| drawn_in_main_pass(ms[i]) && ms[i].is_opaque;
    let pb = |i: int| drawn_in_main_pass(ms[i]) && !ms[i].is_opaque;
    let a = indices_where(ms.len(), po);
    let b = indices_where(ms.len(), pb);
    lemma_indices_where(ms.len(), po);
    lemma_indices_where(ms.len(), pb);
    let o = main_pass_order(ms);
    assert(o == a + b);
    assert forall|i: int| 0 <= i < o.len() implies {
        &&& (o[i] as int) < ms.len()
        &&& drawn_in_main_pass(ms[o[i] as int])
        &&& (i < a.len() <==> ms[o[i] as int].is_opaque)
    } by {
        if i < a.len() {
            assert(o[i] == a[i]);
            assert(po(a[i] as int));
        } else {
            assert(o[i] == b[i - a.len()]);
            assert(pb(b[i - a.len()] as int));
        }
    }
    assert forall|x: usize|
        x < ms.len() && ms[x as int].has_material && ms[x as int].has_mesh && ms[x as int].material_loaded
            && ms[x as int].mesh_loaded && ms[x as int].descriptor_ready && ms[x as int].visible implies #[trigger] o.contains(
        x,
    ) by {
        if ms[x as int].is_opaque {
            assert(po(x as int));
            assert(a.contains((x as int) as usize));
            let k = choose|k: int| 0 <= k < a.len() && a[k] == x;
            assert(o[k] == x);
        } else {
            assert(pb(x as int));
            assert(b.contains((x as int) as usize));
            let k = choose|k: int| 0 <= k < b.len() && b[k] == x;
            assert(o[a.len() + k] == x);
        }
    }
    assert forall|i: int, j: int| 0 <= i < o.len() && 0 <= j < o.len() && i != j implies o[i] != o[j] by {
        if i < a.len() && j < a.len() {
            if i < j {
                assert(a[i] < a[j]);
            } else {
                assert(a[j] < a[i]);
            }
        } else if i >= a.len() && j >= a.len() {
            if i < j {
                assert(b[i - a.len()] < b[j - a.len()]);
            } else {
                assert(b[j - a.len()] < b[i - a.len()]);
            }
        }
    }
    assert forall|i: int, j: int|
        0 <= i < j < o.len() && ms[o[i] as int].is_opaque == ms[o[j] as int].is_opaque implies o[i] < o[j] by {
        if j < a.len() {
            assert(a[i] < a[j]);
        } else if i >= a.len() {
            assert(b[i - a.len()] < b[j - a.len()]);
        }
    }
}

/// The meshes the main pass draws, by position, in drawing order.
pub fn main_pass_draws(meshes: &Vec<MainPassMesh>) -> (order: Vec<usize>)
    ensures
        order@ == main_pass_order(meshes@),
        forall|i: int|
            0 <= i < order.len() ==> {
                &&& order[i] < meshes.len()
                &&& (#[trigger] meshes@[order[i] as int]).has_material
                &&& meshes@[order[i] as int].has_mesh
                &&& meshes@[order[i] as int].material_loaded
                &&& meshes@[order[i] as int].mesh_loaded
                &&& meshes@[order[i] as int].descriptor_ready
                &&& meshes@[order[i] as int].visible
            },
        forall|b: usize|
            b < meshes.len() && meshes@[b as int].has_material && meshes@[b as int].has_mesh
                && meshes@[b as int].material_loaded && meshes@[b as int].mesh_loaded
                && meshes@[b as int].descriptor_ready && meshes@[b as int].visible ==> #[trigger] order@.contains(b),
        forall|i: int, j: int| 0 <= i < order.len() && 0 <= j < order.len() && i != j ==> order[i] != order[j],
        forall|i: int, j: int|
            0 <= i < j < order.len() && meshes@[order[j] as int].is_opaque ==> meshes@[order[i] as int].is_opaque,
        forall|i: int, j: int|
            0 <= i < j < order.len() && meshes@[order[i] as int].is_opaque == meshes@[order[j] as int].is_opaque
                ==> order[i] < order[j],
{
    proof {
        assert(meshes@.len() == meshes.len());
        lemma_main_pass_order(meshes@);
    }
    let ghost p_opaque = |i: int| drawn_in_main_pass(meshes@[i]) && meshes@[i].is_opaque;
    let ghost p_blend = |i: int| drawn_in_main_pass(meshes@[i]) && !meshes@[i].is_opaque;
    let mut opaque: Vec<usize> = Vec::new();
    let mut blend: Vec<usize> = Vec::new();
    let mut k: usize = 0;
    while k < meshes.len()
        invariant
            k <= meshes.len(),
            p_opaque == (|i: int| drawn_in_main_pass(meshes@[i]) && meshes@[i].is_opaque),
            p_blend == (|i: int| drawn_in_main_pass(meshes@[i]) && !meshes@[i].is_opaque),
            opaque@ == indices_where(k as nat, p_opaque),
            blend@ == indices_where(k as nat, p_blend),
        decreases meshes.len() - k,
    {
        let m = meshes[k];
        assert(p_opaque(k as int) == (drawn_in_main_pass(m) && m.is_opaque));
        assert(p_blend(k as int) == (drawn_in_main_pass(m) && !m.is_opaque));
        if m.has_material && m.has_mesh && m.material_loaded && m.mesh_loaded && m.descriptor_ready && m.visible {
            if m.is_opaque {
                opaque.push(k);
            } else {
                blend.push(k);
            }
        }
        k = k + 1;
    }
    let mut order = opaque;
    let mut rest = blend;
    order.append(&mut rest);
    proof {
        let o = main_pass_order(meshes@);
        assert(order@ =~= o);
        assert forall|i: int| 0 <= i < order.len() implies #[trigger] order[i] < meshes.len() by {
            let m = meshes@[o[i] as int];
        }
        assert forall|i: int| 0 <= i < order.len() implies {
            &&& order[i] < meshes.len()
            &&& (#[trigger] meshes@[order[i] as int]).has_material
            &&& meshes@[order[i] as int].has_mesh
            &&& meshes@[order[i] as int].material_loaded
            &&& meshes@[order[i] as int].mesh_loaded
            &&& meshes@[order[i] as int].descriptor_ready
            &&& meshes@[order[i] as int].visible
        } by {
            assert(order[i] == o[i]);
            let m = meshes@[o[i] as int];
            assert((o[i] as int) < meshes@.len());
            assert(m.has_material && m.has_mesh && m.material_loaded);
            assert(m.mesh_loaded && m.descriptor_ready && m.visible);
        }
        assert forall|b: usize|
            b < meshes.len() && meshes@[b as int].has_material && meshes@[b as int].has_mesh
                && meshes@[b as int].material_loaded && meshes@[b as int].mesh_loaded
                && meshes@[b as int].descriptor_ready && meshes@[b as int].visible implies #[trigger] order@.contains(b) by {
            assert(o.contains(b));
        }
    }
    order
}

/// The main pass clears the color target itself only when the scene has no
/// environment, whose skybox would otherwise cover it.
pub fn main_pass_clears(environment_count: usize) -> (r: bool)
    ensures
        r == (environment_count == 0),
{
    environment_count == 0
}

} // verus!
