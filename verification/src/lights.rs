//! Light buffers and shadow-map bookkeeping.
use vstd::prelude::*;

verus! {

/// The most lights of one kind the shaders read.
pub const MAX_LIGHTS: usize = 100;

/// A fixed-size light buffer as the shaders read it: the number of lights in
/// use and `MAX_LIGHTS` slots.
pub struct LightBuffer<T> {
    pub length: i32,
    pub data: Vec<T>,
}

impl<T: Copy> LightBuffer<T> {
    /// Fills the buffer with the first `MAX_LIGHTS` lights; the remaining
    /// slots hold `empty`.
    pub fn from_lights(lights: &Vec<T>, empty: T) -> (b: Self)
        ensures
            b.length as int == if lights.len() < MAX_LIGHTS { lights.len() as int } else { MAX_LIGHTS as int },
            b.data.len() == MAX_LIGHTS,
            forall|i: int| 0 <= i < MAX_LIGHTS ==> b.data[i] == if i < lights.len() { lights[i] } else { empty },
    {
        let copy_count = if lights.len() < MAX_LIGHTS { lights.len() } else { MAX_LIGHTS };
        let mut data: Vec<T> = Vec::new();
        let mut i: usize = 0;
        while i < MAX_LIGHTS
            invariant
                copy_count == if lights.len() < MAX_LIGHTS { lights.len() } else { MAX_LIGHTS },
                i <= MAX_LIGHTS,
                data.len() == i,
                forall|q: int| 0 <= q < i ==> data[q] == if q < lights.len() { lights[q] } else { empty },
            decreases MAX_LIGHTS - i,
        {
            if i < copy_count {
                data.push(lights[i]);
            } else {
                data.push(empty);
            }
            i = i + 1;
        }
        LightBuffer { length: copy_count as i32, data }
    }
}

/// The cascade count a directional light builder accepts: clamped to `1..=4`.
pub fn cascades_level(level: usize) -> (r: usize)
    ensures
        r == if level < 1 { 1 } else if level > 4 { 4 } else { level },
{
    let level = if level > 1 { level } else { 1 };
    if level < 4 { level } else { 4 }
}

// ---------------------------------------------------------------- powers of two

/// `x` is a power of two.
pub open spec fn is_pow2(x: nat) -> bool
    decreases x,
{
    if x == 1 {
        true
    } else if x < 2 || x % 2 != 0 {
        false
    } else {
        is_pow2(x / 2)
    }
}

/// The first of `p, 2p, 4p, ...` that is at least `n`.
pub open spec fn pow2_at_least_from(p: nat, n: nat) -> nat
    decreases (if p < n { n - p } else { 0 }),
{
    if p >= n || p == 0 {
        p
    } else {
        pow2_at_least_from(2 * p, n)
    }
}

/// The smallest power of two that is at least `n` (1 for `n == 0`), as std's
/// `next_power_of_two` computes it.
pub open spec fn next_pow2(n: nat) -> nat {
    pow2_at_least_from(1, n)
}

/// `next_pow2(n)` is a power of two, is at least `n`, and no smaller power of
/// two is.
pub proof fn lemma_next_pow2(n: nat)
    ensures
        is_pow2(next_pow2(n)),
        next_pow2(n) >= n,
        next_pow2(n) == 1 || next_pow2(n) / 2 < n,
{
    lemma_pow2_at_least_from(1, n);
}

proof fn lemma_pow2_at_least_from(p: nat, n: nat)
    requires
        is_pow2(p),
        p == 1 || p / 2 < n,
    ensures
        is_pow2(pow2_at_least_from(p, n)),
        pow2_at_least_from(p, n) >= n,
        pow2_at_least_from(p, n) == 1 || pow2_at_least_from(p, n) / 2 < n,
    decreases (if p < n { n - p } else { 0 }),
{
    if p < n && p != 0 {
        assert(is_pow2(2 * p)) by {
            assert((2 * p) / 2 == p);
        }
        lemma_pow2_at_least_from(2 * p, n);
    }
}

/// `n.next_power_of_two()` for a `usize` whose result fits.
pub fn next_power_of_two(n: usize) -> (r: usize)
    requires
        n <= usize::MAX / 2 + 1,
    ensures
        r == next_pow2(n as nat),
{
    let mut p: usize = 1;
    while p < n
        invariant
            1 <= p,
            n <= usize::MAX / 2 + 1,
            p < n ==> p <= usize::MAX / 2,
            pow2_at_least_from(p as nat, n as nat) == next_pow2(n as nat),
        decreases (if p < n { n - p } else { 0 }),
    {
        p = p * 2;
    }
    p
}

// ---------------------------------------------------------------- shadow maps

/// Cascades rendered per directional light.
pub const MAX_CASCADES: usize = 4;

/// Layers of the directional shadow texture array for `count` lights: room
/// for four cascades per light rounded up to a power of two and at least four,
/// or a single layer when there are no directional lights. The count is
/// handed to the renderer as a `u32`.
pub open spec fn directional_layers(count: nat) -> nat {
    if count > 0 {
        let p = next_pow2(count * 4);
        if p >= 4 { p } else { 4 }
    } else {
        1
    }
}

/// Layers of the point shadow cube array for `count` lights: the count
/// rounded up to a power of two, or a single layer when there are none.
pub open spec fn point_layers(count: nat) -> nat {
    if count > 0 { next_pow2(count) } else { 1 }
}

/// The number of texture-array layers for the shadows of `directional_count`
/// directional lights and `point_count` point lights.
pub fn shadow_array_layers(directional_count: usize, point_count: usize) -> (r: (u32, u32))
    requires
        directional_count * 4 <= usize::MAX / 2 + 1,
        point_count <= usize::MAX / 2 + 1,
    ensures
        r.0 == directional_layers(directional_count as nat) as u32,
        r.1 == point_layers(point_count as nat) as u32,
{
    let directional = if directional_count > 0 {
        let p = next_power_of_two(directional_count * MAX_CASCADES);
        let p = if p >= MAX_CASCADES { p } else { MAX_CASCADES };
        p as u32
    } else {
        1
    };
    let point = if point_count > 0 {
        next_power_of_two(point_count) as u32
    } else {
        1
    };
    (directional, point)
}

/// The directional shadow layer of cascade `cascade` of light `light`.
pub fn directional_shadow_layer(light: usize, cascade: usize) -> (r: u32)
    requires
        light * 4 + cascade <= usize::MAX,
    ensures
        r == (light * 4 + cascade) as u32,
{
    (light * MAX_CASCADES + cascade) as u32
}

/// The point shadow layer of cube face `face` of light `light`.
pub fn point_shadow_layer(light: u32, face: u32) -> (r: u32)
    requires
        light * 6 + face <= u32::MAX,
    ensures
        r == light * 6 + face,
{
    light * 6 + face
}

/// How many point lights, taken in order, get their shadows rendered when the
/// cube array has `layers` layers: the pass stops at the first light whose
/// index does not fit the array.
pub fn point_shadow_light_count(count: usize, layers: u32) -> (r: usize)
    ensures
        r == if count < layers { count as int } else { layers as int },
{
    let mut i: usize = 0;
    while i < count && (i as u32) < layers
        invariant
            i <= count,
            i <= layers,
        decreases count - i,
    {
        i = i + 1;
    }
    proof {
        if i < count {
            assert(i as u32 == i);
        }
    }
    i
}

/// The light counts the shadow textures were last built for.
#[derive(Clone, Copy, Debug, PartialEq, Eq, Structural)]
pub struct ShadowCounts {
    pub directional: usize,
    pub point: usize,
}

/// The counts after a frame that sees `directional` and `point` lights, and
/// whether the shadow textures must be rebuilt.
pub open spec fn shadow_step(s: ShadowCounts, directional: usize, point: usize) -> (ShadowCounts, bool) {
    (ShadowCounts { directional, point }, directional != s.directional || point != s.point)
}

impl ShadowCounts {
    /// The state before the first frame: textures built for no lights.
    pub fn new() -> (s: Self)
        ensures
            s.directional == 0 && s.point == 0,
    {
        ShadowCounts { directional: 0, point: 0 }
    }

    /// Records this frame's light counts; returns whether the shadow textures
    /// must be rebuilt because a count changed.
    pub fn update(&mut self, directional: usize, point: usize) -> (rebuild: bool)
        ensures
            (*final(self), rebuild) == shadow_step(*old(self), directional, point),
    {
        let rebuild = directional != self.directional || point != self.point;
        self.directional = directional;
        self.point = point;
        rebuild
    }
}

/// Seeing the same light counts twice in a row rebuilds the shadow textures at
/// most once: the second frame keeps them.
pub proof fn lemma_shadow_rebuild_once(s: ShadowCounts, directional: usize, point: usize)
    ensures
        !shadow_step(shadow_step(s, directional, point).0, directional, point).1,
        shadow_step(shadow_step(s, directional, point).0, directional, point).0 == shadow_step(
            s,
            directional,
            point,
        ).0,
{
}

// ---------------------------------------------------------------- shadow render jobs

/// The cascades of light `light`, which has `count` cascades, that are
/// rendered into a shadow array of `layers` layers, as (light, cascade,
/// layer): cascade by cascade until one's layer falls outside the array.
pub open spec fn light_cascade_jobs(light: nat, count: nat, layers: nat) -> Seq<(usize, usize, u32)>
    decreases count,
{
    if count == 0 {
        Seq::empty()
    } else {
        let c = (count - 1) as nat;
        let earlier = light_cascade_jobs(light, c, layers);
        if light * 4 + c < layers {
            earlier.push((light as usize, c as usize, (light * 4 + c) as u32))
        } else {
            earlier
        }
    }
}

/// The cascade render jobs of all directional lights, light by light.
pub open spec fn directional_jobs(counts: Seq<usize>, layers: nat) -> Seq<(usize, usize, u32)>
    decreases counts.len(),
{
    if counts.len() == 0 {
        Seq::empty()
    } else {
        directional_jobs(counts.drop_last(), layers) + light_cascade_jobs(
            (counts.len() - 1) as nat,
            counts.last() as nat,
            layers,
        )
    }
}

/// The shadow cascades the directional shadow pass renders, in order, for
/// lights with `cascade_counts[i]` cascades each and a shadow array of
/// `layers` layers: cascade `c` of light `i` goes to layer `4 i + c`, and a
/// light's remaining cascades are skipped once one falls outside the array.
/// Each light owns the four layers from `4 i` on; a light built with more
/// than `MAX_CASCADES` cascades renders its extra cascades into the layers of
/// the lights after it, as the pass does. The layer numbers fit the `u32` the
/// pass computes them in.
pub fn directional_shadow_jobs(cascade_counts: &Vec<usize>, layers: u32) -> (jobs: Vec<(usize, usize, u32)>)
    requires
        forall|i: int| 0 <= i < cascade_counts.len() ==> i * 4 + cascade_counts[i] <= u32::MAX,
    ensures
        jobs@ == directional_jobs(cascade_counts@, layers as nat),
        forall|k: int|
            0 <= k < jobs.len() ==> {
                &&& ((#[trigger] jobs[k]).0 as int) < cascade_counts.len()
                &&& jobs[k].1 < cascade_counts[jobs[k].0 as int]
                &&& jobs[k].2 == 4 * jobs[k].0 + jobs[k].1
                &&& jobs[k].2 < layers
            },
{
    proof {
        lemma_directional_jobs_shape(cascade_counts@, layers as nat);
    }
    let mut jobs: Vec<(usize, usize, u32)> = Vec::new();
    let mut i: usize = 0;
    while i < cascade_counts.len()
        invariant
            i <= cascade_counts.len(),
            forall|q: int| 0 <= q < cascade_counts.len() ==> q * 4 + cascade_counts[q] <= u32::MAX,
            jobs@ == directional_jobs(cascade_counts@.take(i as int), layers as nat),
        decreases cascade_counts.len() - i,
    {
        proof {
            assert(cascade_counts@.take(i + 1).drop_last() =~= cascade_counts@.take(i as int));
        }
        let ghost before = jobs@;
        let count = cascade_counts[i];
        let mut c: usize = 0;
        while c < count && ((i * MAX_CASCADES + c) as u32) < layers
            invariant
                i < cascade_counts.len(),
                count == cascade_counts[i as int],
                i * 4 + count <= u32::MAX,
                c <= count,
                jobs@ == before + light_cascade_jobs(i as nat, c as nat, layers as nat),
            decreases count - c,
        {
            let layer = (i * MAX_CASCADES + c) as u32;
            jobs.push((i, c, layer));
            c = c + 1;
        }
        proof {
            lemma_light_jobs_stop(i as nat, c as nat, count as nat, layers as nat);
            assert(jobs@ == before + light_cascade_jobs(i as nat, count as nat, layers as nat));
        }
        i = i + 1;
    }
    assert(cascade_counts@.take(cascade_counts.len() as int) =~= cascade_counts@);
    jobs
}

/// Once a cascade's layer is outside the array, so are the later ones.
proof fn lemma_light_jobs_stop(light: nat, c: nat, count: nat, layers: nat)
    requires
        c <= count,
        c == count || light * 4 + c >= layers,
    ensures
        light_cascade_jobs(light, count, layers) == light_cascade_jobs(light, c, layers),
    decreases count - c,
{
    if c < count {
        lemma_light_jobs_stop(light, c, (count - 1) as nat, layers);
    }
}

/// The slot of the light-space matrix of cascade `cascade` of light `light`
/// in the directional shadow uniform buffer: the layer the cascade is
/// rendered into, so that the pass binds that slot for that layer.
pub open spec fn matrix_slot(light: nat, cascade: nat) -> nat {
    light * 4 + cascade
}

/// The matrix in slot `slot` of the uniform buffer packed from the lights'
/// cascade matrices: cascade `slot % 4` of light `slot / 4`, or `empty` where
/// that light has fewer cascades.
pub open spec fn packed_matrix<M>(matrices: Seq<Vec<M>>, empty: M, slot: nat) -> M {
    let light = (slot / 4) as int;
    let cascade = (slot % 4) as int;
    if cascade < matrices[light]@.len() {
        matrices[light]@[cascade]
    } else {
        empty
    }
}

/// Packs the light-space matrices of the directional lights into the shadow
/// uniform buffer: `matrices[i]` holds light `i`'s cascade matrices, and the
/// matrix of cascade `j` of light `i` goes to slot `4 i + j`, the layer that
/// cascade is rendered into. Unused slots of a light with fewer than four
/// cascades hold `empty`; cascades past the fourth have no slot of their own.
pub fn pack_light_matrices<M: Copy>(matrices: &Vec<Vec<M>>, empty: M) -> (packed: Vec<M>)
    requires
        matrices.len() * 4 <= usize::MAX,
    ensures
        packed.len() == matrices.len() * 4,
        forall|s: int| 0 <= s < packed.len() ==> #[trigger] packed[s] == packed_matrix(matrices@, empty, s as nat),
        forall|i: int, j: int|
            0 <= i < matrices.len() && 0 <= j < matrices[i].len() && j < MAX_CASCADES ==> packed[matrix_slot(
                i as nat,
                j as nat,
            ) as int] == #[trigger] matrices[i]@[j],
{
    let mut packed: Vec<M> = Vec::new();
    let mut i: usize = 0;
    while i < matrices.len()
        invariant
            i <= matrices.len(),
            matrices.len() * 4 <= usize::MAX,
            packed.len() == i * 4,
            forall|s: int| 0 <= s < packed.len() ==> #[trigger] packed[s] == packed_matrix(matrices@, empty, s as nat),
        decreases matrices.len() - i,
    {
        let cascades = &matrices[i];
        let mut j: usize = 0;
        while j < MAX_CASCADES
            invariant
                i < matrices.len(),
                matrices.len() * 4 <= usize::MAX,
                cascades == matrices@[i as int],
                j <= MAX_CASCADES,
                packed.len() == i * 4 + j,
                forall|s: int| 0 <= s < packed.len() ==> #[trigger] packed[s] == packed_matrix(matrices@, empty, s as nat),
            decreases MAX_CASCADES - j,
        {
            proof {
                let s = i * 4 + j;
                assert(s / 4 == i && s % 4 == j) by (nonlinear_arith)
                    requires s == i * 4 + j, j < 4;
            }
            if j < cascades.len() {
                packed.push(cascades[j]);
            } else {
                packed.push(empty);
            }
            j = j + 1;
        }
        i = i + 1;
    }
    assert forall|i: int, j: int|
        0 <= i < matrices.len() && 0 <= j < matrices[i].len() && j < MAX_CASCADES implies packed[matrix_slot(
            i as nat,
            j as nat,
        ) as int] == #[trigger] matrices[i]@[j] by {
        let s = i * 4 + j;
        assert(s / 4 == i && s % 4 == j) by (nonlinear_arith)
            requires s == i * 4 + j, 0 <= j < 4, i >= 0;
        assert(s < matrices.len() * 4) by (nonlinear_arith)
            requires s == i * 4 + j, 0 <= j < 4, 0 <= i < matrices.len();
        assert(packed[s] == packed_matrix(matrices@, empty, s as nat));
    }
    packed
}

/// The jobs of one light are its first cascades, each at its own layer.
proof fn lemma_light_jobs_shape(light: nat, count: nat, layers: nat)
    requires
        light * 4 + count <= u32::MAX,
    ensures
        forall|k: int|
            0 <= k < light_cascade_jobs(light, count, layers).len() ==> {
                let e = #[trigger] light_cascade_jobs(light, count, layers)[k];
                &&& e.0 == light
                &&& e.1 < count
                &&& e.2 == light * 4 + e.1
                &&& (e.2 as nat) < layers
            },
    decreases count,
{
    if count > 0 {
        let c = (count - 1) as nat;
        lemma_light_jobs_shape(light, c, layers);
        let earlier = light_cascade_jobs(light, c, layers);
        let all = light_cascade_jobs(light, count, layers);
        assert forall|k: int| 0 <= k < all.len() implies {
            let e = #[trigger] all[k];
            &&& e.0 == light
            &&& e.1 < count
            &&& e.2 == light * 4 + e.1
            &&& (e.2 as nat) < layers
        } by {
            if k < earlier.len() {
                assert(all[k] == earlier[k]);
            } else {
                assert(all == earlier.push((light as usize, c as usize, (light * 4 + c) as u32)));
            }
        }
    }
}

/// Every cascade job names an existing cascade of an existing light and
/// renders it into layer `4 i + c`, inside the array.
pub proof fn lemma_directional_jobs_shape(counts: Seq<usize>, layers: nat)
    requires
        forall|i: int| 0 <= i < counts.len() ==> i * 4 + counts[i] <= u32::MAX,
    ensures
        forall|k: int|
            0 <= k < directional_jobs(counts, layers).len() ==> {
                let e = #[trigger] directional_jobs(counts, layers)[k];
                &&& (e.0 as int) < counts.len()
                &&& e.1 < counts[e.0 as int]
                &&& e.2 == matrix_slot(e.0 as nat, e.1 as nat)
                &&& (e.2 as nat) < layers
            },
    decreases counts.len(),
{
    if counts.len() > 0 {
        let rest = counts.drop_last();
        let n = (counts.len() - 1) as nat;
        assert forall|i: int| 0 <= i < rest.len() implies i * 4 + rest[i] <= u32::MAX by {
            assert(rest[i] == counts[i]);
        }
        lemma_directional_jobs_shape(rest, layers);
        assert(n * 4 + counts[n as int] <= u32::MAX);
        lemma_light_jobs_shape(n, counts.last() as nat, layers);
        let a = directional_jobs(rest, layers);
        let b = light_cascade_jobs(n, counts.last() as nat, layers);
        assert forall|k: int| 0 <= k < directional_jobs(counts, layers).len() implies {
            let e = #[trigger] directional_jobs(counts, layers)[k];
            &&& (e.0 as int) < counts.len()
            &&& e.1 < counts[e.0 as int]
            &&& e.2 == matrix_slot(e.0 as nat, e.1 as nat)
            &&& (e.2 as nat) < layers
        } by {
            if k < a.len() {
                assert(directional_jobs(counts, layers)[k] == a[k]);
                assert(counts[a[k].0 as int] == rest[a[k].0 as int]);
            } else {
                assert(directional_jobs(counts, layers)[k] == b[k - a.len()]);
            }
        }
    }
}

/// Each cascade is rendered from its own light: for lights of at most four
/// cascades (what the light builder allows), for every cascade job of the
/// directional shadow pass the matrix packed at the job's layer is the matrix
/// of that light's cascade, and the layer lies inside the packed buffer.
pub proof fn lemma_cascades_use_their_own_matrix<M>(
    counts: Seq<usize>,
    layers: nat,
    matrices: Seq<Vec<M>>,
    empty: M,
    k: int,
)
    requires
        counts.len() == matrices.len(),
        counts.len() * 4 <= u32::MAX,
        forall|i: int| 0 <= i < counts.len() ==> counts[i] <= MAX_CASCADES,
        forall|i: int| 0 <= i < counts.len() ==> counts[i] == (#[trigger] matrices[i])@.len(),
        0 <= k < directional_jobs(counts, layers).len(),
    ensures
        (directional_jobs(counts, layers)[k].2 as int) < matrices.len() * 4,
        packed_matrix(matrices, empty, directional_jobs(counts, layers)[k].2 as nat)
            == matrices[directional_jobs(counts, layers)[k].0 as int]@[directional_jobs(counts, layers)[k].1 as int],
{
    assert forall|i: int| 0 <= i < counts.len() implies i * 4 + counts[i] <= u32::MAX by {
        assert(i * 4 + 4 <= counts.len() * 4) by (nonlinear_arith)
            requires 0 <= i < counts.len();
    }
    lemma_directional_jobs_shape(counts, layers);
    let e = directional_jobs(counts, layers)[k];
    let i = e.0 as int;
    let j = e.1 as int;
    assert(matrices[i]@.len() == counts[i]);
    let s = e.2 as int;
    assert(s == i * 4 + j);
    assert(s / 4 == i && s % 4 == j) by (nonlinear_arith)
        requires s == i * 4 + j, 0 <= j < 4, i >= 0;
    assert(s < matrices.len() * 4) by (nonlinear_arith)
        requires s == i * 4 + j, 0 <= j < 4, 0 <= i < matrices.len();
}

/// The cube faces the point shadow pass renders, in order, as (light, face,
/// layer): the six faces of each light whose index fits the cube array.
pub open spec fn point_jobs(count: nat, layers: nat) -> Seq<(usize, u32, u32)> {
    let lights = if count < layers { count } else { layers };
    Seq::new(lights * 6, |k: int| ((k / 6) as usize, (k % 6) as u32, k as u32))
}

/// Face `f` of point light `l` is rendered into cube-array layer `6 l + f`:
/// the jobs walk the lights that fit the array, six faces each, and job `k`
/// writes layer `k`.
pub proof fn lemma_point_jobs_layers(count: nat, layers: nat)
    requires
        (if count < layers { count } else { layers }) * 6 <= u32::MAX,
    ensures
        point_jobs(count, layers).len() == 6 * (if count < layers { count } else { layers }),
        forall|k: int|
            0 <= k < point_jobs(count, layers).len() ==> {
                &&& (#[trigger] point_jobs(count, layers)[k]).1 < 6
                &&& (point_jobs(count, layers)[k].0 as int) < (if count < layers { count } else { layers })
                &&& point_jobs(count, layers)[k].2 == 6 * point_jobs(count, layers)[k].0 + point_jobs(
                    count,
                    layers,
                )[k].1
                &&& point_jobs(count, layers)[k].2 == k
            },
{
    let lights = if count < layers { count } else { layers };
    assert forall|k: int| 0 <= k < point_jobs(count, layers).len() implies {
        &&& (#[trigger] point_jobs(count, layers)[k]).1 < 6
        &&& (point_jobs(count, layers)[k].0 as int) < lights
        &&& point_jobs(count, layers)[k].2 == 6 * point_jobs(count, layers)[k].0 + point_jobs(count, layers)[k].1
        &&& point_jobs(count, layers)[k].2 == k
    } by {
        assert(k == 6 * (k / 6) + k % 6);
        assert(k / 6 < lights) by (nonlinear_arith)
            requires 0 <= k < lights * 6;
    }
}

/// Lists the point shadow faces rendered for `count` point lights and a cube
/// array of `layers` cubes: face `f` of light `l` goes to layer `6 l + f`.
pub fn point_shadow_jobs(count: usize, layers: u32) -> (jobs: Vec<(usize, u32, u32)>)
    requires
        (if count < layers { count as int } else { layers as int }) * 6 <= u32::MAX,
    ensures
        jobs@ == point_jobs(count as nat, layers as nat),
        jobs.len() == 6 * (if count < layers { count as int } else { layers as int }),
        forall|k: int|
            0 <= k < jobs.len() ==> {
                &&& (#[trigger] jobs[k]).1 < 6
                &&& (jobs[k].0 as int) < (if count < layers { count as int } else { layers as int })
                &&& jobs[k].2 == 6 * jobs[k].0 + jobs[k].1
                &&& jobs[k].2 == k
            },
{
    proof {
        lemma_point_jobs_layers(count as nat, layers as nat);
    }
    let lights = point_shadow_light_count(count, layers);
    let mut jobs: Vec<(usize, u32, u32)> = Vec::new();
    let mut l: usize = 0;
    while l < lights
        invariant
            lights as int == (if count < layers { count as int } else { layers as int }),
            lights * 6 <= u32::MAX,
            l <= lights,
            jobs@ =~= Seq::new(l as nat * 6, |k: int| ((k / 6) as usize, (k % 6) as u32, k as u32)),
        decreases lights - l,
    {
        let mut f: u32 = 0;
        while f < 6
            invariant
                lights * 6 <= u32::MAX,
                l < lights,
                f <= 6,
                jobs@ =~= Seq::new(l as nat * 6 + f as nat, |k: int| ((k / 6) as usize, (k % 6) as u32, k as u32)),
            decreases 6 - f,
        {
            let layer = point_shadow_layer(l as u32, f);
            proof {
                let k = l * 6 + f;
                assert(k / 6 == l && k % 6 == f) by (nonlinear_arith)
                    requires k == l * 6 + f, f < 6;
            }
            jobs.push((l, f, layer));
            f = f + 1;
        }
        l = l + 1;
    }
    jobs
}

} // verus!
