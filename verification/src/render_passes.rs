//! Scheduling arithmetic of the render passes: compute dispatch sizes, bloom
//! mip chains, cube-map faces and the pass graph the 3D plugin installs.
use vstd::prelude::*;

verus! {

/// `ceil(n / d)`, as std's `div_ceil` computes it.
pub open spec fn div_ceil_spec(n: nat, d: nat) -> nat {
    if n % d == 0 { n / d } else { n / d + 1 }
}

/// Workgroups needed to cover `size` texels with groups of `group` texels.
pub fn workgroup_count(size: u32, group: u32) -> (r: u32)
    requires
        group > 0,
    ensures
        r == div_ceil_spec(size as nat, group as nat),
{
    let q = size / group;
    if size % group > 0 {
        proof {
            vstd::arithmetic::div_mod::lemma_fundamental_div_mod(size as int, group as int);
            assert(q < size) by (nonlinear_arith)
                requires group >= 1, size % group > 0, size == group * q + size % group, q >= 0;
        }
        q + 1
    } else {
        q
    }
}

/// Texel groups of the compute shaders.
pub const WORKGROUP_SIZE: u32 = 8;

/// Levels of the bloom mip chain.
pub const BLOOM_MIP_LEVELS: usize = 5;

/// One side of bloom mip level `k` for a surface side of `side`: halved per
/// level, never below one texel.
pub open spec fn bloom_side(side: nat, k: nat) -> nat
    decreases k,
{
    if k == 0 {
        side
    } else {
        let prev = bloom_side(side, (k - 1) as nat);
        if prev / 2 >= 1 { prev / 2 } else { 1 }
    }
}

/// The sizes of the bloom mip chain for a `width` by `height` surface.
pub fn bloom_mip_sizes(width: u32, height: u32) -> (sizes: Vec<(u32, u32)>)
    ensures
        sizes.len() == BLOOM_MIP_LEVELS,
        forall|k: int| 0 <= k < BLOOM_MIP_LEVELS ==> (#[trigger] sizes[k]).0 == bloom_side(width as nat, k as nat) && sizes[k].1
            == bloom_side(height as nat, k as nat),
{
    let mut sizes: Vec<(u32, u32)> = Vec::new();
    let mut w = width;
    let mut h = height;
    let mut k: usize = 0;
    while k < BLOOM_MIP_LEVELS
        invariant
            k <= BLOOM_MIP_LEVELS,
            sizes.len() == k,
            w == bloom_side(width as nat, k as nat),
            h == bloom_side(height as nat, k as nat),
            forall|q: int| 0 <= q < k ==> (#[trigger] sizes[q]).0 == bloom_side(width as nat, q as nat) && sizes[q].1
                == bloom_side(height as nat, q as nat),
        decreases BLOOM_MIP_LEVELS - k,
    {
        sizes.push((w, h));
        w = if w / 2 >= 1 { w / 2 } else { 1 };
        h = if h / 2 >= 1 { h / 2 } else { 1 };
        k = k + 1;
    }
    sizes
}

/// One blur step of the bloom pass: read mip `src`, write mip `dst`, and
/// whether the target is cleared first.
#[derive(Clone, Copy, Debug, PartialEq, Eq, Structural)]
pub struct BloomStep {
    pub src: usize,
    pub dst: usize,
    pub clear: bool,
}

/// The bloom pass's sequence over a chain of `levels` mips: downsampling from
/// each level into the next, then upsampling back from the smallest level,
/// blending onto the existing data except at the largest level, which is
/// cleared.
pub open spec fn bloom_steps(levels: nat) -> Seq<BloomStep> {
    Seq::new((levels - 1) as nat, |i: int| BloomStep { src: i as usize, dst: (i + 1) as usize, clear: false })
        + Seq::new(
        (levels - 1) as nat,
        |i: int| {
            let t = levels - 2 - i;
            BloomStep { src: (t + 1) as usize, dst: t as usize, clear: t == 0 }
        },
    )
}

/// Lists the downsample and upsample steps of a bloom chain of `levels` mips.
pub fn bloom_schedule(levels: usize) -> (steps: Vec<BloomStep>)
    requires
        levels >= 1,
    ensures
        steps@ == bloom_steps(levels as nat),
{
    let mut steps: Vec<BloomStep> = Vec::new();
    let mut i: usize = 1;
    while i < levels
        invariant
            1 <= i <= levels,
            steps@ =~= Seq::new((i - 1) as nat, |q: int| BloomStep { src: q as usize, dst: (q + 1) as usize, clear: false }),
        decreases levels - i,
    {
        steps.push(BloomStep { src: i - 1, dst: i, clear: false });
        i = i + 1;
    }
    let ghost down = steps@;
    let mut t: usize = levels - 1;
    while t > 0
        invariant
            t <= levels - 1,
            steps@ =~= down + Seq::new(
                (levels - 1 - t) as nat,
                |q: int| {
                    let u = levels - 2 - q;
                    BloomStep { src: (u + 1) as usize, dst: u as usize, clear: u == 0 }
                },
            ),
        decreases t,
    {
        t = t - 1;
        steps.push(BloomStep { src: t + 1, dst: t, clear: t == 0 });
    }
    steps
}

/// A face of a cube map.
#[derive(Clone, Copy, Debug, PartialEq, Eq, Structural)]
pub enum CubeFace {
    PositiveX,
    NegativeX,
    PositiveY,
    NegativeY,
    PositiveZ,
    NegativeZ,
}

/// The face rendered at step `index` of the environment cube map and
/// irradiance passes.
pub open spec fn cube_face_spec(index: nat) -> CubeFace {
    if index == 0 {
        CubeFace::PositiveX
    } else if index == 1 {
        CubeFace::NegativeX
    } else if index == 2 {
        CubeFace::PositiveY
    } else if index == 3 {
        CubeFace::NegativeY
    } else if index == 4 {
        CubeFace::PositiveZ
    } else {
        CubeFace::NegativeZ
    }
}

/// The face for step `index` of the cube map and irradiance passes.
pub fn cube_face(index: u32) -> (f: CubeFace)
    requires
        index < 6,
    ensures
        f == cube_face_spec(index as nat),
{
    match index {
        0 => CubeFace::PositiveX,
        1 => CubeFace::NegativeX,
        2 => CubeFace::PositiveY,
        3 => CubeFace::NegativeY,
        4 => CubeFace::PositiveZ,
        _ => CubeFace::NegativeZ,
    }
}

/// The face for step `index` of the prefiltered specular pass, which walks
/// the Y faces in the opposite order.
pub fn prefilter_cube_face(index: u32) -> (f: CubeFace)
    requires
        index < 6,
    ensures
        f == (if index == 2 {
            CubeFace::NegativeY
        } else if index == 3 {
            CubeFace::PositiveY
        } else {
            cube_face_spec(index as nat)
        }),
{
    match index {
        0 => CubeFace::PositiveX,
        1 => CubeFace::NegativeX,
        2 => CubeFace::NegativeY,
        3 => CubeFace::PositiveY,
        4 => CubeFace::PositiveZ,
        _ => CubeFace::NegativeZ,
    }
}

/// Each of the six steps renders a different face.
pub proof fn lemma_cube_faces_distinct(a: nat, b: nat)
    requires
        a < 6,
        b < 6,
        a != b,
    ensures
        cube_face_spec(a) != cube_face_spec(b),
{
}

/// Mip levels of the prefiltered specular cube map.
pub const PREFILTER_MIP_LEVELS: u32 = 5;

/// The side of mip `mip` of the 512-texel prefiltered specular cube map.
pub fn prefilter_mip_size(mip: u32) -> (r: u32)
    requires
        mip < PREFILTER_MIP_LEVELS,
    ensures
        r == (if mip == 0 {
            512u32
        } else if mip == 1 {
            256u32
        } else if mip == 2 {
            128u32
        } else if mip == 3 {
            64u32
        } else {
            32u32
        }),
{
    let r = 512u32 >> mip;
    assert(mip == 0 ==> 512u32 >> mip == 512u32) by (bit_vector);
    assert(mip == 1 ==> 512u32 >> mip == 256u32) by (bit_vector);
    assert(mip == 2 ==> 512u32 >> mip == 128u32) by (bit_vector);
    assert(mip == 3 ==> 512u32 >> mip == 64u32) by (bit_vector);
    assert(mip == 4 ==> 512u32 >> mip == 32u32) by (bit_vector);
    r
}

/// The side of mip `mip` of the prefiltered specular cube map.
pub open spec fn prefilter_side(mip: nat) -> nat {
    if mip == 0 {
        512
    } else if mip == 1 {
        256
    } else if mip == 2 {
        128
    } else if mip == 3 {
        64
    } else {
        32
    }
}

/// The face for step `index` of the prefiltered specular pass.
pub open spec fn prefilter_face_spec(index: nat) -> CubeFace {
    if index == 2 {
        CubeFace::NegativeY
    } else if index == 3 {
        CubeFace::PositiveY
    } else {
        cube_face_spec(index)
    }
}

/// One compute dispatch of the prefiltered specular pass: the face and mip it
/// writes, and the workgroups per side.
#[derive(Clone, Copy, Debug, PartialEq, Eq, Structural)]
pub struct PrefilterDispatch {
    pub face: CubeFace,
    pub mip: u32,
    pub groups: u32,
}

/// Dispatch `k` of the prefiltered specular pass: mip by mip, six faces each.
pub open spec fn prefilter_dispatch(k: nat) -> PrefilterDispatch {
    let mip = k / 6;
    PrefilterDispatch {
        face: prefilter_face_spec(k % 6),
        mip: mip as u32,
        groups: div_ceil_spec(prefilter_side(mip), WORKGROUP_SIZE as nat) as u32,
    }
}

/// The dispatches of the prefiltered specular pass, in order.
pub fn prefilter_dispatches() -> (d: Vec<PrefilterDispatch>)
    ensures
        d.len() == 6 * PREFILTER_MIP_LEVELS,
        forall|k: int| 0 <= k < d.len() ==> #[trigger] d[k] == prefilter_dispatch(k as nat),
{
    let mut d: Vec<PrefilterDispatch> = Vec::new();
    let mut mip: u32 = 0;
    while mip < PREFILTER_MIP_LEVELS
        invariant
            mip <= PREFILTER_MIP_LEVELS,
            d.len() == 6 * mip,
            forall|k: int| 0 <= k < d.len() ==> #[trigger] d[k] == prefilter_dispatch(k as nat),
        decreases PREFILTER_MIP_LEVELS - mip,
    {
        let size = prefilter_mip_size(mip);
        let groups = workgroup_count(size, WORKGROUP_SIZE);
        let mut f: u32 = 0;
        while f < 6
            invariant
                mip < PREFILTER_MIP_LEVELS,
                f <= 6,
                size == prefilter_side(mip as nat),
                groups == div_ceil_spec(prefilter_side(mip as nat), WORKGROUP_SIZE as nat),
                d.len() == 6 * mip + f,
                forall|k: int| 0 <= k < d.len() ==> #[trigger] d[k] == prefilter_dispatch(k as nat),
            decreases 6 - f,
        {
            proof {
                let k = 6 * mip + f;
                assert(k / 6 == mip && k % 6 == f) by (nonlinear_arith)
                    requires k == 6 * mip + f, f < 6;
            }
            d.push(PrefilterDispatch { face: prefilter_cube_face(f), mip, groups });
            f = f + 1;
        }
        mip = mip + 1;
    }
    d
}

/// Whether the environment pre-pass bakes its maps this frame: it bakes once,
/// while any of the cube map, irradiance map and prefiltered map is missing,
/// and only when the scene has an environment.
pub fn environment_needs_bake(
    has_cubemap: bool,
    has_irradiance: bool,
    has_prefilter: bool,
    environment_count: usize,
) -> (r: bool)
    ensures
        r == (!(has_cubemap && has_irradiance && has_prefilter) && environment_count > 0),
{
    if has_cubemap && has_irradiance && has_prefilter {
        return false;
    }
    environment_count > 0
}

// ---------------------------------------------------------------- pass graph

/// The render passes the 3D plugin installs.
#[derive(Clone, Copy, Debug, PartialEq, Eq, Structural)]
pub enum PassKind {
    EnvironmentPrePass,
    SceneTextures,
    CollectMesh,
    ShadowResource,
    DirectionalShadowPass,
    PointShadowPass,
    SkyboxRender,
    MainPass,
    CompositePass,
    BloomPass,
}

/// The 3D rendering plugin.
pub struct Core3D;

/// The passes, in the order the plugin adds them.
pub open spec fn core3d_passes() -> Seq<PassKind> {
    seq![
        PassKind::EnvironmentPrePass,
        PassKind::SceneTextures,
        PassKind::CollectMesh,
        PassKind::ShadowResource,
        PassKind::DirectionalShadowPass,
        PassKind::PointShadowPass,
        PassKind::SkyboxRender,
        PassKind::MainPass,
        PassKind::CompositePass,
        PassKind::BloomPass,
    ]
}

/// The dependencies between passes: the first pass of each pair runs before the second.
pub open spec fn core3d_edges() -> Seq<(PassKind, PassKind)> {
    seq![
        (PassKind::CollectMesh, PassKind::DirectionalShadowPass),
        (PassKind::CollectMesh, PassKind::PointShadowPass),
        (PassKind::CollectMesh, PassKind::MainPass),
        (PassKind::EnvironmentPrePass, PassKind::SkyboxRender),
        (PassKind::SceneTextures, PassKind::SkyboxRender),
        (PassKind::ShadowResource, PassKind::DirectionalShadowPass),
        (PassKind::ShadowResource, PassKind::PointShadowPass),
        (PassKind::DirectionalShadowPass, PassKind::MainPass),
        (PassKind::PointShadowPass, PassKind::MainPass),
        (PassKind::SkyboxRender, PassKind::MainPass),
        (PassKind::MainPass, PassKind::BloomPass),
        (PassKind::BloomPass, PassKind::CompositePass),
        (PassKind::MainPass, PassKind::CompositePass),
    ]
}

/// A stage number for each pass.
pub open spec fn pass_stage(p: PassKind) -> nat {
    match p {
        PassKind::EnvironmentPrePass => 0,
        PassKind::SceneTextures => 0,
        PassKind::CollectMesh => 0,
        PassKind::ShadowResource => 0,
        PassKind::DirectionalShadowPass => 1,
        PassKind::PointShadowPass => 1,
        PassKind::SkyboxRender => 1,
        PassKind::MainPass => 2,
        PassKind::BloomPass => 3,
        PassKind::CompositePass => 4,
    }
}

impl Core3D {
    /// The passes the plugin adds to the render graph, in order, and the
    /// dependency edges between them.
    pub fn render_graph() -> (g: (Vec<PassKind>, Vec<(PassKind, PassKind)>))
        ensures
            g.0@ == core3d_passes(),
            g.1@ == core3d_edges(),
    {
        let passes = vec![
            PassKind::EnvironmentPrePass,
            PassKind::SceneTextures,
            PassKind::CollectMesh,
            PassKind::ShadowResource,
            PassKind::DirectionalShadowPass,
            PassKind::PointShadowPass,
            PassKind::SkyboxRender,
            PassKind::MainPass,
            PassKind::CompositePass,
            PassKind::BloomPass,
        ];
        let edges = vec![
            (PassKind::CollectMesh, PassKind::DirectionalShadowPass),
            (PassKind::CollectMesh, PassKind::PointShadowPass),
            (PassKind::CollectMesh, PassKind::MainPass),
            (PassKind::EnvironmentPrePass, PassKind::SkyboxRender),
            (PassKind::SceneTextures, PassKind::SkyboxRender),
            (PassKind::ShadowResource, PassKind::DirectionalShadowPass),
            (PassKind::ShadowResource, PassKind::PointShadowPass),
            (PassKind::DirectionalShadowPass, PassKind::MainPass),
            (PassKind::PointShadowPass, PassKind::MainPass),
            (PassKind::SkyboxRender, PassKind::MainPass),
            (PassKind::MainPass, PassKind::BloomPass),
            (PassKind::BloomPass, PassKind::CompositePass),
            (PassKind::MainPass, PassKind::CompositePass),
        ];
        assert(passes@ =~= core3d_passes());
        assert(edges@ =~= core3d_edges());
        (passes, edges)
    }
}

/// The pass graph has no cycle: every dependency leads to a later stage, so
/// the passes can run stage by stage; every edge joins installed passes, and
/// no pass is installed twice.
pub proof fn lemma_core3d_graph_acyclic()
    ensures
        forall|k: int| 0 <= k < core3d_edges().len() ==> pass_stage((#[trigger] core3d_edges()[k]).0) < pass_stage(
            core3d_edges()[k].1,
        ),
        forall|k: int| 0 <= k < core3d_edges().len() ==> core3d_passes().contains((#[trigger] core3d_edges()[k]).0)
            && core3d_passes().contains(core3d_edges()[k].1),
        core3d_passes().no_duplicates(),
{
    let p = core3d_passes();
    assert(p[0] == PassKind::EnvironmentPrePass);
    assert(p[1] == PassKind::SceneTextures);
    assert(p[2] == PassKind::CollectMesh);
    assert(p[3] == PassKind::ShadowResource);
    assert(p[4] == PassKind::DirectionalShadowPass);
    assert(p[5] == PassKind::PointShadowPass);
    assert(p[6] == PassKind::SkyboxRender);
    assert(p[7] == PassKind::MainPass);
    assert(p[8] == PassKind::CompositePass);
    assert(p[9] == PassKind::BloomPass);
}

} // verus!
