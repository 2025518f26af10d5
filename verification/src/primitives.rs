//! Triangle-index generation for the engine's procedural primitive shapes.
//!
//! Every shape lays its vertices out in rows; the functions here produce the
//! index buffer that stitches those rows into triangles. Vertex positions,
//! normals and texture coordinates are floating point and are computed by the
//! caller in the same row order.
use vstd::prelude::*;
use crate::grid::{all_below, grid, grid_row, lemma_all_below_concat, lemma_all_below_monotone, lemma_grid_below, lemma_grid_len, lemma_grid_row_len};

verus! {

// ---------------------------------------------------------------- plane

/// Vertices per side of a plane with `subdivisions` inner subdivisions.
pub open spec fn plane_side(subdivisions: nat) -> nat {
    subdivisions + 2
}

/// The six indices of the quad at row `z`, column `x` of a plane with `n` vertices per side.
pub open spec fn plane_cell(n: nat, z: nat, x: nat) -> Seq<u32> {
    let q = z * n + x;
    seq![
        (q + n + 1) as u32,
        (q + 1) as u32,
        (q + n) as u32,
        q as u32,
        (q + n) as u32,
        (q + 1) as u32,
    ]
}

pub open spec fn plane_cells(n: nat) -> spec_fn(nat, nat) -> Seq<u32> {
    |z: nat, x: nat| plane_cell(n, z, x)
}

/// The complete index buffer of a plane: one quad per grid square, row by row.
pub open spec fn plane_index_seq(subdivisions: nat) -> Seq<u32> {
    let n = plane_side(subdivisions);
    grid((n - 1) as nat, (n - 1) as nat, plane_cells(n))
}

/// The index buffer of a plane fits the integer arithmetic the plane is built with.
pub open spec fn plane_fits(subdivisions: nat) -> bool {
    let n = plane_side(subdivisions);
    &&& n * n <= u32::MAX
    &&& (n - 1) * (n - 1) * 6 <= u32::MAX
}

proof fn lemma_plane_cell_below(n: nat, z: nat, x: nat)
    requires
        n >= 2,
        z < n - 1,
        x < n - 1,
        n * n <= u32::MAX,
    ensures
        all_below(plane_cell(n, z, x), n * n),
{
    assert(z * n + x + n + 1 < n * n) by (nonlinear_arith)
        requires n >= 2, z < n - 1, x < n - 1;
}

/// Every plane index addresses one of its `(s + 2)^2` vertices, and there are
/// six indices per grid square.
pub proof fn lemma_plane_indices_valid(subdivisions: nat)
    requires
        plane_fits(subdivisions),
    ensures
        all_below(plane_index_seq(subdivisions), plane_side(subdivisions) * plane_side(subdivisions)),
        plane_index_seq(subdivisions).len() == 6 * plane_quad_count(subdivisions),
{
    let n = plane_side(subdivisions);
    let m = (n - 1) as nat;
    assert forall|z: nat, x: nat| z < m && x < m implies all_below(
        #[trigger] plane_cells(n)(z, x),
        n * n,
    ) by {
        lemma_plane_cell_below(n, z, x);
    }
    lemma_grid_below(m, m, plane_cells(n), n * n);
    assert forall|z: nat, x: nat| z < m && x < m implies (#[trigger] plane_cells(n)(z, x)).len() == 6 by {}
    lemma_grid_len(m, m, plane_cells(n), 6);
    assert(m * m * 6 == 6 * (m * m)) by (nonlinear_arith);
}

/// `(subdivisions + 1)^2`: the number of grid squares of a plane.
pub open spec fn plane_quad_count(subdivisions: nat) -> nat {
    (subdivisions + 1) * (subdivisions + 1)
}

/// Builds the triangle indices of a plane with `subdivisions` inner
/// subdivisions: `(s + 2)^2` vertices laid out row by row, two triangles per
/// grid square.
pub fn plane_indices(subdivisions: u32) -> (indices: Vec<u32>)
    requires
        plane_fits(subdivisions as nat),
    ensures
        indices@ == plane_index_seq(subdivisions as nat),
        all_below(indices@, plane_side(subdivisions as nat) * plane_side(subdivisions as nat)),
        indices@.len() == 6 * plane_quad_count(subdivisions as nat),
{
    let ghost n = plane_side(subdivisions as nat);
    proof {
        assert(n <= n * n) by (nonlinear_arith) requires n >= 2;
    }
    let count: u32 = subdivisions + 2;
    let mut indices: Vec<u32> = Vec::new();
    let mut z: u32 = 0;
    while z < count - 1
        invariant
            n == count,
            count >= 2,
            n * n <= u32::MAX,
            z <= count - 1,
            indices@ == grid(z as nat, (n - 1) as nat, plane_cells(n)),
        decreases count - 1 - z,
    {
        let mut x: u32 = 0;
        while x < count - 1
            invariant
                n == count,
                count >= 2,
                n * n <= u32::MAX,
                z < count - 1,
                x <= count - 1,
                indices@ == grid(z as nat, (n - 1) as nat, plane_cells(n)) + grid_row(
                    z as nat,
                    x as nat,
                    plane_cells(n),
                ),
            decreases count - 1 - x,
        {
            proof {
                assert(z * count + x + count + 1 < count * count) by (nonlinear_arith)
                    requires count >= 2, z < count - 1, x < count - 1;
            }
            let quad = z * count + x;
            let ghost before = indices@;
            indices.push(quad + count + 1);
            indices.push(quad + 1);
            indices.push(quad + count);
            indices.push(quad);
            indices.push(quad + count);
            indices.push(quad + 1);
            proof {
                assert(indices@ =~= before + plane_cells(n)(z as nat, x as nat));
                assert(grid_row(z as nat, (x + 1) as nat, plane_cells(n)) == grid_row(
                    z as nat,
                    x as nat,
                    plane_cells(n),
                ) + plane_cells(n)(z as nat, x as nat));
            }
            x = x + 1;
        }
        proof {
            assert(grid((z + 1) as nat, (n - 1) as nat, plane_cells(n)) == grid(
                z as nat,
                (n - 1) as nat,
                plane_cells(n),
            ) + grid_row(z as nat, (n - 1) as nat, plane_cells(n)));
        }
        z = z + 1;
    }
    proof {
        lemma_plane_indices_valid(subdivisions as nat);
    }
    indices
}

// ---------------------------------------------------------------- sphere

/// Why a sphere description was refused.
#[derive(Clone, Copy, Debug, PartialEq, Eq, Structural)]
pub enum SphereError {
    /// the radius is not greater than zero
    NonPositiveRadius,
    /// fewer than two stacks
    TooFewStacks,
    /// fewer than three sectors
    TooFewSectors,
}

impl SphereError {
    /// The message the engine reports for stack and sector errors; the radius
    /// message carries the radius itself and is formatted by the caller.
    pub fn message(&self) -> (m: &'static str)
        ensures
            *self == SphereError::TooFewStacks ==> m@ == "sphere stack count cannot be less then 2"@,
            *self == SphereError::TooFewSectors ==> m@ == "shpere sector count cannot be less then 3"@,
            *self == SphereError::NonPositiveRadius ==> m@ == "sphere radius must be > 0"@,
    {
        match self {
            SphereError::NonPositiveRadius => "sphere radius must be > 0",
            SphereError::TooFewStacks => "sphere stack count cannot be less then 2",
            SphereError::TooFewSectors => "shpere sector count cannot be less then 3",
        }
    }
}

/// The triangles of the cell at stack `i`, sector `j`: the top stack only has the
/// lower triangle, the bottom stack only the upper one.
pub open spec fn sphere_cell(stacks: nat, sectors: nat, i: nat, j: nat) -> Seq<u32> {
    let a = i * (sectors + 1) + j;
    let b = a + sectors + 1;
    (if i != 0 {
        seq![a as u32, (a + 1) as u32, b as u32]
    } else {
        Seq::empty()
    }) + (if i != stacks - 1 {
        seq![(a + 1) as u32, (b + 1) as u32, b as u32]
    } else {
        Seq::empty()
    })
}

pub open spec fn sphere_cells(stacks: nat, sectors: nat) -> spec_fn(nat, nat) -> Seq<u32> {
    |i: nat, j: nat| sphere_cell(stacks, sectors, i, j)
}

/// The complete index buffer of a UV sphere with `(stacks + 1) * (sectors + 1)` vertices.
pub open spec fn sphere_index_seq(stacks: nat, sectors: nat) -> Seq<u32> {
    grid(stacks, sectors, sphere_cells(stacks, sectors))
}

/// The number of vertices of a UV sphere.
pub open spec fn sphere_vertex_count(stacks: nat, sectors: nat) -> nat {
    (stacks + 1) * (sectors + 1)
}

/// The largest vertex index of the sphere fits in a `u32`.
pub open spec fn sphere_fits(stacks: nat, sectors: nat) -> bool {
    sphere_vertex_count(stacks, sectors) <= u32::MAX + 1
}

proof fn lemma_sphere_cell(stacks: nat, sectors: nat, i: nat, j: nat)
    requires
        stacks >= 2,
        i < stacks,
        j < sectors,
        sphere_fits(stacks, sectors),
    ensures
        all_below(sphere_cell(stacks, sectors, i, j), sphere_vertex_count(stacks, sectors)),
        sphere_cell(stacks, sectors, i, j).len() == (if i == 0 || i == stacks - 1 { 3int } else { 6int }),
{
    assert(i * (sectors + 1) + j + sectors + 2 < (stacks + 1) * (sectors + 1)) by (nonlinear_arith)
        requires i < stacks, j < sectors;
}

proof fn lemma_sphere_len(stacks: nat, sectors: nat, r: nat)
    requires
        stacks >= 2,
        r <= stacks,
        sphere_fits(stacks, sectors),
    ensures
        grid(r, sectors, sphere_cells(stacks, sectors)).len() == sectors * (6 * r - (if r >= 1 { 3int } else { 0 }) - (if r == stacks { 3int } else { 0 })),
    decreases r,
{
    let cells = sphere_cells(stacks, sectors);
    if r == 0 {
        assert(sectors * (6 * r - 0 - 0) == 0) by (nonlinear_arith) requires r == 0;
    } else {
        let q = (r - 1) as nat;
        lemma_sphere_len(stacks, sectors, q);
        let k: nat = if q == 0 || q == stacks - 1 { 3 } else { 6 };
        assert forall|j: nat| j < sectors implies (#[trigger] cells(q, j)).len() == k by {
            lemma_sphere_cell(stacks, sectors, q, j);
        }
        lemma_grid_row_len(q, sectors, cells, k);
        assert(grid(r, sectors, cells).len() == grid(q, sectors, cells).len() + grid_row(q, sectors, cells).len());
        let a: int = if q >= 1 { 3 } else { 0 };
        let b: int = if q == stacks { 3 } else { 0 };
        let c: int = if r >= 1 { 3 } else { 0 };
        let d: int = if r == stacks { 3 } else { 0 };
        assert(sectors * (6 * q - a - b) + sectors * k == sectors * (6 * r - c - d)) by (nonlinear_arith)
            requires r == q + 1, k == 6 - (c - a) - (d - b);
    }
}

/// Every sphere index addresses one of its vertices, and a sphere has
/// `6 * sectors * (stacks - 1)` indices.
pub proof fn lemma_sphere_indices_valid(stacks: nat, sectors: nat)
    requires
        stacks >= 2,
        sphere_fits(stacks, sectors),
    ensures
        all_below(sphere_index_seq(stacks, sectors), sphere_vertex_count(stacks, sectors)),
        sphere_index_seq(stacks, sectors).len() == 6 * sectors * (stacks - 1),
{
    let cells = sphere_cells(stacks, sectors);
    assert forall|i: nat, j: nat| i < stacks && j < sectors implies all_below(
        #[trigger] cells(i, j),
        sphere_vertex_count(stacks, sectors),
    ) by {
        lemma_sphere_cell(stacks, sectors, i, j);
    }
    lemma_grid_below(stacks, sectors, cells, sphere_vertex_count(stacks, sectors));
    lemma_sphere_len(stacks, sectors, stacks);
    assert(sectors * (6 * stacks - 3 - 3) == 6 * sectors * (stacks - 1)) by (nonlinear_arith);
}

/// Checks a sphere description and builds its triangle indices: `stacks + 1`
/// rings of `sectors + 1` vertices from top to bottom, the top and bottom
/// stacks closed by single triangles. `radius_valid` is the outcome of the
/// caller's `radius > 0` test.
pub fn sphere_indices(radius_valid: bool, stacks: u32, sectors: u32) -> (r: Result<Vec<u32>, SphereError>)
    requires
        radius_valid && stacks >= 2 && sectors >= 3 ==> sphere_fits(stacks as nat, sectors as nat),
    ensures
        !radius_valid ==> r == Err::<Vec<u32>, SphereError>(SphereError::NonPositiveRadius),
        radius_valid && stacks < 2 ==> r == Err::<Vec<u32>, SphereError>(SphereError::TooFewStacks),
        radius_valid && stacks >= 2 && sectors < 3 ==> r == Err::<Vec<u32>, SphereError>(
            SphereError::TooFewSectors,
        ),
        radius_valid && stacks >= 2 && sectors >= 3 ==> (r matches Ok(indices) && indices@
            == sphere_index_seq(stacks as nat, sectors as nat) && all_below(
            indices@,
            sphere_vertex_count(stacks as nat, sectors as nat),
        ) && indices@.len() == 6 * sectors * (stacks - 1)),
{
    if !radius_valid {
        return Err(SphereError::NonPositiveRadius);
    }
    if stacks < 2 {
        return Err(SphereError::TooFewStacks);
    }
    if sectors < 3 {
        return Err(SphereError::TooFewSectors);
    }
    let ghost st = stacks as nat;
    let ghost se = sectors as nat;
    let ghost cells = sphere_cells(st, se);
    proof {
        assert(sectors + 1 <= (stacks + 1) * (sectors + 1)) by (nonlinear_arith)
            requires stacks >= 2;
    }
    let mut indices: Vec<u32> = Vec::new();
    let mut i: u32 = 0;
    while i < stacks
        invariant
            st == stacks,
            se == sectors,
            cells == sphere_cells(st, se),
            stacks >= 2,
            sectors >= 3,
            sphere_fits(st, se),
            i <= stacks,
            indices@ == grid(i as nat, se, cells),
        decreases stacks - i,
    {
        proof {
            assert(i * (sectors + 1) + sectors + 1 + sectors <= (stacks + 1) * (sectors + 1) - 1) by (nonlinear_arith)
                requires i < stacks;
        }
        let k1 = i * (sectors + 1);
        let k2 = k1 + sectors + 1;
        let mut j: u32 = 0;
        while j < sectors
            invariant
                st == stacks,
                se == sectors,
                cells == sphere_cells(st, se),
                stacks >= 2,
                sectors >= 3,
                sphere_fits(st, se),
                i < stacks,
                j <= sectors,
                k1 == i * (sectors + 1),
                k2 == k1 + sectors + 1,
                k2 + sectors <= (stacks + 1) * (sectors + 1) - 1,
                indices@ == grid(i as nat, se, cells) + grid_row(i as nat, j as nat, cells),
            decreases sectors - j,
        {
            let a = k1 + j;
            let b = k2 + j;
            let ghost before = indices@;
            if i != 0 {
                indices.push(a);
                indices.push(a + 1);
                indices.push(b);
            }
            let ghost mid = indices@;
            if i != stacks - 1 {
                indices.push(a + 1);
                indices.push(b + 1);
                indices.push(b);
            }
            proof {
                assert(indices@ =~= before + cells(i as nat, j as nat));
                assert(grid_row(i as nat, (j + 1) as nat, cells) == grid_row(i as nat, j as nat, cells) + cells(
                    i as nat,
                    j as nat,
                ));
            }
            j = j + 1;
        }
        proof {
            assert(grid((i + 1) as nat, se, cells) == grid(i as nat, se, cells) + grid_row(i as nat, se, cells));
        }
        i = i + 1;
    }
    proof {
        lemma_sphere_indices_valid(st, se);
    }
    Ok(indices)
}

// ---------------------------------------------------------------- torus

/// The two triangles of the torus cell at ring `v`, side `h`, with `sides + 1` vertices per ring.
pub open spec fn torus_cell(sides: nat, v: nat, h: nat) -> Seq<u32> {
    let per_row = sides + 1;
    let lt = h + v * per_row;
    let rt = (h + 1) + v * per_row;
    let lb = h + (v + 1) * per_row;
    let rb = (h + 1) + (v + 1) * per_row;
    seq![lt as u32, rt as u32, lb as u32, rt as u32, rb as u32, lb as u32]
}

pub open spec fn torus_cells(sides: nat) -> spec_fn(nat, nat) -> Seq<u32> {
    |v: nat, h: nat| torus_cell(sides, v, h)
}

/// The complete index buffer of a torus with `rings + 1` rows of `sides + 1` vertices.
pub open spec fn torus_index_seq(sides: nat, rings: nat) -> Seq<u32> {
    grid(rings, sides, torus_cells(sides))
}

/// The number of vertices of a torus.
pub open spec fn torus_vertex_count(sides: nat, rings: nat) -> nat {
    (rings + 1) * (sides + 1)
}

/// The row and column counts and the largest index of a torus fit in a `u32`.
pub open spec fn torus_fits(sides: nat, rings: nat) -> bool {
    &&& sides < u32::MAX
    &&& rings < u32::MAX
    &&& sides > 0 && rings > 0 ==> torus_vertex_count(sides, rings) <= u32::MAX + 1
}

/// Every torus index addresses one of its vertices, and there are six indices per cell.
pub proof fn lemma_torus_indices_valid(sides: nat, rings: nat)
    requires
        torus_fits(sides, rings),
    ensures
        all_below(torus_index_seq(sides, rings), torus_vertex_count(sides, rings)),
        torus_index_seq(sides, rings).len() == 6 * sides * rings,
{
    let cells = torus_cells(sides);
    assert forall|v: nat, h: nat| v < rings && h < sides implies all_below(
        #[trigger] cells(v, h),
        torus_vertex_count(sides, rings),
    ) by {
        assert((h + 1) + (v + 1) * (sides + 1) < (rings + 1) * (sides + 1)) by (nonlinear_arith)
            requires v < rings, h < sides;
        assert(h + v * (sides + 1) <= (h + 1) + (v + 1) * (sides + 1)) by (nonlinear_arith);
        assert(h + (v + 1) * (sides + 1) <= (h + 1) + (v + 1) * (sides + 1));
        assert((h + 1) + v * (sides + 1) <= (h + 1) + (v + 1) * (sides + 1)) by (nonlinear_arith);
    }
    lemma_grid_below(rings, sides, cells, torus_vertex_count(sides, rings));
    assert forall|v: nat, h: nat| v < rings && h < sides implies (#[trigger] cells(v, h)).len() == 6 by {}
    lemma_grid_len(rings, sides, cells, 6);
    assert(rings * sides * 6 == 6 * sides * rings) by (nonlinear_arith);
}

/// Builds the triangle indices of a torus: `rings + 1` rows of `sides + 1`
/// vertices, two triangles per cell.
pub fn torus_indices(sides: u32, rings: u32) -> (indices: Vec<u32>)
    requires
        torus_fits(sides as nat, rings as nat),
    ensures
        indices@ == torus_index_seq(sides as nat, rings as nat),
        all_below(indices@, torus_vertex_count(sides as nat, rings as nat)),
        indices@.len() == 6 * sides * rings,
{
    let ghost cells = torus_cells(sides as nat);
    let per_row: u32 = sides + 1;
    let mut indices: Vec<u32> = Vec::new();
    let mut v: u32 = 0;
    while v < rings
        invariant
            cells == torus_cells(sides as nat),
            per_row == sides + 1,
            torus_fits(sides as nat, rings as nat),
            v <= rings,
            indices@ == grid(v as nat, sides as nat, cells),
        decreases rings - v,
    {
        let mut h: u32 = 0;
        while h < sides
            invariant
                cells == torus_cells(sides as nat),
                per_row == sides + 1,
                torus_fits(sides as nat, rings as nat),
                v < rings,
                h <= sides,
                indices@ == grid(v as nat, sides as nat, cells) + grid_row(v as nat, h as nat, cells),
            decreases sides - h,
        {
            proof {
                assert((h + 1) + (v + 1) * (sides + 1) <= (rings + 1) * (sides + 1) - 1) by (nonlinear_arith)
                    requires v < rings, h < sides;
                assert(h + v * (sides + 1) <= (h + 1) + (v + 1) * (sides + 1)) by (nonlinear_arith);
                assert((h + 1) + v * (sides + 1) <= (h + 1) + (v + 1) * (sides + 1)) by (nonlinear_arith);
                assert(v * (sides + 1) <= (v + 1) * (sides + 1)) by (nonlinear_arith);
            }
            let lt = h + v * per_row;
            let rt = (h + 1) + v * per_row;
            let lb = h + (v + 1) * per_row;
            let rb = (h + 1) + (v + 1) * per_row;
            let ghost before = indices@;
            indices.push(lt);
            indices.push(rt);
            indices.push(lb);
            indices.push(rt);
            indices.push(rb);
            indices.push(lb);
            proof {
                assert(indices@ =~= before + cells(v as nat, h as nat));
                assert(grid_row(v as nat, (h + 1) as nat, cells) == grid_row(v as nat, h as nat, cells) + cells(
                    v as nat,
                    h as nat,
                ));
            }
            h = h + 1;
        }
        proof {
            assert(grid((v + 1) as nat, sides as nat, cells) == grid(v as nat, sides as nat, cells) + grid_row(
                v as nat,
                sides as nat,
                cells,
            ));
        }
        v = v + 1;
    }
    proof {
        lemma_torus_indices_valid(sides as nat, rings as nat);
    }
    indices
}

// ---------------------------------------------------------------- capsule

/// The latitude count a capsule actually uses: odd counts are rounded up to even.
pub open spec fn capsule_lats(latitudes: nat) -> nat {
    if latitudes % 2 != 0 { latitudes + 1 } else { latitudes }
}

/// Latitude rows per hemisphere.
pub open spec fn capsule_half(latitudes: nat) -> nat {
    capsule_lats(latitudes) / 2
}

/// First vertex of the north hemisphere rows (after the north pole fan).
pub open spec fn cap_north_hemi(lon: nat) -> nat {
    lon
}

/// First vertex of the north equator row.
pub open spec fn cap_north_equator(lat: nat, lon: nat) -> nat {
    cap_north_hemi(lon) + (lon + 1) * ((capsule_half(lat) - 1) as nat)
}

/// First vertex of the inner cylinder rows.
pub open spec fn cap_cylinder(lat: nat, lon: nat) -> nat {
    cap_north_equator(lat, lon) + (lon + 1)
}

/// First vertex of the south equator row.
pub open spec fn cap_south_equator(lat: nat, lon: nat, rings: nat) -> nat {
    if rings > 0 {
        cap_cylinder(lat, lon) + (lon + 1) * (rings + 1)
    } else {
        cap_cylinder(lat, lon)
    }
}

/// First vertex of the south hemisphere rows.
pub open spec fn cap_south_hemi(lat: nat, lon: nat, rings: nat) -> nat {
    cap_south_equator(lat, lon, rings) + (lon + 1)
}

/// First vertex of the last south hemisphere row, next to the south pole.
pub open spec fn cap_south_polar(lat: nat, lon: nat, rings: nat) -> nat {
    cap_south_hemi(lat, lon, rings) + (lon + 1) * ((capsule_half(lat) - 2) as nat)
}

/// First vertex of the south pole fan.
pub open spec fn cap_south_cap(lat: nat, lon: nat, rings: nat) -> nat {
    cap_south_polar(lat, lon, rings) + (lon + 1)
}

/// The number of vertices of a capsule.
pub open spec fn capsule_vertex_count(lat: nat, lon: nat, rings: nat) -> nat {
    cap_south_cap(lat, lon, rings) + lon
}

/// Indices of one hemisphere.
pub open spec fn cap_hemi_indices(lat: nat, lon: nat) -> nat {
    ((capsule_half(lat) - 1) as nat) * (lon * 6)
}

/// The number of indices of a capsule.
pub open spec fn capsule_index_count(lat: nat, lon: nat, rings: nat) -> nat {
    lon * 3 + cap_hemi_indices(lat, lon) + (rings + 2) * (lon * 6) + cap_hemi_indices(lat, lon) + lon * 3
}

/// The capsule description is one the engine can build: at least two latitude
/// rows per hemisphere, at least one longitude, and counts that fit in `u32`.
pub open spec fn capsule_fits(lat: nat, lon: nat, rings: nat) -> bool {
    &&& 3 <= lat < u32::MAX
    &&& lon >= 1
    &&& capsule_vertex_count(lat, lon, rings) <= u32::MAX
    &&& capsule_index_count(lat, lon, rings) <= u32::MAX
}

/// The two triangles of the quad at row `i`, column `j` of a strip of rows that
/// start at vertex `base` and are `stride` vertices apart.
pub open spec fn quad_cell(base: nat, stride: nat, i: nat, j: nat) -> Seq<u32> {
    let c = base + i * stride;
    let n = c + stride;
    seq![
        (c + j) as u32,
        (n + j + 1) as u32,
        (c + j + 1) as u32,
        (c + j) as u32,
        (n + j) as u32,
        (n + j + 1) as u32,
    ]
}

pub open spec fn quad_cells(base: nat, stride: nat) -> spec_fn(nat, nat) -> Seq<u32> {
    |i: nat, j: nat| quad_cell(base, stride, i, j)
}

/// The fan around the north pole: pole vertex `i` joined to the first hemisphere row.
pub open spec fn north_cap_cells(first_row: nat) -> spec_fn(nat, nat) -> Seq<u32> {
    |r: nat, i: nat| seq![i as u32, (first_row + i) as u32, (first_row + i + 1) as u32]
}

/// The fan around the south pole: pole vertex `pole + i` joined to the last hemisphere row.
pub open spec fn south_cap_cells(last_row: nat, pole: nat) -> spec_fn(nat, nat) -> Seq<u32> {
    |r: nat, i: nat| seq![(pole + i) as u32, (last_row + i + 1) as u32, (last_row + i) as u32]
}

/// The complete index buffer of a capsule: north pole fan, north hemisphere,
/// cylinder (from the north equator to the south equator), south hemisphere
/// (from the south equator) and south pole fan.
pub open spec fn capsule_index_seq(lat: nat, lon: nat, rings: nat) -> Seq<u32> {
    let stride = lon + 1;
    let hemi_rows = (capsule_half(lat) - 1) as nat;
    grid(1, lon, north_cap_cells(cap_north_hemi(lon)))
        + grid(hemi_rows, lon, quad_cells(cap_north_hemi(lon), stride))
        + grid(rings + 2, lon, quad_cells(cap_north_equator(lat, lon), stride))
        + grid(hemi_rows, lon, quad_cells(cap_south_equator(lat, lon, rings), stride))
        + grid(1, lon, south_cap_cells(cap_south_polar(lat, lon, rings), cap_south_cap(lat, lon, rings)))
}

/// Where each section of a capsule's vertex and index buffers begins.
#[derive(Clone, Copy, Debug, PartialEq, Eq, Structural)]
pub struct CapsuleLayout {
    /// latitude count after rounding up to even
    pub latitudes: u32,
    pub half_lats: u32,
    pub offset_north_hemi: u32,
    pub offset_north_equator: u32,
    pub offset_cylinder: u32,
    pub offset_south_equator: u32,
    pub offset_south_hemi: u32,
    pub offset_south_polar: u32,
    pub offset_south_cap: u32,
    pub vertex_count: u32,
    pub idx_offset_north_hemi: u32,
    pub idx_offset_cylinder: u32,
    pub idx_offset_south_hemi: u32,
    pub idx_offset_south_cap: u32,
    pub index_count: u32,
}

/// Computes the vertex and index layout of a capsule with `latitudes`
/// latitude segments, `longitudes` longitude segments and `rings` inner
/// cylinder rings.
pub fn capsule_layout(latitudes: u32, longitudes: u32, rings: u32) -> (l: CapsuleLayout)
    requires
        capsule_fits(latitudes as nat, longitudes as nat, rings as nat),
    ensures
        l.latitudes == capsule_lats(latitudes as nat),
        l.half_lats == capsule_half(latitudes as nat),
        l.offset_north_hemi == cap_north_hemi(longitudes as nat),
        l.offset_north_equator == cap_north_equator(latitudes as nat, longitudes as nat),
        l.offset_cylinder == cap_cylinder(latitudes as nat, longitudes as nat),
        l.offset_south_equator == cap_south_equator(latitudes as nat, longitudes as nat, rings as nat),
        l.offset_south_hemi == cap_south_hemi(latitudes as nat, longitudes as nat, rings as nat),
        l.offset_south_polar == cap_south_polar(latitudes as nat, longitudes as nat, rings as nat),
        l.offset_south_cap == cap_south_cap(latitudes as nat, longitudes as nat, rings as nat),
        l.vertex_count == capsule_vertex_count(latitudes as nat, longitudes as nat, rings as nat),
        l.idx_offset_north_hemi == longitudes * 3,
        l.idx_offset_cylinder == longitudes * 3 + cap_hemi_indices(latitudes as nat, longitudes as nat),
        l.idx_offset_south_hemi == longitudes * 3 + cap_hemi_indices(latitudes as nat, longitudes as nat) + (
        rings + 2) * (longitudes * 6),
        l.idx_offset_south_cap == capsule_index_count(latitudes as nat, longitudes as nat, rings as nat)
            - longitudes * 3,
        l.index_count == capsule_index_count(latitudes as nat, longitudes as nat, rings as nat),
{
    let ghost lat = latitudes as nat;
    let ghost lon = longitudes as nat;
    let ghost rn = rings as nat;
    let lats = if latitudes % 2 != 0 { latitudes + 1 } else { latitudes };
    let half_lats = lats / 2;
    let stride = longitudes + 1;
    proof {
        assert(half_lats >= 2);
        assert(stride * ((half_lats - 1) as nat) <= capsule_vertex_count(lat, lon, rn)) by (nonlinear_arith)
            requires
                capsule_vertex_count(lat, lon, rn) >= lon + stride * ((half_lats - 1) as nat),
        {
        }
        assert(rings > 0 ==> stride * (rings + 1) <= capsule_vertex_count(lat, lon, rn));
        assert(stride * ((half_lats - 2) as nat) <= capsule_vertex_count(lat, lon, rn));
        assert(lon * 6 <= (rn + 2) * (lon * 6)) by (nonlinear_arith);
        assert(rn + 2 <= (rn + 2) * (lon * 6)) by (nonlinear_arith) requires lon >= 1;
        assert((rings + 2) * (lon * 6) <= capsule_index_count(lat, lon, rn));
        assert(rn + 1 <= stride * (rn + 1)) by (nonlinear_arith) requires stride >= 1;
        assert(((half_lats - 1) as nat) * (lon * 6) <= capsule_index_count(lat, lon, rn));
    }
    let offset_north_hemi = longitudes;
    let offset_north_equator = offset_north_hemi + stride * (half_lats - 1);
    let offset_cylinder = offset_north_equator + stride;
    let offset_south_equator = if rings > 0 {
        offset_cylinder + stride * (rings + 1)
    } else {
        offset_cylinder
    };
    let offset_south_hemi = offset_south_equator + stride;
    let offset_south_polar = offset_south_hemi + stride * (half_lats - 2);
    let offset_south_cap = offset_south_polar + stride;
    let vertex_count = offset_south_cap + longitudes;

    let long3 = longitudes * 3;
    let long6 = longitudes * 6;
    let hemi_long = (half_lats - 1) * long6;
    let idx_offset_north_hemi = long3;
    let idx_offset_cylinder = idx_offset_north_hemi + hemi_long;
    let idx_offset_south_hemi = idx_offset_cylinder + (rings + 2) * long6;
    let idx_offset_south_cap = idx_offset_south_hemi + hemi_long;
    let index_count = idx_offset_south_cap + long3;
    CapsuleLayout {
        latitudes: lats,
        half_lats,
        offset_north_hemi,
        offset_north_equator,
        offset_cylinder,
        offset_south_equator,
        offset_south_hemi,
        offset_south_polar,
        offset_south_cap,
        vertex_count,
        idx_offset_north_hemi,
        idx_offset_cylinder,
        idx_offset_south_hemi,
        idx_offset_south_cap,
        index_count,
    }
}

proof fn lemma_quad_grid(base: nat, stride: nat, rows: nat, cols: nat)
    requires
        base + rows * stride + cols <= u32::MAX,
    ensures
        all_below(grid(rows, cols, quad_cells(base, stride)), base + rows * stride + cols + 1),
        grid(rows, cols, quad_cells(base, stride)).len() == rows * cols * 6,
{
    let cells = quad_cells(base, stride);
    let bound = base + rows * stride + cols + 1;
    assert forall|i: nat, j: nat| i < rows && j < cols implies all_below(#[trigger] cells(i, j), bound) by {
        assert(base + i * stride + stride + j + 1 < bound) by (nonlinear_arith)
            requires i < rows, j < cols, bound == base + rows * stride + cols + 1;
    }
    lemma_grid_below(rows, cols, cells, bound);
    assert forall|i: nat, j: nat| i < rows && j < cols implies (#[trigger] cells(i, j)).len() == 6 by {}
    lemma_grid_len(rows, cols, cells, 6);
}

/// Appends the quad strips of `rows` rows and `cols` columns whose vertex rows
/// start at `base` and are `stride` apart.
fn push_quad_strips(indices: &mut Vec<u32>, base: u32, stride: u32, rows: u32, cols: u32)
    requires
        base + rows * stride + cols <= u32::MAX,
    ensures
        final(indices)@ == old(indices)@ + grid(rows as nat, cols as nat, quad_cells(base as nat, stride as nat)),
{
    let ghost cells = quad_cells(base as nat, stride as nat);
    let ghost start = indices@;
    let mut i: u32 = 0;
    while i < rows
        invariant
            cells == quad_cells(base as nat, stride as nat),
            base + rows * stride + cols <= u32::MAX,
            i <= rows,
            indices@ == start + grid(i as nat, cols as nat, cells),
        decreases rows - i,
    {
        proof {
            assert(base + (i + 1) * stride <= base + rows * stride) by (nonlinear_arith)
                requires i < rows;
            assert(i * stride + stride == (i + 1) * stride) by (nonlinear_arith);
        }
        let current = base + i * stride;
        let next = current + stride;
        let mut j: u32 = 0;
        while j < cols
            invariant
                cells == quad_cells(base as nat, stride as nat),
                i < rows,
                j <= cols,
                current == base + i * stride,
                next == current + stride,
                next + cols <= u32::MAX,
                indices@ == start + grid(i as nat, cols as nat, cells) + grid_row(i as nat, j as nat, cells),
            decreases cols - j,
        {
            let ghost before = indices@;
            indices.push(current + j);
            indices.push(next + j + 1);
            indices.push(current + j + 1);
            indices.push(current + j);
            indices.push(next + j);
            indices.push(next + j + 1);
            proof {
                assert(indices@ =~= before + cells(i as nat, j as nat));
                assert(grid_row(i as nat, (j + 1) as nat, cells) == grid_row(i as nat, j as nat, cells) + cells(
                    i as nat,
                    j as nat,
                ));
            }
            j = j + 1;
        }
        proof {
            assert(grid((i + 1) as nat, cols as nat, cells) == grid(i as nat, cols as nat, cells) + grid_row(
                i as nat,
                cols as nat,
                cells,
            ));
        }
        i = i + 1;
    }
}

/// Facts about the capsule layout that the index bounds rest on.
proof fn lemma_capsule_sections(lat: nat, lon: nat, rings: nat)
    requires
        capsule_fits(lat, lon, rings),
    ensures
        capsule_half(lat) >= 2,
        cap_north_hemi(lon) + ((capsule_half(lat) - 1) as nat) * (lon + 1) + lon == cap_north_equator(lat, lon) + lon,
        cap_north_equator(lat, lon) + (rings + 2) * (lon + 1) + lon < capsule_vertex_count(lat, lon, rings),
        cap_south_equator(lat, lon, rings) + ((capsule_half(lat) - 1) as nat) * (lon + 1) + lon
            == cap_south_polar(lat, lon, rings) + lon,
        cap_north_equator(lat, lon) + lon < capsule_vertex_count(lat, lon, rings),
        cap_south_polar(lat, lon, rings) + lon < cap_south_cap(lat, lon, rings),
{
    let h = capsule_half(lat);
    let s = lon + 1;
    assert(((h - 1) as nat) * s == s * ((h - 1) as nat)) by (nonlinear_arith);
    assert(((h - 1) as nat) * s == ((h - 2) as nat) * s + s) by (nonlinear_arith) requires h >= 2;
    assert((rings + 2) * s == (rings + 1) * s + s) by (nonlinear_arith);
    assert((rings + 1) * s == s * (rings + 1)) by (nonlinear_arith);
    assert(((h - 2) as nat) * s == s * ((h - 2) as nat)) by (nonlinear_arith);
    assert(2 * s == s + s);
}

/// Every capsule index addresses one of its vertices, and the index buffer has
/// exactly the length the layout reserves for it.
pub proof fn lemma_capsule_indices_valid(lat: nat, lon: nat, rings: nat)
    requires
        capsule_fits(lat, lon, rings),
    ensures
        all_below(capsule_index_seq(lat, lon, rings), capsule_vertex_count(lat, lon, rings)),
        capsule_index_seq(lat, lon, rings).len() == capsule_index_count(lat, lon, rings),
{
    lemma_capsule_sections(lat, lon, rings);
    let vc = capsule_vertex_count(lat, lon, rings);
    let s = lon + 1;
    let hr = (capsule_half(lat) - 1) as nat;
    let nc = grid(1, lon, north_cap_cells(cap_north_hemi(lon)));
    let nh = grid(hr, lon, quad_cells(cap_north_hemi(lon), s));
    let cy = grid(rings + 2, lon, quad_cells(cap_north_equator(lat, lon), s));
    let sh = grid(hr, lon, quad_cells(cap_south_equator(lat, lon, rings), s));
    let sc = grid(1, lon, south_cap_cells(cap_south_polar(lat, lon, rings), cap_south_cap(lat, lon, rings)));

    assert forall|r: nat, i: nat| r < 1 && i < lon implies all_below(
        #[trigger] north_cap_cells(cap_north_hemi(lon))(r, i),
        vc,
    ) by {}
    lemma_grid_below(1, lon, north_cap_cells(cap_north_hemi(lon)), vc);
    assert forall|r: nat, i: nat| r < 1 && i < lon implies (#[trigger] north_cap_cells(cap_north_hemi(lon))(r, i)).len() == 3 by {}
    lemma_grid_len(1, lon, north_cap_cells(cap_north_hemi(lon)), 3);

    assert forall|r: nat, i: nat| r < 1 && i < lon implies all_below(
        #[trigger] south_cap_cells(cap_south_polar(lat, lon, rings), cap_south_cap(lat, lon, rings))(r, i),
        vc,
    ) by {}
    lemma_grid_below(1, lon, south_cap_cells(cap_south_polar(lat, lon, rings), cap_south_cap(lat, lon, rings)), vc);
    assert forall|r: nat, i: nat| r < 1 && i < lon implies (#[trigger] south_cap_cells(
        cap_south_polar(lat, lon, rings),
        cap_south_cap(lat, lon, rings),
    )(r, i)).len() == 3 by {}
    lemma_grid_len(1, lon, south_cap_cells(cap_south_polar(lat, lon, rings), cap_south_cap(lat, lon, rings)), 3);

    lemma_quad_grid(cap_north_hemi(lon), s, hr, lon);
    lemma_quad_grid(cap_north_equator(lat, lon), s, rings + 2, lon);
    lemma_quad_grid(cap_south_equator(lat, lon, rings), s, hr, lon);
    lemma_all_below_monotone(nh, cap_north_hemi(lon) + hr * s + lon + 1, vc);
    lemma_all_below_monotone(cy, cap_north_equator(lat, lon) + (rings + 2) * s + lon + 1, vc);
    lemma_all_below_monotone(sh, cap_south_equator(lat, lon, rings) + hr * s + lon + 1, vc);
    lemma_all_below_concat(nc, nh, vc);
    lemma_all_below_concat(nc + nh, cy, vc);
    lemma_all_below_concat(nc + nh + cy, sh, vc);
    lemma_all_below_concat(nc + nh + cy + sh, sc, vc);
    assert(1 * lon * 3 == lon * 3);
    assert(hr * lon * 6 == hr * (lon * 6)) by (nonlinear_arith);
    assert((rings + 2) * lon * 6 == (rings + 2) * (lon * 6)) by (nonlinear_arith);
}

/// Builds the triangle indices of a capsule with `latitudes` latitude
/// segments (rounded up to even), `longitudes` longitude segments and `rings`
/// inner cylinder rings.
pub fn capsule_indices(latitudes: u32, longitudes: u32, rings: u32) -> (indices: Vec<u32>)
    requires
        capsule_fits(latitudes as nat, longitudes as nat, rings as nat),
    ensures
        indices@ == capsule_index_seq(latitudes as nat, longitudes as nat, rings as nat),
        all_below(indices@, capsule_vertex_count(latitudes as nat, longitudes as nat, rings as nat)),
        indices@.len() == capsule_index_count(latitudes as nat, longitudes as nat, rings as nat),
{
    let ghost lat = latitudes as nat;
    let ghost lon = longitudes as nat;
    let ghost rn = rings as nat;
    let layout = capsule_layout(latitudes, longitudes, rings);
    proof {
        lemma_capsule_sections(lat, lon, rn);
        lemma_capsule_indices_valid(lat, lon, rn);
    }
    let stride = longitudes + 1;
    let mut indices: Vec<u32> = Vec::new();

    // north pole fan
    let ghost north_fan = north_cap_cells(cap_north_hemi(lon));
    let mut i: u32 = 0;
    while i < longitudes
        invariant
            north_fan == north_cap_cells(cap_north_hemi(lon)),
            lon == longitudes,
            layout.offset_north_hemi == longitudes,
            cap_north_equator(lat, lon) + lon < u32::MAX,
            cap_north_hemi(lon) <= cap_north_equator(lat, lon),
            i <= longitudes,
            indices@ == grid_row(0, i as nat, north_fan),
        decreases longitudes - i,
    {
        let ghost before = indices@;
        indices.push(i);
        indices.push(layout.offset_north_hemi + i);
        indices.push(layout.offset_north_hemi + i + 1);
        proof {
            assert(indices@ =~= before + north_fan(0, i as nat));
        }
        i = i + 1;
    }
    assert(grid(1, lon, north_fan) =~= grid(0, lon, north_fan) + grid_row(0, lon, north_fan));
    assert(indices@ == grid(1, lon, north_fan));
    proof {
        assert(rn + 2 <= (rn + 2) * (lon * 6)) by (nonlinear_arith) requires lon >= 1;
    }

    // hemispheres and cylinder
    push_quad_strips(&mut indices, layout.offset_north_hemi, stride, layout.half_lats - 1, longitudes);
    push_quad_strips(&mut indices, layout.offset_north_equator, stride, rings + 2, longitudes);
    push_quad_strips(&mut indices, layout.offset_south_equator, stride, layout.half_lats - 1, longitudes);

    // south pole fan
    let ghost south_fan = south_cap_cells(cap_south_polar(lat, lon, rn), cap_south_cap(lat, lon, rn));
    let ghost prefix = indices@;
    let mut i: u32 = 0;
    while i < longitudes
        invariant
            south_fan == south_cap_cells(cap_south_polar(lat, lon, rn), cap_south_cap(lat, lon, rn)),
            lon == longitudes,
            layout.offset_south_polar == cap_south_polar(lat, lon, rn),
            layout.offset_south_cap == cap_south_cap(lat, lon, rn),
            layout.offset_south_cap + longitudes <= u32::MAX,
            layout.offset_south_polar + longitudes < layout.offset_south_cap,
            i <= longitudes,
            indices@ == prefix + grid_row(0, i as nat, south_fan),
        decreases longitudes - i,
    {
        let ghost before = indices@;
        indices.push(layout.offset_south_cap + i);
        indices.push(layout.offset_south_polar + i + 1);
        indices.push(layout.offset_south_polar + i);
        proof {
            assert(indices@ =~= before + south_fan(0, i as nat));
        }
        i = i + 1;
    }
    assert(grid(1, lon, south_fan) =~= grid(0, lon, south_fan) + grid_row(0, lon, south_fan));
    assert(indices@ =~= capsule_index_seq(lat, lon, rn));
    indices
}

// ---------------------------------------------------------------- shape descriptions

/// The vertex count and triangle indices of a shape: the vertices themselves
/// (positions, normals, texture coordinates) are floating point and are laid
/// out by the caller in the order the indices assume.
pub struct MeshTopology {
    pub vertex_count: u64,
    pub indices: Vec<u32>,
}

/// The counts of a capsule in closed form: `2n + 2h(n + 1)` vertices plus
/// `(n + 1)(r + 1)` for inner rings, and `6n(2h + r + 1)` indices, with `h`
/// latitude rows per hemisphere, `n` longitudes and `r` rings.
pub proof fn lemma_capsule_counts(lat: nat, lon: nat, rings: nat)
    requires
        lat >= 3,
        lon >= 1,
    ensures
        capsule_vertex_count(lat, lon, rings) == 2 * lon + 2 * capsule_half(lat) * (lon + 1) + (if rings > 0 {
            (lon + 1) * (rings + 1)
        } else {
            0
        }),
        capsule_index_count(lat, lon, rings) == 6 * lon * (2 * capsule_half(lat) + rings + 1),
        capsule_index_count(lat, lon, rings) % 3 == 0,
{
    let h = capsule_half(lat);
    let n = lon;
    assert(h >= 2);
    let cyl: nat = if rings > 0 { ((n + 1) * (rings + 1)) as nat } else { 0 };
    assert(capsule_vertex_count(lat, lon, rings) == n + (n + 1) * ((h - 1) as nat) + (n + 1) + cyl + (n + 1) + (n
        + 1) * ((h - 2) as nat) + (n + 1) + n);
    assert(n + (n + 1) * ((h - 1) as nat) + (n + 1) + cyl + (n + 1) + (n + 1) * ((h - 2) as nat) + (n + 1) + n == 2
        * n + 2 * h * (n + 1) + cyl) by (nonlinear_arith)
        requires h >= 2;
    assert(n * 3 + ((h - 1) as nat) * (n * 6) + (rings + 2) * (n * 6) + ((h - 1) as nat) * (n * 6) + n * 3 == 6 * n
        * (2 * h + rings + 1)) by (nonlinear_arith)
        requires h >= 2;
    let q: int = (2 * n * (2 * h + rings + 1)) as int;
    assert(6 * n * (2 * h + rings + 1) == q * 3) by (nonlinear_arith)
        requires q == 2 * n * (2 * h + rings + 1);
    vstd::arithmetic::div_mod::lemma_mod_multiples_basic(q, 3);
}

/// A capsule's topology: latitude segments (odd counts are rounded up to
/// even), longitude segments and inner cylinder rings. Its height and radius
/// only place the vertices.
#[derive(Clone, Copy, Debug, PartialEq, Eq, Structural)]
pub struct Capsule {
    pub latitudes: u32,
    pub longitudes: u32,
    pub rings: u32,
}

impl Default for Capsule {
    /// 16 latitudes, 32 longitudes, no inner rings.
    fn default() -> (c: Capsule)
        ensures
            c == (Capsule { latitudes: 16, longitudes: 32, rings: 0 }),
    {
        Capsule { latitudes: 16, longitudes: 32, rings: 0 }
    }
}

impl Capsule {
    /// How many latitude segments there are.
    pub fn latitudes(self, latitudes: u32) -> (c: Self)
        ensures
            c == (Capsule { latitudes, ..self }),
    {
        Capsule { latitudes, ..self }
    }

    /// How many longitude segments there are.
    pub fn longitudes(self, longitudes: u32) -> (c: Self)
        ensures
            c == (Capsule { longitudes, ..self }),
    {
        Capsule { longitudes, ..self }
    }

    /// Inner rings of the cylinder.
    pub fn rings(self, rings: u32) -> (c: Self)
        ensures
            c == (Capsule { rings, ..self }),
    {
        Capsule { rings, ..self }
    }

    /// The capsule's mesh: it always succeeds for a capsule with at least
    /// three latitudes and one longitude whose counts fit in `u32`, with
    /// `2n + 2h(n + 1) (+ (n + 1)(r + 1))` vertices and `6n(2h + r + 1)`
    /// indices, every triangle on existing vertices.
    pub fn into_asset(&self) -> (m: MeshTopology)
        requires
            capsule_fits(self.latitudes as nat, self.longitudes as nat, self.rings as nat),
        ensures
            m.vertex_count == capsule_vertex_count(self.latitudes as nat, self.longitudes as nat, self.rings as nat),
            m.vertex_count == 2 * self.longitudes + 2 * capsule_half(self.latitudes as nat) * (self.longitudes + 1)
                + (if self.rings > 0 { (self.longitudes + 1) * (self.rings + 1) } else { 0 }),
            m.indices@ == capsule_index_seq(self.latitudes as nat, self.longitudes as nat, self.rings as nat),
            m.indices@.len() == 6 * self.longitudes * (2 * capsule_half(self.latitudes as nat) + self.rings + 1),
            m.indices@.len() % 3 == 0,
            all_below(m.indices@, m.vertex_count as nat),
    {
        proof {
            lemma_capsule_counts(self.latitudes as nat, self.longitudes as nat, self.rings as nat);
        }
        let layout = capsule_layout(self.latitudes, self.longitudes, self.rings);
        let indices = capsule_indices(self.latitudes, self.longitudes, self.rings);
        MeshTopology { vertex_count: layout.vertex_count as u64, indices }
    }
}

/// A UV sphere's topology: sectors around it and stacks from top to bottom.
/// Its radius only places the vertices; it must be greater than zero.
#[derive(Clone, Copy, Debug, PartialEq, Eq, Structural)]
pub struct Sphere {
    pub sectors: u32,
    pub stacks: u32,
}

impl Default for Sphere {
    /// 32 sectors and 16 stacks.
    fn default() -> (s: Sphere)
        ensures
            s == (Sphere { sectors: 32, stacks: 16 }),
    {
        Sphere { sectors: 32, stacks: 16 }
    }
}

impl Sphere {
    /// How many sections from bottom to top; at least two are needed.
    pub fn stacks(self, stacks: u32) -> (s: Self)
        ensures
            s == (Sphere { stacks, ..self }),
    {
        Sphere { stacks, ..self }
    }

    /// How many sections wrap around the sphere; at least three are needed.
    pub fn sectors(self, sectors: u32) -> (s: Self)
        ensures
            s == (Sphere { sectors, ..self }),
    {
        Sphere { sectors, ..self }
    }

    /// The sphere's mesh, for a radius that is greater than zero when
    /// `radius_positive`: refused exactly when the radius is not positive,
    /// there are fewer than two stacks or fewer than three sectors (checked
    /// in that order), else `(stacks + 1)(sectors + 1)` vertices and
    /// `6 sectors (stacks - 1)` indices, every triangle on existing vertices.
    pub fn into_asset(&self, radius_positive: bool) -> (r: Result<MeshTopology, SphereError>)
        requires
            radius_positive && self.stacks >= 2 && self.sectors >= 3 ==> sphere_fits(
                self.stacks as nat,
                self.sectors as nat,
            ),
        ensures
            r is Err <==> (!radius_positive || self.stacks < 2 || self.sectors < 3),
            !radius_positive ==> r == Err::<MeshTopology, SphereError>(SphereError::NonPositiveRadius),
            radius_positive && self.stacks < 2 ==> r == Err::<MeshTopology, SphereError>(SphereError::TooFewStacks),
            radius_positive && self.stacks >= 2 && self.sectors < 3 ==> r == Err::<MeshTopology, SphereError>(
                SphereError::TooFewSectors,
            ),
            r matches Ok(m) ==> {
                &&& m.vertex_count == sphere_vertex_count(self.stacks as nat, self.sectors as nat)
                &&& m.indices@ == sphere_index_seq(self.stacks as nat, self.sectors as nat)
                &&& m.indices@.len() == 6 * self.sectors * (self.stacks - 1)
                &&& all_below(m.indices@, m.vertex_count as nat)
            },
    {
        match sphere_indices(radius_positive, self.stacks, self.sectors) {
            Err(e) => Err(e),
            Ok(indices) => {
                let st = self.stacks as u64;
                let se = self.sectors as u64;
                assert((st + 1) * (se + 1) <= u32::MAX + 1);
                let vertex_count = (st + 1) * (se + 1);
                Ok(MeshTopology { vertex_count, indices })
            },
        }
    }
}

/// A plane's topology: its inner subdivisions. Its normal and size only
/// place the vertices.
#[derive(Clone, Copy, Debug, PartialEq, Eq, Structural)]
pub struct Plane {
    pub subdivisions: u32,
}

impl Default for Plane {
    /// No subdivisions: a single quad.
    fn default() -> (p: Plane)
        ensures
            p == (Plane { subdivisions: 0 }),
    {
        Plane { subdivisions: 0 }
    }
}

impl Plane {
    /// How many times the plane is subdivided along each side.
    pub fn subdivisions(self, subdivisions: u32) -> (p: Self)
        ensures
            p == (Plane { subdivisions }),
    {
        Plane { subdivisions }
    }

    /// The plane's mesh: `(s + 2)^2` vertices row by row and two triangles
    /// per grid square, every triangle on existing vertices.
    pub fn into_asset(&self) -> (m: MeshTopology)
        requires
            plane_fits(self.subdivisions as nat),
        ensures
            m.vertex_count == plane_side(self.subdivisions as nat) * plane_side(self.subdivisions as nat),
            m.indices@ == plane_index_seq(self.subdivisions as nat),
            m.indices@.len() == 6 * plane_quad_count(self.subdivisions as nat),
            all_below(m.indices@, m.vertex_count as nat),
    {
        let n = self.subdivisions as u64 + 2;
        assert(n * n <= u32::MAX);
        let indices = plane_indices(self.subdivisions);
        MeshTopology { vertex_count: n * n, indices }
    }
}

/// A torus's topology: sides around the tube and rings around the hole. Its
/// radii only place the vertices.
#[derive(Clone, Copy, Debug, PartialEq, Eq, Structural)]
pub struct Torus {
    pub sides: u32,
    pub rings: u32,
}

impl Torus {
    /// The torus's mesh: `rings + 1` rows of `sides + 1` vertices and two
    /// triangles per cell, every triangle on existing vertices.
    pub fn into_asset(&self) -> (m: MeshTopology)
        requires
            torus_fits(self.sides as nat, self.rings as nat),
        ensures
            m.vertex_count == torus_vertex_count(self.sides as nat, self.rings as nat),
            m.indices@ == torus_index_seq(self.sides as nat, self.rings as nat),
            m.indices@.len() == 6 * self.sides * self.rings,
            all_below(m.indices@, m.vertex_count as nat),
    {
        let rows = self.rings as u64 + 1;
        let per_row = self.sides as u64 + 1;
        assert(rows * per_row <= u64::MAX) by (nonlinear_arith)
            requires rows <= 0xffff_ffff, per_row <= 0xffff_ffff;
        let indices = torus_indices(self.sides, self.rings);
        MeshTopology { vertex_count: rows * per_row, indices }
    }
}

/// A single triangle. Its three corners only place the vertices.
#[derive(Clone, Copy, Debug, PartialEq, Eq, Structural)]
pub struct Triangle;

impl Default for Triangle {
    fn default() -> (t: Triangle)
        ensures
            t == Triangle,
    {
        Triangle
    }
}

impl Triangle {
    /// The triangle's mesh: three vertices in corner order, one triangle.
    pub fn into_asset(&self) -> (m: MeshTopology)
        ensures
            m.vertex_count == 3,
            m.indices@ == seq![0u32, 1, 2],
    {
        MeshTopology { vertex_count: 3, indices: vec![0, 1, 2] }
    }
}

} // verus!
