use maple::primitives::{
    Capsule, Plane, Sphere, Torus, Triangle,
    capsule_indices, capsule_layout, plane_indices, sphere_indices, torus_indices, SphereError,
};

/// Triangles of a grid of quads, written the way a row-by-row mesh builder
/// writes them, to hold the library's output against.
fn plane_reference(subdivisions: u32) -> Vec<u32> {
    let n = subdivisions + 2;
    let mut out = Vec::new();
    for z in 0..n - 1 {
        for x in 0..n - 1 {
            let q = z * n + x;
            out.extend_from_slice(&[q + n + 1, q + 1, q + n, q, q + n, q + 1]);
        }
    }
    out
}

fn sphere_reference(stacks: u32, sectors: u32) -> Vec<u32> {
    let mut out = Vec::new();
    for i in 0..stacks {
        for j in 0..sectors {
            let top = i * (sectors + 1) + j;
            let bottom = top + sectors + 1;
            if i > 0 {
                out.extend_from_slice(&[top, top + 1, bottom]);
            }
            if i + 1 < stacks {
                out.extend_from_slice(&[top + 1, bottom + 1, bottom]);
            }
        }
    }
    out
}

fn torus_reference(sides: u32, rings: u32) -> Vec<u32> {
    let row = sides + 1;
    let mut out = Vec::new();
    for v in 0..rings {
        for h in 0..sides {
            let lt = v * row + h;
            let rt = lt + 1;
            let lb = lt + row;
            let rb = lb + 1;
            out.extend_from_slice(&[lt, rt, lb, rt, rb, lb]);
        }
    }
    out
}

/// The capsule index buffer filled slot by slot from its section offsets.
fn capsule_reference(latitudes: u32, longitudes: u32, rings: u32) -> (Vec<u32>, u32) {
    let lats = latitudes + latitudes % 2;
    let half = lats / 2;
    let s = longitudes + 1;
    let north_hemi = longitudes;
    let north_equator = north_hemi + s * (half - 1);
    let cylinder = north_equator + s;
    let south_equator = if rings > 0 { cylinder + s * (rings + 1) } else { cylinder };
    let south_hemi = south_equator + s;
    let south_polar = south_hemi + s * (half - 2);
    let south_cap = south_polar + s;
    let vertex_count = south_cap + longitudes;

    let hemi = (half - 1) * longitudes * 6;
    let i_north_hemi = longitudes * 3;
    let i_cylinder = i_north_hemi + hemi;
    let i_south_hemi = i_cylinder + (rings + 2) * longitudes * 6;
    let i_south_cap = i_south_hemi + hemi;
    let total = i_south_cap + longitudes * 3;
    let mut idx = vec![0u32; total as usize];

    let quad = |idx: &mut Vec<u32>, at: u32, c: u32, n: u32, j: u32| {
        let a = at as usize;
        idx[a] = c + j;
        idx[a + 1] = n + j + 1;
        idx[a + 2] = c + j + 1;
        idx[a + 3] = c + j;
        idx[a + 4] = n + j;
        idx[a + 5] = n + j + 1;
    };

    for i in 0..longitudes {
        let k = (3 * i) as usize;
        idx[k] = i;
        idx[k + 1] = north_hemi + i;
        idx[k + 2] = north_hemi + i + 1;
        let m = (i_south_cap + 3 * i) as usize;
        idx[m] = south_cap + i;
        idx[m + 1] = south_polar + i + 1;
        idx[m + 2] = south_polar + i;
    }
    for r in 0..half - 1 {
        for j in 0..longitudes {
            let cn = north_hemi + r * s;
            quad(&mut idx, i_north_hemi + (r * longitudes + j) * 6, cn, cn + s, j);
            let cs = south_equator + r * s;
            quad(&mut idx, i_south_hemi + (r * longitudes + j) * 6, cs, cs + s, j);
        }
    }
    for r in 0..rings + 2 {
        for j in 0..longitudes {
            let c = north_equator + r * s;
            quad(&mut idx, i_cylinder + (r * longitudes + j) * 6, c, c + s, j);
        }
    }
    (idx, vertex_count)
}

#[test]
fn plane_without_subdivisions_is_two_triangles() {
    assert_eq!(plane_indices(0), vec![3, 1, 2, 0, 2, 1]);
}

#[test]
fn plane_subdivided_matches_quad_grid() {
    for s in 0..6 {
        let got = plane_indices(s);
        let n = s + 2;
        assert_eq!(got, plane_reference(s));
        assert_eq!(got.len() as u32, 6 * (n - 1) * (n - 1));
        assert!(got.iter().all(|&i| i < n * n));
    }
}

#[test]
fn sphere_rejects_non_positive_radius_first() {
    assert_eq!(sphere_indices(false, 1, 1), Err(SphereError::NonPositiveRadius));
    assert_eq!(sphere_indices(false, 16, 32), Err(SphereError::NonPositiveRadius));
}

#[test]
fn sphere_rejects_too_few_stacks() {
    assert_eq!(sphere_indices(true, 1, 32), Err(SphereError::TooFewStacks));
    assert_eq!(sphere_indices(true, 0, 2), Err(SphereError::TooFewStacks));
}

#[test]
fn sphere_rejects_too_few_sectors() {
    assert_eq!(sphere_indices(true, 2, 2), Err(SphereError::TooFewSectors));
    assert_eq!(sphere_indices(true, 16, 0), Err(SphereError::TooFewSectors));
}

#[test]
fn sphere_error_messages() {
    assert_eq!(SphereError::TooFewStacks.message(), "sphere stack count cannot be less then 2");
    assert_eq!(SphereError::TooFewSectors.message(), "shpere sector count cannot be less then 3");
    assert_eq!(SphereError::NonPositiveRadius.message(), "sphere radius must be > 0");
}

#[test]
fn smallest_sphere_indices() {
    let got = sphere_indices(true, 2, 3).unwrap();
    assert_eq!(got, vec![1, 5, 4, 2, 6, 5, 3, 7, 6, 4, 5, 8, 5, 6, 9, 6, 7, 10]);
}

#[test]
fn default_sphere_indices() {
    let got = sphere_indices(true, 16, 32).unwrap();
    assert_eq!(got.len(), 6 * 32 * 15);
    assert_eq!(got, sphere_reference(16, 32));
    assert!(got.iter().all(|&i| i < 17 * 33));
}

#[test]
fn sphere_indices_match_reference() {
    for stacks in 2..7 {
        for sectors in 3..8 {
            assert_eq!(sphere_indices(true, stacks, sectors).unwrap(), sphere_reference(stacks, sectors));
        }
    }
}

#[test]
fn torus_indices_match_reference() {
    assert_eq!(torus_indices(1, 1), vec![0, 1, 2, 1, 3, 2]);
    for sides in 0..6 {
        for rings in 0..6 {
            let got = torus_indices(sides, rings);
            assert_eq!(got, torus_reference(sides, rings));
            assert_eq!(got.len() as u32, 6 * sides * rings);
            assert!(got.iter().all(|&i| i < (sides + 1) * (rings + 1)));
        }
    }
}

#[test]
fn torus_without_sides_has_no_triangles() {
    assert!(torus_indices(0, 24).is_empty());
    assert!(torus_indices(48, 0).is_empty());
}

#[test]
fn default_capsule_layout() {
    let l = capsule_layout(16, 32, 0);
    assert_eq!(l.latitudes, 16);
    assert_eq!(l.half_lats, 8);
    assert_eq!(l.offset_north_hemi, 32);
    assert_eq!(l.offset_north_equator, 263);
    assert_eq!(l.offset_cylinder, 296);
    assert_eq!(l.offset_south_equator, 296);
    assert_eq!(l.offset_south_hemi, 329);
    assert_eq!(l.offset_south_polar, 527);
    assert_eq!(l.offset_south_cap, 560);
    assert_eq!(l.vertex_count, 592);
    assert_eq!(l.idx_offset_north_hemi, 96);
    assert_eq!(l.idx_offset_cylinder, 1440);
    assert_eq!(l.idx_offset_south_hemi, 1824);
    assert_eq!(l.idx_offset_south_cap, 3168);
    assert_eq!(l.index_count, 3264);
}

#[test]
fn capsule_layout_with_rings_and_odd_latitudes() {
    let l = capsule_layout(5, 4, 2);
    assert_eq!(l.latitudes, 6);
    assert_eq!(l.half_lats, 3);
    assert_eq!(l.offset_north_hemi, 4);
    assert_eq!(l.offset_north_equator, 14);
    assert_eq!(l.offset_cylinder, 19);
    assert_eq!(l.offset_south_equator, 34);
    assert_eq!(l.offset_south_hemi, 39);
    assert_eq!(l.offset_south_polar, 44);
    assert_eq!(l.offset_south_cap, 49);
    assert_eq!(l.vertex_count, 53);
    assert_eq!(l.index_count, 12 + 48 + 96 + 48 + 12);
}

#[test]
fn default_capsule_indices() {
    let got = capsule_indices(16, 32, 0);
    let (expected, vertex_count) = capsule_reference(16, 32, 0);
    assert_eq!(got.len(), 3264);
    assert_eq!(got, expected);
    assert!(got.iter().all(|&i| i < vertex_count));
    assert_eq!(&got[0..6], &[0, 32, 33, 1, 33, 34]);
}

#[test]
fn capsule_indices_match_reference() {
    for latitudes in 3..9 {
        for longitudes in 1..6 {
            for rings in 0..4 {
                let got = capsule_indices(latitudes, longitudes, rings);
                let (expected, vertex_count) = capsule_reference(latitudes, longitudes, rings);
                assert_eq!(got, expected);
                assert!(got.iter().all(|&i| i < vertex_count));
                assert_eq!(got.len() as u32, capsule_layout(latitudes, longitudes, rings).index_count);
            }
        }
    }
}

#[test]
fn capsule_mesh_counts() {
    let c = Capsule::default();
    assert_eq!(c, Capsule { latitudes: 16, longitudes: 32, rings: 0 });
    let m = c.into_asset();
    assert_eq!(m.vertex_count, 2 * 32 + 2 * 8 * 33);
    assert_eq!(m.indices.len(), 6 * 32 * (2 * 8 + 1));
    assert_eq!(m.indices.len() % 3, 0);
    assert!(m.indices.iter().all(|&i| (i as u64) < m.vertex_count));
    let m = Capsule { latitudes: 5, longitudes: 4, rings: 2 }.into_asset();
    assert_eq!(m.vertex_count, 2 * 4 + 2 * 3 * 5 + 5 * 3);
    assert_eq!(m.indices.len(), 6 * 4 * (2 * 3 + 2 + 1));
}

#[test]
fn sphere_mesh_outcomes() {
    let s = Sphere::default();
    assert_eq!(s, Sphere { sectors: 32, stacks: 16 });
    let m = s.into_asset(true).unwrap();
    assert_eq!(m.vertex_count, 17 * 33);
    assert_eq!(m.indices.len(), 6 * 32 * 15);
    assert!(matches!(s.into_asset(false), Err(SphereError::NonPositiveRadius)));
    assert!(matches!(Sphere { sectors: 32, stacks: 1 }.into_asset(true), Err(SphereError::TooFewStacks)));
    assert!(matches!(Sphere { sectors: 2, stacks: 4 }.into_asset(true), Err(SphereError::TooFewSectors)));
}

#[test]
fn shape_builders_and_topologies() {
    let c = Capsule::default().latitudes(5).longitudes(4).rings(2);
    assert_eq!(c, Capsule { latitudes: 5, longitudes: 4, rings: 2 });
    let s = Sphere::default().stacks(3).sectors(4);
    assert_eq!(s, Sphere { sectors: 4, stacks: 3 });
    assert_eq!(s.into_asset(true).unwrap().indices, sphere_indices(true, 3, 4).unwrap());
    let p = Plane::default();
    assert_eq!(p, Plane { subdivisions: 0 });
    let m = p.into_asset();
    assert_eq!(m.vertex_count, 4);
    assert_eq!(m.indices, vec![3, 1, 2, 0, 2, 1]);
    let m = Plane::default().subdivisions(2).into_asset();
    assert_eq!(m.vertex_count, 16);
    assert_eq!(m.indices, plane_indices(2));
    let m = Torus { sides: 3, rings: 2 }.into_asset();
    assert_eq!(m.vertex_count, 12);
    assert_eq!(m.indices, torus_indices(3, 2));
    let m = Triangle::default().into_asset();
    assert_eq!((m.vertex_count, m.indices), (3, vec![0, 1, 2]));
}
