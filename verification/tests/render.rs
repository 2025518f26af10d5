use maple::render_order::{batch_order, last_max_priority, select_camera, BatchEntry, CameraInfo};
use maple::render_passes::{
    environment_needs_bake, prefilter_dispatches, PrefilterDispatch,
    bloom_mip_sizes, bloom_schedule, cube_face, prefilter_cube_face, prefilter_mip_size, workgroup_count,
    BloomStep, Core3D, CubeFace, PassKind, BLOOM_MIP_LEVELS, PREFILTER_MIP_LEVELS, WORKGROUP_SIZE,
};

fn cam(is_active: bool, priority: i32) -> CameraInfo {
    CameraInfo { is_active, priority }
}

fn entry(is_opaque: bool, pipeline: u64, material: u64, mesh: u64) -> BatchEntry {
    BatchEntry { is_opaque, pipeline, material, mesh }
}

#[test]
fn no_active_camera_renders_nothing() {
    assert_eq!(select_camera(&vec![]), None);
    assert_eq!(select_camera(&vec![cam(false, 5), cam(false, 1)]), None);
}

#[test]
fn highest_priority_active_camera_wins() {
    let cams = vec![cam(true, 1), cam(false, 9), cam(true, 3), cam(true, -2)];
    assert_eq!(select_camera(&cams), Some(2));
}

#[test]
fn camera_ties_go_to_the_last() {
    let cams = vec![cam(true, 4), cam(true, 4), cam(false, 4), cam(true, 0)];
    assert_eq!(select_camera(&cams), Some(1));
}

#[test]
fn last_max_priority_respects_eligibility() {
    assert_eq!(last_max_priority(&vec![true, false, true], &vec![0, 10, 0]), Some(2));
    assert_eq!(last_max_priority(&vec![false, true, false], &vec![0, -10, 0]), Some(1));
    assert_eq!(last_max_priority(&vec![], &vec![]), None);
}

#[test]
fn batch_order_puts_opaque_first_and_sorts_by_key() {
    let entries = vec![
        entry(false, 2, 1, 1),
        entry(true, 3, 0, 0),
        entry(true, 1, 5, 2),
        entry(false, 1, 1, 9),
        entry(true, 1, 5, 1),
        entry(true, 1, 2, 7),
    ];
    let order = batch_order(&entries);
    assert_eq!(order, vec![5, 4, 2, 1, 3, 0]);
}

#[test]
fn batch_order_is_a_sorted_permutation() {
    let mut entries = Vec::new();
    let mut x: u64 = 12345;
    for _ in 0..200 {
        x = x.wrapping_mul(6364136223846793005).wrapping_add(1442695040888963407);
        entries.push(entry(x % 3 != 0, (x >> 8) % 4, (x >> 16) % 5, (x >> 24) % 6));
    }
    let order = batch_order(&entries);
    let mut seen = order.clone();
    seen.sort();
    assert_eq!(seen, (0..entries.len()).collect::<Vec<_>>());
    let key = |i: usize| (!entries[i].is_opaque, entries[i].pipeline, entries[i].material, entries[i].mesh);
    for w in order.windows(2) {
        assert!(key(w[0]) <= key(w[1]));
    }
}

#[test]
fn empty_batch() {
    assert!(batch_order(&vec![]).is_empty());
}

#[test]
fn workgroups_round_up() {
    assert_eq!(workgroup_count(0, WORKGROUP_SIZE), 0);
    assert_eq!(workgroup_count(1, WORKGROUP_SIZE), 1);
    assert_eq!(workgroup_count(8, WORKGROUP_SIZE), 1);
    assert_eq!(workgroup_count(9, WORKGROUP_SIZE), 2);
    assert_eq!(workgroup_count(1920, 8), 240);
    assert_eq!(workgroup_count(1080, 16), 68);
    assert_eq!(workgroup_count(u32::MAX, 8), 536870912);
}

#[test]
fn bloom_chain_halves_each_level() {
    assert_eq!(
        bloom_mip_sizes(1920, 1080),
        vec![(1920, 1080), (960, 540), (480, 270), (240, 135), (120, 67)]
    );
    assert_eq!(bloom_mip_sizes(4, 1), vec![(4, 1), (2, 1), (1, 1), (1, 1), (1, 1)]);
    assert_eq!(bloom_mip_sizes(0, 3).len(), BLOOM_MIP_LEVELS);
    assert_eq!(bloom_mip_sizes(0, 3)[1], (1, 1));
}

#[test]
fn bloom_schedule_goes_down_then_up() {
    let s = |src, dst, clear| BloomStep { src, dst, clear };
    assert_eq!(
        bloom_schedule(BLOOM_MIP_LEVELS),
        vec![
            s(0, 1, false),
            s(1, 2, false),
            s(2, 3, false),
            s(3, 4, false),
            s(4, 3, false),
            s(3, 2, false),
            s(2, 1, false),
            s(1, 0, true),
        ]
    );
    assert!(bloom_schedule(1).is_empty());
    assert_eq!(bloom_schedule(2), vec![s(0, 1, false), s(1, 0, true)]);
}

#[test]
fn cube_faces_in_order() {
    let faces: Vec<CubeFace> = (0..6).map(cube_face).collect();
    assert_eq!(
        faces,
        vec![
            CubeFace::PositiveX,
            CubeFace::NegativeX,
            CubeFace::PositiveY,
            CubeFace::NegativeY,
            CubeFace::PositiveZ,
            CubeFace::NegativeZ
        ]
    );
}

#[test]
fn prefilter_swaps_y_faces() {
    assert_eq!(prefilter_cube_face(2), CubeFace::NegativeY);
    assert_eq!(prefilter_cube_face(3), CubeFace::PositiveY);
    for i in [0, 1, 4, 5] {
        assert_eq!(prefilter_cube_face(i), cube_face(i));
    }
}

#[test]
fn prefilter_mips_halve_from_512() {
    let sizes: Vec<u32> = (0..PREFILTER_MIP_LEVELS).map(prefilter_mip_size).collect();
    assert_eq!(sizes, vec![512, 256, 128, 64, 32]);
}

#[test]
fn core3d_graph_has_a_topological_order() {
    let (passes, edges) = Core3D::render_graph();
    assert_eq!(passes.len(), 10);
    assert_eq!(edges.len(), 13);
    assert_eq!(passes[0], PassKind::EnvironmentPrePass);
    assert_eq!(passes[9], PassKind::BloomPass);
    assert!(edges.contains(&(PassKind::MainPass, PassKind::BloomPass)));
    assert!(edges.contains(&(PassKind::BloomPass, PassKind::CompositePass)));
    let mut remaining = passes.clone();
    let mut done: Vec<PassKind> = Vec::new();
    while !remaining.is_empty() {
        let pos = remaining
            .iter()
            .position(|p| edges.iter().all(|(a, b)| b != p || done.contains(a)))
            .expect("the pass graph has a cycle");
        done.push(remaining.remove(pos));
    }
    assert_eq!(done.len(), 10);
}

#[test]
fn prefilter_dispatches_walk_mips_then_faces() {
    let d = prefilter_dispatches();
    assert_eq!(d.len(), 30);
    assert_eq!(d[0], PrefilterDispatch { face: CubeFace::PositiveX, mip: 0, groups: 64 });
    assert_eq!(d[2], PrefilterDispatch { face: CubeFace::NegativeY, mip: 0, groups: 64 });
    assert_eq!(d[9], PrefilterDispatch { face: CubeFace::PositiveY, mip: 1, groups: 32 });
    assert_eq!(d[29], PrefilterDispatch { face: CubeFace::NegativeZ, mip: 4, groups: 4 });
}

#[test]
fn environment_is_baked_once() {
    assert!(environment_needs_bake(false, false, false, 1));
    assert!(environment_needs_bake(true, true, false, 2));
    assert!(!environment_needs_bake(true, true, true, 1));
    assert!(!environment_needs_bake(false, false, false, 0));
}
