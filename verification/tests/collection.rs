use maple::render_order::BatchEntry;
use maple::lights::{directional_shadow_jobs, pack_light_matrices, point_shadow_jobs};
use maple::material::{pipeline_key, AlphaMode, CullMode, LazyGpuResource, MaterialPipelineKey, PipelineCache};
use maple::mesh_collection::{collect_and_batch, collect_meshes, main_pass_clears, main_pass_draws, MainPassMesh, MeshCandidate};

fn ready(material_id: u64) -> MeshCandidate {
    MeshCandidate {
        has_material: true,
        has_mesh: true,
        mesh_loaded: true,
        material_loaded: true,
        descriptor_ready: true,
        alpha_texture: None,
        material_id,
    }
}

#[test]
fn collection_skips_unready_meshes() {
    let cs = vec![
        ready(7),
        MeshCandidate { has_material: false, ..ready(1) },
        MeshCandidate { mesh_loaded: false, ..ready(2) },
        MeshCandidate { alpha_texture: Some(false), ..ready(3) },
        MeshCandidate { alpha_texture: Some(true), ..ready(7) },
        MeshCandidate { descriptor_ready: false, ..ready(4) },
        ready(9),
        ready(9),
    ];
    let plan = collect_meshes(&cs);
    assert_eq!(plan.pipelines, vec![0, 3, 4, 6, 7]);
    assert_eq!(plan.bundles, vec![0, 4, 6, 7]);
    assert_eq!(plan.alpha_writes, vec![0, 6]);
}

#[test]
fn each_material_buffer_written_once() {
    let cs: Vec<MeshCandidate> = (0..50u64).map(|i| ready(i % 7)).collect();
    let plan = collect_meshes(&cs);
    assert_eq!(plan.bundles.len(), 50);
    assert_eq!(plan.alpha_writes, (0..7).collect::<Vec<usize>>());
    assert!(collect_meshes(&vec![]).bundles.is_empty());
}

fn drawn(is_opaque: bool) -> MainPassMesh {
    MainPassMesh {
        has_material: true,
        has_mesh: true,
        material_loaded: true,
        mesh_loaded: true,
        is_opaque,
        descriptor_ready: true,
        visible: true,
    }
}

#[test]
fn main_pass_draws_opaque_before_blended() {
    let ms = vec![
        drawn(false),
        drawn(true),
        MainPassMesh { visible: false, ..drawn(true) },
        drawn(false),
        MainPassMesh { descriptor_ready: false, ..drawn(false) },
        drawn(true),
        MainPassMesh { has_mesh: false, ..drawn(true) },
    ];
    assert_eq!(main_pass_draws(&ms), vec![1, 5, 0, 3]);
    assert!(main_pass_draws(&vec![]).is_empty());
}

#[test]
fn main_pass_clears_without_environment() {
    assert!(main_pass_clears(0));
    assert!(!main_pass_clears(1));
}

#[test]
fn gpu_resource_is_prepared_once() {
    let mut r: LazyGpuResource<u32> = LazyGpuResource::new();
    assert_eq!(r.get(), None);
    assert_eq!(r.descriptor_set(None), None);
    assert_eq!(r.get(), None);
    assert_eq!(r.descriptor_set(Some(5)), Some(5));
    assert_eq!(r.descriptor_set(Some(6)), Some(5));
    assert_eq!(r.descriptor_set(None), Some(5));
    assert_eq!(r.get(), Some(5));
    r.invalidate();
    assert_eq!(r.get(), None);
    assert_eq!(r.descriptor_set(Some(8)), Some(8));
}

#[test]
fn pipelines_are_built_once_per_type_and_key() {
    let mut cache: PipelineCache<u32> = PipelineCache::new();
    let back = pipeline_key(CullMode::Back, AlphaMode::Opaque);
    let blend = pipeline_key(CullMode::Back, AlphaMode::Blend);
    assert_eq!(cache.get(0, back), None);
    assert_eq!(cache.get_or_insert(0, back, 10), 10);
    assert_eq!(cache.get_or_insert(0, back, 11), 10);
    assert_eq!(cache.get_or_insert(0, blend, 12), 12);
    assert_eq!(cache.get_or_insert(1, back, 13), 13);
    assert_eq!(cache.get(0, back), Some(10));
    assert_eq!(cache.get(1, back), Some(13));
    assert_eq!(cache.get(1, MaterialPipelineKey::empty()), None);
}

#[test]
fn directional_cascades_fill_layers_in_order() {
    assert_eq!(
        directional_shadow_jobs(&vec![2, 4], 8),
        vec![(0, 0, 0), (0, 1, 1), (1, 0, 4), (1, 1, 5), (1, 2, 6), (1, 3, 7)]
    );
    assert_eq!(directional_shadow_jobs(&vec![4, 4], 6), vec![(0, 0, 0), (0, 1, 1), (0, 2, 2), (0, 3, 3), (1, 0, 4), (1, 1, 5)]);
    assert_eq!(directional_shadow_jobs(&vec![1, 1, 1], 4), vec![(0, 0, 0)]);
    assert!(directional_shadow_jobs(&vec![], 4).is_empty());
}

#[test]
fn point_faces_fill_cube_layers() {
    let jobs = point_shadow_jobs(2, 8);
    assert_eq!(jobs.len(), 12);
    assert_eq!(jobs[0], (0, 0, 0));
    assert_eq!(jobs[7], (1, 1, 7));
    assert_eq!(jobs[11], (1, 5, 11));
    assert_eq!(point_shadow_jobs(5, 1).len(), 6);
    assert!(point_shadow_jobs(3, 0).is_empty());
}

#[test]
fn each_cascade_matrix_sits_at_its_layer() {
    let matrices = vec![vec![10u32, 11], vec![20, 21, 22, 23], vec![30]];
    let packed = pack_light_matrices(&matrices, 0);
    assert_eq!(packed, vec![10, 11, 0, 0, 20, 21, 22, 23, 30, 0, 0, 0]);
    for (light, cascade, layer) in directional_shadow_jobs(&vec![2, 4, 1], 12) {
        assert_eq!(packed[layer as usize], matrices[light][cascade]);
    }
}

#[test]
fn collected_bundles_come_in_batch_order() {
    let cs = vec![
        ready(1),
        MeshCandidate { mesh_loaded: false, ..ready(2) },
        ready(3),
        ready(4),
        MeshCandidate { alpha_texture: Some(false), ..ready(5) },
        ready(6),
    ];
    let e = |is_opaque: bool, pipeline: u64, material: u64, mesh: u64| BatchEntry { is_opaque, pipeline, material, mesh };
    let entries = vec![
        e(false, 1, 1, 1),
        e(true, 0, 0, 0),
        e(true, 5, 0, 0),
        e(false, 0, 9, 9),
        e(true, 0, 0, 0),
        e(true, 2, 7, 1),
    ];
    assert_eq!(collect_and_batch(&cs, &entries), vec![5, 2, 3, 0]);
    assert!(collect_and_batch(&vec![], &vec![]).is_empty());
}
