use maple::camera::{free_fly_axes, FlyInput};
use maple::egui_input::KeyCode;
use maple::app::{
    Config,
    fullscreen_mode, resume_action, window_event_action, AppAction, DefaultPlugin, Fullscreen, Resolution,
    ResumeAction, WindowEventKind, WindowMode,
};
use maple::environment::{Environment, ResolutionScale};
use maple::scene::{
    material_texture_slots, GltfMaterialTextures, MaterialTextureSlots,
    primitive_instances, transform_field, DeriveShape, GltfMaterialInfo, MaterialNames, NodeDeriveError,
    PrimitiveKey,
};

#[test]
fn windowed_by_default() {
    assert_eq!(WindowMode::default(), WindowMode::Windowed);
}

#[test]
fn fullscreen_modes_open_borderless() {
    assert_eq!(fullscreen_mode(WindowMode::Windowed), Fullscreen::Off);
    assert_eq!(fullscreen_mode(WindowMode::Borderless), Fullscreen::Borderless);
    assert_eq!(fullscreen_mode(WindowMode::FullScreen), Fullscreen::Borderless);
}

#[test]
fn window_events() {
    assert_eq!(window_event_action(WindowEventKind::CloseRequested), AppAction::Exit);
    assert_eq!(
        window_event_action(WindowEventKind::Resized { width: 800, height: 600 }),
        AppAction::Resize { width: 800, height: 600 }
    );
    assert_eq!(window_event_action(WindowEventKind::RedrawRequested), AppAction::Frame);
    assert_eq!(window_event_action(WindowEventKind::Other), AppAction::Nothing);
}

#[test]
fn initialization_happens_once() {
    assert_eq!(resume_action(false), ResumeAction::Initialize);
    assert_eq!(resume_action(true), ResumeAction::AlreadyRunning);
}

#[test]
fn default_log_filter() {
    assert_eq!(DefaultPlugin::log_filter(), "info,wgpu_hal=warn,naga=warn");
    let r = Resolution { width: 1280u32, height: 720u32 };
    assert_eq!((r.width, r.height), (1280, 720));
}

#[test]
fn resolution_scale_divides() {
    assert_eq!(ResolutionScale::Full.apply(1024), 1024);
    assert_eq!(ResolutionScale::Half.apply(1024), 512);
    assert_eq!(ResolutionScale::Quarter.apply(1024), 256);
    assert_eq!(ResolutionScale::Eighth.apply(1024), 128);
    assert_eq!(ResolutionScale::Eighth.apply(7), 0);
    assert_eq!(ResolutionScale::Half.apply(u32::MAX), u32::MAX / 2);
}

#[test]
fn environment_defaults_and_presets() {
    let e = Environment::new();
    assert_eq!(e.get_resolution_scale(), ResolutionScale::Full);
    assert_eq!(e.get_irradiance_resolution(), 32);
    assert_eq!(e.get_prefilter_resolution(), 128);
    assert_eq!(e.get_brdf_resolution(), 512);
    let low = e.quality_low();
    assert_eq!(low.get_resolution_scale(), ResolutionScale::Quarter);
    assert_eq!(
        (low.get_irradiance_resolution(), low.get_prefilter_resolution(), low.get_brdf_resolution()),
        (16, 64, 256)
    );
    let medium = low.quality_medium();
    assert_eq!(medium.get_resolution_scale(), ResolutionScale::Half);
    assert_eq!(
        (medium.get_irradiance_resolution(), medium.get_prefilter_resolution(), medium.get_brdf_resolution()),
        (32, 128, 512)
    );
    assert_eq!(low.quality_high(), Environment::new());
}

#[test]
fn environment_builders() {
    let e = Environment::new()
        .with_resolution_scale(ResolutionScale::Eighth)
        .with_irradiance_resolution(8)
        .with_prefilter_resolution(64)
        .with_brdf_resolution(128);
    assert_eq!(e.get_resolution_scale(), ResolutionScale::Eighth);
    assert_eq!(e.get_irradiance_resolution(), 8);
    assert_eq!(e.get_prefilter_resolution(), 64);
    assert_eq!(e.get_brdf_resolution(), 128);
    assert_eq!(e.get_cubemap_resolution(Some(2048)), Some(256));
    assert_eq!(e.get_cubemap_resolution(None), None);
    assert_eq!(Environment::new().get_cubemap_resolution(Some(1000)), Some(1000));
}

#[test]
fn derive_finds_the_last_marked_transform() {
    assert_eq!(transform_field(&DeriveShape::NamedStruct(vec![false, true, false])), Ok(1));
    assert_eq!(transform_field(&DeriveShape::NamedStruct(vec![true, false, true])), Ok(2));
    assert_eq!(transform_field(&DeriveShape::NamedStruct(vec![false, false])), Err(NodeDeriveError::MissingTransform));
    assert_eq!(transform_field(&DeriveShape::NamedStruct(vec![])), Err(NodeDeriveError::MissingTransform));
    assert_eq!(transform_field(&DeriveShape::OtherStruct), Err(NodeDeriveError::UnnamedFields));
    assert_eq!(transform_field(&DeriveShape::NotStruct), Err(NodeDeriveError::NotAStruct));
}

#[test]
fn gltf_node_spawns_primitives_with_materials() {
    let key = PrimitiveKey::new(4, 1);
    assert_eq!((key.mesh_index, key.primitive_index), (4, 1));
    assert_eq!(
        primitive_instances(Some(4), &vec![Some(2), None, Some(0)]),
        vec![(PrimitiveKey::new(4, 0), 2), (PrimitiveKey::new(4, 2), 0)]
    );
    assert!(primitive_instances(None, &vec![Some(1)]).is_empty());
    assert!(primitive_instances(Some(0), &vec![None, None]).is_empty());
}

fn material(index: Option<usize>, name: Option<&str>) -> GltfMaterialInfo {
    GltfMaterialInfo { index, name: name.map(|n| n.to_string()) }
}

#[test]
fn materials_found_by_name() {
    let names = MaterialNames::from_materials(&vec![
        material(Some(0), Some("wood")),
        material(Some(1), None),
        material(None, Some("default")),
        material(Some(2), Some("metal")),
        material(Some(3), Some("wood")),
    ]);
    assert_eq!(names.get_material_by_name("wood"), Some(3));
    assert_eq!(names.get_material_by_name("metal"), Some(2));
    assert_eq!(names.get_material_by_name("default"), None);
    assert_eq!(names.get_material_by_name("glass"), None);
    assert_eq!(MaterialNames::from_materials(&vec![]).get_material_by_name(""), None);
}

#[test]
fn free_fly_keys() {
    assert_eq!(free_fly_axes(&vec![]), FlyInput { forward: 0, right: 0, up: 0, boost: false });
    assert_eq!(
        free_fly_axes(&vec![KeyCode::KeyW, KeyCode::KeyA, KeyCode::ShiftLeft]),
        FlyInput { forward: 1, right: -1, up: 0, boost: true }
    );
    assert_eq!(
        free_fly_axes(&vec![KeyCode::KeyW, KeyCode::KeyS, KeyCode::KeyD, KeyCode::ControlLeft]),
        FlyInput { forward: 0, right: 1, up: -1, boost: false }
    );
    assert_eq!(free_fly_axes(&vec![KeyCode::Space, KeyCode::KeyS]).up, 1);
    assert_eq!(free_fly_axes(&vec![KeyCode::Space, KeyCode::KeyS]).forward, -1);
}

#[test]
fn default_config_and_window_attributes() {
    let c = Config::default();
    assert_eq!(c.window_title, "Maple Window");
    assert!(c.resolution.is_none() && c.resizeable && c.decorated);
    assert_eq!(c.window_mode, WindowMode::Windowed);
    let a = c.window_attributes();
    assert_eq!(a.title, "Maple Window");
    assert_eq!(a.fullscreen, Fullscreen::Off);
    assert_eq!(a.inner_size, None);
    let c = Config {
        window_title: "demo".to_string(),
        resolution: Some(Resolution { width: 640, height: 480 }),
        window_mode: WindowMode::FullScreen,
        resizeable: false,
        decorated: false,
    };
    let a = c.window_attributes();
    assert_eq!((a.resizable, a.decorations), (false, false));
    assert_eq!(a.fullscreen, Fullscreen::Borderless);
    assert_eq!(a.inner_size, Some((640, 480)));
}

#[test]
fn material_slots_follow_the_workflow() {
    let t = GltfMaterialTextures {
        specular_glossiness: false,
        diffuse: Some(7),
        specular_glossiness_texture: Some(8),
        base_color: Some(0),
        metallic_roughness: Some(1),
        normal: Some(2),
        occlusion: None,
        emissive: Some(3),
    };
    let slots = material_texture_slots(&t, 9);
    assert_eq!(
        slots,
        MaterialTextureSlots { base_color: Some(0), metallic_roughness: Some(1), normal: Some(2), occlusion: None, emissive: Some(3) }
    );
    let sg = material_texture_slots(&GltfMaterialTextures { specular_glossiness: true, ..t }, 9);
    assert_eq!((sg.base_color, sg.metallic_roughness), (Some(7), Some(8)));
    assert_eq!(sg.normal, Some(2));
}
