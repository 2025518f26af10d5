use maple::egui_render::EguiTextures;
use maple::egui_input::{
    egui_modifiers, input_to_egui_events, key_held, winit_key_to_egui, winit_mouse_button_to_egui,
    winit_touch_phase_to_egui, EguiEvent, EguiKey, EguiPlugin, EguiTouchPhase, InputFrame, KeyCode, Modifiers,
    MouseButton, PointerButton, TouchPhase, WheelUnit,
};
use maple::egui_render::{
    color_image_bytes, flatten_primitives, grow_capacity, pack_color, texture_update, ClippedPrimitive,
    MeshRange, Primitive, TextureUpdate,
};

fn frame() -> InputFrame<(i32, i32), (i32, i32)> {
    InputFrame {
        key_just_pressed: vec![],
        key_just_released: vec![],
        keys_held: vec![],
        text_input: String::new(),
        cursor_position: (0, 0),
        cursor_exit: false,
        mouse_button_just_pressed: vec![],
        mouse_button_just_released: vec![],
        scroll_phase: None,
        scroll_delta_lines: None,
        scroll_delta_pixels: None,
    }
}

const NONE: Modifiers = Modifiers { alt: false, ctrl: false, shift: false, mac_cmd: false, command: false };

#[test]
fn keys_map_to_egui_keys() {
    assert_eq!(winit_key_to_egui(KeyCode::ArrowUp), Some(EguiKey::ArrowUp));
    assert_eq!(winit_key_to_egui(KeyCode::Equal), Some(EguiKey::Equals));
    assert_eq!(winit_key_to_egui(KeyCode::Digit7), Some(EguiKey::Num7));
    assert_eq!(winit_key_to_egui(KeyCode::KeyQ), Some(EguiKey::Q));
    assert_eq!(winit_key_to_egui(KeyCode::F12), Some(EguiKey::F12));
    assert_eq!(winit_key_to_egui(KeyCode::ControlLeft), None);
    assert_eq!(winit_key_to_egui(KeyCode::ShiftRight), None);
    assert_eq!(winit_key_to_egui(KeyCode::Other), None);
}

#[test]
fn buttons_and_phases_map() {
    assert_eq!(winit_mouse_button_to_egui(MouseButton::Left), Some(PointerButton::Primary));
    assert_eq!(winit_mouse_button_to_egui(MouseButton::Right), Some(PointerButton::Secondary));
    assert_eq!(winit_mouse_button_to_egui(MouseButton::Middle), Some(PointerButton::Middle));
    assert_eq!(winit_mouse_button_to_egui(MouseButton::Back), Some(PointerButton::Extra1));
    assert_eq!(winit_mouse_button_to_egui(MouseButton::Forward), Some(PointerButton::Extra2));
    assert_eq!(winit_mouse_button_to_egui(MouseButton::Other), None);
    assert_eq!(winit_touch_phase_to_egui(TouchPhase::Started), EguiTouchPhase::Start);
    assert_eq!(winit_touch_phase_to_egui(TouchPhase::Moved), EguiTouchPhase::Move);
    assert_eq!(winit_touch_phase_to_egui(TouchPhase::Ended), EguiTouchPhase::End);
    assert_eq!(winit_touch_phase_to_egui(TouchPhase::Cancelled), EguiTouchPhase::Cancel);
}

#[test]
fn modifiers_from_held_keys() {
    assert_eq!(egui_modifiers(&vec![]), NONE);
    let m = egui_modifiers(&vec![KeyCode::KeyA, KeyCode::ControlRight, KeyCode::ShiftLeft]);
    assert_eq!(m, Modifiers { alt: false, ctrl: true, shift: true, mac_cmd: false, command: true });
    let m = egui_modifiers(&vec![KeyCode::AltRight]);
    assert_eq!(m, Modifiers { alt: true, ..NONE });
    assert!(key_held(&vec![KeyCode::Tab, KeyCode::KeyW], KeyCode::KeyW));
    assert!(!key_held(&vec![KeyCode::Tab], KeyCode::KeyW));
}

#[test]
fn keyboard_and_text_events_in_order() {
    let mut f = frame();
    f.key_just_pressed = vec![KeyCode::KeyA, KeyCode::ShiftLeft, KeyCode::Enter];
    f.key_just_released = vec![KeyCode::Space];
    f.keys_held = vec![KeyCode::ShiftLeft];
    f.text_input = "A".to_string();
    let shift = Modifiers { shift: true, ..NONE };
    let (events, mods) = input_to_egui_events(&f, false);
    assert_eq!(mods, shift);
    assert_eq!(
        events,
        vec![
            EguiEvent::Key { key: EguiKey::A, pressed: true, modifiers: shift },
            EguiEvent::Key { key: EguiKey::Enter, pressed: true, modifiers: shift },
            EguiEvent::Key { key: EguiKey::Space, pressed: false, modifiers: shift },
            EguiEvent::Text("A".to_string()),
        ]
    );
}

#[test]
fn pointer_events_only_when_fed() {
    let mut f = frame();
    f.cursor_position = (10, 20);
    f.mouse_button_just_pressed = vec![MouseButton::Left, MouseButton::Other];
    f.mouse_button_just_released = vec![MouseButton::Right];
    f.scroll_phase = Some(TouchPhase::Moved);
    f.scroll_delta_lines = Some((0, 1));
    f.scroll_delta_pixels = Some((3, 0));
    assert!(input_to_egui_events(&f, false).0.is_empty());
    let (events, _) = input_to_egui_events(&f, true);
    assert_eq!(
        events,
        vec![
            EguiEvent::PointerMoved((10, 20)),
            EguiEvent::PointerButton { pos: (10, 20), button: PointerButton::Primary, pressed: true, modifiers: NONE },
            EguiEvent::PointerButton {
                pos: (10, 20),
                button: PointerButton::Secondary,
                pressed: false,
                modifiers: NONE
            },
            EguiEvent::MouseWheel { unit: WheelUnit::Line, delta: (0, 1), phase: EguiTouchPhase::Move, modifiers: NONE },
            EguiEvent::MouseWheel {
                unit: WheelUnit::Point,
                delta: (3, 0),
                phase: EguiTouchPhase::Move,
                modifiers: NONE
            },
        ]
    );
}

#[test]
fn leaving_the_window_and_scroll_without_phase() {
    let mut f = frame();
    f.cursor_exit = true;
    f.scroll_delta_lines = Some((1, 1));
    let (events, _) = input_to_egui_events(&f, true);
    assert_eq!(events, vec![EguiEvent::PointerGone]);
}

#[test]
fn plugin_feeds_pointer_events() {
    let mut f = frame();
    f.cursor_position = (4, 5);
    f.key_just_pressed = vec![KeyCode::Escape];
    let (events, mods) = EguiPlugin::frame_input(&f);
    assert_eq!(mods, NONE);
    assert_eq!(
        events,
        vec![EguiEvent::Key { key: EguiKey::Escape, pressed: true, modifiers: NONE }, EguiEvent::PointerMoved((4, 5))]
    );
    assert_eq!(events, input_to_egui_events(&f, true).0);
}

fn mesh(vertices: Vec<char>, indices: Vec<u32>, texture: u8, clip: i32) -> ClippedPrimitive<char, i32, u8> {
    ClippedPrimitive { clip_rect: clip, primitive: Primitive::Mesh { vertices, indices, texture } }
}

#[test]
fn meshes_flatten_into_shared_buffers() {
    let prims = vec![
        mesh(vec!['a', 'b', 'c'], vec![0, 1, 2], 1, 10),
        ClippedPrimitive { clip_rect: 11, primitive: Primitive::Callback },
        mesh(vec![], vec![0], 2, 12),
        mesh(vec!['d', 'e'], vec![], 3, 13),
        mesh(vec!['f', 'g', 'h', 'i'], vec![0, 1, 2, 2, 3, 0], 4, 14),
    ];
    let (vertices, indices, ranges) = flatten_primitives(&prims);
    assert_eq!(vertices, vec!['a', 'b', 'c', 'f', 'g', 'h', 'i']);
    assert_eq!(indices, vec![0, 1, 2, 3, 4, 5, 5, 6, 3]);
    assert_eq!(
        ranges,
        vec![
            MeshRange { start: 0, end: 3, clip_rect: 10, texture: 1 },
            MeshRange { start: 3, end: 9, clip_rect: 14, texture: 4 },
        ]
    );
}

#[test]
fn colors_pack_little_endian() {
    assert_eq!(pack_color([1, 2, 3, 4]), 0x0403_0201);
    assert_eq!(pack_color([255, 255, 255, 255]), u32::MAX);
    assert_eq!(pack_color([9, 8, 7, 6]), u32::from_le_bytes([9, 8, 7, 6]));
}

#[test]
fn image_bytes_are_rgba_in_order() {
    assert_eq!(color_image_bytes(&vec![[1, 2, 3, 4], [5, 6, 7, 8]]), vec![1, 2, 3, 4, 5, 6, 7, 8]);
    assert!(color_image_bytes(&vec![]).is_empty());
}

#[test]
fn buffers_grow_to_powers_of_two() {
    assert_eq!(grow_capacity(1024, 100), 1024);
    assert_eq!(grow_capacity(1024, 1024), 1024);
    assert_eq!(grow_capacity(1024, 1025), 2048);
    assert_eq!(grow_capacity(0, 3), 4);
    assert_eq!(grow_capacity(0, 0), 0);
}

#[test]
fn texture_deltas() {
    assert_eq!(texture_update(Some((3, 4)), true), TextureUpdate::Region { x: 3, y: 4 });
    assert_eq!(texture_update(None, false), TextureUpdate::Create);
    assert_eq!(texture_update(None, true), TextureUpdate::Create);
}

#[test]
fn texture_registry_tracks_whole_deltas() {
    let mut t = EguiTextures::new();
    assert!(!t.contains(1));
    assert_eq!(t.apply_delta(1, None), TextureUpdate::Create);
    assert_eq!(t.apply_delta(2, None), TextureUpdate::Create);
    assert_eq!(t.apply_delta(1, Some((8, 9))), TextureUpdate::Region { x: 8, y: 9 });
    assert!(t.contains(1) && t.contains(2));
    t.free(&vec![1], 30);
    assert!(t.contains(1));
    t.free(&vec![1, 5], 0);
    assert!(!t.contains(1) && t.contains(2));
    let r = |texture: u64| MeshRange { start: 0, end: 3, clip_rect: 0u8, texture };
    assert_eq!(t.drawable(&vec![r(1), r(2), r(3), r(2)]), vec![r(2), r(2)]);
}

#[test]
fn flattened_indices_stay_on_their_vertices() {
    let prims = vec![
        mesh(vec!['a', 'b', 'c', 'd'], vec![0, 1, 2, 2, 3, 0], 1, 0),
        mesh(vec!['e', 'f', 'g'], vec![2, 1, 0], 2, 1),
        ClippedPrimitive { clip_rect: 2, primitive: Primitive::Callback },
        mesh(vec!['h', 'i', 'j'], vec![0, 1, 2], 3, 3),
    ];
    let (vertices, indices, ranges) = flatten_primitives(&prims);
    assert!(indices.iter().all(|&i| (i as usize) < vertices.len()));
    assert_eq!(ranges[0].start, 0);
    assert_eq!(ranges.last().unwrap().end as usize, indices.len());
    for w in ranges.windows(2) {
        assert_eq!(w[0].end, w[1].start);
    }
    assert_eq!(&indices[6..9], &[6, 5, 4]);
}
