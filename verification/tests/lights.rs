use maple::lights::{
    cascades_level, directional_shadow_layer, next_power_of_two, point_shadow_layer, point_shadow_light_count,
    shadow_array_layers, LightBuffer, ShadowCounts, MAX_CASCADES, MAX_LIGHTS,
};

#[test]
fn light_buffer_pads_with_empty_slots() {
    let lights = vec![11u32, 22, 33];
    let b = LightBuffer::from_lights(&lights, 0u32);
    assert_eq!(b.length, 3);
    assert_eq!(b.data.len(), MAX_LIGHTS);
    assert_eq!(&b.data[0..3], &[11, 22, 33]);
    assert!(b.data[3..].iter().all(|&x| x == 0));
}

#[test]
fn light_buffer_keeps_the_first_hundred() {
    let lights: Vec<u32> = (0..150).collect();
    let b = LightBuffer::from_lights(&lights, 7u32);
    assert_eq!(b.length, 100);
    assert_eq!(b.data, (0..100).collect::<Vec<u32>>());
}

#[test]
fn empty_light_buffer() {
    let b = LightBuffer::from_lights(&Vec::<(u8, u8)>::new(), (1, 2));
    assert_eq!(b.length, 0);
    assert!(b.data.iter().all(|&x| x == (1, 2)));
}

#[test]
fn cascades_are_clamped() {
    assert_eq!(cascades_level(0), 1);
    assert_eq!(cascades_level(1), 1);
    assert_eq!(cascades_level(3), 3);
    assert_eq!(cascades_level(4), 4);
    assert_eq!(cascades_level(17), 4);
}

#[test]
fn next_power_of_two_matches_std() {
    for n in 0usize..300 {
        assert_eq!(next_power_of_two(n), n.next_power_of_two());
    }
    assert_eq!(next_power_of_two(usize::MAX / 2 + 1), usize::MAX / 2 + 1);
}

#[test]
fn shadow_layers_for_light_counts() {
    assert_eq!(shadow_array_layers(0, 0), (1, 1));
    assert_eq!(shadow_array_layers(1, 1), (4, 1));
    assert_eq!(shadow_array_layers(2, 0), (8, 1));
    assert_eq!(shadow_array_layers(3, 5), (16, 8));
    assert_eq!(shadow_array_layers(0, 64), (1, 64));
}

#[test]
fn shadow_layer_indices() {
    assert_eq!(MAX_CASCADES, 4);
    assert_eq!(directional_shadow_layer(0, 0), 0);
    assert_eq!(directional_shadow_layer(2, 3), 11);
    assert_eq!(point_shadow_layer(0, 5), 5);
    assert_eq!(point_shadow_layer(3, 2), 20);
}

#[test]
fn point_shadows_stop_at_the_array_size() {
    assert_eq!(point_shadow_light_count(3, 8), 3);
    assert_eq!(point_shadow_light_count(9, 8), 8);
    assert_eq!(point_shadow_light_count(0, 1), 0);
    assert_eq!(point_shadow_light_count(5, 0), 0);
}

#[test]
fn shadow_textures_rebuild_only_on_change() {
    let mut s = ShadowCounts::new();
    assert!(!s.update(0, 0));
    assert!(s.update(1, 0));
    assert!(!s.update(1, 0));
    assert!(s.update(1, 2));
    assert_eq!(s, ShadowCounts { directional: 1, point: 2 });
    assert!(!s.update(1, 2));
}
