use maple::material::{
    pipeline_blend, pipeline_key, resolve_texture, resolve_textures, AlphaMode, AssetStatusKind, BlendMode,
    CullMode, MaterialPipelineKey, PipelineStage, TextureSource,
};
use maple::material_properties::{AlphaMode as PropertyAlphaMode, MaterialBufferFlags, MaterialProperties};

#[test]
fn alpha_mode_defaults_to_opaque() {
    assert_eq!(AlphaMode::default(), AlphaMode::Opaque);
    assert_eq!(PropertyAlphaMode::default(), PropertyAlphaMode::Opaque);
}

#[test]
fn alpha_mode_codes() {
    assert_eq!(u32::from(AlphaMode::Opaque), 0);
    assert_eq!(u32::from(AlphaMode::Mask), 1);
    assert_eq!(u32::from(AlphaMode::Blend), 2);
    assert_eq!(PropertyAlphaMode::Opaque.buffer_code(), 0);
    assert_eq!(PropertyAlphaMode::Mask.buffer_code(), 1);
    assert_eq!(PropertyAlphaMode::Blend.buffer_code(), 2);
}

#[test]
fn masked_materials_are_opaque() {
    assert!(AlphaMode::Opaque.is_opaque());
    assert!(AlphaMode::Mask.is_opaque());
    assert!(!AlphaMode::Blend.is_opaque());
    assert_ne!(PipelineStage::Opaque, PipelineStage::Transparent);
}

#[test]
fn blend_state_by_alpha_mode() {
    assert_eq!(pipeline_blend(AlphaMode::Opaque).depth_write, true);
    assert_eq!(pipeline_blend(AlphaMode::Mask).blend, BlendMode::Opaque);
    let b = pipeline_blend(AlphaMode::Blend);
    assert!(!b.depth_write);
    assert_eq!(b.blend, BlendMode::Blend);
}

#[test]
fn pipeline_key_flags() {
    assert_eq!(pipeline_key(CullMode::Disabled, AlphaMode::Opaque).bits, 0);
    assert_eq!(pipeline_key(CullMode::Back, AlphaMode::Opaque).bits, MaterialPipelineKey::CULL_BACK);
    assert_eq!(pipeline_key(CullMode::Front, AlphaMode::Mask).bits, MaterialPipelineKey::CULL_FRONT);
    assert_eq!(pipeline_key(CullMode::Back, AlphaMode::Blend).bits, 3);
    assert_eq!(pipeline_key(CullMode::Front, AlphaMode::Blend).bits, 5);
    assert_eq!(pipeline_key(CullMode::Disabled, AlphaMode::Blend).bits, MaterialPipelineKey::TRANSPARENT);
}

#[test]
fn pipeline_keys_tell_materials_apart() {
    let culls = [CullMode::Disabled, CullMode::Back, CullMode::Front];
    let modes = [AlphaMode::Opaque, AlphaMode::Mask, AlphaMode::Blend];
    for &c1 in &culls {
        for &a1 in &modes {
            for &c2 in &culls {
                for &a2 in &modes {
                    let same = pipeline_key(c1, a1) == pipeline_key(c2, a2);
                    let blends = |a: AlphaMode| a == AlphaMode::Blend;
                    assert_eq!(same, c1 == c2 && blends(a1) == blends(a2));
                }
            }
            assert!(!pipeline_key(c1, a1).contains(MaterialPipelineKey::CULL_BACK | MaterialPipelineKey::CULL_FRONT));
        }
    }
}

#[test]
fn key_insert_and_contains() {
    let mut k = MaterialPipelineKey::empty();
    assert!(k.contains(0));
    assert!(!k.contains(MaterialPipelineKey::TRANSPARENT));
    k.insert(MaterialPipelineKey::TRANSPARENT);
    k.insert(MaterialPipelineKey::CULL_FRONT);
    assert_eq!(k.bits, 5);
    assert!(k.contains(MaterialPipelineKey::TRANSPARENT));
    assert!(!k.contains(MaterialPipelineKey::CULL_BACK));
}

#[test]
fn texture_slots_resolve() {
    assert_eq!(resolve_texture(None), Some(TextureSource::Fallback));
    assert_eq!(resolve_texture(Some(AssetStatusKind::Loaded)), Some(TextureSource::Own));
    assert_eq!(resolve_texture(Some(AssetStatusKind::Error)), Some(TextureSource::ErrorTexture));
    assert_eq!(resolve_texture(Some(AssetStatusKind::Removed)), Some(TextureSource::Fallback));
    assert_eq!(resolve_texture(Some(AssetStatusKind::Loading)), None);
    assert_eq!(resolve_texture(Some(AssetStatusKind::Other)), None);
}

#[test]
fn material_waits_for_loading_textures() {
    let ready = vec![None, Some(AssetStatusKind::Loaded), Some(AssetStatusKind::Error)];
    assert_eq!(
        resolve_textures(&ready),
        Some(vec![TextureSource::Fallback, TextureSource::Own, TextureSource::ErrorTexture])
    );
    let waiting = vec![Some(AssetStatusKind::Loaded), Some(AssetStatusKind::Loading), None];
    assert_eq!(resolve_textures(&waiting), None);
    assert_eq!(resolve_textures(&vec![]), Some(vec![]));
}

#[test]
fn material_properties_start_opaque_and_lit() {
    let m = MaterialProperties::new();
    assert!(!m.double_sided());
    assert_eq!(m.alpha_mode(), PropertyAlphaMode::Opaque);
    assert!(!m.unlit());
    assert_eq!(m.buffer_flags(), MaterialBufferFlags { alpha_mode: 0, unlit: 0 });
}

#[test]
fn alpha_mode_reaches_the_buffer_on_the_next_refresh() {
    let m = MaterialProperties::new().with_alpha_mode(PropertyAlphaMode::Blend).with_double_sided(true);
    assert_eq!(m.alpha_mode(), PropertyAlphaMode::Blend);
    assert!(m.double_sided());
    assert_eq!(m.buffer_flags(), MaterialBufferFlags { alpha_mode: 0, unlit: 0 });
    let m = m.with_unlit(true);
    assert_eq!(m.buffer_flags(), MaterialBufferFlags { alpha_mode: 2, unlit: 1 });
    let mut m = m.with_alpha_mode(PropertyAlphaMode::Mask);
    assert_eq!(m.buffer_flags().alpha_mode, 2);
    m.update_buffer();
    assert_eq!(m.buffer_flags(), MaterialBufferFlags { alpha_mode: 1, unlit: 1 });
}
