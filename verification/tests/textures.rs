use maple::textures::{
    check_required_extensions, convert_image, expand_r16, expand_r16g16, expand_r8, expand_r8g8,
    floor_log2_u32, is_supported_extension, mip_level_count, supports_mipmaps, unsupported_extensions,
    ImageFormat, TextureFormat,
};

#[test]
fn grey_becomes_opaque_rgba() {
    assert_eq!(expand_r8(&vec![7, 200]), vec![7, 7, 7, 255, 200, 200, 200, 255]);
    assert!(expand_r8(&vec![]).is_empty());
}

#[test]
fn grey_alpha_becomes_rgba() {
    assert_eq!(expand_r8g8(&vec![10, 20, 30, 40]), vec![10, 10, 10, 20, 30, 30, 30, 40]);
}

#[test]
fn grey16_becomes_opaque_rgba16() {
    let grey: u16 = 0x1234;
    let bytes = grey.to_ne_bytes().to_vec();
    let out = expand_r16(&bytes);
    let words: Vec<u16> = out.chunks(2).map(|c| u16::from_ne_bytes([c[0], c[1]])).collect();
    assert_eq!(words, vec![0x1234, 0x1234, 0x1234, 0xffff]);
}

#[test]
fn grey_alpha16_becomes_rgba16() {
    let mut bytes = Vec::new();
    for w in [0x0102u16, 0x0304, 0xa0b0, 0xc0d0] {
        bytes.extend_from_slice(&w.to_ne_bytes());
    }
    let out = expand_r16g16(&bytes);
    let words: Vec<u16> = out.chunks(2).map(|c| u16::from_ne_bytes([c[0], c[1]])).collect();
    assert_eq!(words, vec![0x0102, 0x0102, 0x0102, 0x0304, 0xa0b0, 0xa0b0, 0xa0b0, 0xc0d0]);
}

#[test]
fn convert_image_picks_upload_format() {
    let px = vec![1u8, 2, 3, 4, 5, 6, 7, 8, 9, 10, 11, 12];
    assert_eq!(convert_image(ImageFormat::R8, vec![9]), (vec![9, 9, 9, 255], TextureFormat::RGBA8));
    assert_eq!(convert_image(ImageFormat::R8G8, vec![9, 8]), (vec![9, 9, 9, 8], TextureFormat::RGBA8));
    assert_eq!(convert_image(ImageFormat::R16, vec![1, 2]).1, TextureFormat::RGBA16);
    assert_eq!(convert_image(ImageFormat::R16G16, vec![1, 2, 3, 4]).1, TextureFormat::RGBA16);
    assert_eq!(convert_image(ImageFormat::R8G8B8, px.clone()), (px.clone(), TextureFormat::RGB8));
    assert_eq!(convert_image(ImageFormat::R8G8B8A8, px.clone()), (px.clone(), TextureFormat::RGBA8));
    assert_eq!(convert_image(ImageFormat::R16G16B16, px.clone()), (px.clone(), TextureFormat::RGB16));
    assert_eq!(convert_image(ImageFormat::R16G16B16A16, px.clone()), (px.clone(), TextureFormat::RGBA16));
    assert_eq!(convert_image(ImageFormat::R32G32B32FLOAT, px.clone()), (px.clone(), TextureFormat::RGB16));
    assert_eq!(
        convert_image(ImageFormat::R32G32B32A32FLOAT, px.clone()),
        (px, TextureFormat::RGBA32Float)
    );
}

#[test]
fn mipmap_support_by_format() {
    assert!(supports_mipmaps(TextureFormat::RGBA8));
    assert!(supports_mipmaps(TextureFormat::RGB8));
    assert!(supports_mipmaps(TextureFormat::RGB16));
    assert!(supports_mipmaps(TextureFormat::RGBA16Float));
    assert!(supports_mipmaps(TextureFormat::RGBA32Float));
    assert!(!supports_mipmaps(TextureFormat::RGBA16));
    assert!(!supports_mipmaps(TextureFormat::RG32Float));
    assert!(!supports_mipmaps(TextureFormat::Depth32));
}

#[test]
fn floor_log2_values() {
    assert_eq!(floor_log2_u32(0), 0);
    assert_eq!(floor_log2_u32(1), 0);
    assert_eq!(floor_log2_u32(2), 1);
    assert_eq!(floor_log2_u32(255), 7);
    assert_eq!(floor_log2_u32(256), 8);
    assert_eq!(floor_log2_u32(u32::MAX), 31);
}

#[test]
fn mip_levels_follow_larger_side() {
    assert_eq!(mip_level_count(256, 256, TextureFormat::RGBA8), 9);
    assert_eq!(mip_level_count(256, 64, TextureFormat::RGB8), 9);
    assert_eq!(mip_level_count(3, 300, TextureFormat::RGB16), 9);
    assert_eq!(mip_level_count(1, 1, TextureFormat::RGBA8), 1);
    assert_eq!(mip_level_count(0, 0, TextureFormat::RGBA8), 1);
}

#[test]
fn mip_levels_are_capped_at_ten() {
    assert_eq!(mip_level_count(512, 512, TextureFormat::RGBA8), 10);
    assert_eq!(mip_level_count(4096, 2048, TextureFormat::RGBA32Float), 10);
}

#[test]
fn unsupported_formats_get_one_level() {
    assert_eq!(mip_level_count(4096, 4096, TextureFormat::RGBA16), 1);
    assert_eq!(mip_level_count(64, 64, TextureFormat::Depth32), 1);
}

#[test]
fn known_extensions() {
    assert!(is_supported_extension(&"KHR_materials_unlit".to_string()));
    assert!(is_supported_extension(&"KHR_materials_pbrSpecularGlossiness".to_string()));
    assert!(is_supported_extension(&"KHR_materials_emissive_strength".to_string()));
    assert!(!is_supported_extension(&"KHR_draco_mesh_compression".to_string()));
    assert!(!is_supported_extension(&"".to_string()));
}

#[test]
fn unsupported_extensions_keep_order() {
    let names: Vec<String> = ["KHR_texture_transform", "KHR_materials_unlit", "EXT_meshopt_compression"]
        .iter()
        .map(|s| s.to_string())
        .collect();
    assert_eq!(
        unsupported_extensions(&names),
        vec!["KHR_texture_transform".to_string(), "EXT_meshopt_compression".to_string()]
    );
}

#[test]
fn required_extensions_check() {
    assert_eq!(check_required_extensions(&vec![]), Ok(()));
    assert_eq!(check_required_extensions(&vec!["KHR_materials_unlit".to_string()]), Ok(()));
    assert_eq!(
        check_required_extensions(&vec!["KHR_materials_unlit".to_string(), "KHR_draco_mesh_compression".to_string()]),
        Err(vec!["KHR_draco_mesh_compression".to_string()])
    );
}
