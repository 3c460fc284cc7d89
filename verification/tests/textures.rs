use three_rs::objects::{is_bone, BindMode, Bone, Group};
use three_rs::targets::{RenderTargetOptions, RendererParameters};
use three_rs::textures::{
    ColorSpace, CubeTexture, Image, Mapping, MinFilter, TextureFilter, TextureType, UnsupportedTextureType,
};

#[test]
fn the_min_filter_splits_into_level_and_mip_filters() {
    assert_eq!(MinFilter::Nearest.min(), TextureFilter::Nearest);
    assert_eq!(MinFilter::Linear.min(), TextureFilter::Linear);
    assert_eq!(MinFilter::LinearMipmapLinear.min(), TextureFilter::Linear);
    assert_eq!(MinFilter::Nearest.mipmap(), TextureFilter::Nearest);
    assert_eq!(MinFilter::Linear.mipmap(), TextureFilter::Nearest);
    assert_eq!(MinFilter::LinearMipmapLinear.mipmap(), TextureFilter::Linear);
}

#[test]
fn colour_and_depth_types_are_apart() {
    for t in [TextureType::UnsignedByte, TextureType::HalfFloat, TextureType::UnsignedInt, TextureType::Float] {
        assert_ne!(t.is_color(), t.is_depth());
    }
    assert!(TextureType::UnsignedByte.is_color());
    assert!(TextureType::HalfFloat.is_color());
    assert!(TextureType::UnsignedInt.is_depth());
    assert!(TextureType::Float.is_depth());
}

#[test]
fn an_rgba8_face_keeps_its_bytes() {
    let face = Image::rgba8(2, 1, vec![1, 2, 3, 4, 5, 6, 7, 8]);
    assert_eq!((face.width, face.height), (2, 1));
    assert_eq!(face.data, vec![1, 2, 3, 4, 5, 6, 7, 8]);
}

#[test]
fn a_half_float_face_is_eight_bytes_a_texel() {
    let halves = [0x3c00u16, 0x0102, 0xffff, 0];
    let face = Image::rgba16float(1, 1, &halves);
    let expected: Vec<u8> = halves.iter().flat_map(|h| h.to_ne_bytes()).collect();
    assert_eq!(face.data, expected);
    assert_eq!(face.data.len(), 8);
}

#[test]
fn bones_and_groups_know_what_they_are() {
    let bone = Bone::new();
    assert!(is_bone(&bone));
    assert_eq!(bone.name, "");
    let named = Bone::named("hips");
    assert!(is_bone(&named));
    assert_eq!(named.name, "hips");
    let group = Group::new();
    assert!(!is_bone(&group));
    assert!(group.is_group);
    assert!(!bone.is_group);
}

#[test]
fn defaults_are_the_documented_ones() {
    let options = RenderTargetOptions::default();
    assert_eq!(options.texture_type, TextureType::UnsignedByte);
    assert_eq!(options.samples, 0);
    assert!(options.depth_buffer);
    assert_eq!(options.min_filter, TextureFilter::Linear);
    assert!(!RendererParameters::default().antialias);
    assert_eq!(BindMode::default(), BindMode::Attached);
}

fn faces(width: u32, height: u32) -> Vec<Image> {
    let bytes = (width * height * 4) as usize;
    (0..6).map(|_| Image::rgba8(width, height, vec![0; bytes])).collect()
}

#[test]
fn a_new_cube_reflects_and_mipmaps() {
    let cube = CubeTexture::new(faces(4, 4));
    assert_eq!(cube.mapping(), Mapping::CubeReflection);
    assert_eq!(cube.color_space(), ColorSpace::NoColorSpace);
    assert_eq!(cube.texture_type(), TextureType::UnsignedByte);
    assert!(cube.generate_mipmaps);
    assert!(!cube.flip_y);
    assert_eq!(cube.anisotropy, 1);
    assert_eq!(cube.mag_filter, TextureFilter::Linear);
    assert_eq!(cube.min_filter, MinFilter::LinearMipmapLinear);
    assert_eq!(cube.size(), (4, 4));
    assert_eq!(cube.images.len(), 6);
}

#[test]
fn a_cube_refuses_a_depth_type() {
    let mut cube = CubeTexture::new(faces(2, 2));
    assert_eq!(
        cube.set_texture_type(TextureType::Float),
        Err(UnsupportedTextureType { what: "colour", texture_type: TextureType::Float })
    );
    assert_eq!(
        cube.set_texture_type(TextureType::UnsignedInt),
        Err(UnsupportedTextureType { what: "colour", texture_type: TextureType::UnsignedInt })
    );
    assert_eq!(cube.texture_type(), TextureType::UnsignedByte);
    assert_eq!(cube.set_texture_type(TextureType::HalfFloat), Ok(()));
    assert_eq!(cube.texture_type(), TextureType::HalfFloat);
}

#[test]
fn the_cube_format_follows_type_and_colour_space() {
    let mut cube = CubeTexture::new(faces(2, 2));
    assert_eq!(cube.gpu_format(), wgpu::TextureFormat::Rgba8Unorm);
    cube.set_color_space(ColorSpace::SRGB);
    assert_eq!(cube.color_space(), ColorSpace::SRGB);
    assert_eq!(cube.gpu_format(), wgpu::TextureFormat::Rgba8UnormSrgb);
    cube.set_texture_type(TextureType::HalfFloat).unwrap();
    assert_eq!(cube.gpu_format(), wgpu::TextureFormat::Rgba16Float);
}

#[test]
fn the_mip_chain_runs_down_to_one_texel() {
    assert_eq!(CubeTexture::new(faces(256, 256)).mip_level_count(), 9);
    assert_eq!(CubeTexture::new(faces(1, 1)).mip_level_count(), 1);
    assert_eq!(CubeTexture::new(faces(5, 3)).mip_level_count(), 3);
    assert_eq!(CubeTexture::new(faces(3, 8)).mip_level_count(), 4);
    let mut flat = CubeTexture::new(faces(256, 256));
    flat.set_generate_mipmaps(false);
    assert_eq!(flat.mip_level_count(), 1);
}

#[test]
fn filters_are_set_together() {
    let mut cube = CubeTexture::new(faces(2, 2));
    cube.set_filters(MinFilter::Nearest, TextureFilter::Nearest);
    assert_eq!(cube.min_filter, MinFilter::Nearest);
    assert_eq!(cube.mag_filter, TextureFilter::Nearest);
}
