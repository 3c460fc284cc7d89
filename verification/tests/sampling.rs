use three_rs::bindings::{AddressMode, CompareFunction, FilterMode, SamplerKey, TextureSource};
use three_rs::depth::{CubeDepthTexture, DepthTexture};
use three_rs::texture::Texture2D;
use three_rs::textures::{CubeTexture, TextureFilter, Wrapping};
use three_rs::volume::Data3DTexture;

#[test]
fn a_texture_hands_its_sampler_its_wrapping_filters_and_anisotropy() {
    let mut texture = Texture2D::new(4, 4, None);
    texture.wrap_s = Wrapping::Repeat;
    texture.mag_filter = TextureFilter::Nearest;
    texture.anisotropy = 8;
    let source = texture.sampler_source();
    assert_eq!(
        source,
        TextureSource::Texture2D {
            wrap_s: Wrapping::Repeat,
            wrap_t: texture.wrap_t,
            mag_filter: TextureFilter::Nearest,
            min_filter: texture.min_filter,
            anisotropy: 8,
        }
    );
    let key = SamplerKey::of(&source);
    assert_eq!(key.address[0], AddressMode::Repeat);
    assert_eq!(key.mag_filter, FilterMode::Nearest);
    assert_eq!(key.anisotropy_clamp, 8);
    assert_eq!(key.compare, None);
}

#[test]
fn a_shadow_map_samples_with_a_comparison() {
    let mut depth = DepthTexture::new();
    depth.set_filters(TextureFilter::Linear, TextureFilter::Linear);
    let source = depth.shadow_map_source();
    assert_eq!(source, TextureSource::ShadowMap { mag_filter: TextureFilter::Linear, min_filter: TextureFilter::Linear });
    assert_eq!(SamplerKey::of(&source).compare, Some(CompareFunction::LessEqual));
    let cube = CubeDepthTexture::new(16);
    assert_eq!(SamplerKey::of(&cube.sampler_source()).compare, Some(CompareFunction::LessEqual));
}

#[test]
fn cube_and_volume_textures_hand_over_their_filters() {
    let cube = CubeTexture::new(Vec::new());
    assert_eq!(
        cube.sampler_source(),
        TextureSource::Cube { mag_filter: cube.mag_filter, min_filter: cube.min_filter, anisotropy: cube.anisotropy }
    );
    assert_eq!(SamplerKey::of(&cube.sampler_source()).address, [AddressMode::ClampToEdge; 3]);
    let volume = Data3DTexture::storage(2, 2, 2);
    let source = volume.sampler_source();
    assert!(matches!(source, TextureSource::Texture3D { min_filter, .. } if min_filter == volume.min_filter));
}
