use three_rs::textures::{MinFilter, TextureDataError, TextureFilter, Wrapping};
use three_rs::volume::Data3DTexture;

#[test]
fn a_data_3d_texture_is_nearest_and_clamped() {
    let texture = Data3DTexture::new(vec![0; 8], 2, 2, 2, wgpu::TextureFormat::R8Unorm);
    assert_eq!(texture.mag_filter, TextureFilter::Nearest);
    assert_eq!(texture.min_filter, MinFilter::Nearest);
    assert_eq!(texture.wrap_r, Wrapping::ClampToEdge);
    assert!(!texture.is_storage);
    assert!(texture.is_unfilterable());
    assert!(texture.needs_upload());
}

#[test]
fn linear_filters_make_it_filterable() {
    let mut texture = Data3DTexture::new(vec![0; 8], 2, 2, 2, wgpu::TextureFormat::R8Unorm);
    texture.set_min_filter(MinFilter::Linear);
    texture.set_mag_filter(TextureFilter::Linear);
    assert!(!texture.is_unfilterable());
}

#[test]
fn a_storage_3d_texture_is_linear_and_empty() {
    let texture = Data3DTexture::storage(4, 4, 4);
    assert!(texture.is_storage());
    assert!(!texture.is_unfilterable());
    assert!(texture.data.is_none());
    assert_eq!(texture.format(), wgpu::TextureFormat::Rgba8Unorm);
}

#[test]
fn set_data_bumps_the_version() {
    let mut texture = Data3DTexture::new(vec![0; 8], 2, 2, 2, wgpu::TextureFormat::R8Unorm);
    let before = texture.version();
    texture.set_data(vec![1; 8]);
    assert_eq!(texture.version(), before + 1);
}

#[test]
fn an_rgba_volume_holds_four_bytes_a_texel() {
    let texture = Data3DTexture::new(vec![7; 32], 2, 2, 2, wgpu::TextureFormat::Rgba8Unorm);
    assert_eq!(texture.size(), (2, 2, 2));
    assert_eq!(texture.data.as_deref(), Some(&[7u8; 32][..]));
}

#[test]
fn a_float_volume_is_not_filterable_without_the_feature() {
    let mut texture = Data3DTexture::new(vec![0; 4], 1, 1, 1, wgpu::TextureFormat::R32Float);
    texture.set_min_filter(MinFilter::Linear);
    texture.set_mag_filter(TextureFilter::Linear);
    assert!(texture.is_unfilterable());
    texture.set_format(wgpu::TextureFormat::R8Unorm);
    assert!(!texture.is_unfilterable());
}

#[test]
fn a_volume_is_current_until_its_bytes_change() {
    let mut texture = Data3DTexture::new(vec![0; 8], 2, 2, 2, wgpu::TextureFormat::R8Unorm);
    assert!(!texture.has_gpu());
    assert!(texture.needs_upload());
    texture.mark_uploaded();
    // Uploaded bytes with no GPU texture are still to be written.
    assert!(texture.needs_upload());
    texture.set_needs_update();
    assert_eq!(texture.version(), 2);
}

#[test]
fn a_volume_needs_exactly_its_bytes() {
    assert_eq!(
        Data3DTexture::try_new(vec![0; 8], 2, 2, 2, wgpu::TextureFormat::Rgba8Unorm).err(),
        Some(TextureDataError::WrongLength { expected: 32, actual: 8 })
    );
    assert_eq!(
        Data3DTexture::try_new(vec![], 2, 2, 2, wgpu::TextureFormat::Depth24Plus).err(),
        Some(TextureDataError::NoTexelSize)
    );
    assert_eq!(
        Data3DTexture::try_new(vec![], 65536, 65536, 2, wgpu::TextureFormat::R8Unorm).err(),
        Some(TextureDataError::TooLarge)
    );
    let texture = Data3DTexture::try_new(vec![0; 32], 2, 2, 2, wgpu::TextureFormat::Rgba8Unorm).unwrap();
    assert_eq!(texture.size(), (2, 2, 2));
    assert_eq!(texture.version(), 1);
}
