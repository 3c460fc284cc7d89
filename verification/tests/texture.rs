use three_rs::texture::{ExternalTextureError, Texture2D, TextureUpdate};
use three_rs::textures::{ColorSpace, MinFilter, TextureDataError, TextureFilter, Wrapping};

fn rgba(width: u32, height: u32) -> Texture2D {
    Texture2D::new(width, height, Some(vec![0u8; (width * height * 4) as usize]))
}

#[test]
fn a_new_texture_is_at_version_zero() {
    assert_eq!(rgba(2, 2).version(), 0);
}

#[test]
fn set_data_replaces_the_image_and_bumps_the_version() {
    let mut texture = rgba(2, 2);
    texture.set_data(vec![7u8; 16]);

    assert_eq!(texture.version(), 1);
    assert_eq!(texture.data.as_deref(), Some(&[7u8; 16][..]));

    texture.set_data(vec![9u8; 16]);
    assert_eq!(texture.version(), 2);
}

#[test]
fn needs_update_bumps_the_version_on_its_own() {
    let mut texture = rgba(2, 2);
    texture.set_needs_update();
    texture.set_needs_update();
    assert_eq!(texture.version(), 2);
}

#[test]
fn data_len_follows_the_format() {
    assert_eq!(rgba(3, 5).data_len(), 3 * 5 * 4);

    let floats = [0.0f32; 15];
    let atlas = Texture2D::data_float(3, 5, wgpu::TextureFormat::R32Float, bytemuck::cast_slice(&floats).to_vec());
    assert_eq!(atlas.data_len(), 3 * 5 * 4);
}

#[test]
fn a_new_texture_has_the_documented_defaults() {
    let texture = rgba(4, 2);
    assert_eq!(texture.size(), (4, 2));
    assert_eq!(texture.color_space(), ColorSpace::NoColorSpace);
    assert!(texture.flip_y);
    assert!(texture.generate_mipmaps);
    assert_eq!((texture.wrap_s, texture.wrap_t), (Wrapping::ClampToEdge, Wrapping::ClampToEdge));
    assert_eq!(texture.mag_filter, TextureFilter::Linear);
    assert_eq!(texture.min_filter, MinFilter::LinearMipmapLinear);
    assert_eq!(texture.anisotropy, 1);
    assert!(texture.own_gpu);
    assert!(!texture.has_gpu());
    assert_eq!(texture.format(), wgpu::TextureFormat::Rgba8Unorm);
}

#[test]
fn a_render_target_texture_is_not_the_renderers_to_fill() {
    let texture = Texture2D::render_target(8, 4, wgpu::TextureFormat::Bgra8Unorm);
    assert!(texture.data.is_none());
    assert!(!texture.generate_mipmaps);
    assert!(!texture.own_gpu);
    assert_eq!(texture.min_filter, MinFilter::Linear);
    assert_eq!(texture.format(), wgpu::TextureFormat::Bgra8Unorm);
    assert_eq!(texture.mip_level_count(), 1);
}

#[test]
fn the_colour_space_picks_the_format() {
    let mut texture = rgba(1, 1);
    texture.set_color_space(ColorSpace::SRGB);
    assert_eq!(texture.format(), wgpu::TextureFormat::Rgba8UnormSrgb);
    texture.set_color_space(ColorSpace::NoColorSpace);
    assert_eq!(texture.format(), wgpu::TextureFormat::Rgba8Unorm);
}

#[test]
fn a_half_float_data_texture_is_eight_bytes_a_texel() {
    let texture = Texture2D::data_rgba16float(2, 1, &[0x3c00, 0, 0, 0x3c00, 0, 0x3c00, 0, 0x3c00]);
    assert_eq!(texture.format(), wgpu::TextureFormat::Rgba16Float);
    assert_eq!(texture.data.as_ref().map(|d| d.len()), Some(16));
    assert_eq!(texture.data_len(), 16);
    assert!(!texture.flip_y);
    assert!(!texture.generate_mipmaps);
    assert_eq!((texture.min_filter, texture.mag_filter), (MinFilter::Linear, TextureFilter::Linear));
    let first = u16::from_ne_bytes([texture.data.as_ref().unwrap()[0], texture.data.as_ref().unwrap()[1]]);
    assert_eq!(first, 0x3c00);
}

#[test]
fn the_mip_chain_follows_the_larger_side() {
    assert_eq!(rgba(256, 64).mip_level_count(), 9);
    assert_eq!(rgba(3, 5).mip_level_count(), 3);
    assert_eq!(rgba(1, 1).mip_level_count(), 1);
    let mut flat = rgba(256, 256);
    flat.set_generate_mipmaps(false);
    assert_eq!(flat.mip_level_count(), 1);
}

#[test]
fn setters_change_one_thing_each() {
    let mut texture = rgba(2, 2);
    texture.set_wrapping(Wrapping::Repeat, Wrapping::ClampToEdge);
    texture.set_min_filter(MinFilter::Nearest);
    texture.set_mag_filter(TextureFilter::Nearest);
    texture.set_anisotropy(8);
    texture.set_flip_y(false);
    texture.set_size(4, 4);
    assert_eq!((texture.wrap_s, texture.wrap_t), (Wrapping::Repeat, Wrapping::ClampToEdge));
    assert_eq!(texture.min_filter, MinFilter::Nearest);
    assert_eq!(texture.mag_filter, TextureFilter::Nearest);
    assert_eq!(texture.anisotropy, 8);
    assert!(!texture.flip_y);
    assert_eq!(texture.size(), (4, 4));
    assert_eq!(texture.version(), 0);
    texture.set_format(wgpu::TextureFormat::R8Unorm);
    assert_eq!(texture.data_len(), 16);
}

fn gpu_texture(
    format: wgpu::TextureFormat,
    usage: wgpu::TextureUsages,
    dimension: wgpu::TextureDimension,
    layers: u32,
) -> wgpu::Texture {
    let (device, _queue) = wgpu::Device::noop(&wgpu::DeviceDescriptor::default());
    device.create_texture(&wgpu::TextureDescriptor {
        label: None,
        size: wgpu::Extent3d { width: 6, height: 3, depth_or_array_layers: layers },
        mip_level_count: 1,
        sample_count: 1,
        dimension,
        format,
        usage,
        view_formats: &[],
    })
}

#[test]
fn an_external_texture_takes_its_size_and_format_from_the_gpu() {
    let gpu = gpu_texture(
        wgpu::TextureFormat::Rgba8UnormSrgb,
        wgpu::TextureUsages::TEXTURE_BINDING,
        wgpu::TextureDimension::D2,
        1,
    );
    let texture = Texture2D::external(gpu, ColorSpace::SRGB);
    assert_eq!(texture.size(), (6, 3));
    assert_eq!(texture.format(), wgpu::TextureFormat::Rgba8UnormSrgb);
    assert_eq!(texture.color_space(), ColorSpace::SRGB);
    assert!(texture.has_gpu());
    assert!(!texture.own_gpu);
    assert!(!texture.flip_y);
    assert!(!texture.generate_mipmaps);
    assert_eq!((texture.min_filter, texture.mag_filter), (MinFilter::Linear, TextureFilter::Linear));
    assert!(texture.data.is_none());
    assert_eq!(texture.version(), 0);
}

#[test]
fn an_external_texture_is_checked_before_it_is_wrapped() {
    let sampled = wgpu::TextureUsages::TEXTURE_BINDING;
    let plain = || gpu_texture(wgpu::TextureFormat::Rgba8Unorm, sampled, wgpu::TextureDimension::D2, 1);

    assert!(Texture2D::try_external(plain(), ColorSpace::NoColorSpace).is_ok());
    assert_eq!(
        Texture2D::try_external(plain(), ColorSpace::SRGB).err(),
        Some(ExternalTextureError::TransferMismatch)
    );
    let copy_only = gpu_texture(
        wgpu::TextureFormat::Rgba8Unorm,
        wgpu::TextureUsages::COPY_DST,
        wgpu::TextureDimension::D2,
        1,
    );
    assert_eq!(
        Texture2D::try_external(copy_only, ColorSpace::NoColorSpace).err(),
        Some(ExternalTextureError::NotSampled)
    );
    let layered = gpu_texture(wgpu::TextureFormat::Rgba8Unorm, sampled, wgpu::TextureDimension::D2, 2);
    assert_eq!(
        Texture2D::try_external(layered, ColorSpace::NoColorSpace).err(),
        Some(ExternalTextureError::Layered)
    );
    let volume = gpu_texture(wgpu::TextureFormat::Rgba8Unorm, sampled, wgpu::TextureDimension::D3, 2);
    assert_eq!(
        Texture2D::try_external(volume, ColorSpace::NoColorSpace).err(),
        Some(ExternalTextureError::NotTwoDimensional)
    );
}

#[test]
fn a_texture_on_the_gpu_can_be_let_go() {
    let mut texture = rgba(6, 3);
    texture.set_gpu(gpu_texture(
        wgpu::TextureFormat::Rgba8Unorm,
        wgpu::TextureUsages::TEXTURE_BINDING,
        wgpu::TextureDimension::D2,
        1,
    ));
    assert!(texture.has_gpu());
    texture.clear_gpu();
    assert!(!texture.has_gpu());
}

#[test]
fn refused_texels_leave_the_texture_alone() {
    let mut texture = rgba(2, 2);
    assert_eq!(texture.try_data_len(), Some(16));
    assert_eq!(
        texture.try_set_data(vec![0u8; 15]),
        Err(TextureDataError::WrongLength { expected: 16, actual: 15 })
    );
    assert_eq!(texture.version(), 0);
    assert_eq!(texture.try_set_data(vec![5u8; 16]), Ok(()));
    assert_eq!(texture.version(), 1);

    let mut target = Texture2D::render_target(2, 2, wgpu::TextureFormat::Rgba8Unorm);
    assert_eq!(target.try_set_data(vec![0u8; 16]), Err(TextureDataError::NotOwned));
    assert!(target.data.is_none());

    let mut depth = Texture2D::render_target(2, 2, wgpu::TextureFormat::Depth24Plus);
    assert_eq!(depth.try_data_len(), None);
    assert_eq!(depth.try_set_data(vec![0u8; 16]), Err(TextureDataError::NoTexelSize));
}

#[test]
fn a_flipped_texture_is_uploaded_bottom_row_first() {
    let mut texture = Texture2D::new(1, 3, Some(vec![1, 1, 1, 1, 2, 2, 2, 2, 3, 3, 3, 3]));
    assert_eq!(texture.upload_bytes(), vec![3, 3, 3, 3, 2, 2, 2, 2, 1, 1, 1, 1]);
    texture.set_flip_y(false);
    assert_eq!(texture.upload_bytes(), vec![1, 1, 1, 1, 2, 2, 2, 2, 3, 3, 3, 3]);
    let wide = Texture2D::new(2, 2, Some((0u8..16).collect()));
    assert_eq!(wide.upload_bytes(), vec![8, 9, 10, 11, 12, 13, 14, 15, 0, 1, 2, 3, 4, 5, 6, 7]);
}

#[test]
fn new_texels_are_written_into_the_texture_there_is() {
    let mut texture = rgba(4, 4);
    assert_eq!(texture.update(None), TextureUpdate::Create { mipmaps: true });
    assert_eq!(texture.update(Some(0)), TextureUpdate::Reuse);
    texture.set_data(vec![1u8; 64]);
    assert_eq!(texture.update(Some(0)), TextureUpdate::Rewrite { mipmaps: true });
    assert_eq!(texture.update(Some(1)), TextureUpdate::Reuse);
    texture.set_generate_mipmaps(false);
    assert_eq!(texture.update(Some(0)), TextureUpdate::Rewrite { mipmaps: false });
    let target = Texture2D::render_target(4, 4, wgpu::TextureFormat::Rgba8Unorm);
    assert_eq!(target.update(None), TextureUpdate::UseOwn);
}

#[test]
fn only_a_full_image_has_bytes_to_upload() {
    let texture = Texture2D::new(1, 2, Some(vec![1, 1, 1, 1, 2, 2, 2, 2]));
    assert_eq!(texture.try_upload_bytes(), Some(vec![2, 2, 2, 2, 1, 1, 1, 1]));
    assert_eq!(Texture2D::new(1, 2, Some(vec![1, 2, 3])).try_upload_bytes(), None);
    assert_eq!(Texture2D::new(1, 2, None).try_upload_bytes(), None);
    assert_eq!(Texture2D::new(3, 5, None).try_data_len(), Some(60));
}
