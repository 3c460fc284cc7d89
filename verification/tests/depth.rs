use three_rs::depth::{CubeDepthTexture, DepthTexture};
use three_rs::textures::{TextureFilter, TextureType, UnsupportedTextureType};

fn gpu_depth() -> wgpu::Texture {
    let (device, _queue) = wgpu::Device::noop(&wgpu::DeviceDescriptor::default());
    device.create_texture(&wgpu::TextureDescriptor {
        label: None,
        size: wgpu::Extent3d { width: 4, height: 4, depth_or_array_layers: 1 },
        mip_level_count: 1,
        sample_count: 1,
        dimension: wgpu::TextureDimension::D2,
        format: wgpu::TextureFormat::Depth24Plus,
        usage: wgpu::TextureUsages::RENDER_ATTACHMENT,
        view_formats: &[],
    })
}

#[test]
fn a_new_depth_texture_is_24_bit_and_nearest() {
    let texture = DepthTexture::new();
    assert_eq!(texture.texture_type(), TextureType::UnsignedInt);
    assert_eq!((texture.min_filter, texture.mag_filter), (TextureFilter::Nearest, TextureFilter::Nearest));
    assert_eq!((texture.width, texture.height), (0, 0));
    assert!(!texture.is_multisample());
    assert!(texture.gpu.is_none());
    assert_eq!(texture.gpu_format(), wgpu::TextureFormat::Depth24Plus);
    assert_eq!(DepthTexture::default().texture_type(), TextureType::UnsignedInt);
}

#[test]
fn only_depth_types_are_accepted() {
    let mut texture = DepthTexture::new();
    assert_eq!(texture.set_type(TextureType::Float), Ok(()));
    assert_eq!(texture.gpu_format(), wgpu::TextureFormat::Depth32Float);
    assert_eq!(
        texture.set_type(TextureType::HalfFloat),
        Err(UnsupportedTextureType { what: "depth", texture_type: TextureType::HalfFloat })
    );
    assert_eq!(
        texture.set_type(TextureType::UnsignedByte),
        Err(UnsupportedTextureType { what: "depth", texture_type: TextureType::UnsignedByte })
    );
    assert_eq!(texture.texture_type(), TextureType::Float);
    assert_eq!(texture.set_type(TextureType::UnsignedInt), Ok(()));
    assert_eq!(texture.gpu_format(), wgpu::TextureFormat::Depth24Plus);
}

#[test]
fn changing_the_sample_mode_drops_the_gpu_texture() {
    let mut texture = DepthTexture::new();
    texture.gpu = Some(gpu_depth());
    texture.set_multisample(false);
    assert!(texture.gpu.is_some(), "the same mode keeps it");
    texture.set_multisample(true);
    assert!(texture.is_multisample());
    assert!(texture.gpu.is_none(), "a new mode needs a new texture");
}

#[test]
fn depth_filters_are_set_together() {
    let mut texture = DepthTexture::new();
    texture.set_filters(TextureFilter::Linear, TextureFilter::Linear);
    assert_eq!((texture.min_filter, texture.mag_filter), (TextureFilter::Linear, TextureFilter::Linear));
}

#[test]
fn a_cube_depth_texture_compares_linearly() {
    let texture = CubeDepthTexture::new(512);
    assert_eq!(texture.size(), 512);
    assert_eq!((texture.min_filter, texture.mag_filter), (TextureFilter::Linear, TextureFilter::Linear));
    assert!(texture.gpu.is_none());
    assert_eq!(texture.gpu_format(), wgpu::TextureFormat::Depth24Plus);
}
