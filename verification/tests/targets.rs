use three_rs::depth::DepthTexture;
use three_rs::targets::{RenderTarget, RenderTargetOptions, OUTPUT_ATTACHMENT};
use three_rs::textures::{MinFilter, TextureFilter, TextureType, UnsupportedTextureType};

fn gpu_texture() -> wgpu::Texture {
    let (device, _queue) = wgpu::Device::noop(&wgpu::DeviceDescriptor::default());
    device.create_texture(&wgpu::TextureDescriptor {
        label: None,
        size: wgpu::Extent3d { width: 2, height: 2, depth_or_array_layers: 1 },
        mip_level_count: 1,
        sample_count: 1,
        dimension: wgpu::TextureDimension::D2,
        format: wgpu::TextureFormat::Rgba8Unorm,
        usage: wgpu::TextureUsages::TEXTURE_BINDING,
        view_formats: &[],
    })
}

#[test]
fn a_new_target_has_one_attachment() {
    let target = RenderTarget::new(64, 32);
    assert_eq!(target.size(), (64, 32));
    assert_eq!(target.samples(), 0);
    assert_eq!(target.attachment_names(), vec![OUTPUT_ATTACHMENT.to_string()]);
    assert_eq!(target.texture().size(), (64, 32));
    assert_eq!(target.texture().format(), wgpu::TextureFormat::Rgba8Unorm);
    assert_eq!(target.texture().min_filter, MinFilter::Linear);
    assert!(!target.texture().own_gpu);
    assert!(!target.texture().generate_mipmaps);
    assert!(target.depth_texture().is_none());
    assert!(target.depth_buffer);
    assert!(!target.scissor_test());
    assert_eq!(target.color_format(), wgpu::TextureFormat::Rgba8Unorm);
}

#[test]
fn a_target_needs_a_colour_type() {
    let options = RenderTargetOptions { texture_type: TextureType::Float, ..RenderTargetOptions::default() };
    assert_eq!(
        RenderTarget::new_with_options(4, 4, options).err(),
        Some(UnsupportedTextureType { what: "colour", texture_type: TextureType::Float })
    );
    let half = RenderTargetOptions {
        texture_type: TextureType::HalfFloat,
        min_filter: TextureFilter::Nearest,
        ..RenderTargetOptions::default()
    };
    let target = RenderTarget::new_with_options(4, 4, half).unwrap();
    assert_eq!(target.color_format(), wgpu::TextureFormat::Rgba16Float);
    assert_eq!(target.texture().min_filter, MinFilter::Nearest);
}

#[test]
fn outputs_get_locations_in_the_order_they_are_asked_for() {
    let mut target = RenderTarget::new(8, 8);
    assert_eq!(target.add_texture(OUTPUT_ATTACHMENT), 0);
    assert_eq!(target.add_texture("normal"), 1);
    assert_eq!(target.add_texture("emissive"), 2);
    assert_eq!(target.add_texture("normal"), 1);
    assert_eq!(
        target.attachment_names(),
        vec!["output".to_string(), "normal".to_string(), "emissive".to_string()]
    );
    let names = target.attachment_names();
    assert_eq!(names[target.add_texture("emissive")], "emissive");
    assert_eq!(target.extra_textures[0].1.size(), (8, 8));
}

#[test]
fn a_previous_texture_is_never_an_attachment() {
    let mut target = RenderTarget::new(8, 8);
    assert_eq!(target.add_previous_texture(OUTPUT_ATTACHMENT), 0);
    assert_eq!(target.add_previous_texture(OUTPUT_ATTACHMENT), 0);
    assert_eq!(target.attachment_names().len(), 1);
    assert_eq!(target.previous_textures.len(), 1);
}

#[test]
fn toggling_swaps_the_gpu_textures_and_twice_swaps_back() {
    let mut target = RenderTarget::new(2, 2);
    target.add_previous_texture(OUTPUT_ATTACHMENT);
    target.texture.set_gpu(gpu_texture());
    assert!(target.texture().has_gpu());
    assert!(!target.previous_textures[0].1.has_gpu());

    target.toggle_texture(OUTPUT_ATTACHMENT);
    assert!(!target.texture().has_gpu());
    assert!(target.previous_textures[0].1.has_gpu());

    target.toggle_texture(OUTPUT_ATTACHMENT);
    assert!(target.texture().has_gpu());
    assert!(!target.previous_textures[0].1.has_gpu());

    // A name with no previous texture toggles nothing.
    target.add_texture("normal");
    target.toggle_texture("normal");
    assert!(target.texture().has_gpu());
}

#[test]
fn a_new_size_drops_everything_on_the_gpu() {
    let mut target = RenderTarget::new(2, 2);
    target.add_texture("normal");
    target.add_previous_texture("normal");
    target.texture.set_gpu(gpu_texture());
    target.extra_textures[0].1.set_gpu(gpu_texture());
    target.depth = Some(gpu_texture());
    let mut depth = DepthTexture::new();
    depth.gpu = Some(gpu_texture());
    target.set_depth_texture(depth);

    target.set_size(2, 2);
    assert!(target.texture().has_gpu(), "the same size keeps them");

    target.set_size(4, 3);
    assert_eq!(target.size(), (4, 3));
    assert_eq!(target.texture().size(), (4, 3));
    assert!(!target.texture().has_gpu());
    assert_eq!(target.extra_textures[0].1.size(), (4, 3));
    assert!(!target.extra_textures[0].1.has_gpu());
    assert_eq!(target.previous_textures[0].1.size(), (4, 3));
    assert!(target.depth.is_none());
    assert!(target.depth_texture().unwrap().gpu.is_none());
}

#[test]
fn the_depth_texture_follows_the_sample_count() {
    let mut target = RenderTarget::new(2, 2);
    target.set_depth_texture(DepthTexture::new());
    assert!(!target.depth_texture().unwrap().is_multisample());
    target.set_samples(4);
    assert_eq!(target.samples(), 4);
    assert!(target.depth_texture().unwrap().is_multisample());
    target.set_samples(1);
    assert!(!target.depth_texture().unwrap().is_multisample());

    let mut multisampled = RenderTarget::new(2, 2);
    multisampled.set_samples(4);
    multisampled.set_depth_texture(DepthTexture::new());
    assert!(multisampled.depth_texture().unwrap().is_multisample());
}

#[test]
fn a_cloned_target_has_textures_of_its_own() {
    let mut target = RenderTarget::new(6, 4);
    target.set_samples(4);
    target.add_texture("normal");
    target.add_texture("depth");
    target.add_previous_texture(OUTPUT_ATTACHMENT);
    target.set_depth_texture(DepthTexture::new());
    target.texture.set_gpu(gpu_texture());
    target.set_scissor_test(true);

    let clone = target.clone_target();
    assert_eq!(clone.size(), (6, 4));
    assert_eq!(clone.samples(), 4);
    assert_eq!(clone.attachment_names(), target.attachment_names());
    assert!(!clone.texture().has_gpu());
    assert!(clone.previous_textures.is_empty());
    assert!(clone.depth_texture().unwrap().is_multisample());
    assert!(!clone.scissor_test());
}

#[test]
fn a_target_lists_what_it_lacks_on_the_gpu() {
    let mut target = RenderTarget::new(8, 4);
    target.add_texture("normal");
    target.add_texture("emissive");
    target.add_previous_texture(OUTPUT_ATTACHMENT);
    target.extra_textures[0].1.set_gpu(gpu_texture());
    let needed = target.allocations();
    assert_eq!((needed.width, needed.height, needed.sample_count), (8, 4, 1));
    assert!(needed.color);
    assert_eq!(needed.extra, vec![1]);
    assert_eq!(needed.previous, vec![0]);
    assert!(!needed.msaa);
    assert!(needed.depth_buffer);
    assert!(!needed.depth_texture);

    target.set_samples(4);
    target.set_depth_texture(DepthTexture::new());
    target.texture.set_gpu(gpu_texture());
    let needed = target.allocations();
    assert_eq!(needed.sample_count, 4);
    assert!(!needed.color);
    assert!(needed.msaa);
    assert!(!needed.depth_buffer, "an attached depth texture replaces the buffer");
    assert!(needed.depth_texture);
}

#[test]
fn the_gpu_textures_go_where_they_are_put() {
    let mut target = RenderTarget::new(4, 4);
    target.add_texture("normal");
    target.add_previous_texture(OUTPUT_ATTACHMENT);
    target.set_color_gpu(gpu_texture());
    target.set_extra_gpu(0, gpu_texture());
    target.set_previous_gpu(0, gpu_texture());
    target.set_msaa_gpu(gpu_texture());
    target.set_depth_buffer_gpu(gpu_texture());
    assert!(target.texture.has_gpu());
    assert!(target.extra_textures[0].1.has_gpu());
    assert_eq!(target.extra_textures[0].0, "normal");
    assert!(target.previous_textures[0].1.has_gpu());
    assert!(target.msaa.is_some() && target.depth.is_some());

    target.set_depth_texture_gpu(4, 4, gpu_texture());
    assert!(target.depth_texture.is_none());
    target.set_depth_texture(DepthTexture::new());
    target.set_depth_texture_gpu(4, 4, gpu_texture());
    let depth = target.depth_texture.as_ref().unwrap();
    assert_eq!((depth.width, depth.height), (4, 4));
    assert!(depth.gpu.is_some());
}
