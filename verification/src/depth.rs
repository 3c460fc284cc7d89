//! Depth textures: the depth attachment of a render target, which a later
//! pass may sample, and the six-face depth texture a point light's shadow is
//! rendered into.

use vstd::prelude::*;

use crate::bindings::TextureSource;
use crate::textures::{is_depth_type, TextureFilter, TextureType, UnsupportedTextureType};

verus! {

/// The depth formats the textures here are created in.
#[derive(Clone, Copy, Debug, PartialEq, Eq, Hash, Structural)]
pub enum DepthFormat {
    Depth24Plus,
    Depth32Float,
}

/// The `wgpu::TextureFormat` of the same name as `format`.
pub uninterp spec fn depth_format_of(format: DepthFormat) -> wgpu::TextureFormat;

/// The `wgpu::TextureFormat` variant of the same name as `format`: claimed
/// to be a function of `format` alone, named [`depth_format_of`].
#[verifier::external_body]
fn depth_format(format: DepthFormat) -> (gpu: wgpu::TextureFormat)
    ensures
        gpu == depth_format_of(format),
{
    match format {
        DepthFormat::Depth24Plus => wgpu::TextureFormat::Depth24Plus,
        DepthFormat::Depth32Float => wgpu::TextureFormat::Depth32Float,
    }
}

/// The depth format of a depth texel type: 24 bits for unsigned integers,
/// 32-bit floats for floats.
pub open spec fn depth_format_for_type(texture_type: TextureType) -> DepthFormat {
    if texture_type is Float {
        DepthFormat::Depth32Float
    } else {
        DepthFormat::Depth24Plus
    }
}

/// A render target's depth attachment.
pub struct DepthTexture {
    pub texture_type: TextureType,
    pub mag_filter: TextureFilter,
    pub min_filter: TextureFilter,
    pub width: u32,
    pub height: u32,
    /// The GPU texture, created when the owning render target is first used.
    pub gpu: Option<wgpu::Texture>,
    /// Whether it is a multisampled attachment, which is declared and bound
    /// differently and never resolved.
    pub multisample: bool,
}

/// A depth texture as `DepthTexture::new` makes it: unsigned integer depth,
/// nearest filters, no size yet, single-sampled, not on the GPU.
pub open spec fn fresh_depth_texture() -> DepthTexture {
    DepthTexture {
        texture_type: TextureType::UnsignedInt,
        mag_filter: TextureFilter::Nearest,
        min_filter: TextureFilter::Nearest,
        width: 0,
        height: 0,
        gpu: None,
        multisample: false,
    }
}

impl DepthTexture {
    /// What this depth texture contributes to its sampler when it is read
    /// as a shadow map, with a comparison: its filters.
    pub fn shadow_map_source(&self) -> (source: TextureSource)
        ensures
            source == (TextureSource::ShadowMap { mag_filter: self.mag_filter, min_filter: self.min_filter }),
    {
        TextureSource::ShadowMap { mag_filter: self.mag_filter, min_filter: self.min_filter }
    }

    /// A depth texture with the defaults of [`fresh_depth_texture`].
    pub fn new() -> (texture: Self)
        ensures
            texture == fresh_depth_texture(),
    {
        DepthTexture {
            texture_type: TextureType::UnsignedInt,
            mag_filter: TextureFilter::Nearest,
            min_filter: TextureFilter::Nearest,
            width: 0,
            height: 0,
            gpu: None,
            multisample: false,
        }
    }

    /// The minification and magnification filters; linear ones make a
    /// comparison sampler blend four comparisons per tap.
    pub fn set_filters(&mut self, min_filter: TextureFilter, mag_filter: TextureFilter)
        ensures
            *final(self) == (DepthTexture { min_filter, mag_filter, ..*old(self) }),
    {
        self.min_filter = min_filter;
        self.mag_filter = mag_filter;
    }

    /// Whether the attachment is multisampled. A change drops the GPU
    /// texture, which has to be created again with the new sample count.
    pub fn set_multisample(&mut self, multisample: bool)
        ensures
            multisample != old(self).multisample ==> *final(self) == (DepthTexture {
                multisample,
                gpu: None,
                ..*old(self)
            }),
            multisample == old(self).multisample ==> *final(self) == *old(self),
    {
        if self.multisample != multisample {
            self.multisample = multisample;
            self.gpu = None;
        }
    }

    pub fn is_multisample(&self) -> (multisample: bool)
        ensures
            multisample == self.multisample,
    {
        self.multisample
    }

    /// A new texel type, which must be a depth type; otherwise the texture
    /// is left as it was.
    pub fn set_type(&mut self, texture_type: TextureType) -> (result: Result<(), UnsupportedTextureType>)
        ensures
            is_depth_type(texture_type) ==> result is Ok && *final(self) == (DepthTexture {
                texture_type,
                ..*old(self)
            }),
            !is_depth_type(texture_type) ==> result == Err::<(), UnsupportedTextureType>(
                UnsupportedTextureType { what: "depth", texture_type },
            ) && *final(self) == *old(self),
    {
        if !texture_type.is_depth() {
            return Err(UnsupportedTextureType { what: "depth", texture_type });
        }
        self.texture_type = texture_type;
        Ok(())
    }

    pub fn texture_type(&self) -> (texture_type: TextureType)
        ensures
            texture_type == self.texture_type,
    {
        self.texture_type
    }

    /// The GPU format the texture is created in; only depth types have one.
    pub fn gpu_format(&self) -> (format: wgpu::TextureFormat)
        requires
            is_depth_type(self.texture_type),
        ensures
            format == depth_format_of(depth_format_for_type(self.texture_type)),
    {
        match self.texture_type {
            TextureType::Float => depth_format(DepthFormat::Depth32Float),
            _ => depth_format(DepthFormat::Depth24Plus),
        }
    }
}

impl Default for DepthTexture {
    fn default() -> (texture: Self)
        ensures
            texture == fresh_depth_texture(),
    {
        DepthTexture::new()
    }
}

/// A depth texture only ever has a depth type: the one it starts with, and
/// whatever `set_type` accepted since.
pub proof fn a_depth_texture_keeps_a_depth_type(
    before: DepthTexture,
    after: DepthTexture,
    texture_type: TextureType,
    result: Result<(), UnsupportedTextureType>,
)
    requires
        is_depth_type(before.texture_type),
        is_depth_type(texture_type) ==> result is Ok && after == (DepthTexture { texture_type, ..before }),
        !is_depth_type(texture_type) ==> after == before,
    ensures
        is_depth_type(after.texture_type),
        is_depth_type(fresh_depth_texture().texture_type),
{
}

/// The six-face depth texture a point light's shadow is rendered into: a
/// square face of `size` texels, six layers on the GPU.
pub struct CubeDepthTexture {
    pub size: u32,
    pub mag_filter: TextureFilter,
    pub min_filter: TextureFilter,
    /// The GPU texture, created the first time the shadow is rendered.
    pub gpu: Option<wgpu::Texture>,
}

impl CubeDepthTexture {
    /// What this cube depth texture contributes to its comparison sampler:
    /// its filters.
    pub fn sampler_source(&self) -> (source: TextureSource)
        ensures
            source == (TextureSource::CubeDepth { mag_filter: self.mag_filter, min_filter: self.min_filter }),
    {
        TextureSource::CubeDepth { mag_filter: self.mag_filter, min_filter: self.min_filter }
    }

    /// A cube depth texture of `size`-texel faces with linear filters, for
    /// comparison sampling, not yet on the GPU.
    pub fn new(size: u32) -> (texture: Self)
        ensures
            texture.size == size,
            texture.mag_filter == TextureFilter::Linear,
            texture.min_filter == TextureFilter::Linear,
            texture.gpu is None,
    {
        CubeDepthTexture { size, mag_filter: TextureFilter::Linear, min_filter: TextureFilter::Linear, gpu: None }
    }

    pub fn size(&self) -> (size: u32)
        ensures
            size == self.size,
    {
        self.size
    }

    /// The GPU format: 24-bit depth, as for an unsigned integer depth
    /// texture.
    pub fn gpu_format(&self) -> (format: wgpu::TextureFormat)
        ensures
            format == depth_format_of(DepthFormat::Depth24Plus),
    {
        depth_format(DepthFormat::Depth24Plus)
    }
}

} // verus!
