//! 2-D textures: an image loaded from disk or handed over as raw data, or
//! the colour attachment of a render target. The state here is what the
//! renderer reads to create, fill and sample the GPU texture; the UV
//! transform (offset, repeat, centre, rotation) is floating point and is
//! kept beside it.

use vstd::prelude::*;

use crate::bindings::TextureSource;
use crate::textures::{
    color_format, color_format_of, halves_as_bytes, halves_big_endian, halves_little_endian, mip_levels,
    ColorFormat, ColorSpace, MinFilter, TextureDataError, TextureFilter, Wrapping,
};
use crate::volume::{block_copy_size_of, texel_size};

verus! {

/// A 2-D texture's state.
pub struct Texture2D {
    pub width: u32,
    pub height: u32,
    /// Texel rows, top-down as decoded, in the texture's format; `None` for
    /// a render target's texture, which the GPU fills.
    pub data: Option<Vec<u8>>,
    pub color_space: ColorSpace,
    pub flip_y: bool,
    pub generate_mipmaps: bool,
    pub wrap_s: Wrapping,
    pub wrap_t: Wrapping,
    pub mag_filter: TextureFilter,
    pub min_filter: MinFilter,
    pub anisotropy: u16,
    /// Whether the renderer owns the GPU texture: `false` for a render
    /// target's, which the target creates.
    pub own_gpu: bool,
    pub gpu: Option<wgpu::Texture>,
    /// The format the GPU texture is created in.
    pub format: wgpu::TextureFormat,
    /// How many times the image has been marked changed; part of the
    /// renderer's texture cache key.
    pub version: u32,
}

/// The bytes one full `width` x `height` image of `texel`-byte texels takes.
pub open spec fn image_bytes(width: u32, height: u32, texel: u32) -> int {
    width * height * texel
}

/// One image's byte count fits in 96 bits, and the 32-bit factors do too.
proof fn lemma_image_bytes_fit(width: u32, height: u32, texel: u32)
    ensures
        0 <= width as u128 * height as u128 <= 0xffff_ffff * 0xffff_ffff,
        0 <= image_bytes(width, height, texel) <= 0xffff_ffff * 0xffff_ffff * 0xffff_ffff,
        image_bytes(width, height, texel) == width as u128 * height as u128 * texel as u128,
{
    assert(0 <= width as u128 * height as u128 <= 0xffff_ffff * 0xffff_ffff) by (nonlinear_arith)
        requires width <= 0xffff_ffff, height <= 0xffff_ffff;
    assert(0 <= image_bytes(width, height, texel) <= 0xffff_ffff * 0xffff_ffff * 0xffff_ffff) by (nonlinear_arith)
        requires width <= 0xffff_ffff, height <= 0xffff_ffff, texel <= 0xffff_ffff;
}

/// The format a colour texture in `color_space` is created in: the sRGB
/// transfer is applied by the GPU on sample.
pub open spec fn format_for_space(color_space: ColorSpace) -> ColorFormat {
    match color_space {
        ColorSpace::SRGB => ColorFormat::Rgba8UnormSrgb,
        ColorSpace::NoColorSpace => ColorFormat::Rgba8Unorm,
    }
}

/// A texture as `Texture2D::new` makes it: clamped, linear filters with a
/// linear mip blend, eight-bit RGBA in no colour space, flipped on upload,
/// mipmapped, anisotropy 1, owned by the renderer, not on the GPU, at
/// version 0.
pub open spec fn fresh_texture(width: u32, height: u32, data: Option<Vec<u8>>) -> Texture2D {
    Texture2D {
        width,
        height,
        data,
        color_space: ColorSpace::NoColorSpace,
        flip_y: true,
        generate_mipmaps: true,
        wrap_s: Wrapping::ClampToEdge,
        wrap_t: Wrapping::ClampToEdge,
        mag_filter: TextureFilter::Linear,
        min_filter: MinFilter::LinearMipmapLinear,
        anisotropy: 1,
        own_gpu: true,
        gpu: None,
        format: color_format_of(ColorFormat::Rgba8Unorm),
        version: 0,
    }
}

impl Texture2D {
    /// What this texture contributes to its sampler: its wrapping on both
    /// axes, its filters and its anisotropy.
    pub fn sampler_source(&self) -> (source: TextureSource)
        ensures
            source == (TextureSource::Texture2D {
                wrap_s: self.wrap_s,
                wrap_t: self.wrap_t,
                mag_filter: self.mag_filter,
                min_filter: self.min_filter,
                anisotropy: self.anisotropy,
            }),
    {
        TextureSource::Texture2D {
            wrap_s: self.wrap_s,
            wrap_t: self.wrap_t,
            mag_filter: self.mag_filter,
            min_filter: self.min_filter,
            anisotropy: self.anisotropy,
        }
    }

    /// A texture of `data`, with the defaults of [`fresh_texture`].
    pub fn new(width: u32, height: u32, data: Option<Vec<u8>>) -> (texture: Self)
        ensures
            texture == fresh_texture(width, height, data),
    {
        Texture2D {
            width,
            height,
            data,
            color_space: ColorSpace::NoColorSpace,
            flip_y: true,
            generate_mipmaps: true,
            wrap_s: Wrapping::ClampToEdge,
            wrap_t: Wrapping::ClampToEdge,
            mag_filter: TextureFilter::Linear,
            min_filter: MinFilter::LinearMipmapLinear,
            anisotropy: 1,
            own_gpu: true,
            gpu: None,
            format: color_format(ColorFormat::Rgba8Unorm),
            version: 0,
        }
    }

    /// The texture behind a render target's colour attachment: no image, no
    /// mipmaps, a linear minification filter, in `format`, and not the
    /// renderer's to create.
    pub fn render_target(width: u32, height: u32, format: wgpu::TextureFormat) -> (texture: Self)
        ensures
            texture == (Texture2D {
                data: None,
                generate_mipmaps: false,
                min_filter: MinFilter::Linear,
                own_gpu: false,
                format,
                ..fresh_texture(width, height, None)
            }),
    {
        let mut texture = Texture2D::new(width, height, None);
        texture.generate_mipmaps = false;
        texture.min_filter = MinFilter::Linear;
        texture.own_gpu = false;
        texture.format = format;
        texture
    }

    /// A raw-data texture of `bytes` in `format`: not flipped, not
    /// mipmapped, linear filters.
    pub fn data_float(width: u32, height: u32, format: wgpu::TextureFormat, bytes: Vec<u8>) -> (texture: Self)
        ensures
            texture == (Texture2D {
                flip_y: false,
                generate_mipmaps: false,
                mag_filter: TextureFilter::Linear,
                min_filter: MinFilter::Linear,
                format,
                ..fresh_texture(width, height, Some(bytes))
            }),
    {
        let mut texture = Texture2D::new(width, height, Some(bytes));
        texture.flip_y = false;
        texture.generate_mipmaps = false;
        texture.mag_filter = TextureFilter::Linear;
        texture.min_filter = MinFilter::Linear;
        texture.format = format;
        texture
    }

    /// A half-float RGBA data texture from one binary16 bit pattern per
    /// channel, four per texel, each half laid out in the machine's byte
    /// order.
    pub fn data_rgba16float(width: u32, height: u32, data: &[u16]) -> (texture: Self)
        requires
            width * height * 4 <= u32::MAX,
            data@.len() == width * height * 4,
        ensures
            texture.width == width,
            texture.height == height,
            texture.data matches Some(bytes) && bytes@.len() == 2 * data@.len() && (halves_little_endian(
                data@,
                bytes@,
            ) || halves_big_endian(data@, bytes@)),
            !texture.flip_y,
            !texture.generate_mipmaps,
            texture.mag_filter == TextureFilter::Linear,
            texture.min_filter == MinFilter::Linear,
            texture.format == color_format_of(ColorFormat::Rgba16Float),
            texture.color_space == ColorSpace::NoColorSpace,
            texture.own_gpu,
            texture.version == 0,
    {
        Self::data_float(width, height, color_format(ColorFormat::Rgba16Float), halves_as_bytes(data))
    }

    /// A new colour space, and the eight-bit format that goes with it.
    pub fn set_color_space(&mut self, color_space: ColorSpace)
        ensures
            *final(self) == (Texture2D {
                color_space,
                format: color_format_of(format_for_space(color_space)),
                ..*old(self)
            }),
    {
        self.color_space = color_space;
        self.format = match color_space {
            ColorSpace::SRGB => color_format(ColorFormat::Rgba8UnormSrgb),
            ColorSpace::NoColorSpace => color_format(ColorFormat::Rgba8Unorm),
        };
    }

    pub fn color_space(&self) -> (color_space: ColorSpace)
        ensures
            color_space == self.color_space,
    {
        self.color_space
    }

    /// Whether rows are flipped on upload; the UV transform does not change.
    pub fn set_flip_y(&mut self, flip_y: bool)
        ensures
            *final(self) == (Texture2D { flip_y, ..*old(self) }),
    {
        self.flip_y = flip_y;
    }

    pub fn set_generate_mipmaps(&mut self, generate_mipmaps: bool)
        ensures
            *final(self) == (Texture2D { generate_mipmaps, ..*old(self) }),
    {
        self.generate_mipmaps = generate_mipmaps;
    }

    pub fn set_min_filter(&mut self, min_filter: MinFilter)
        ensures
            *final(self) == (Texture2D { min_filter, ..*old(self) }),
    {
        self.min_filter = min_filter;
    }

    pub fn set_mag_filter(&mut self, mag_filter: TextureFilter)
        ensures
            *final(self) == (Texture2D { mag_filter, ..*old(self) }),
    {
        self.mag_filter = mag_filter;
    }

    /// Wrapping along `s` and `t`.
    pub fn set_wrapping(&mut self, wrap_s: Wrapping, wrap_t: Wrapping)
        ensures
            *final(self) == (Texture2D { wrap_s, wrap_t, ..*old(self) }),
    {
        self.wrap_s = wrap_s;
        self.wrap_t = wrap_t;
    }

    pub fn set_anisotropy(&mut self, anisotropy: u16)
        ensures
            *final(self) == (Texture2D { anisotropy, ..*old(self) }),
    {
        self.anisotropy = anisotropy;
    }

    /// Width and height.
    pub fn size(&self) -> (size: (u32, u32))
        ensures
            size == (self.width, self.height),
    {
        (self.width, self.height)
    }

    pub fn set_size(&mut self, width: u32, height: u32)
        ensures
            *final(self) == (Texture2D { width, height, ..*old(self) }),
    {
        self.width = width;
        self.height = height;
    }

    /// The bytes one full image of this texture takes: width times height
    /// texels of the format's size. Only formats with a single texel size
    /// have one.
    pub fn data_len(&self) -> (len: usize)
        requires
            block_copy_size_of(self.format) is Some,
            self.width * self.height <= usize::MAX,
            image_bytes(self.width, self.height, block_copy_size_of(self.format)->0) <= usize::MAX,
        ensures
            len == image_bytes(self.width, self.height, block_copy_size_of(self.format)->0),
    {
        let texel = match texel_size(self.format) {
            Some(size) => size,
            None => vstd::pervasive::unreached(),
        };
        self.width as usize * self.height as usize * texel as usize
    }

    /// New texels for a texture the renderer owns, at its size and format;
    /// the version moves on, so the next frame writes them into the GPU
    /// texture it already has.
    pub fn set_data(&mut self, data: Vec<u8>)
        requires
            block_copy_size_of(old(self).format) is Some,
            data@.len() == image_bytes(old(self).width, old(self).height, block_copy_size_of(old(self).format)->0),
            old(self).own_gpu,
            old(self).version < u32::MAX,
        ensures
            *final(self) == (Texture2D { data: Some(data), version: (old(self).version + 1) as u32, ..*old(self) }),
    {
        self.data = Some(data);
        self.version = self.version + 1;
    }

    /// The bytes one full image of this texture takes, or `None` for a
    /// format without a single texel size.
    pub fn try_data_len(&self) -> (len: Option<u128>)
        ensures
            len == match block_copy_size_of(self.format) {
                Some(texel) => Some(image_bytes(self.width, self.height, texel) as u128),
                None => None::<u128>,
            },
    {
        match texel_size(self.format) {
            Some(texel) => {
                proof {
                    lemma_image_bytes_fit(self.width, self.height, texel);
                }
                let texels = self.width as u128 * self.height as u128;
                let bytes = texels * texel as u128;
                if texels <= usize::MAX as u128 && bytes <= usize::MAX as u128 {
                    Some(self.data_len() as u128)
                } else {
                    Some(bytes)
                }
            },
            None => None,
        }
    }

    /// [`Self::set_data`], or why the texels are refused, leaving the
    /// texture as it was: the format has no single texel size, `data` is not
    /// one full image, the renderer does not own the GPU texture, or the
    /// version cannot move on.
    pub fn try_set_data(&mut self, data: Vec<u8>) -> (result: Result<(), TextureDataError>)
        ensures
            match block_copy_size_of(old(self).format) {
                None => result == Err::<(), TextureDataError>(TextureDataError::NoTexelSize) && *final(self)
                    == *old(self),
                Some(texel) => if data@.len() != image_bytes(old(self).width, old(self).height, texel) {
                    &&& result == Err::<(), TextureDataError>(
                        TextureDataError::WrongLength {
                            expected: image_bytes(old(self).width, old(self).height, texel) as u128,
                            actual: data@.len() as u128,
                        },
                    )
                    &&& *final(self) == *old(self)
                } else if !old(self).own_gpu {
                    result == Err::<(), TextureDataError>(TextureDataError::NotOwned) && *final(self) == *old(self)
                } else if old(self).version == u32::MAX {
                    result == Err::<(), TextureDataError>(TextureDataError::VersionExhausted) && *final(self)
                        == *old(self)
                } else {
                    &&& result is Ok
                    &&& *final(self) == (Texture2D {
                        data: Some(data),
                        version: (old(self).version + 1) as u32,
                        ..*old(self)
                    })
                },
            },
    {
        let expected = match self.try_data_len() {
            Some(len) => len,
            None => return Err(TextureDataError::NoTexelSize),
        };
        proof {
            lemma_image_bytes_fit(self.width, self.height, block_copy_size_of(self.format)->0);
        }
        if data.len() as u128 != expected {
            return Err(TextureDataError::WrongLength { expected, actual: data.len() as u128 });
        }
        if !self.own_gpu {
            return Err(TextureDataError::NotOwned);
        }
        if self.version == u32::MAX {
            return Err(TextureDataError::VersionExhausted);
        }
        self.set_data(data);
        Ok(())
    }

    /// Mark the image changed, so the next frame writes it again.
    pub fn set_needs_update(&mut self)
        requires
            old(self).version < u32::MAX,
        ensures
            *final(self) == (Texture2D { version: (old(self).version + 1) as u32, ..*old(self) }),
    {
        self.version = self.version + 1;
    }

    /// How many times the image has been marked changed.
    pub fn version(&self) -> (version: u32)
        ensures
            version == self.version,
    {
        self.version
    }

    pub fn set_gpu(&mut self, gpu: wgpu::Texture)
        ensures
            *final(self) == (Texture2D { gpu: Some(gpu), ..*old(self) }),
    {
        self.gpu = Some(gpu);
    }

    pub fn clear_gpu(&mut self)
        ensures
            *final(self) == (Texture2D { gpu: None, ..*old(self) }),
    {
        self.gpu = None;
    }

    pub fn has_gpu(&self) -> (on_gpu: bool)
        ensures
            on_gpu == self.gpu is Some,
    {
        self.gpu.is_some()
    }

    pub fn format(&self) -> (format: wgpu::TextureFormat)
        ensures
            format == self.format,
    {
        self.format
    }

    pub fn set_format(&mut self, format: wgpu::TextureFormat)
        ensures
            *final(self) == (Texture2D { format, ..*old(self) }),
    {
        self.format = format;
    }

    /// The mip levels the texture is allocated with: a full chain for its
    /// larger side, or one level when it is not mipmapped.
    pub fn mip_level_count(&self) -> (levels: u32)
        ensures
            levels == if self.generate_mipmaps {
                mip_levels(
                    if self.width >= self.height {
                        self.width as nat
                    } else {
                        self.height as nat
                    },
                )
            } else {
                1
            },
    {
        if !self.generate_mipmaps {
            return 1;
        }
        let size = if self.width >= self.height {
            self.width
        } else {
            self.height
        };
        crate::textures::full_mip_chain(size)
    }
}

/// The width `wgpu::Texture::width` reports: the one it was created with.
pub uninterp spec fn gpu_width_of(gpu: wgpu::Texture) -> u32;

/// The height `wgpu::Texture::height` reports: the one it was created with.
pub uninterp spec fn gpu_height_of(gpu: wgpu::Texture) -> u32;

/// The format `wgpu::Texture::format` reports: the one it was created with.
pub uninterp spec fn gpu_format_of(gpu: wgpu::Texture) -> wgpu::TextureFormat;

/// Whether `wgpu::Texture::dimension` reports `D2`.
pub uninterp spec fn gpu_is_2d_of(gpu: wgpu::Texture) -> bool;

/// The layer count `wgpu::Texture::depth_or_array_layers` reports.
pub uninterp spec fn gpu_layers_of(gpu: wgpu::Texture) -> u32;

/// The sample count `wgpu::Texture::sample_count` reports.
pub uninterp spec fn gpu_samples_of(gpu: wgpu::Texture) -> u32;

/// Whether the usages `wgpu::Texture::usage` reports include
/// `TEXTURE_BINDING`, that is, whether a shader may sample it.
pub uninterp spec fn gpu_sampled_of(gpu: wgpu::Texture) -> bool;

/// Whether `wgpu::TextureFormat::is_srgb` holds of `format`: it has an sRGB
/// transfer function.
pub uninterp spec fn srgb_format_of(format: wgpu::TextureFormat) -> bool;

/// `gpu.width()`: claimed to be fixed for the texture, named
/// [`gpu_width_of`]; wgpu documents it as the width it was created with.
#[verifier::external_body]
fn gpu_width(gpu: &wgpu::Texture) -> (width: u32)
    ensures
        width == gpu_width_of(*gpu),
{
    gpu.width()
}

/// `gpu.height()`, named [`gpu_height_of`].
#[verifier::external_body]
fn gpu_height(gpu: &wgpu::Texture) -> (height: u32)
    ensures
        height == gpu_height_of(*gpu),
{
    gpu.height()
}

/// `gpu.format()`, named [`gpu_format_of`].
#[verifier::external_body]
fn gpu_format(gpu: &wgpu::Texture) -> (format: wgpu::TextureFormat)
    ensures
        format == gpu_format_of(*gpu),
{
    gpu.format()
}

/// Whether `gpu.dimension()` is `D2`, named [`gpu_is_2d_of`].
#[verifier::external_body]
fn gpu_is_2d(gpu: &wgpu::Texture) -> (is_2d: bool)
    ensures
        is_2d == gpu_is_2d_of(*gpu),
{
    matches!(gpu.dimension(), wgpu::TextureDimension::D2)
}

/// `gpu.depth_or_array_layers()`, named [`gpu_layers_of`].
#[verifier::external_body]
fn gpu_layers(gpu: &wgpu::Texture) -> (layers: u32)
    ensures
        layers == gpu_layers_of(*gpu),
{
    gpu.depth_or_array_layers()
}

/// `gpu.sample_count()`, named [`gpu_samples_of`].
#[verifier::external_body]
fn gpu_samples(gpu: &wgpu::Texture) -> (samples: u32)
    ensures
        samples == gpu_samples_of(*gpu),
{
    gpu.sample_count()
}

/// Whether `gpu.usage()` contains `TEXTURE_BINDING`, named
/// [`gpu_sampled_of`].
#[verifier::external_body]
fn gpu_sampled(gpu: &wgpu::Texture) -> (sampled: bool)
    ensures
        sampled == gpu_sampled_of(*gpu),
{
    gpu.usage().contains(wgpu::TextureUsages::TEXTURE_BINDING)
}

/// `format.is_srgb()`, named [`srgb_format_of`]; which formats are sRGB is
/// wgpu's table and is not restated.
#[verifier::external_body]
fn srgb_format(format: wgpu::TextureFormat) -> (srgb: bool)
    ensures
        srgb == srgb_format_of(format),
{
    format.is_srgb()
}

/// Why a GPU texture cannot be wrapped as an external 2-D texture.
#[derive(Clone, Copy, Debug, PartialEq, Eq, Structural)]
pub enum ExternalTextureError {
    /// It is not a 2-D texture.
    NotTwoDimensional,
    /// It has more than one layer.
    Layered,
    /// It is multisampled.
    Multisampled,
    /// It was not created for sampling.
    NotSampled,
    /// Its format's transfer function and the colour space disagree.
    TransferMismatch,
}

/// What keeps `gpu` from being wrapped in `color_space`: the first of the
/// checks it fails, in the order they are made, or none.
pub open spec fn external_refusal(gpu: wgpu::Texture, color_space: ColorSpace) -> Option<ExternalTextureError> {
    if !gpu_is_2d_of(gpu) {
        Some(ExternalTextureError::NotTwoDimensional)
    } else if gpu_layers_of(gpu) != 1 {
        Some(ExternalTextureError::Layered)
    } else if gpu_samples_of(gpu) != 1 {
        Some(ExternalTextureError::Multisampled)
    } else if !gpu_sampled_of(gpu) {
        Some(ExternalTextureError::NotSampled)
    } else if srgb_format_of(gpu_format_of(gpu)) != (color_space == ColorSpace::SRGB) {
        Some(ExternalTextureError::TransferMismatch)
    } else {
        None
    }
}

/// `gpu` wrapped for sampling: its size and format, `color_space`, linear
/// filters, no flip and no mipmaps, and not the renderer's to create,
/// upload or destroy.
pub open spec fn wrapped_texture(gpu: wgpu::Texture, color_space: ColorSpace) -> Texture2D {
    Texture2D {
        color_space,
        flip_y: false,
        generate_mipmaps: false,
        mag_filter: TextureFilter::Linear,
        min_filter: MinFilter::Linear,
        own_gpu: false,
        format: gpu_format_of(gpu),
        gpu: Some(gpu),
        ..fresh_texture(gpu_width_of(gpu), gpu_height_of(gpu), None)
    }
}

impl Texture2D {
    /// A GPU texture the caller created and goes on owning, wrapped so a
    /// material can sample it with no copy and no upload. It has to be a
    /// single-layer, single-sample 2-D texture made for sampling, whose
    /// format has the sRGB transfer exactly when `color_space` is sRGB.
    pub fn external(gpu: wgpu::Texture, color_space: ColorSpace) -> (texture: Self)
        requires
            external_refusal(gpu, color_space) is None,
        ensures
            texture == wrapped_texture(gpu, color_space),
    {
        let width = gpu_width(&gpu);
        let height = gpu_height(&gpu);
        let format = gpu_format(&gpu);
        let mut texture = Texture2D::new(width, height, None);
        texture.color_space = color_space;
        texture.flip_y = false;
        texture.generate_mipmaps = false;
        texture.mag_filter = TextureFilter::Linear;
        texture.min_filter = MinFilter::Linear;
        texture.own_gpu = false;
        texture.format = format;
        texture.gpu = Some(gpu);
        texture
    }

    /// [`Self::external`] where `gpu` passes its checks, or the first check
    /// it fails.
    pub fn try_external(gpu: wgpu::Texture, color_space: ColorSpace) -> (result: Result<Self, ExternalTextureError>)
        ensures
            match external_refusal(gpu, color_space) {
                Some(error) => result == Err::<Self, ExternalTextureError>(error),
                None => result == Ok::<Self, ExternalTextureError>(wrapped_texture(gpu, color_space)),
            },
    {
        if !gpu_is_2d(&gpu) {
            return Err(ExternalTextureError::NotTwoDimensional);
        }
        if gpu_layers(&gpu) != 1 {
            return Err(ExternalTextureError::Layered);
        }
        if gpu_samples(&gpu) != 1 {
            return Err(ExternalTextureError::Multisampled);
        }
        if !gpu_sampled(&gpu) {
            return Err(ExternalTextureError::NotSampled);
        }
        let srgb = srgb_format(gpu_format(&gpu));
        let wants_srgb = match color_space {
            ColorSpace::SRGB => true,
            ColorSpace::NoColorSpace => false,
        };
        if srgb != wants_srgb {
            return Err(ExternalTextureError::TransferMismatch);
        }
        Ok(Texture2D::external(gpu, color_space))
    }
}

/// `data` with its `height` rows of `stride` bytes in reverse order: the
/// bottom row first.
pub open spec fn rows_reversed(data: Seq<u8>, stride: int, height: int) -> Seq<u8> {
    Seq::new(
        (stride * height) as nat,
        |i: int| data[(height - 1 - i / stride) * stride + i % stride],
    )
}

impl Texture2D {
    /// [`Self::upload_bytes`] where the texture holds one full image in a
    /// format of one texel size; `None` where it holds no bytes, its format
    /// has no single texel size, or its bytes are not one full image.
    pub fn try_upload_bytes(&self) -> (bytes: Option<Vec<u8>>)
        ensures
            match bytes {
                Some(bytes) => {
                    &&& self.data is Some
                    &&& block_copy_size_of(self.format) is Some
                    &&& self.data->0@.len() == image_bytes(self.width, self.height, block_copy_size_of(self.format)->0)
                    &&& bytes@ == if self.flip_y {
                        rows_reversed(
                            self.data->0@,
                            self.width * block_copy_size_of(self.format)->0,
                            self.height as int,
                        )
                    } else {
                        self.data->0@
                    }
                },
                None => !(self.data is Some && block_copy_size_of(self.format) is Some && self.data->0@.len()
                    == image_bytes(self.width, self.height, block_copy_size_of(self.format)->0)),
            },
    {
        let len = match &self.data {
            Some(data) => data.len(),
            None => return None,
        };
        match self.try_data_len() {
            Some(expected) => {
                proof {
                    lemma_image_bytes_fit(self.width, self.height, block_copy_size_of(self.format)->0);
                }
                if len as u128 == expected {
                    Some(self.upload_bytes())
                } else {
                    None
                }
            },
            None => None,
        }
    }

    /// The bytes written into the GPU texture: the image as it is, or with
    /// its rows in reverse order when it is flipped on upload. Only a texture
    /// the renderer fills, with one full image in a format of one texel
    /// size, has them.
    pub fn upload_bytes(&self) -> (bytes: Vec<u8>)
        requires
            self.data is Some,
            block_copy_size_of(self.format) is Some,
            self.data->0@.len() == image_bytes(self.width, self.height, block_copy_size_of(self.format)->0),
        ensures
            bytes@ == if self.flip_y {
                rows_reversed(
                    self.data->0@,
                    self.width * block_copy_size_of(self.format)->0,
                    self.height as int,
                )
            } else {
                self.data->0@
            },
    {
        let texel = match texel_size(self.format) {
            Some(size) => size,
            None => vstd::pervasive::unreached(),
        };
        let data = match &self.data {
            Some(data) => data,
            None => vstd::pervasive::unreached(),
        };
        if !self.flip_y {
            return data.clone();
        }
        let ghost source = data@;
        let height = self.height as usize;
        let len = data.len();
        let ghost full_stride = self.width * texel;
        proof {
            lemma_image_bytes_fit(self.width, self.height, texel);
            assert(image_bytes(self.width, self.height, texel) == full_stride * self.height) by (nonlinear_arith)
                requires full_stride == self.width * texel;
        }
        let stride: usize = if height == 0 {
            0
        } else {
            len / height
        };
        proof {
            if height > 0 {
                vstd::arithmetic::div_mod::lemma_div_by_multiple(full_stride, height as int);
            }
            assert(len == stride * height) by (nonlinear_arith)
                requires height > 0 ==> stride == full_stride, len == full_stride * height, height == 0 ==> stride == 0;
        }
        let mut flipped: Vec<u8> = Vec::new();
        let mut row: usize = 0;
        while row < height
            invariant
                height == self.height,
                source == data@,
                source.len() == stride * height,
                height > 0 ==> stride == full_stride,
                len == source.len(),
                row <= height,
                flipped@.len() == row * stride,
                forall|i: int|
                    0 <= i < flipped@.len() ==> #[trigger] flipped@[i] == source[(height - 1 - i / stride as int)
                        * stride + i % stride as int],
            decreases height - row,
        {
            proof {
                assert((height - 1 - row) * stride + stride <= stride * height) by (nonlinear_arith)
                    requires row < height;
            }
            let from = (height - 1 - row) * stride;
            let mut column: usize = 0;
            while column < stride
                invariant
                    source == data@,
                    source.len() == stride * height,
                    row < height,
                    len == source.len(),
                    from + stride <= len,
                    from == (height - 1 - row) * stride,
                    column <= stride,
                    flipped@.len() == row * stride + column,
                    forall|i: int|
                        0 <= i < flipped@.len() ==> #[trigger] flipped@[i] == source[(height - 1 - i
                            / stride as int) * stride + i % stride as int],
                decreases stride - column,
            {
                proof {
                    let i = row * stride + column;
                    assert(i / stride as int == row && i % stride as int == column) by {
                        vstd::arithmetic::div_mod::lemma_fundamental_div_mod_converse(
                            i as int,
                            stride as int,
                            row as int,
                            column as int,
                        );
                    }
                    assert(from + column < stride * height) by (nonlinear_arith)
                        requires from == (height - 1 - row) * stride, column < stride, row < height;
                }
                flipped.push(data[from + column]);
                column = column + 1;
            }
            proof {
                assert((row + 1) * stride == row * stride + stride) by (nonlinear_arith);
            }
            row = row + 1;
        }
        proof {
            if height > 0 {
                assert(flipped@.len() == full_stride * self.height) by (nonlinear_arith)
                    requires flipped@.len() == row * stride, row == height, height == self.height, stride == full_stride;
                let expected = rows_reversed(source, full_stride, self.height as int);
                assert forall|i: int| 0 <= i < flipped@.len() implies flipped@[i] == expected[i] by {}
                assert(flipped@ =~= expected);
            } else {
                assert(flipped@ =~= rows_reversed(source, full_stride, self.height as int)) by {
                    assert(full_stride * 0 == 0) by (nonlinear_arith);
                }
            }
        }
        flipped
    }
}

/// What the renderer does with a texture before a draw samples it.
#[derive(Clone, Copy, Debug, PartialEq, Eq, Structural)]
pub enum TextureUpdate {
    /// It is not the renderer's: sample the GPU texture it came with.
    UseOwn,
    /// The GPU texture holds its current texels: nothing to do.
    Reuse,
    /// The GPU texture holds older texels: write the new ones into it, and
    /// fill its mip chain again if it has one.
    Rewrite { mipmaps: bool },
    /// It is not on the GPU yet: create it, write its texels, and fill its
    /// mip chain if it has one.
    Create { mipmaps: bool },
}

/// What a texture at `version`, owned by the renderer or not, with
/// `levels` mip levels, needs when the renderer's cache holds it at
/// `cached` (its version there, if it is there).
pub open spec fn update_for(own_gpu: bool, cached: Option<u32>, version: u32, levels: nat) -> TextureUpdate {
    if !own_gpu {
        TextureUpdate::UseOwn
    } else {
        match cached {
            Some(cached_version) => if cached_version == version {
                TextureUpdate::Reuse
            } else {
                TextureUpdate::Rewrite { mipmaps: levels > 1 }
            },
            None => TextureUpdate::Create { mipmaps: levels > 1 },
        }
    }
}

impl Texture2D {
    /// What this texture needs before a draw, when the renderer's cache
    /// holds it at version `cached` (or not at all): a new version is
    /// written into the GPU texture already there, so its allocation, its
    /// view and the bind groups made from it survive.
    pub fn update(&self, cached: Option<u32>) -> (update: TextureUpdate)
        ensures
            update == update_for(
                self.own_gpu,
                cached,
                self.version,
                if self.generate_mipmaps {
                    mip_levels(
                        if self.width >= self.height {
                            self.width as nat
                        } else {
                            self.height as nat
                        },
                    )
                } else {
                    1
                },
            ),
    {
        if !self.own_gpu {
            return TextureUpdate::UseOwn;
        }
        let mipmaps = self.mip_level_count() > 1;
        match cached {
            Some(cached_version) => {
                if cached_version == self.version {
                    TextureUpdate::Reuse
                } else {
                    TextureUpdate::Rewrite { mipmaps }
                }
            },
            None => TextureUpdate::Create { mipmaps },
        }
    }
}

/// New texels cost one write and no allocation: a texture the cache holds
/// at its version needs nothing, and after `set_data` the same cache entry
/// makes it write the new texels into the GPU texture it already has.
pub proof fn new_texels_are_written_in_place(before: Texture2D, after: Texture2D, data: Vec<u8>, levels: nat)
    requires
        before.own_gpu,
        before.version < u32::MAX,
        after == (Texture2D { data: Some(data), version: (before.version + 1) as u32, ..before }),
    ensures
        update_for(before.own_gpu, Some(before.version), before.version, levels) == TextureUpdate::Reuse,
        update_for(after.own_gpu, Some(before.version), after.version, levels) == (TextureUpdate::Rewrite {
            mipmaps: levels > 1,
        }),
{
}

/// Replacing the texels always reaches the GPU: the version after
/// `set_data` differs from every version the texture had until then, so a
/// cache keyed on it cannot hold the old image.
pub proof fn new_texels_change_the_version(before: Texture2D, after: Texture2D, data: Vec<u8>, seen: u32)
    requires
        before.version < u32::MAX,
        seen <= before.version,
        after == (Texture2D { data: Some(data), version: (before.version + 1) as u32, ..before }),
    ensures
        after.version != seen,
        after.version > before.version,
{
}

} // verus!
