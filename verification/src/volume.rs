//! Volume textures: a 3-D texture whose bytes come from the CPU, or one a
//! compute kernel writes. The two differ in their defaults and in whether
//! their bytes are uploaded; the GPU format decides how many bytes a texel
//! takes and whether the texture can be filtered.

use vstd::prelude::*;

use crate::bindings::TextureSource;
use crate::textures::{color_format, color_format_of, ColorFormat, MinFilter, TextureDataError, TextureFilter, Wrapping};

verus! {

/// What `wgpu::TextureFormat::block_copy_size(None)` returns for `format`:
/// the bytes one texel takes in a copy, `None` for formats without a single
/// block size.
pub uninterp spec fn block_copy_size_of(format: wgpu::TextureFormat) -> Option<u32>;

/// Whether `wgpu::TextureFormat::sample_type(None, None)` is a filterable
/// float for `format`.
pub uninterp spec fn filterable_float_of(format: wgpu::TextureFormat) -> bool;

/// `format.block_copy_size(None)`: claimed to be a function of the format
/// alone, named [`block_copy_size_of`]; which size each format has is wgpu's
/// table and is not restated.
#[verifier::external_body]
pub(crate) fn texel_size(format: wgpu::TextureFormat) -> (size: Option<u32>)
    ensures
        size == block_copy_size_of(format),
{
    format.block_copy_size(None)
}

/// Whether `format.sample_type(None, None)` is `Float { filterable: true }`:
/// claimed to be a function of the format alone, named
/// [`filterable_float_of`].
#[verifier::external_body]
fn filterable_float(format: wgpu::TextureFormat) -> (filterable: bool)
    ensures
        filterable == filterable_float_of(format),
{
    matches!(format.sample_type(None, None), Some(wgpu::TextureSampleType::Float { filterable: true }))
}

/// A 3-D texture's state: its size, its bytes (none for a storage texture,
/// which the GPU fills), its GPU format, filters and wrapping, and how far
/// its bytes have reached the GPU.
pub struct Data3DTexture {
    pub width: u32,
    pub height: u32,
    pub depth: u32,
    /// Texel rows, slice after slice; `None` for a storage texture.
    pub data: Option<Vec<u8>>,
    pub format: wgpu::TextureFormat,
    pub mag_filter: TextureFilter,
    pub min_filter: MinFilter,
    pub wrap_s: Wrapping,
    pub wrap_t: Wrapping,
    pub wrap_r: Wrapping,
    /// Written by a compute kernel and bound as a storage texture.
    pub is_storage: bool,
    /// Bumped every time the bytes change.
    pub version: u32,
    /// The version whose bytes the GPU texture holds.
    pub uploaded: u32,
    pub gpu: Option<wgpu::Texture>,
}

/// The bytes a `width` x `height` x `depth` volume of `texel`-byte texels
/// holds.
pub open spec fn volume_bytes(width: u32, height: u32, depth: u32, texel: u32) -> int {
    width * height * depth * texel
}

/// Whether `texture` is a new volume of `data`: nearest filters, clamped on
/// every axis, not a storage texture, at version 1 and not yet on the GPU.
pub open spec fn new_volume(
    texture: Data3DTexture,
    data: Vec<u8>,
    width: u32,
    height: u32,
    depth: u32,
    format: wgpu::TextureFormat,
) -> bool {
    &&& texture.width == width && texture.height == height && texture.depth == depth
    &&& texture.data == Some(data)
    &&& texture.format == format
    &&& texture.mag_filter == TextureFilter::Nearest
    &&& texture.min_filter == MinFilter::Nearest
    &&& texture.wrap_s == Wrapping::ClampToEdge
    &&& texture.wrap_t == Wrapping::ClampToEdge
    &&& texture.wrap_r == Wrapping::ClampToEdge
    &&& !texture.is_storage
    &&& texture.version == 1
    &&& texture.uploaded == 0
    &&& texture.gpu is None
}

impl Data3DTexture {
    /// What this volume texture contributes to its sampler: its wrapping on
    /// all three axes and its filters.
    pub fn sampler_source(&self) -> (source: TextureSource)
        ensures
            source == (TextureSource::Texture3D {
                wrap_s: self.wrap_s,
                wrap_t: self.wrap_t,
                wrap_r: self.wrap_r,
                mag_filter: self.mag_filter,
                min_filter: self.min_filter,
            }),
    {
        TextureSource::Texture3D {
            wrap_s: self.wrap_s,
            wrap_t: self.wrap_t,
            wrap_r: self.wrap_r,
            mag_filter: self.mag_filter,
            min_filter: self.min_filter,
        }
    }

    /// Whether the bytes have to be written to the GPU before the next
    /// draw: the GPU texture is missing, or a data texture's bytes have moved
    /// on since the last upload. A storage texture, once it exists, is
    /// current.
    pub open spec fn stale(&self) -> bool {
        self.gpu is None || (!self.is_storage && self.uploaded != self.version)
    }

    fn with(
        data: Option<Vec<u8>>,
        width: u32,
        height: u32,
        depth: u32,
        format: wgpu::TextureFormat,
        is_storage: bool,
    ) -> (texture: Self)
        ensures
            texture.width == width && texture.height == height && texture.depth == depth,
            texture.data == data,
            texture.format == format,
            texture.mag_filter == TextureFilter::Nearest,
            texture.min_filter == MinFilter::Nearest,
            texture.wrap_s == Wrapping::ClampToEdge,
            texture.wrap_t == Wrapping::ClampToEdge,
            texture.wrap_r == Wrapping::ClampToEdge,
            texture.is_storage == is_storage,
            texture.version == 1,
            texture.uploaded == 0,
            texture.gpu is None,
    {
        Data3DTexture {
            width,
            height,
            depth,
            data,
            format,
            mag_filter: TextureFilter::Nearest,
            min_filter: MinFilter::Nearest,
            wrap_s: Wrapping::ClampToEdge,
            wrap_t: Wrapping::ClampToEdge,
            wrap_r: Wrapping::ClampToEdge,
            is_storage,
            version: 1,
            uploaded: 0,
            gpu: None,
        }
    }

    /// A volume of `data` in `format`: nearest filters, clamped on every
    /// axis, not yet on the GPU. The bytes must be exactly `width * height *
    /// depth` texels of the format.
    pub fn new(data: Vec<u8>, width: u32, height: u32, depth: u32, format: wgpu::TextureFormat) -> (texture: Self)
        requires
            block_copy_size_of(format) is Some,
            volume_bytes(width, height, depth, block_copy_size_of(format)->0) <= u32::MAX,
            data@.len() == volume_bytes(width, height, depth, block_copy_size_of(format)->0),
        ensures
            new_volume(texture, data, width, height, depth, format),
    {
        match Self::try_new(data, width, height, depth, format) {
            Ok(texture) => texture,
            Err(_) => vstd::pervasive::unreached(),
        }
    }

    /// [`Self::new`], or why the bytes do not make a volume of `format`: it
    /// has no single texel size, one volume of it would take more bytes than
    /// 32 bits count, or `data` is not exactly one volume.
    pub fn try_new(data: Vec<u8>, width: u32, height: u32, depth: u32, format: wgpu::TextureFormat) -> (result: Result<Self, TextureDataError>)
        ensures
            match block_copy_size_of(format) {
                None => result == Err::<Self, TextureDataError>(TextureDataError::NoTexelSize),
                Some(texel) => if volume_bytes(width, height, depth, texel) > u32::MAX {
                    result == Err::<Self, TextureDataError>(TextureDataError::TooLarge)
                } else if data@.len() != volume_bytes(width, height, depth, texel) {
                    result == Err::<Self, TextureDataError>(
                        TextureDataError::WrongLength {
                            expected: volume_bytes(width, height, depth, texel) as u128,
                            actual: data@.len() as u128,
                        },
                    )
                } else {
                    result matches Ok(texture) && new_volume(texture, data, width, height, depth, format)
                },
            },
    {
        let texel = match texel_size(format) {
            Some(size) => size,
            None => return Err(TextureDataError::NoTexelSize),
        };
        proof {
            assert(width as u128 * height as u128 <= 0xffff_ffff * 0xffff_ffff) by (nonlinear_arith)
                requires width <= 0xffff_ffff, height <= 0xffff_ffff;
            assert(width as u128 * height as u128 * depth as u128 <= 0xffff_ffff * 0xffff_ffff * 0xffff_ffff)
                by (nonlinear_arith)
                requires width <= 0xffff_ffff, height <= 0xffff_ffff, depth <= 0xffff_ffff;
            assert(width as u128 * height as u128 * depth as u128 * texel as u128 <= 0xffff_ffff * 0xffff_ffff
                * 0xffff_ffff * 0xffff_ffff) by (nonlinear_arith)
                requires width <= 0xffff_ffff, height <= 0xffff_ffff, depth <= 0xffff_ffff, texel <= 0xffff_ffff;
        }
        let expected: u128 = width as u128 * height as u128 * depth as u128 * texel as u128;
        if expected > 0xffff_ffff {
            return Err(TextureDataError::TooLarge);
        }
        if data.len() as u128 != expected {
            return Err(TextureDataError::WrongLength { expected, actual: data.len() as u128 });
        }
        Ok(Self::with(Some(data), width, height, depth, format, false))
    }

    /// A volume a compute kernel writes: no bytes, linear filters, in the
    /// 8-bit RGBA format until [`Self::set_format`] says otherwise.
    pub fn storage(width: u32, height: u32, depth: u32) -> (texture: Self)
        ensures
            texture.width == width && texture.height == height && texture.depth == depth,
            texture.data is None,
            texture.format == color_format_of(ColorFormat::Rgba8Unorm),
            texture.mag_filter == TextureFilter::Linear,
            texture.min_filter == MinFilter::Linear,
            texture.wrap_s == Wrapping::ClampToEdge,
            texture.wrap_t == Wrapping::ClampToEdge,
            texture.wrap_r == Wrapping::ClampToEdge,
            texture.is_storage,
            texture.stale(),
    {
        let mut texture = Self::with(None, width, height, depth, color_format(ColorFormat::Rgba8Unorm), true);
        texture.mag_filter = TextureFilter::Linear;
        texture.min_filter = MinFilter::Linear;
        texture
    }

    /// Width, height and depth.
    pub fn size(&self) -> (size: (u32, u32, u32))
        ensures
            size == (self.width, self.height, self.depth),
    {
        (self.width, self.height, self.depth)
    }

    /// The GPU format.
    pub fn format(&self) -> (format: wgpu::TextureFormat)
        ensures
            format == self.format,
    {
        self.format
    }

    /// A new format, before the texture reaches the GPU: the format of a GPU
    /// texture is fixed.
    pub fn set_format(&mut self, format: wgpu::TextureFormat)
        requires
            old(self).gpu is None,
        ensures
            *final(self) == (Data3DTexture { format, ..*old(self) }),
    {
        self.format = format;
    }

    /// Whether a compute kernel writes it.
    pub fn is_storage(&self) -> (storage: bool)
        ensures
            storage == self.is_storage,
    {
        self.is_storage
    }

    pub fn set_min_filter(&mut self, min_filter: MinFilter)
        ensures
            *final(self) == (Data3DTexture { min_filter, ..*old(self) }),
    {
        self.min_filter = min_filter;
    }

    pub fn set_mag_filter(&mut self, mag_filter: TextureFilter)
        ensures
            *final(self) == (Data3DTexture { mag_filter, ..*old(self) }),
    {
        self.mag_filter = mag_filter;
    }

    pub fn set_wrapping(&mut self, wrap_s: Wrapping, wrap_t: Wrapping, wrap_r: Wrapping)
        ensures
            *final(self) == (Data3DTexture { wrap_s, wrap_t, wrap_r, ..*old(self) }),
    {
        self.wrap_s = wrap_s;
        self.wrap_t = wrap_t;
        self.wrap_r = wrap_r;
    }

    /// Whether the texture is read without filtering: nearest on both
    /// filters, which is the default, or a format the GPU cannot filter.
    pub fn is_unfilterable(&self) -> (unfilterable: bool)
        ensures
            unfilterable == ((self.mag_filter == TextureFilter::Nearest && self.min_filter == MinFilter::Nearest)
                || !filterable_float_of(self.format)),
    {
        let nearest = match (self.mag_filter, self.min_filter) {
            (TextureFilter::Nearest, MinFilter::Nearest) => true,
            _ => false,
        };
        nearest || !filterable_float(self.format)
    }

    /// Mark the bytes changed, so the next frame writes them again.
    pub fn set_needs_update(&mut self)
        requires
            old(self).version < u32::MAX,
        ensures
            *final(self) == (Data3DTexture { version: (old(self).version + 1) as u32, ..*old(self) }),
    {
        self.version = self.version + 1;
    }

    /// New bytes for a data texture, at the size it already has; the version
    /// moves on.
    pub fn set_data(&mut self, data: Vec<u8>)
        requires
            !old(self).is_storage,
            old(self).version < u32::MAX,
            data@.len() == (match old(self).data {
                Some(bytes) => bytes@.len(),
                None => 0,
            }),
        ensures
            *final(self) == (Data3DTexture { data: Some(data), version: (old(self).version + 1) as u32, ..*old(self) }),
    {
        self.data = Some(data);
        self.version = self.version + 1;
    }

    /// How many times the bytes have changed, counting the first.
    pub fn version(&self) -> (version: u32)
        ensures
            version == self.version,
    {
        self.version
    }

    /// The GPU texture the renderer created for it.
    pub fn set_gpu(&mut self, gpu: wgpu::Texture)
        ensures
            *final(self) == (Data3DTexture { gpu: Some(gpu), ..*old(self) }),
    {
        self.gpu = Some(gpu);
    }

    /// Whether the texture is on the GPU.
    pub fn has_gpu(&self) -> (on_gpu: bool)
        ensures
            on_gpu == self.gpu is Some,
    {
        self.gpu.is_some()
    }

    /// Whether the bytes have to be written before the next draw.
    pub fn needs_upload(&self) -> (needed: bool)
        ensures
            needed == self.stale(),
    {
        self.gpu.is_none() || (!self.is_storage && self.uploaded != self.version)
    }

    /// Record that the GPU texture now holds the current bytes.
    pub fn mark_uploaded(&mut self)
        ensures
            *final(self) == (Data3DTexture { uploaded: old(self).version, ..*old(self) }),
    {
        self.uploaded = self.version;
    }
}

/// New bytes always reach the GPU: right after `set_data` a data texture is
/// stale, however recently it was uploaded.
pub proof fn new_bytes_are_always_uploaded(before: Data3DTexture, after: Data3DTexture, data: Vec<u8>)
    requires
        !before.is_storage,
        before.version < u32::MAX,
        before.gpu is Some ==> before.uploaded == before.version,
        after == (Data3DTexture { data: Some(data), version: (before.version + 1) as u32, ..before }),
    ensures
        after.stale(),
{
}

/// Once uploaded, a texture on the GPU is current until its bytes change.
pub proof fn an_uploaded_texture_is_current(texture: Data3DTexture)
    requires
        texture.gpu is Some,
        texture.uploaded == texture.version,
    ensures
        !texture.stale(),
{
}

} // verus!
