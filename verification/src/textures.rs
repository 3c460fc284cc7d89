//! Texture descriptions: wrapping and filter modes, texel types, colour
//! spaces, and the images a cube texture is built from.

use vstd::arithmetic::power2::{lemma2_to64, lemma_pow2_strictly_increases, lemma_pow2_unfold, pow2};
use vstd::prelude::*;

use crate::bindings::TextureSource;

verus! {

/// The two wrapping modes a 2-D texture can have.
#[derive(Clone, Copy, Debug, PartialEq, Eq, Hash, Structural)]
pub enum Wrapping {
    /// `ClampToEdgeWrapping`, the default.
    ClampToEdge,
    /// `RepeatWrapping`.
    Repeat,
}

/// A magnification filter, and one half of a minification filter.
#[derive(Clone, Copy, Debug, PartialEq, Eq, Hash, Structural)]
pub enum TextureFilter {
    Nearest,
    Linear,
}

/// The minification filter, which also says how mip levels are blended.
#[derive(Clone, Copy, Debug, PartialEq, Eq, Hash, Structural)]
pub enum MinFilter {
    Nearest,
    Linear,
    /// `LinearMipmapLinearFilter`, the default.
    LinearMipmapLinear,
}

/// The filter used within one mip level.
pub open spec fn min_within_level(filter: MinFilter) -> TextureFilter {
    match filter {
        MinFilter::Nearest => TextureFilter::Nearest,
        _ => TextureFilter::Linear,
    }
}

/// The filter used between mip levels: linear only for the mipmapped filter.
pub open spec fn min_between_levels(filter: MinFilter) -> TextureFilter {
    match filter {
        MinFilter::LinearMipmapLinear => TextureFilter::Linear,
        _ => TextureFilter::Nearest,
    }
}

impl MinFilter {
    /// The filter applied inside a mip level.
    pub fn min(self) -> (result: TextureFilter)
        ensures
            result == min_within_level(self),
    {
        match self {
            MinFilter::Nearest => TextureFilter::Nearest,
            _ => TextureFilter::Linear,
        }
    }

    /// The filter applied between mip levels.
    pub fn mipmap(self) -> (result: TextureFilter)
        ensures
            result == min_between_levels(self),
    {
        match self {
            MinFilter::LinearMipmapLinear => TextureFilter::Linear,
            _ => TextureFilter::Nearest,
        }
    }
}

/// Texel component types.
#[derive(Clone, Copy, Debug, PartialEq, Eq, Structural)]
pub enum TextureType {
    UnsignedByte,
    HalfFloat,
    UnsignedInt,
    Float,
}

/// The types a colour attachment can have.
pub open spec fn is_color_type(t: TextureType) -> bool {
    t is UnsignedByte || t is HalfFloat
}

/// The types a depth attachment can have.
pub open spec fn is_depth_type(t: TextureType) -> bool {
    t is UnsignedInt || t is Float
}

impl TextureType {
    /// Whether this type can back a render target's colour attachment.
    pub fn is_color(self) -> (result: bool)
        ensures
            result == is_color_type(self),
    {
        match self {
            TextureType::UnsignedByte | TextureType::HalfFloat => true,
            _ => false,
        }
    }

    /// Whether this type can back a depth attachment.
    pub fn is_depth(self) -> (result: bool)
        ensures
            result == is_depth_type(self),
    {
        match self {
            TextureType::UnsignedInt | TextureType::Float => true,
            _ => false,
        }
    }
}

#[verifier::external_type_specification]
#[verifier::external_body]
pub struct ExTextureFormat(wgpu::TextureFormat);

#[verifier::external_type_specification]
#[verifier::external_body]
pub struct ExTexture(wgpu::Texture);

/// The colour formats the textures here are created in.
#[derive(Clone, Copy, Debug, PartialEq, Eq, Hash, Structural)]
pub enum ColorFormat {
    Rgba8Unorm,
    Rgba8UnormSrgb,
    Rgba16Float,
}

/// The `wgpu::TextureFormat` of the same name as `format`.
pub uninterp spec fn color_format_of(format: ColorFormat) -> wgpu::TextureFormat;

/// The `wgpu::TextureFormat` variant of the same name as `format`: claimed
/// to be a function of `format` alone, named [`color_format_of`].
#[verifier::external_body]
pub(crate) fn color_format(format: ColorFormat) -> (gpu: wgpu::TextureFormat)
    ensures
        gpu == color_format_of(format),
{
    match format {
        ColorFormat::Rgba8Unorm => wgpu::TextureFormat::Rgba8Unorm,
        ColorFormat::Rgba8UnormSrgb => wgpu::TextureFormat::Rgba8UnormSrgb,
        ColorFormat::Rgba16Float => wgpu::TextureFormat::Rgba16Float,
    }
}

/// The colour format a render target of texel type `t` is created in.
pub open spec fn color_format_for_type(t: TextureType) -> ColorFormat {
    if t is HalfFloat {
        ColorFormat::Rgba16Float
    } else {
        ColorFormat::Rgba8Unorm
    }
}

impl TextureType {
    /// The GPU format of a colour texture of this type, RGBA and with no
    /// colour space: eight-bit for unsigned bytes, half floats for half
    /// floats. Only colour types have one.
    pub fn color_gpu_format(self) -> (format: wgpu::TextureFormat)
        requires
            is_color_type(self),
        ensures
            format == color_format_of(color_format_for_type(self)),
    {
        match self {
            TextureType::HalfFloat => color_format(ColorFormat::Rgba16Float),
            _ => color_format(ColorFormat::Rgba8Unorm),
        }
    }
}

/// Colour spaces, as far as textures need them.
#[derive(Clone, Copy, Debug, PartialEq, Eq, Hash, Structural)]
pub enum ColorSpace {
    NoColorSpace,
    SRGB,
}

/// Cube texture mappings.
#[derive(Clone, Copy, Debug, PartialEq, Eq, Structural)]
pub enum Mapping {
    CubeReflection,
    CubeRefraction,
}

/// One face image of a cube texture, rows top-down, in the texture's own
/// texel format.
#[derive(Clone)]
pub struct Image {
    pub width: u32,
    pub height: u32,
    pub data: Vec<u8>,
}

/// The number of channel values a `width` x `height` RGBA image holds.
pub open spec fn rgba_values(width: u32, height: u32) -> int {
    width * height * 4
}

impl Image {
    /// An RGBA8 face: four bytes per texel.
    pub fn rgba8(width: u32, height: u32, data: Vec<u8>) -> (image: Self)
        requires
            rgba_values(width, height) <= u32::MAX,
            data@.len() == rgba_values(width, height),
        ensures
            image.width == width,
            image.height == height,
            image.data@ == data@,
    {
        Self { width, height, data }
    }

    /// An `rgba16float` face from one binary16 bit pattern per channel: eight
    /// bytes per texel, each half in the machine's byte order.
    pub fn rgba16float(width: u32, height: u32, data: &[u16]) -> (image: Self)
        requires
            rgba_values(width, height) <= u32::MAX,
            data@.len() == rgba_values(width, height),
        ensures
            image.width == width,
            image.height == height,
            image.data@.len() == 2 * data@.len(),
            halves_little_endian(data@, image.data@) || halves_big_endian(data@, image.data@),
    {
        Self { width, height, data: halves_as_bytes(data) }
    }
}

/// `bytes` holds each of `halves`, low byte first.
pub open spec fn halves_little_endian(halves: Seq<u16>, bytes: Seq<u8>) -> bool {
    forall|i: int|
        0 <= i < halves.len() ==> bytes[2 * i] == #[trigger] halves[i] % 256 && bytes[2 * i + 1]
            == halves[i] / 256
}

/// `bytes` holds each of `halves`, high byte first.
pub open spec fn halves_big_endian(halves: Seq<u16>, bytes: Seq<u8>) -> bool {
    forall|i: int|
        0 <= i < halves.len() ==> bytes[2 * i] == #[trigger] halves[i] / 256 && bytes[2 * i + 1]
            == halves[i] % 256
}

/// `bytemuck::cast_slice::<u16, u8>`, copied out. Claimed: twice as many
/// bytes, every half laid out in one byte order, the same for all of them.
/// Which order is the machine's and is not stated.
#[verifier::external_body]
pub(crate) fn halves_as_bytes(halves: &[u16]) -> (bytes: Vec<u8>)
    ensures
        bytes@.len() == 2 * halves@.len(),
        halves_little_endian(halves@, bytes@) || halves_big_endian(halves@, bytes@),
{
    bytemuck::cast_slice::<u16, u8>(halves).to_vec()
}

/// Why texels were refused.
#[derive(Clone, Copy, Debug, PartialEq, Eq, Structural)]
pub enum TextureDataError {
    /// The format has no single texel size.
    NoTexelSize,
    /// One full image would take more bytes than 32 bits count.
    TooLarge,
    /// The bytes are not one full image of the texture.
    WrongLength { expected: u128, actual: u128 },
    /// The renderer does not own the texture's GPU side, so it does not
    /// write texels into it.
    NotOwned,
    /// The version counter is at its largest.
    VersionExhausted,
}

/// A texture type that cannot back what it was asked for.
#[derive(Clone, Copy, Debug, PartialEq, Eq)]
pub struct UnsupportedTextureType {
    /// What the type was asked to back: `"colour"`.
    pub what: &'static str,
    pub texture_type: TextureType,
}

/// The floor of the base-two logarithm of `n`, and 0 for 0 and 1.
pub open spec fn floor_log2(n: nat) -> nat
    decreases n,
{
    if n < 2 {
        0
    } else {
        1 + floor_log2(n / 2)
    }
}

/// The levels of a full mip chain for a `size`-texel side: `floor( log2(
/// size ) ) + 1`, and 1 for an empty image.
pub open spec fn mip_levels(size: nat) -> nat {
    floor_log2(size) + 1
}

/// The levels of a full mip chain for a `size`-texel side: halve until one
/// texel is left.
pub fn full_mip_chain(size: u32) -> (levels: u32)
    ensures
        levels == mip_levels(size as nat),
{
    let mut rest = size;
    let mut levels: u32 = 1;
    proof {
        lemma2_to64();
        assert(rest as nat * pow2(0) == size) by (nonlinear_arith)
            requires pow2(0) == 1, rest == size;
    }
    while rest >= 2
        invariant
            1 <= levels <= 32,
            levels - 1 + floor_log2(rest as nat) == floor_log2(size as nat),
            rest as nat * pow2((levels - 1) as nat) <= size,
        decreases rest,
    {
        proof {
            lemma_pow2_unfold(levels as nat);
            lemma2_to64();
            assert((rest / 2) as nat * pow2(levels as nat) <= rest as nat * pow2((levels - 1) as nat)) by (nonlinear_arith)
                requires pow2(levels as nat) == 2 * pow2((levels - 1) as nat), rest >= 2;
            assert(pow2(levels as nat) <= (rest / 2) as nat * pow2(levels as nat)) by (nonlinear_arith)
                requires rest / 2 >= 1;
            if levels >= 32 {
                if levels > 32 {
                    lemma_pow2_strictly_increases(32, levels as nat);
                }
            }
        }
        rest = rest / 2;
        levels = levels + 1;
    }
    levels
}

/// A cube texture: six face images in the order +x, -x, +y, -y, +z, -z,
/// with the flags and filters its upload and its sampler read.
pub struct CubeTexture {
    pub images: Vec<Image>,
    pub mapping: Mapping,
    pub color_space: ColorSpace,
    /// Unsigned bytes for an 8-bit cube, half floats for an HDR one.
    pub texture_type: TextureType,
    /// Always `false` for a cube.
    pub flip_y: bool,
    pub generate_mipmaps: bool,
    pub anisotropy: u16,
    pub mag_filter: TextureFilter,
    pub min_filter: MinFilter,
    pub gpu: Option<wgpu::Texture>,
}

/// The colour format a cube of `texture_type` in `color_space` is created
/// in: half floats have no sRGB variant and are already linear; eight-bit
/// faces are decoded from sRGB by the GPU on sample.
pub open spec fn cube_format(texture_type: TextureType, color_space: ColorSpace) -> ColorFormat {
    if texture_type is HalfFloat {
        ColorFormat::Rgba16Float
    } else if color_space is SRGB {
        ColorFormat::Rgba8UnormSrgb
    } else {
        ColorFormat::Rgba8Unorm
    }
}

impl CubeTexture {
    /// What this cube texture contributes to its sampler: its filters and
    /// its anisotropy (it is clamped on every axis).
    pub fn sampler_source(&self) -> (source: TextureSource)
        ensures
            source == (TextureSource::Cube {
                mag_filter: self.mag_filter,
                min_filter: self.min_filter,
                anisotropy: self.anisotropy,
            }),
    {
        TextureSource::Cube { mag_filter: self.mag_filter, min_filter: self.min_filter, anisotropy: self.anisotropy }
    }

    /// A cube of `images`: reflection mapping, no colour space, unsigned
    /// bytes, mipmapped with linear filters, not flipped, anisotropy 1.
    pub fn new(images: Vec<Image>) -> (cube: Self)
        ensures
            cube.images@ == images@,
            cube.mapping == Mapping::CubeReflection,
            cube.color_space == ColorSpace::NoColorSpace,
            cube.texture_type == TextureType::UnsignedByte,
            !cube.flip_y,
            cube.generate_mipmaps,
            cube.anisotropy == 1,
            cube.mag_filter == TextureFilter::Linear,
            cube.min_filter == MinFilter::LinearMipmapLinear,
            cube.gpu is None,
    {
        CubeTexture {
            images,
            mapping: Mapping::CubeReflection,
            color_space: ColorSpace::NoColorSpace,
            texture_type: TextureType::UnsignedByte,
            flip_y: false,
            generate_mipmaps: true,
            anisotropy: 1,
            mag_filter: TextureFilter::Linear,
            min_filter: MinFilter::LinearMipmapLinear,
            gpu: None,
        }
    }

    pub fn set_color_space(&mut self, color_space: ColorSpace)
        ensures
            final(self).color_space == color_space,
            final(self).images@ == old(self).images@,
            final(self).texture_type == old(self).texture_type,
            final(self).generate_mipmaps == old(self).generate_mipmaps,
            final(self).mag_filter == old(self).mag_filter,
            final(self).min_filter == old(self).min_filter,
    {
        self.color_space = color_space;
    }

    pub fn color_space(&self) -> (color_space: ColorSpace)
        ensures
            color_space == self.color_space,
    {
        self.color_space
    }

    pub fn mapping(&self) -> (mapping: Mapping)
        ensures
            mapping == self.mapping,
    {
        self.mapping
    }

    /// A new texel type, which must be a colour type; otherwise the cube is
    /// left as it was.
    pub fn set_texture_type(&mut self, texture_type: TextureType) -> (result: Result<(), UnsupportedTextureType>)
        ensures
            is_color_type(texture_type) ==> result is Ok && final(self).texture_type == texture_type,
            !is_color_type(texture_type) ==> result == Err::<(), UnsupportedTextureType>(
                UnsupportedTextureType { what: "colour", texture_type },
            ) && final(self).texture_type == old(self).texture_type,
            final(self).images@ == old(self).images@,
            final(self).color_space == old(self).color_space,
            final(self).generate_mipmaps == old(self).generate_mipmaps,
            final(self).mag_filter == old(self).mag_filter,
            final(self).min_filter == old(self).min_filter,
    {
        if !texture_type.is_color() {
            return Err(UnsupportedTextureType { what: "colour", texture_type });
        }
        self.texture_type = texture_type;
        Ok(())
    }

    pub fn texture_type(&self) -> (texture_type: TextureType)
        ensures
            texture_type == self.texture_type,
    {
        self.texture_type
    }

    pub fn set_generate_mipmaps(&mut self, generate_mipmaps: bool)
        ensures
            final(self).generate_mipmaps == generate_mipmaps,
            final(self).images@ == old(self).images@,
            final(self).texture_type == old(self).texture_type,
            final(self).color_space == old(self).color_space,
            final(self).mag_filter == old(self).mag_filter,
            final(self).min_filter == old(self).min_filter,
    {
        self.generate_mipmaps = generate_mipmaps;
    }

    /// The minification and magnification filters.
    pub fn set_filters(&mut self, min_filter: MinFilter, mag_filter: TextureFilter)
        ensures
            final(self).min_filter == min_filter,
            final(self).mag_filter == mag_filter,
            final(self).images@ == old(self).images@,
            final(self).texture_type == old(self).texture_type,
            final(self).color_space == old(self).color_space,
            final(self).generate_mipmaps == old(self).generate_mipmaps,
    {
        self.min_filter = min_filter;
        self.mag_filter = mag_filter;
    }

    /// The GPU format the cube is created in.
    pub fn gpu_format(&self) -> (format: wgpu::TextureFormat)
        ensures
            format == color_format_of(cube_format(self.texture_type, self.color_space)),
    {
        match self.texture_type {
            TextureType::HalfFloat => color_format(ColorFormat::Rgba16Float),
            _ => match self.color_space {
                ColorSpace::SRGB => color_format(ColorFormat::Rgba8UnormSrgb),
                ColorSpace::NoColorSpace => color_format(ColorFormat::Rgba8Unorm),
            },
        }
    }

    /// The mip levels the cube is allocated with: a full chain for its
    /// larger side, or one level when it is not mipmapped.
    pub fn mip_level_count(&self) -> (levels: u32)
        requires
            self.images@.len() > 0,
        ensures
            levels == if self.generate_mipmaps {
                mip_levels(
                    if self.images@[0].width >= self.images@[0].height {
                        self.images@[0].width as nat
                    } else {
                        self.images@[0].height as nat
                    },
                )
            } else {
                1
            },
    {
        if !self.generate_mipmaps {
            return 1;
        }
        let size = if self.images[0].width >= self.images[0].height {
            self.images[0].width
        } else {
            self.images[0].height
        };
        full_mip_chain(size)
    }

    /// The size of a face: face 0's width and height.
    pub fn size(&self) -> (size: (u32, u32))
        requires
            self.images@.len() > 0,
        ensures
            size == (self.images@[0].width, self.images@[0].height),
    {
        (self.images[0].width, self.images[0].height)
    }
}

/// A full mip chain halves a side down to a single texel: the last level of
/// a `size`-texel side is one texel, the one before it two or more.
pub proof fn a_mip_chain_ends_at_one_texel(size: nat)
    requires
        size >= 1,
    ensures
        pow2((mip_levels(size) - 1) as nat) <= size < pow2(mip_levels(size) as nat),
    decreases size,
{
    if size >= 2 {
        a_mip_chain_ends_at_one_texel(size / 2);
        lemma_pow2_unfold(mip_levels(size) as nat);
        lemma_pow2_unfold((mip_levels(size) - 1) as nat);
    } else {
        lemma2_to64();
    }
}

} // verus!
