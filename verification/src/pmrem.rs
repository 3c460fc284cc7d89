//! The sizing rules of a prefiltered, mipmapped radiance environment map:
//! the cube size a request becomes, how many roughness levels it has, and
//! which levels are filled by integration rather than importance sampling.

use vstd::arithmetic::power2::{lemma2_to64, lemma_pow2_strictly_increases, lemma_pow2_unfold, pow2};
use vstd::prelude::*;

use crate::texture::Texture2D;
use crate::textures::CubeTexture;

verus! {

/// The smallest cube a PMREM is generated at, whatever the source.
pub const MIN_SIZE: u32 = 256;
/// The smallest level is `2 ^ LOD_MIN` texels a side.
pub const LOD_MIN: u32 = 3;
/// Taps of the spherical Gaussian blur.
pub const BLUR_SAMPLES: usize = 20;
/// Importance samples per texel of a GGX level.
pub const GGX_SAMPLES: usize = 256;
/// The face size of the source level integration sums over.
pub const INTEGRATION_SIZE: u32 = 16;
/// How many of the roughest levels use integration.
pub const INTEGRATION_LEVELS: u32 = 3;
/// The cube size a scene is captured at.
pub const SCENE_SIZE: u32 = 256;

/// The largest power of two not above `n`, and 0 for 0.
pub open spec fn floor_power_of_two(n: nat) -> nat
    decreases n,
{
    if n < 2 {
        n
    } else {
        2 * floor_power_of_two(n / 2)
    }
}

/// `n` is a power of two.
pub open spec fn is_power_of_two(n: nat) -> bool
    decreases n,
{
    if n == 1 {
        true
    } else if n < 1 || n % 2 == 1 {
        false
    } else {
        is_power_of_two(n / 2)
    }
}

/// How many times 2 divides `n`; 32 for 0, as for a 32-bit word.
pub open spec fn trailing_zero_bits(n: nat) -> nat
    decreases n,
{
    if n == 0 {
        32
    } else if n % 2 == 1 {
        0
    } else {
        1 + trailing_zero_bits(n / 2)
    }
}

/// The cube size a request is generated at.
pub open spec fn cube_size(requested: nat) -> nat {
    if floor_power_of_two(requested) >= MIN_SIZE {
        floor_power_of_two(requested)
    } else {
        MIN_SIZE as nat
    }
}

/// The highest level of a PMREM of `size`: `log2( size ) - LOD_MIN`, at
/// least 0.
pub open spec fn max_lod(size: nat) -> nat {
    if trailing_zero_bits(size) >= LOD_MIN {
        (trailing_zero_bits(size) - LOD_MIN) as nat
    } else {
        0
    }
}

proof fn floor_power_of_two_bounds(n: nat)
    ensures
        floor_power_of_two(n) <= n,
        n >= 1 ==> n < 2 * floor_power_of_two(n),
        n >= 1 ==> is_power_of_two(floor_power_of_two(n)),
    decreases n,
{
    if n >= 2 {
        floor_power_of_two_bounds(n / 2);
        let f = floor_power_of_two(n / 2);
        assert((2 * f) / 2 == f && (2 * f) % 2 == 0);
    }
}

/// The cube size a request of `requested` texels a side is generated at:
/// the largest power of two not above it, but at least [`MIN_SIZE`].
pub fn cube_size_for(requested: u32) -> (size: u32)
    ensures
        size == cube_size(requested as nat),
{
    let mut rest = requested;
    let mut power: u32 = 1;
    if requested == 0 {
        power = 0;
    } else {
        while rest >= 2
            invariant
                1 <= rest,
                1 <= power,
                power * floor_power_of_two(rest as nat) == floor_power_of_two(requested as nat),
                power * rest <= requested,
            decreases rest,
        {
            proof {
                floor_power_of_two_bounds(rest as nat);
                assert(power * 2 * (rest / 2) <= power * rest) by (nonlinear_arith)
                    requires power >= 1;
                assert(power * 2 <= power * rest) by (nonlinear_arith)
                    requires rest >= 2, power >= 1;
                assert(power * floor_power_of_two(rest as nat) == (power * 2) * floor_power_of_two((rest / 2) as nat)) by (nonlinear_arith)
                    requires floor_power_of_two(rest as nat) == 2 * floor_power_of_two((rest / 2) as nat);
            }
            power = power * 2;
            rest = rest / 2;
        }
        assert(floor_power_of_two(rest as nat) == 1);
    }
    if power >= MIN_SIZE {
        power
    } else {
        MIN_SIZE
    }
}

/// The highest level of a PMREM of `size`: `log2( size ) - LOD_MIN`.
pub fn max_lod_for(size: u32) -> (lod: u32)
    ensures
        lod == max_lod(size as nat),
{
    let mut zeros: u32 = 0;
    if size == 0 {
        zeros = 32;
    } else {
        let mut rest = size;
        proof {
            lemma2_to64();
        }
        while rest % 2 == 0
            invariant
                1 <= rest,
                zeros + trailing_zero_bits(rest as nat) == trailing_zero_bits(size as nat),
                zeros < 32,
                rest as nat * pow2(zeros as nat) == size as nat,
                pow2(32) == 0x1_0000_0000,
            decreases rest,
        {
            proof {
                lemma_pow2_unfold((zeros + 1) as nat);
                assert(rest as nat * pow2(zeros as nat) == (rest / 2) as nat * pow2((zeros + 1) as nat)) by (nonlinear_arith)
                    requires rest % 2 == 0, pow2((zeros + 1) as nat) == 2 * pow2(zeros as nat);
                assert((rest / 2) as nat * pow2((zeros + 1) as nat) >= pow2((zeros + 1) as nat)) by (nonlinear_arith)
                    requires rest / 2 >= 1;
                if zeros + 1 > 32 {
                    lemma_pow2_strictly_increases(32, (zeros + 1) as nat);
                }
            }
            rest = rest / 2;
            zeros = zeros + 1;
        }
    }
    zeros.saturating_sub(LOD_MIN)
}

/// Whether level `lod` of a PMREM whose highest level is `max_lod` is filled
/// by integration: the last [`INTEGRATION_LEVELS`] levels are.
pub fn uses_integration(lod: u32, max_lod: u32) -> (integrates: bool)
    ensures
        integrates == (lod + INTEGRATION_LEVELS > max_lod),
{
    lod as i64 > max_lod as i64 - INTEGRATION_LEVELS as i64
}

/// Every requested size becomes a power-of-two cube of at least
/// [`MIN_SIZE`], never larger than the request unless the request is below
/// the minimum, and a power of two at or above the minimum is kept as it is.
pub proof fn cube_sizes_are_powers_of_two(requested: nat)
    ensures
        is_power_of_two(cube_size(requested)),
        cube_size(requested) >= MIN_SIZE,
        requested >= MIN_SIZE ==> cube_size(requested) <= requested < 2 * cube_size(requested),
        requested < MIN_SIZE ==> cube_size(requested) == MIN_SIZE,
{
    floor_power_of_two_bounds(requested);
    assert(is_power_of_two(256)) by {
        reveal_with_fuel(is_power_of_two, 10);
    }
    if requested >= MIN_SIZE {
        assert(floor_power_of_two(requested) >= MIN_SIZE) by {
            floor_power_of_two_monotone(MIN_SIZE as nat, requested);
            assert(floor_power_of_two(256) == 256) by {
                reveal_with_fuel(floor_power_of_two, 10);
            }
        }
    } else {
        floor_power_of_two_bounds(requested);
    }
}

proof fn floor_power_of_two_monotone(a: nat, b: nat)
    requires
        a <= b,
    ensures
        floor_power_of_two(a) <= floor_power_of_two(b),
    decreases b,
{
    if a >= 2 {
        floor_power_of_two_monotone(a / 2, b / 2);
    } else if b >= 2 {
        floor_power_of_two_bounds(b);
        floor_power_of_two_bounds(a);
    }
}

/// Exactly the last [`INTEGRATION_LEVELS`] levels of a PMREM with at least
/// that many levels use integration; every level below them uses GGX.
pub proof fn the_roughest_levels_integrate(max_lod: u32, lod: u32)
    requires
        lod <= max_lod,
        max_lod + 1 >= INTEGRATION_LEVELS,
    ensures
        (lod + INTEGRATION_LEVELS > max_lod) <==> lod >= max_lod - (INTEGRATION_LEVELS - 1),
{
}

/// What a PMREM is generated from.
pub enum PmremSource {
    /// A cube map.
    Cube(CubeTexture),
    /// A 2-D longitude/latitude map.
    Equirectangular(Texture2D),
}

/// The size a source asks for: a cube's face width (the minimum for an
/// empty face), a quarter of an equirectangular map's width.
pub open spec fn requested_size_of(source: PmremSource) -> u32 {
    match source {
        PmremSource::Cube(cube) => if cube.images@[0].width == 0 {
            MIN_SIZE
        } else {
            cube.images@[0].width
        },
        PmremSource::Equirectangular(texture) => texture.width / 4,
    }
}

impl PmremSource {
    /// The size this source asks for, before it is made a power of two.
    pub fn requested_size(&self) -> (size: u32)
        requires
            self matches PmremSource::Cube(cube) ==> cube.images@.len() > 0,
        ensures
            size == requested_size_of(*self),
    {
        match self {
            PmremSource::Cube(cube) => {
                let (width, _) = cube.size();
                if width == 0 {
                    MIN_SIZE
                } else {
                    width
                }
            },
            PmremSource::Equirectangular(texture) => texture.width / 4,
        }
    }
}

/// Whether the source cube a PMREM is blurred through has to be allocated
/// again: there is none yet, it is another size, or a depth buffer is now
/// needed and it has none. `current` is the size of the one there is and
/// whether it has a depth buffer.
pub fn source_needs_allocation(current: Option<(u32, bool)>, size: u32, depth_buffer: bool) -> (fresh: bool)
    ensures
        fresh == match current {
            None => true,
            Some((current_size, has_depth)) => current_size != size || (depth_buffer && !has_depth),
        },
{
    match current {
        None => true,
        Some((current_size, has_depth)) => current_size != size || (depth_buffer && !has_depth),
    }
}

} // verus!
