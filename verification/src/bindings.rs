//! The keys of the per-draw binding caches: which draw a persistent buffer
//! belongs to, what a sampler is made of, what a bind group binds, and how
//! long an unused cache entry survives. Everything here is pure, so the
//! identity rules hold without a device.

use std::collections::HashSet;
use vstd::prelude::*;

use crate::textures::{min_between_levels, min_within_level, MinFilter, TextureFilter, Wrapping};

verus! {

broadcast use vstd::std_specs::hash::group_hash_axioms;

/// How many frames an unused cache entry survives a sweep.
pub const CACHE_GRACE_FRAMES: u64 = 4;

/// One draw's identity, for the buffers that hold its per-draw data.
///
/// `occurrence` makes the key unique within one pass: the n-th draw of the
/// same object, geometry, material and variant in a pass gets the n-th
/// buffer, because two draws of one pass that shared a buffer would both read
/// whichever wrote last.
#[derive(Clone, Copy, Debug, PartialEq, Eq, Hash, Structural)]
pub struct DrawKey {
    /// The object's id; `None` for the renderer's own draws.
    pub object: Option<u32>,
    pub geometry: usize,
    pub material: usize,
    pub variant: u64,
    pub occurrence: u32,
}

/// `key` with its occurrence cleared: the draw itself, whichever time in the
/// pass it is drawn.
pub open spec fn draw_of(key: DrawKey) -> DrawKey {
    DrawKey { occurrence: 0, ..key }
}

/// Hands out [`DrawKey::occurrence`] for one pass: for every draw seen so
/// far, how many times it has been seen.
pub struct Occurrences {
    seen: Vec<(DrawKey, u32)>,
}

impl View for Occurrences {
    /// For each draw (occurrence cleared) seen in this pass, how many times
    /// it has been seen.
    type V = Map<DrawKey, u32>;

    closed spec fn view(&self) -> Map<DrawKey, u32> {
        Map::new(
            |k: DrawKey| exists|i: int| 0 <= i < self.seen@.len() && #[trigger] self.seen@[i].0 == k,
            |k: DrawKey|
                self.seen@[choose|i: int| 0 <= i < self.seen@.len() && #[trigger] self.seen@[i].0 == k].1,
        )
    }
}

/// How many times `map` has seen the draw behind `key`.
pub open spec fn times_seen(map: Map<DrawKey, u32>, key: DrawKey) -> u32 {
    if map.contains_key(draw_of(key)) {
        map[draw_of(key)]
    } else {
        0
    }
}

/// What one call of [`Occurrences::next`] does: `result` is `key` numbered
/// by how often its draw was seen before, and the count of that draw, and of
/// no other, goes up by one.
pub open spec fn occurrence_step(
    before: Map<DrawKey, u32>,
    key: DrawKey,
    result: DrawKey,
    after: Map<DrawKey, u32>,
) -> bool {
    &&& times_seen(before, key) < u32::MAX
    &&& result == DrawKey { occurrence: times_seen(before, key), ..key }
    &&& after == before.insert(draw_of(key), (times_seen(before, key) + 1) as u32)
}

impl Occurrences {
    /// The entries are distinct draws, each with its occurrence cleared.
    pub closed spec fn wf(&self) -> bool {
        &&& forall|i: int|
            0 <= i < self.seen@.len() ==> (#[trigger] self.seen@[i]).0.occurrence == 0
        &&& forall|i: int, j: int|
            0 <= i < j < self.seen@.len() ==> (#[trigger] self.seen@[i]).0 != (
            #[trigger] self.seen@[j]).0
    }

    /// A pass that has seen nothing yet.
    pub fn new() -> (pass: Self)
        ensures
            pass.wf(),
            pass@ == Map::<DrawKey, u32>::empty(),
    {
        let pass = Occurrences { seen: Vec::new() };
        assert(pass@ =~= Map::<DrawKey, u32>::empty());
        pass
    }

    /// `key` with its `occurrence` set to how many times this pass has
    /// already seen the same draw.
    pub fn next(&mut self, key: DrawKey) -> (numbered: DrawKey)
        requires
            old(self).wf(),
            times_seen(old(self)@, key) < u32::MAX,
        ensures
            final(self).wf(),
            occurrence_step(old(self)@, key, numbered, final(self)@),
    {
        let base = DrawKey { occurrence: 0, ..key };
        let ghost before = self@;
        let n = self.seen.len();
        let mut i: usize = 0;
        while i < n
            invariant
                n == self.seen@.len(),
                self@ == before,
                before == old(self)@,
                self.wf(),
                base == draw_of(key),
                times_seen(before, key) < u32::MAX,
                0 <= i <= n,
                forall|j: int| 0 <= j < i ==> (#[trigger] self.seen@[j]).0 != base,
            decreases n - i,
        {
            if self.seen[i].0 == base {
                let seen = self.seen[i].1;
                proof {
                    assert(self@.contains_key(base));
                    let c = choose|j: int| 0 <= j < self.seen@.len() && #[trigger] self.seen@[j].0 == base;
                    assert(c == i as int);
                    assert(times_seen(before, key) == seen);
                }
                let ghost old_seen = self.seen@;
                self.seen.set(i, (base, seen + 1));
                proof {
                    assert forall|k: DrawKey| #[trigger] self@.contains_key(k) == before.insert(base, (seen + 1) as u32).contains_key(k) by {
                        if k != base && before.contains_key(k) {
                            let c = choose|j: int| 0 <= j < old_seen.len() && #[trigger] old_seen[j].0 == k;
                            assert(self.seen@[c].0 == k);
                        }
                        if k != base && self@.contains_key(k) {
                            let c = choose|j: int| 0 <= j < self.seen@.len() && #[trigger] self.seen@[j].0 == k;
                            assert(old_seen[c].0 == k);
                        }
                        if k == base {
                            assert(self.seen@[i as int].0 == k);
                        }
                    }
                    assert forall|k: DrawKey| #[trigger] self@.contains_key(k) implies self@[k] == before.insert(base, (seen + 1) as u32)[k] by {
                        let c = choose|j: int| 0 <= j < self.seen@.len() && #[trigger] self.seen@[j].0 == k;
                        if k != base {
                            let d = choose|j: int| 0 <= j < old_seen.len() && #[trigger] old_seen[j].0 == k;
                            assert(c == d);
                        } else {
                            assert(c == i as int);
                        }
                    }
                    assert(self@ =~= before.insert(base, (seen + 1) as u32));
                    assert(before == old(self)@);
                    assert(DrawKey { occurrence: seen, ..base } == DrawKey { occurrence: times_seen(before, key), ..key });
                    assert(self@ == before.insert(draw_of(key), (times_seen(before, key) + 1) as u32));
                }
                return DrawKey { occurrence: seen, ..base };
            }
            i = i + 1;
        }
        proof {
            assert(!before.contains_key(base));
        }
        let ghost old_seen = self.seen@;
        self.seen.push((base, 1));
        proof {
            assert forall|k: DrawKey| #[trigger] self@.contains_key(k) == before.insert(base, 1u32).contains_key(k) by {
                if k != base && before.contains_key(k) {
                    let c = choose|j: int| 0 <= j < old_seen.len() && #[trigger] old_seen[j].0 == k;
                    assert(self.seen@[c].0 == k);
                }
                if k == base {
                    assert(self.seen@[n as int].0 == k);
                }
            }
            assert forall|k: DrawKey| #[trigger] self@.contains_key(k) implies self@[k] == before.insert(base, 1u32)[k] by {
                let c = choose|j: int| 0 <= j < self.seen@.len() && #[trigger] self.seen@[j].0 == k;
                if k != base {
                    let d = choose|j: int| 0 <= j < old_seen.len() && #[trigger] old_seen[j].0 == k;
                    assert(self.seen@[d].0 == k);
                } else {
                    assert(c == n as int);
                }
            }
            assert(self@ =~= before.insert(base, 1u32));
        }
        DrawKey { occurrence: 0, ..base }
    }
}

impl Default for Occurrences {
    fn default() -> (pass: Self)
        ensures
            pass.wf(),
            pass@ == Map::<DrawKey, u32>::empty(),
    {
        Occurrences::new()
    }
}

/// How a sampler addresses outside `[0, 1]` on one axis.
#[derive(Clone, Copy, Debug, PartialEq, Eq, Hash, Structural)]
pub enum AddressMode {
    ClampToEdge,
    Repeat,
    MirrorRepeat,
}

/// How a sampler filters within a mip level.
#[derive(Clone, Copy, Debug, PartialEq, Eq, Hash, Structural)]
pub enum FilterMode {
    Nearest,
    Linear,
}

/// How a sampler blends between mip levels.
#[derive(Clone, Copy, Debug, PartialEq, Eq, Hash, Structural)]
pub enum MipmapFilterMode {
    Nearest,
    Linear,
}

/// The comparison a comparison sampler makes.
#[derive(Clone, Copy, Debug, PartialEq, Eq, Hash, Structural)]
pub enum CompareFunction {
    Never,
    Less,
    Equal,
    LessEqual,
    Greater,
    NotEqual,
    GreaterEqual,
    Always,
}

/// What a texture contributes to its sampler, by kind of texture. The
/// textures read with `textureLoad` have no sampler.
#[derive(Clone, Copy, Debug, PartialEq, Eq, Structural)]
pub enum TextureSource {
    /// A 2-D texture: its wrapping on both axes, its filters, its anisotropy.
    Texture2D {
        wrap_s: Wrapping,
        wrap_t: Wrapping,
        mag_filter: TextureFilter,
        min_filter: MinFilter,
        anisotropy: u16,
    },
    /// A cube texture, clamped on every axis.
    Cube { mag_filter: TextureFilter, min_filter: MinFilter, anisotropy: u16 },
    /// A shadow map's depth texture, sampled with a comparison.
    ShadowMap { mag_filter: TextureFilter, min_filter: TextureFilter },
    /// A point light's cube depth texture, sampled with a comparison.
    CubeDepth { mag_filter: TextureFilter, min_filter: TextureFilter },
    /// A 3-D texture: wrapping on all three axes and its filters.
    Texture3D {
        wrap_s: Wrapping,
        wrap_t: Wrapping,
        wrap_r: Wrapping,
        mag_filter: TextureFilter,
        min_filter: MinFilter,
    },
    /// A depth, data, data-array or storage texture, read with
    /// `textureLoad`.
    Loaded,
}

/// Everything a sampler is made of, which is all it is: two textures whose
/// filters and wrapping agree share one.
#[derive(Clone, Copy, Debug, PartialEq, Eq, Hash)]
pub struct SamplerKey {
    pub address: [AddressMode; 3],
    pub mag_filter: FilterMode,
    pub min_filter: FilterMode,
    pub mipmap_filter: MipmapFilterMode,
    pub anisotropy_clamp: u16,
    pub compare: Option<CompareFunction>,
}

/// A texture filter as a sampler's filter mode.
pub open spec fn filter_mode(f: TextureFilter) -> FilterMode {
    match f {
        TextureFilter::Nearest => FilterMode::Nearest,
        TextureFilter::Linear => FilterMode::Linear,
    }
}

/// A texture filter as a sampler's mip filter mode.
pub open spec fn mipmap_mode(f: TextureFilter) -> MipmapFilterMode {
    match f {
        TextureFilter::Nearest => MipmapFilterMode::Nearest,
        TextureFilter::Linear => MipmapFilterMode::Linear,
    }
}

/// A wrapping as a sampler's address mode.
pub open spec fn address_mode(w: Wrapping) -> AddressMode {
    match w {
        Wrapping::ClampToEdge => AddressMode::ClampToEdge,
        Wrapping::Repeat => AddressMode::Repeat,
    }
}

/// The sampler descriptor for `source`; meaningless for [`TextureSource::Loaded`].
pub open spec fn sampler_key_of(source: TextureSource) -> SamplerKey {
    let clamp = AddressMode::ClampToEdge;
    match source {
        TextureSource::Texture2D { wrap_s, wrap_t, mag_filter, min_filter, anisotropy } => SamplerKey {
            address: [address_mode(wrap_s), address_mode(wrap_t), clamp],
            mag_filter: filter_mode(mag_filter),
            min_filter: filter_mode(min_within_level(min_filter)),
            mipmap_filter: mipmap_mode(min_between_levels(min_filter)),
            anisotropy_clamp: anisotropy,
            compare: None,
        },
        TextureSource::Cube { mag_filter, min_filter, anisotropy } => SamplerKey {
            address: [clamp, clamp, clamp],
            mag_filter: filter_mode(mag_filter),
            min_filter: filter_mode(min_within_level(min_filter)),
            mipmap_filter: mipmap_mode(min_between_levels(min_filter)),
            anisotropy_clamp: anisotropy,
            compare: None,
        },
        TextureSource::ShadowMap { mag_filter, min_filter } => SamplerKey {
            address: [clamp, clamp, clamp],
            mag_filter: filter_mode(mag_filter),
            min_filter: filter_mode(min_filter),
            mipmap_filter: MipmapFilterMode::Nearest,
            anisotropy_clamp: 1,
            compare: Some(CompareFunction::LessEqual),
        },
        TextureSource::CubeDepth { mag_filter, min_filter } => SamplerKey {
            address: [clamp, clamp, clamp],
            mag_filter: filter_mode(mag_filter),
            min_filter: filter_mode(min_filter),
            mipmap_filter: MipmapFilterMode::Nearest,
            anisotropy_clamp: 1,
            compare: Some(CompareFunction::LessEqual),
        },
        TextureSource::Texture3D { wrap_s, wrap_t, wrap_r, mag_filter, min_filter } => SamplerKey {
            address: [address_mode(wrap_s), address_mode(wrap_t), address_mode(wrap_r)],
            mag_filter: filter_mode(mag_filter),
            min_filter: filter_mode(min_within_level(min_filter)),
            mipmap_filter: mipmap_mode(min_between_levels(min_filter)),
            anisotropy_clamp: 1,
            compare: None,
        },
        TextureSource::Loaded => arbitrary(),
    }
}

fn filter(f: TextureFilter) -> (mode: FilterMode)
    ensures
        mode == filter_mode(f),
{
    match f {
        TextureFilter::Nearest => FilterMode::Nearest,
        TextureFilter::Linear => FilterMode::Linear,
    }
}

fn mipmap(f: TextureFilter) -> (mode: MipmapFilterMode)
    ensures
        mode == mipmap_mode(f),
{
    match f {
        TextureFilter::Nearest => MipmapFilterMode::Nearest,
        TextureFilter::Linear => MipmapFilterMode::Linear,
    }
}

fn address(w: Wrapping) -> (mode: AddressMode)
    ensures
        mode == address_mode(w),
{
    match w {
        Wrapping::ClampToEdge => AddressMode::ClampToEdge,
        Wrapping::Repeat => AddressMode::Repeat,
    }
}

impl SamplerKey {
    /// The sampler descriptor for `source`. A texture read with
    /// `textureLoad` has none, and is not accepted.
    pub fn of(source: &TextureSource) -> (key: Self)
        requires
            !(source is Loaded),
        ensures
            key == sampler_key_of(*source),
    {
        let clamp = AddressMode::ClampToEdge;
        match *source {
            TextureSource::Texture2D { wrap_s, wrap_t, mag_filter, min_filter, anisotropy } => SamplerKey {
                address: [address(wrap_s), address(wrap_t), clamp],
                mag_filter: filter(mag_filter),
                min_filter: filter(min_filter.min()),
                mipmap_filter: mipmap(min_filter.mipmap()),
                anisotropy_clamp: anisotropy,
                compare: None,
            },
            TextureSource::Cube { mag_filter, min_filter, anisotropy } => SamplerKey {
                address: [clamp, clamp, clamp],
                mag_filter: filter(mag_filter),
                min_filter: filter(min_filter.min()),
                mipmap_filter: mipmap(min_filter.mipmap()),
                anisotropy_clamp: anisotropy,
                compare: None,
            },
            TextureSource::ShadowMap { mag_filter, min_filter } => SamplerKey {
                address: [clamp, clamp, clamp],
                mag_filter: filter(mag_filter),
                min_filter: filter(min_filter),
                mipmap_filter: MipmapFilterMode::Nearest,
                anisotropy_clamp: 1,
                compare: Some(CompareFunction::LessEqual),
            },
            TextureSource::CubeDepth { mag_filter, min_filter } => SamplerKey {
                address: [clamp, clamp, clamp],
                mag_filter: filter(mag_filter),
                min_filter: filter(min_filter),
                mipmap_filter: MipmapFilterMode::Nearest,
                anisotropy_clamp: 1,
                compare: Some(CompareFunction::LessEqual),
            },
            TextureSource::Texture3D { wrap_s, wrap_t, wrap_r, mag_filter, min_filter } => SamplerKey {
                address: [address(wrap_s), address(wrap_t), address(wrap_r)],
                mag_filter: filter(mag_filter),
                min_filter: filter(min_filter.min()),
                mipmap_filter: mipmap(min_filter.mipmap()),
                anisotropy_clamp: 1,
                compare: None,
            },
            TextureSource::Loaded => vstd::pervasive::unreached(),
        }
    }
}

/// A sampler key separates textures exactly where they filter, wrap or
/// clamp anisotropy differently: two 2-D textures share a key if and only if
/// their wrapping, magnification filter, minification filter and anisotropy
/// agree. A comparison sampler never shares with a 2-D texture's.
pub proof fn textures_that_filter_alike_share_a_sampler_key(a: TextureSource, b: TextureSource)
    requires
        a is Texture2D,
        b is Texture2D || b is ShadowMap || b is CubeDepth,
    ensures
        b is Texture2D ==> (sampler_key_of(a) == sampler_key_of(b) <==> a == b),
        !(b is Texture2D) ==> sampler_key_of(a) != sampler_key_of(b),
{
    if b is Texture2D && sampler_key_of(a) == sampler_key_of(b) {
        assert(sampler_key_of(a).address[0] == sampler_key_of(b).address[0]);
        assert(sampler_key_of(a).address[1] == sampler_key_of(b).address[1]);
    }
}

/// A sampler is made of its texture's own settings. For a 2-D, cube or
/// volume texture: it filters between mip levels linearly exactly when the
/// minification filter is the mipmapped one, filters within a level with
/// nearest exactly when that filter is nearest, magnifies with nearest
/// exactly when the magnification filter is nearest, and compares nothing.
/// A 2-D texture repeats on an axis exactly when it wraps that way and keeps
/// its anisotropy; a cube clamps every axis and keeps its anisotropy; a
/// volume texture repeats on an axis exactly when it wraps that way and does
/// no anisotropic filtering. A shadow map or a point light's cube depth
/// texture is clamped, compares less-or-equal, never filters between mip
/// levels or anisotropically, and takes its two filters as they are.
pub proof fn a_sampler_is_made_of_its_texture_settings(source: TextureSource)
    requires
        !(source is Loaded),
    ensures
        ({
            let key = sampler_key_of(source);
            match source {
                TextureSource::Texture2D { wrap_s, wrap_t, mag_filter, min_filter, anisotropy } => {
                    &&& (key.mipmap_filter == MipmapFilterMode::Linear) == (min_filter == MinFilter::LinearMipmapLinear)
                    &&& (key.min_filter == FilterMode::Nearest) == (min_filter == MinFilter::Nearest)
                    &&& (key.mag_filter == FilterMode::Nearest) == (mag_filter == TextureFilter::Nearest)
                    &&& (key.address[0] == AddressMode::Repeat) == (wrap_s == Wrapping::Repeat)
                    &&& (key.address[1] == AddressMode::Repeat) == (wrap_t == Wrapping::Repeat)
                    &&& key.address[2] == AddressMode::ClampToEdge
                    &&& key.anisotropy_clamp == anisotropy
                    &&& key.compare is None
                },
                TextureSource::Cube { mag_filter, min_filter, anisotropy } => {
                    &&& (key.mipmap_filter == MipmapFilterMode::Linear) == (min_filter == MinFilter::LinearMipmapLinear)
                    &&& (key.min_filter == FilterMode::Nearest) == (min_filter == MinFilter::Nearest)
                    &&& (key.mag_filter == FilterMode::Nearest) == (mag_filter == TextureFilter::Nearest)
                    &&& key.address == [AddressMode::ClampToEdge, AddressMode::ClampToEdge, AddressMode::ClampToEdge]
                    &&& key.anisotropy_clamp == anisotropy
                    &&& key.compare is None
                },
                TextureSource::Texture3D { wrap_s, wrap_t, wrap_r, mag_filter, min_filter } => {
                    &&& (key.mipmap_filter == MipmapFilterMode::Linear) == (min_filter == MinFilter::LinearMipmapLinear)
                    &&& (key.min_filter == FilterMode::Nearest) == (min_filter == MinFilter::Nearest)
                    &&& (key.mag_filter == FilterMode::Nearest) == (mag_filter == TextureFilter::Nearest)
                    &&& (key.address[0] == AddressMode::Repeat) == (wrap_s == Wrapping::Repeat)
                    &&& (key.address[1] == AddressMode::Repeat) == (wrap_t == Wrapping::Repeat)
                    &&& (key.address[2] == AddressMode::Repeat) == (wrap_r == Wrapping::Repeat)
                    &&& key.anisotropy_clamp == 1
                    &&& key.compare is None
                },
                TextureSource::ShadowMap { mag_filter, min_filter } | TextureSource::CubeDepth {
                    mag_filter,
                    min_filter,
                } => {
                    &&& key.mipmap_filter == MipmapFilterMode::Nearest
                    &&& (key.min_filter == FilterMode::Nearest) == (min_filter == TextureFilter::Nearest)
                    &&& (key.mag_filter == FilterMode::Nearest) == (mag_filter == TextureFilter::Nearest)
                    &&& key.address == [AddressMode::ClampToEdge, AddressMode::ClampToEdge, AddressMode::ClampToEdge]
                    &&& key.anisotropy_clamp == 1
                    &&& key.compare == Some(CompareFunction::LessEqual)
                },
                TextureSource::Loaded => true,
            }
        }),
{
}

/// Who a per-draw buffer belongs to: a draw, or a compute kernel by its
/// cache key.
#[derive(Clone, Copy, Debug, PartialEq, Eq, Hash, Structural)]
pub enum SlotOwner {
    Draw(DrawKey),
    Compute(u64),
}

/// The group a vertex buffer's [`SlotKey`] is filed under: no bind group has
/// this index, so a buffer bound as a vertex buffer and as a uniform are two
/// buffers.
pub const VERTEX_SLOTS: u32 = 0xffff_ffffu32;

/// One persistent per-draw buffer: its owner, the bind group and the binding
/// within it (or [`VERTEX_SLOTS`] and the vertex buffer slot).
#[derive(Clone, Copy, Debug, PartialEq, Eq, Hash, Structural)]
pub struct SlotKey {
    pub owner: SlotOwner,
    pub group: u32,
    pub binding: u32,
}

/// The counter that numbers GPU resources for the bind group cache. It
/// starts at 1 so no resource is ever 0, and never hands a number out twice.
pub struct Serials(u64);

impl View for Serials {
    /// The last serial handed out, 0 before the first.
    type V = u64;

    closed spec fn view(&self) -> u64 {
        self.0
    }
}

impl Serials {
    /// A counter that has handed out nothing.
    pub fn new() -> (serials: Self)
        ensures
            serials@ == 0,
    {
        Serials(0)
    }

    /// The next serial: one more than the last.
    pub fn next(&mut self) -> (serial: u64)
        requires
            old(self)@ < u64::MAX,
        ensures
            serial == old(self)@ + 1,
            final(self)@ == serial,
    {
        self.0 = self.0 + 1;
        self.0
    }
}

impl Default for Serials {
    fn default() -> (serials: Self)
        ensures
            serials@ == 0,
    {
        Serials::new()
    }
}

/// Whose pipeline layout a bind group is made against: a render program's or
/// a compute kernel's, by cache key.
#[derive(Clone, Copy, Debug, PartialEq, Eq, Hash, Structural)]
pub enum LayoutKey {
    Render(u64),
    Compute(u64),
}

/// A bind group's identity: the layout it was made against, the group index,
/// and the serial of each resource in binding order. A resource's contents
/// are not in it, so a rewritten buffer keeps its group; a replaced resource
/// is a new serial and a new group.
#[derive(Clone, Debug, PartialEq, Eq, Hash)]
pub struct BindGroupKey {
    layout: LayoutKey,
    group: u32,
    resources: Vec<u64>,
}

impl View for BindGroupKey {
    /// The layout, the group index and the serials in binding order.
    type V = (LayoutKey, u32, Seq<u64>);

    closed spec fn view(&self) -> (LayoutKey, u32, Seq<u64>) {
        (self.layout, self.group, self.resources@)
    }
}

impl BindGroupKey {
    /// The key of group `group` of `layout` binding `serials` in order.
    pub fn from_serials(layout: LayoutKey, group: u32, serials: &[u64]) -> (key: Self)
        ensures
            key@ == (layout, group, serials@),
    {
        let mut resources: Vec<u64> = Vec::new();
        let n = serials.len();
        let mut i: usize = 0;
        while i < n
            invariant
                n == serials@.len(),
                0 <= i <= n,
                resources@ == serials@.subrange(0, i as int),
            decreases n - i,
        {
            resources.push(serials[i]);
            i = i + 1;
        }
        assert(resources@ =~= serials@);
        BindGroupKey { layout, group, resources }
    }

    /// Whether any of this group's resources is one of `serials`.
    pub fn binds_any(&self, serials: &HashSet<u64>) -> (any: bool)
        ensures
            any == exists|i: int| 0 <= i < self@.2.len() && serials@.contains(#[trigger] self@.2[i]),
    {
        let n = self.resources.len();
        let mut i: usize = 0;
        while i < n
            invariant
                n == self.resources@.len(),
                0 <= i <= n,
                forall|j: int| 0 <= j < i ==> !serials@.contains(#[trigger] self.resources@[j]),
            decreases n - i,
        {
            if serials.contains(&self.resources[i]) {
                assert(serials@.contains(self@.2[i as int]));
                return true;
            }
            i = i + 1;
        }
        false
    }
}

/// Where a per-draw vertex or storage buffer's bytes come from, as far as
/// the buffer cache cares.
#[derive(Clone, Copy, Debug, PartialEq, Eq, Structural)]
pub enum BufferSourceKind {
    /// An instanced mesh's matrices.
    InstanceMatrix,
    /// An instanced mesh's colours.
    InstanceColor,
    /// A node's fixed array of values, cached by the node's identity.
    UniformArray,
    /// An instanced attribute's array, cached by the node's identity and
    /// the array's.
    Attribute,
    /// A `range()` node's random fill, cached by the node's identity.
    Range,
}

/// What the renderer does for a buffer it is asked for.
#[derive(Clone, Copy, Debug, PartialEq, Eq, Structural)]
pub enum BufferLookup {
    /// Hand back the cached buffer and mark it used this frame.
    Reuse,
    /// Upload a new buffer and cache it (used this frame), replacing any
    /// entry there was.
    UploadAndCache,
    /// Upload a new buffer and do not cache it.
    Upload,
}

/// What the buffer cache does for a buffer of `kind`, when an entry for the
/// node is `cached` and that entry holds the very array asked for
/// (`same_data`; it only counts for an attribute): instance matrices and
/// colours are uploaded each time; a node's fixed array and a range fill
/// are uploaded once and reused while cached; an attribute is reused only
/// while the cached entry holds the same array, and uploaded anew
/// otherwise.
pub fn buffer_lookup(kind: BufferSourceKind, cached: bool, same_data: bool) -> (lookup: BufferLookup)
    ensures
        lookup == match kind {
            BufferSourceKind::InstanceMatrix | BufferSourceKind::InstanceColor => BufferLookup::Upload,
            BufferSourceKind::UniformArray | BufferSourceKind::Range => if cached {
                BufferLookup::Reuse
            } else {
                BufferLookup::UploadAndCache
            },
            BufferSourceKind::Attribute => if cached && same_data {
                BufferLookup::Reuse
            } else {
                BufferLookup::UploadAndCache
            },
        },
{
    match kind {
        BufferSourceKind::InstanceMatrix | BufferSourceKind::InstanceColor => BufferLookup::Upload,
        BufferSourceKind::UniformArray | BufferSourceKind::Range => if cached {
            BufferLookup::Reuse
        } else {
            BufferLookup::UploadAndCache
        },
        BufferSourceKind::Attribute => if cached && same_data {
            BufferLookup::Reuse
        } else {
            BufferLookup::UploadAndCache
        },
    }
}

/// The first frame whose entries survive a sweep at `frames`.
pub open spec fn grace_cutoff(frames: u64) -> u64 {
    if frames >= CACHE_GRACE_FRAMES {
        (frames - CACHE_GRACE_FRAMES) as u64
    } else {
        0
    }
}

/// Whether an entry last used at `last_used` survives a sweep at `frames`:
/// it was used within the last [`CACHE_GRACE_FRAMES`] frames.
pub fn is_fresh(last_used: u64, frames: u64) -> (fresh: bool)
    ensures
        fresh == (last_used >= grace_cutoff(frames)),
{
    last_used >= frames.saturating_sub(CACHE_GRACE_FRAMES)
}

/// An entry survives exactly the sweeps within [`CACHE_GRACE_FRAMES`] frames
/// of its last use, and in the first frames nothing is swept at all.
pub proof fn an_entry_survives_the_grace_window_and_no_longer(last_used: u64, frames: u64)
    ensures
        frames <= last_used + CACHE_GRACE_FRAMES ==> last_used >= grace_cutoff(frames),
        frames > last_used + CACHE_GRACE_FRAMES ==> last_used < grace_cutoff(frames),
        frames <= CACHE_GRACE_FRAMES ==> grace_cutoff(frames) == 0,
{
}

/// The length `len` rounds up to: the next multiple of four.
pub open spec fn padded_len(len: int) -> int {
    if len % 4 == 0 {
        len
    } else {
        len + (4 - len % 4)
    }
}

/// `bytes` followed by zeros up to the next multiple of four.
pub open spec fn zero_padded(bytes: Seq<u8>) -> Seq<u8> {
    bytes + Seq::new((padded_len(bytes.len() as int) - bytes.len()) as nat, |i: int| 0u8)
}

/// `bytes` padded with zeros to the 4-byte multiple a buffer write requires.
pub fn padded(bytes: &[u8]) -> (result: Vec<u8>)
    requires
        bytes@.len() + 3 <= usize::MAX,
    ensures
        result@ == zero_padded(bytes@),
{
    let mut result: Vec<u8> = Vec::new();
    let n = bytes.len();
    let mut i: usize = 0;
    while i < n
        invariant
            n == bytes@.len(),
            0 <= i <= n,
            result@ == bytes@.subrange(0, i as int),
        decreases n - i,
    {
        result.push(bytes[i]);
        i = i + 1;
    }
    assert(result@ =~= bytes@);
    while result.len() % 4 != 0
        invariant
            n == bytes@.len(),
            n + 3 <= usize::MAX,
            n <= result@.len() <= padded_len(n as int),
            result@.subrange(0, n as int) == bytes@,
            forall|j: int| n <= j < result@.len() ==> result@[j] == 0u8,
        decreases padded_len(n as int) - result@.len(),
    {
        result.push(0u8);
    }
    assert(result@ =~= zero_padded(bytes@));
    result
}

/// Padding lands on a multiple of four, never shrinks, adds under four
/// bytes, keeps the bytes it was given, and padding twice is padding once.
pub proof fn padding_is_minimal_and_idempotent(bytes: Seq<u8>)
    ensures
        zero_padded(bytes).len() % 4 == 0,
        bytes.len() <= zero_padded(bytes).len() < bytes.len() + 4,
        zero_padded(bytes).subrange(0, bytes.len() as int) == bytes,
        zero_padded(zero_padded(bytes)) == zero_padded(bytes),
{
    let p = zero_padded(bytes);
    assert(p.subrange(0, bytes.len() as int) =~= bytes);
    assert(zero_padded(p) =~= p);
}

/// Two serials handed out one after the other by the same counter differ,
/// the later is the larger, and neither is zero.
pub proof fn serials_never_repeat(first: u64, second: u64, before: u64, middle: u64, after: u64)
    requires
        first == before + 1,
        middle == first,
        second == middle + 1,
        after == second,
    ensures
        first != 0,
        second != 0,
        first < second,
{
}

/// Within one pass the same draw, asked for twice, gets two keys that differ
/// only in their occurrence, the second one higher by one; a draw of another
/// object, geometry, material or variant in between does not disturb it.
pub proof fn repeated_draws_get_their_own_slots(
    pass0: Map<DrawKey, u32>,
    first: DrawKey,
    numbered_first: DrawKey,
    pass1: Map<DrawKey, u32>,
    other: DrawKey,
    numbered_other: DrawKey,
    pass2: Map<DrawKey, u32>,
    again: DrawKey,
    numbered_again: DrawKey,
    pass3: Map<DrawKey, u32>,
)
    requires
        occurrence_step(pass0, first, numbered_first, pass1),
        occurrence_step(pass1, other, numbered_other, pass2),
        occurrence_step(pass2, again, numbered_again, pass3),
        draw_of(first) == draw_of(again),
        draw_of(other) != draw_of(first),
    ensures
        numbered_again.occurrence == numbered_first.occurrence + 1,
        numbered_again != numbered_first,
        draw_of(numbered_again) == draw_of(numbered_first),
{
    assert(times_seen(pass2, again) == times_seen(pass1, first));
}

/// Whether `serials` is what a fresh counter hands out over successive
/// calls: each one more than the one before, the first one more than 0.
pub open spec fn handed_out_in_turn(serials: Seq<u64>) -> bool {
    forall|i: int|
        0 <= i < serials.len() ==> #[trigger] serials[i] == (if i == 0 {
            0
        } else {
            serials[i - 1] as int
        }) + 1
}

/// A fresh counter hands out 1, 2, 3, ... in call order: the k-th serial is
/// k, so none is 0, each is larger than every earlier one, and none repeats.
pub proof fn the_kth_serial_is_k(serials: Seq<u64>)
    requires
        handed_out_in_turn(serials),
    ensures
        forall|i: int| 0 <= i < serials.len() ==> #[trigger] serials[i] == i + 1,
        forall|i: int, j: int| 0 <= i < j < serials.len() ==> #[trigger] serials[i] < #[trigger] serials[j],
    decreases serials.len(),
{
    if serials.len() > 0 {
        let shorter = serials.drop_last();
        assert forall|i: int| 0 <= i < shorter.len() implies #[trigger] shorter[i] == (if i == 0 {
            0
        } else {
            shorter[i - 1] as int
        }) + 1 by {
            assert(shorter[i] == serials[i]);
            if i > 0 {
                assert(shorter[i - 1] == serials[i - 1]);
            }
        }
        the_kth_serial_is_k(shorter);
        assert forall|i: int| 0 <= i < serials.len() implies #[trigger] serials[i] == i + 1 by {
            if i < shorter.len() {
                assert(shorter[i] == serials[i]);
            } else if i > 0 {
                assert(shorter[i - 1] == serials[i - 1]);
            }
        }
    }
}

/// How many of the first `n` keys of `keys` ask for the draw `draw`.
pub open spec fn asked_before(keys: Seq<DrawKey>, n: int, draw: DrawKey) -> nat
    decreases n,
{
    if n <= 0 {
        0
    } else {
        asked_before(keys, n - 1, draw) + if draw_of(keys[n - 1]) == draw {
            1nat
        } else {
            0nat
        }
    }
}

/// `key` numbered as its `occurrence`-th ask.
pub open spec fn numbered_as(key: DrawKey, occurrence: nat) -> DrawKey {
    DrawKey { occurrence: occurrence as u32, ..key }
}

/// Whether `results` and `passes` are what a fresh pass gives when asked for
/// `keys` in turn: `passes[i]` is the pass before the `i`-th ask, and each
/// ask is one step of [`Occurrences::next`].
pub open spec fn asked_in_turn(keys: Seq<DrawKey>, results: Seq<DrawKey>, passes: Seq<Map<DrawKey, u32>>) -> bool {
    &&& results.len() == keys.len()
    &&& passes.len() == keys.len() + 1
    &&& passes[0] == Map::<DrawKey, u32>::empty()
    &&& forall|i: int|
        0 <= i < keys.len() ==> #[trigger] occurrence_step(passes[i], keys[i], results[i], passes[i + 1])
}

/// The count a pass keeps of each draw is how often it was asked for.
proof fn lemma_counts(keys: Seq<DrawKey>, results: Seq<DrawKey>, passes: Seq<Map<DrawKey, u32>>, n: int)
    requires
        asked_in_turn(keys, results, passes),
        0 <= n <= keys.len(),
    ensures
        forall|key: DrawKey| #[trigger] times_seen(passes[n], key) == asked_before(keys, n, draw_of(key)),
    decreases n,
{
    if n > 0 {
        lemma_counts(keys, results, passes, n - 1);
        let m = n - 1;
        assert(occurrence_step(passes[m], keys[m], results[m], passes[m + 1]));
        assert forall|key: DrawKey| #[trigger] times_seen(passes[n], key) == asked_before(keys, n, draw_of(key)) by {
            assert(times_seen(passes[n - 1], key) == asked_before(keys, n - 1, draw_of(key)));
            assert(times_seen(passes[n - 1], keys[n - 1]) == asked_before(keys, n - 1, draw_of(keys[n - 1])));
            if draw_of(keys[n - 1]) == draw_of(key) {
                assert(draw_of(key) == draw_of(keys[n - 1]));
            }
        }
    }
}

/// The count of a draw never goes down as asks go on, and an ask for it
/// raises it.
proof fn lemma_asked_grows(keys: Seq<DrawKey>, i: int, j: int, draw: DrawKey)
    requires
        0 <= i <= j <= keys.len(),
    ensures
        asked_before(keys, i, draw) <= asked_before(keys, j, draw),
        i < j && draw_of(keys[i]) == draw ==> asked_before(keys, i, draw) < asked_before(keys, j, draw),
    decreases j - i,
{
    if i < j {
        lemma_asked_grows(keys, i, j - 1, draw);
        if i < j - 1 {
            lemma_asked_grows(keys, i + 1, j - 1, draw);
            lemma_asked_grows(keys, i, i + 1, draw);
        }
    }
}

/// However a pass is asked, each ask is answered with its key numbered by
/// how many earlier asks of the pass were for the same draw (its object,
/// geometry, material and variant; the occurrence asked with does not
/// count). So a pass never hands out one key twice, and two fresh passes
/// asked for the same keys answer alike.
pub proof fn each_ask_is_numbered_by_the_earlier_asks_for_its_draw(
    keys: Seq<DrawKey>,
    results: Seq<DrawKey>,
    passes: Seq<Map<DrawKey, u32>>,
)
    requires
        asked_in_turn(keys, results, passes),
    ensures
        forall|i: int|
            0 <= i < keys.len() ==> #[trigger] results[i] == numbered_as(keys[i], asked_before(keys, i, draw_of(keys[i])))
                && asked_before(keys, i, draw_of(keys[i])) < u32::MAX,
        forall|i: int, j: int| 0 <= i < j < keys.len() ==> #[trigger] results[i] != #[trigger] results[j],
{
    assert forall|i: int| 0 <= i < keys.len() implies #[trigger] results[i] == numbered_as(keys[i], asked_before(keys, i, draw_of(keys[i])))
        && asked_before(keys, i, draw_of(keys[i])) < u32::MAX by {
        lemma_counts(keys, results, passes, i);
        assert(occurrence_step(passes[i], keys[i], results[i], passes[i + 1]));
        assert(times_seen(passes[i], keys[i]) == asked_before(keys, i, draw_of(keys[i])));
    }
    assert forall|i: int, j: int| 0 <= i < j < keys.len() implies #[trigger] results[i] != #[trigger] results[j] by {
        lemma_counts(keys, results, passes, i);
        lemma_counts(keys, results, passes, j);
        assert(occurrence_step(passes[i], keys[i], results[i], passes[i + 1]));
        assert(occurrence_step(passes[j], keys[j], results[j], passes[j + 1]));
        if draw_of(keys[i]) == draw_of(keys[j]) {
            lemma_asked_grows(keys, i, j, draw_of(keys[i]));
            assert(times_seen(passes[i], keys[i]) == asked_before(keys, i, draw_of(keys[i])));
            assert(times_seen(passes[j], keys[j]) == asked_before(keys, j, draw_of(keys[j])));
            assert(results[i].occurrence != results[j].occurrence);
        } else {
            assert(draw_of(results[i]) == draw_of(keys[i]));
            assert(draw_of(results[j]) == draw_of(keys[j]));
        }
    }
}

/// Two fresh passes asked for the same keys in the same order answer alike:
/// the numbering depends on the asks alone.
pub proof fn passes_asked_alike_answer_alike(
    keys: Seq<DrawKey>,
    first: Seq<DrawKey>,
    first_passes: Seq<Map<DrawKey, u32>>,
    second: Seq<DrawKey>,
    second_passes: Seq<Map<DrawKey, u32>>,
)
    requires
        asked_in_turn(keys, first, first_passes),
        asked_in_turn(keys, second, second_passes),
    ensures
        first == second,
{
    each_ask_is_numbered_by_the_earlier_asks_for_its_draw(keys, first, first_passes);
    each_ask_is_numbered_by_the_earlier_asks_for_its_draw(keys, second, second_passes);
    assert(first =~= second) by {
        assert forall|i: int| 0 <= i < first.len() implies first[i] == second[i] by {
            assert(first[i] == numbered_as(keys[i], asked_before(keys, i, draw_of(keys[i]))));
            assert(second[i] == numbered_as(keys[i], asked_before(keys, i, draw_of(keys[i]))));
        }
    }
}

/// A fresh pass numbers every draw from zero, so a steady frame keys each
/// draw exactly as the previous frame did.
pub proof fn a_fresh_pass_starts_at_zero(key: DrawKey, numbered: DrawKey, after: Map<DrawKey, u32>)
    requires
        occurrence_step(Map::empty(), key, numbered, after),
    ensures
        numbered == draw_of(key),
{
}

} // verus!
