//! What a renderer and a render target are created with, and a render
//! target's attachments: the colour textures a pass writes, one per output
//! name, the textures that hold the previous frame of an output, and the
//! depth buffer.

use vstd::prelude::*;

use crate::depth::{fresh_depth_texture, DepthTexture};
use crate::texture::{fresh_texture, Texture2D};
use crate::textures::{
    color_format_for_type, color_format_of, is_color_type, MinFilter, TextureFilter, TextureType, UnsupportedTextureType,
};

verus! {

/// The options a renderer is created with.
#[derive(Clone, Copy, Debug, PartialEq, Eq, Structural)]
pub struct RendererParameters {
    /// Multisample the canvas.
    pub antialias: bool,
}

impl Default for RendererParameters {
    fn default() -> (parameters: Self)
        ensures
            !parameters.antialias,
    {
        RendererParameters { antialias: false }
    }
}

/// The options a render target is created with.
#[derive(Clone, Copy, Debug, PartialEq, Eq, Structural)]
pub struct RenderTargetOptions {
    pub texture_type: TextureType,
    /// 0 by default: the renderer's `antialias` does not reach a render
    /// target the application creates.
    pub samples: u32,
    pub depth_buffer: bool,
    pub min_filter: TextureFilter,
    pub mag_filter: TextureFilter,
}

impl Default for RenderTargetOptions {
    /// Unsigned bytes, single-sampled, with a depth buffer, linear filters.
    fn default() -> (options: Self)
        ensures
            options == (RenderTargetOptions {
                texture_type: TextureType::UnsignedByte,
                samples: 0,
                depth_buffer: true,
                min_filter: TextureFilter::Linear,
                mag_filter: TextureFilter::Linear,
            }),
    {
        RenderTargetOptions {
            texture_type: TextureType::UnsignedByte,
            samples: 0,
            depth_buffer: true,
            min_filter: TextureFilter::Linear,
            mag_filter: TextureFilter::Linear,
        }
    }
}

/// The name of a target's first colour attachment, the one a scene pass's
/// own colour lands on.
pub const OUTPUT_ATTACHMENT: &'static str = "output";

/// The minification filter a colour attachment gets for the target's
/// `filter`: the same filter, without mipmaps.
pub open spec fn attachment_min_filter(filter: TextureFilter) -> MinFilter {
    match filter {
        TextureFilter::Nearest => MinFilter::Nearest,
        TextureFilter::Linear => MinFilter::Linear,
    }
}

/// A colour attachment of a `width` x `height` target of `texture_type`
/// with its filter pair: a render-target texture in the type's colour
/// format.
pub open spec fn attachment(
    width: u32,
    height: u32,
    texture_type: TextureType,
    min_filter: TextureFilter,
    mag_filter: TextureFilter,
) -> Texture2D {
    Texture2D {
        data: None,
        generate_mipmaps: false,
        min_filter: attachment_min_filter(min_filter),
        mag_filter,
        own_gpu: false,
        format: color_format_of(color_format_for_type(texture_type)),
        ..fresh_texture(width, height, None)
    }
}

fn color_attachment(
    width: u32,
    height: u32,
    texture_type: TextureType,
    min_filter: TextureFilter,
    mag_filter: TextureFilter,
) -> (texture: Texture2D)
    requires
        is_color_type(texture_type),
    ensures
        texture == attachment(width, height, texture_type, min_filter, mag_filter),
{
    let mut texture = Texture2D::render_target(width, height, texture_type.color_gpu_format());
    texture.set_min_filter(
        match min_filter {
            TextureFilter::Nearest => MinFilter::Nearest,
            TextureFilter::Linear => MinFilter::Linear,
        },
    );
    texture.set_mag_filter(mag_filter);
    texture
}

/// A render target: its size, sample count and texel type, its colour
/// attachments by output name, the textures holding the previous frame of
/// an output, and the GPU objects the renderer allocates for it.
pub struct RenderTarget {
    pub width: u32,
    pub height: u32,
    pub samples: u32,
    pub texture_type: TextureType,
    pub depth_buffer: bool,
    pub min_filter: TextureFilter,
    pub mag_filter: TextureFilter,
    /// A depth texture the application attached, which it can then sample.
    pub depth_texture: Option<DepthTexture>,
    /// The first colour attachment, named [`OUTPUT_ATTACHMENT`].
    pub texture: Texture2D,
    /// The further colour attachments, in the order they were added, which
    /// is the order of their locations after the first.
    pub extra_textures: Vec<(String, Texture2D)>,
    /// A second texture per output name, allocated and resized with the
    /// target but never written by a pass.
    pub previous_textures: Vec<(String, Texture2D)>,
    /// The multisampled colour texture resolved into the first attachment
    /// when `samples > 1`.
    pub msaa: Option<wgpu::Texture>,
    /// The same for each further attachment.
    pub msaa_extra: Vec<wgpu::Texture>,
    /// The depth buffer allocated when `depth_buffer` is set and no depth
    /// texture is attached.
    pub depth: Option<wgpu::Texture>,
    pub scissor_test: bool,
}

/// Where `name` is among `entries`, if it is there.
pub open spec fn position_of(entries: Seq<(String, Texture2D)>, name: Seq<char>) -> Option<int> {
    if exists|i: int| 0 <= i < entries.len() && entries[i].0@ == name {
        Some(choose|i: int| 0 <= i < entries.len() && entries[i].0@ == name)
    } else {
        None
    }
}

/// Whether no two of `entries` share a name.
pub open spec fn names_unique(entries: Seq<(String, Texture2D)>) -> bool {
    forall|i: int, j: int| 0 <= i < entries.len() && 0 <= j < entries.len() && i != j ==> entries[i].0@ != entries[j].0@
}

/// The names of a target's colour attachments, by location.
pub open spec fn attachment_names_of(extras: Seq<(String, Texture2D)>) -> Seq<Seq<char>> {
    seq![OUTPUT_ATTACHMENT@].add(extras.map_values(|entry: (String, Texture2D)| entry.0@))
}

/// Whether `target` is a new `width` x `height` target with `options`: its
/// first attachment in the type's format with the options' filters, no
/// further or previous textures, no depth texture, nothing on the GPU, and
/// no scissor test.
pub open spec fn fresh_target(target: RenderTarget, width: u32, height: u32, options: RenderTargetOptions) -> bool {
    &&& target.width == width
    &&& target.height == height
    &&& target.samples == options.samples
    &&& target.texture_type == options.texture_type
    &&& target.depth_buffer == options.depth_buffer
    &&& target.min_filter == options.min_filter
    &&& target.mag_filter == options.mag_filter
    &&& target.depth_texture is None
    &&& target.texture == attachment(width, height, options.texture_type, options.min_filter, options.mag_filter)
    &&& target.extra_textures@.len() == 0
    &&& target.previous_textures@.len() == 0
    &&& target.msaa is None
    &&& target.msaa_extra@.len() == 0
    &&& target.depth is None
    &&& !target.scissor_test
}

impl RenderTarget {
    /// The target's invariant: its texel type is a colour type, and each
    /// output name has at most one attachment and one previous texture, the
    /// output itself being the first attachment.
    pub open spec fn wf(&self) -> bool {
        &&& is_color_type(self.texture_type)
        &&& names_unique(self.extra_textures@)
        &&& names_unique(self.previous_textures@)
        &&& forall|i: int| 0 <= i < self.extra_textures@.len() ==> #[trigger] self.extra_textures@[i].0@ != OUTPUT_ATTACHMENT@
    }

    /// A target of `width` x `height` with `options`, which must name a
    /// colour texel type: its first attachment in that type's format with
    /// the options' filters, no further attachments, no depth texture and
    /// nothing on the GPU.
    pub fn new_with_options(width: u32, height: u32, options: RenderTargetOptions) -> (result: Result<Self, UnsupportedTextureType>)
        ensures
            !is_color_type(options.texture_type) ==> result == Err::<Self, UnsupportedTextureType>(
                UnsupportedTextureType { what: "colour", texture_type: options.texture_type },
            ),
            is_color_type(options.texture_type) ==> result is Ok,
            result matches Ok(target) ==> target.wf() && fresh_target(target, width, height, options),
    {
        if !options.texture_type.is_color() {
            return Err(UnsupportedTextureType { what: "colour", texture_type: options.texture_type });
        }
        Ok(RenderTarget {
            width,
            height,
            samples: options.samples,
            texture_type: options.texture_type,
            depth_buffer: options.depth_buffer,
            min_filter: options.min_filter,
            mag_filter: options.mag_filter,
            depth_texture: None,
            texture: color_attachment(width, height, options.texture_type, options.min_filter, options.mag_filter),
            extra_textures: Vec::new(),
            previous_textures: Vec::new(),
            msaa: None,
            msaa_extra: Vec::new(),
            depth: None,
            scissor_test: false,
        })
    }
}

/// A name found at index `i` of entries with unique names is the one
/// `position_of` finds.
proof fn lemma_position_unique(entries: Seq<(String, Texture2D)>, name: Seq<char>, i: int)
    requires
        names_unique(entries),
        0 <= i < entries.len(),
        entries[i].0@ == name,
    ensures
        position_of(entries, name) == Some(i),
{
    let j = choose|j: int| 0 <= j < entries.len() && entries[j].0@ == name;
    assert(entries[j].0@ == name);
}

/// Where `name` is among `entries`.
fn find(entries: &Vec<(String, Texture2D)>, name: &String) -> (found: Option<usize>)
    requires
        names_unique(entries@),
    ensures
        match found {
            Some(i) => position_of(entries@, name@) == Some(i as int) && i < entries.len(),
            None => position_of(entries@, name@) is None,
        },
{
    let mut i: usize = 0;
    while i < entries.len()
        invariant
            i <= entries@.len(),
            names_unique(entries@),
            forall|j: int| 0 <= j < i ==> entries@[j].0@ != name@,
        decreases entries@.len() - i,
    {
        if entries[i].0 == *name {
            proof {
                lemma_position_unique(entries@, name@, i as int);
            }
            return Some(i);
        }
        i = i + 1;
    }
    None
}

/// Whether `after` and `location` are what asking `before` for the
/// attachment of output `name` gives: the output is at location 0, a name
/// with an attachment keeps its location and the target is left as it is,
/// and a new name gets a new attachment after the others, with the
/// target's size, format and filters.
pub open spec fn texture_added(before: RenderTarget, after: RenderTarget, name: Seq<char>, location: int) -> bool {
    if name == OUTPUT_ATTACHMENT@ {
        location == 0 && after == before
    } else {
        match position_of(before.extra_textures@, name) {
            Some(i) => location == i + 1 && after == before,
            None => {
                &&& location == before.extra_textures@.len() + 1
                &&& after.extra_textures@.len() == location
                &&& after.extra_textures@.drop_last() == before.extra_textures@
                &&& after.extra_textures@.last().0@ == name
                &&& after.extra_textures@.last().1 == attachment(
                    before.width,
                    before.height,
                    before.texture_type,
                    before.min_filter,
                    before.mag_filter,
                )
                &&& after == (RenderTarget { extra_textures: after.extra_textures, ..before })
            },
        }
    }
}

impl RenderTarget {
    /// A `width` x `height` target with the default options.
    pub fn new(width: u32, height: u32) -> (target: Self)
        ensures
            target.wf(),
            fresh_target(
                target,
                width,
                height,
                RenderTargetOptions {
                    texture_type: TextureType::UnsignedByte,
                    samples: 0,
                    depth_buffer: true,
                    min_filter: TextureFilter::Linear,
                    mag_filter: TextureFilter::Linear,
                },
            ),
    {
        match Self::new_with_options(width, height, RenderTargetOptions::default()) {
            Ok(target) => target,
            Err(_) => vstd::pervasive::unreached(),
        }
    }

    /// The colour attachment for output `name`, added after the existing
    /// ones if there is none yet; the first attachment for the output
    /// itself. Returns its location: 0 for the output, one past its position
    /// among the further attachments otherwise.
    pub fn add_texture(&mut self, name: &str) -> (location: usize)
        requires
            old(self).wf(),
        ensures
            final(self).wf(),
            texture_added(*old(self), *final(self), name@, location as int),
    {
        let name = name.to_string();
        let output = OUTPUT_ATTACHMENT.to_string();
        if name == output {
            return 0;
        }
        match find(&self.extra_textures, &name) {
            Some(i) => i + 1,
            None => {
                self.push_attachment(name);
                self.extra_textures.len()
            },
        }
    }

    /// A further attachment for the new output `name`.
    fn push_attachment(&mut self, name: String)
        requires
            old(self).wf(),
            position_of(old(self).extra_textures@, name@) is None,
            name@ != OUTPUT_ATTACHMENT@,
        ensures
            final(self).wf(),
            final(self).extra_textures@.len() == old(self).extra_textures@.len() + 1,
            final(self).extra_textures@.drop_last() == old(self).extra_textures@,
            final(self).extra_textures@.last().0@ == name@,
            final(self).extra_textures@.last().1 == attachment(
                old(self).width,
                old(self).height,
                old(self).texture_type,
                old(self).min_filter,
                old(self).mag_filter,
            ),
            *final(self) == (RenderTarget { extra_textures: final(self).extra_textures, ..*old(self) }),
    {
        let texture = color_attachment(self.width, self.height, self.texture_type, self.min_filter, self.mag_filter);
        let ghost before = self.extra_textures@;
        self.extra_textures.push((name, texture));
        proof {
            assert(self.extra_textures@.drop_last() == before);
            assert forall|i: int, j: int|
                0 <= i < self.extra_textures@.len() && 0 <= j < self.extra_textures@.len() && i != j implies self.extra_textures@[i].0@
                != self.extra_textures@[j].0@ by {
                if i < before.len() && j < before.len() {
                    assert(before[i] == self.extra_textures@[i] && before[j] == self.extra_textures@[j]);
                } else if i < before.len() {
                    assert(before[i] == self.extra_textures@[i]);
                } else {
                    assert(before[j] == self.extra_textures@[j]);
                }
            }
            assert forall|i: int| 0 <= i < self.extra_textures@.len() implies #[trigger] self.extra_textures@[i].0@
                != OUTPUT_ATTACHMENT@ by {
                if i < before.len() {
                    assert(before[i] == self.extra_textures@[i]);
                }
            }
        }
    }
}

/// `texture` at a new size: resized, and off the GPU so it is created
/// again.
pub open spec fn resized(texture: Texture2D, width: u32, height: u32) -> Texture2D {
    Texture2D { width, height, gpu: None, ..texture }
}

/// `entries` with every texture resized.
pub open spec fn all_resized(entries: Seq<(String, Texture2D)>, width: u32, height: u32) -> Seq<(String, Texture2D)> {
    entries.map_values(|entry: (String, Texture2D)| (entry.0, resized(entry.1, width, height)))
}

/// Every texture of `entries` at the new size and off the GPU.
fn resize_all(entries: Vec<(String, Texture2D)>, width: u32, height: u32) -> (resized_entries: Vec<(String, Texture2D)>)
    ensures
        resized_entries@ == all_resized(entries@, width, height),
{
    let ghost given = entries@;
    let mut rest = entries;
    let mut done: Vec<(String, Texture2D)> = Vec::new();
    while rest.len() > 0
        invariant
            done@.len() + rest@.len() == given.len(),
            rest@ == given.skip(done@.len() as int),
            done@ == all_resized(given.take(done@.len() as int), width, height),
        decreases rest@.len(),
    {
        let ghost k = done@.len() as int;
        let (name, mut texture) = rest.remove(0);
        texture.set_size(width, height);
        texture.clear_gpu();
        done.push((name, texture));
        proof {
            assert(rest@ =~= given.skip(k + 1));
            assert(given.take(k + 1) =~= given.take(k).push(given[k]));
            assert(done@ =~= all_resized(given.take(k + 1), width, height));
        }
    }
    proof {
        assert(given.take(given.len() as int) =~= given);
    }
    done
}

/// A depth texture taken off the GPU.
fn drop_depth_gpu(depth_texture: Option<DepthTexture>) -> (dropped: Option<DepthTexture>)
    ensures
        match depth_texture {
            Some(texture) => dropped == Some(DepthTexture { gpu: None, ..texture }),
            None => dropped is None,
        },
{
    match depth_texture {
        Some(mut texture) => {
            texture.gpu = None;
            Some(texture)
        },
        None => None,
    }
}

/// Whether `after` is `before` with the GPU textures behind output `name`
/// and its previous texture exchanged; unchanged when the name has no
/// previous texture or no attachment.
pub open spec fn toggled(before: RenderTarget, after: RenderTarget, name: Seq<char>) -> bool {
    match position_of(before.previous_textures@, name) {
        None => after == before,
        Some(p) => {
            let previous = before.previous_textures@[p];
            if name == OUTPUT_ATTACHMENT@ {
                &&& after.texture == (Texture2D { gpu: previous.1.gpu, ..before.texture })
                &&& after.previous_textures@ == before.previous_textures@.update(
                    p,
                    (previous.0, Texture2D { gpu: before.texture.gpu, ..previous.1 }),
                )
                &&& after == (RenderTarget {
                    texture: after.texture,
                    previous_textures: after.previous_textures,
                    ..before
                })
            } else {
                match position_of(before.extra_textures@, name) {
                    None => after == before,
                    Some(e) => {
                        let current = before.extra_textures@[e];
                        &&& after.extra_textures@ == before.extra_textures@.update(
                            e,
                            (current.0, Texture2D { gpu: previous.1.gpu, ..current.1 }),
                        )
                        &&& after.previous_textures@ == before.previous_textures@.update(
                            p,
                            (previous.0, Texture2D { gpu: current.1.gpu, ..previous.1 }),
                        )
                        &&& after == (RenderTarget {
                            extra_textures: after.extra_textures,
                            previous_textures: after.previous_textures,
                            ..before
                        })
                    },
                }
            }
        },
    }
}

/// Puts `gpu` on the texture of entry `i`, keeping its name.
fn set_entry_gpu(entries: &mut Vec<(String, Texture2D)>, i: usize, gpu: wgpu::Texture)
    requires
        i < old(entries)@.len(),
    ensures
        final(entries)@ == old(entries)@.update(
            i as int,
            (old(entries)@[i as int].0, Texture2D { gpu: Some(gpu), ..old(entries)@[i as int].1 }),
        ),
{
    let ghost before = entries@;
    let (name, mut texture) = entries.remove(i);
    texture.set_gpu(gpu);
    entries.insert(i, (name, texture));
    proof {
        assert(entries@ =~= before.update(i as int, (before[i as int].0, Texture2D { gpu: Some(gpu), ..before[i as int].1 })));
    }
}

/// Renaming nothing keeps names unique.
proof fn lemma_same_names(before: Seq<(String, Texture2D)>, after: Seq<(String, Texture2D)>)
    requires
        names_unique(before),
        before.len() == after.len(),
        forall|i: int| 0 <= i < before.len() ==> #[trigger] after[i].0 == before[i].0,
    ensures
        names_unique(after),
{
    assert forall|i: int, j: int| 0 <= i < after.len() && 0 <= j < after.len() && i != j implies after[i].0@ != after[j].0@ by {
        assert(after[i].0 == before[i].0 && after[j].0 == before[j].0);
    }
}

impl RenderTarget {
    /// Puts `gpu` on the first colour attachment.
    pub fn set_color_gpu(&mut self, gpu: wgpu::Texture)
        requires
            old(self).wf(),
        ensures
            final(self).wf(),
            *final(self) == (RenderTarget { texture: Texture2D { gpu: Some(gpu), ..old(self).texture }, ..*old(self) }),
    {
        self.texture.set_gpu(gpu);
    }

    /// Puts `gpu` on further colour attachment `e`.
    pub fn set_extra_gpu(&mut self, e: usize, gpu: wgpu::Texture)
        requires
            old(self).wf(),
            e < old(self).extra_textures@.len(),
        ensures
            final(self).wf(),
            final(self).extra_textures@ == old(self).extra_textures@.update(
                e as int,
                (old(self).extra_textures@[e as int].0, Texture2D { gpu: Some(gpu), ..old(self).extra_textures@[e as int].1 }),
            ),
            *final(self) == (RenderTarget { extra_textures: final(self).extra_textures, ..*old(self) }),
    {
        let ghost before = self.extra_textures@;
        set_entry_gpu(&mut self.extra_textures, e, gpu);
        proof {
            lemma_same_names(before, self.extra_textures@);
            assert forall|i: int| 0 <= i < self.extra_textures@.len() implies #[trigger] self.extra_textures@[i].0@ != OUTPUT_ATTACHMENT@ by {
                assert(self.extra_textures@[i].0 == before[i].0);
            }
        }
    }

    /// Puts `gpu` on previous-frame texture `p`.
    pub fn set_previous_gpu(&mut self, p: usize, gpu: wgpu::Texture)
        requires
            old(self).wf(),
            p < old(self).previous_textures@.len(),
        ensures
            final(self).wf(),
            final(self).previous_textures@ == old(self).previous_textures@.update(
                p as int,
                (
                    old(self).previous_textures@[p as int].0,
                    Texture2D { gpu: Some(gpu), ..old(self).previous_textures@[p as int].1 },
                ),
            ),
            *final(self) == (RenderTarget { previous_textures: final(self).previous_textures, ..*old(self) }),
    {
        let ghost before = self.previous_textures@;
        set_entry_gpu(&mut self.previous_textures, p, gpu);
        proof {
            lemma_same_names(before, self.previous_textures@);
        }
    }

    /// Puts `gpu` as the multisampled colour texture.
    pub fn set_msaa_gpu(&mut self, gpu: wgpu::Texture)
        requires
            old(self).wf(),
        ensures
            final(self).wf(),
            *final(self) == (RenderTarget { msaa: Some(gpu), ..*old(self) }),
    {
        self.msaa = Some(gpu);
    }

    /// Puts `gpu` as the depth buffer.
    pub fn set_depth_buffer_gpu(&mut self, gpu: wgpu::Texture)
        requires
            old(self).wf(),
        ensures
            final(self).wf(),
            *final(self) == (RenderTarget { depth: Some(gpu), ..*old(self) }),
    {
        self.depth = Some(gpu);
    }

    /// Puts `gpu`, of `width` x `height`, on the attached depth texture, if
    /// there is one; without one nothing changes.
    pub fn set_depth_texture_gpu(&mut self, width: u32, height: u32, gpu: wgpu::Texture)
        requires
            old(self).wf(),
        ensures
            final(self).wf(),
            *final(self) == (RenderTarget {
                depth_texture: match old(self).depth_texture {
                    Some(depth) => Some(DepthTexture { width, height, gpu: Some(gpu), ..depth }),
                    None => None,
                },
                ..*old(self)
            }),
    {
        match self.depth_texture.take() {
            Some(mut depth) => {
                depth.width = width;
                depth.height = height;
                depth.gpu = Some(gpu);
                self.depth_texture = Some(depth);
            },
            None => {},
        }
    }
}

impl RenderTarget {
    /// The texture holding the previous frame of output `name`, added if
    /// there is none yet; returns its position among them. It has the
    /// target's size, format and filters, and no pass ever writes it.
    pub fn add_previous_texture(&mut self, name: &str) -> (position: usize)
        requires
            old(self).wf(),
        ensures
            final(self).wf(),
            match position_of(old(self).previous_textures@, name@) {
                Some(i) => position == i && *final(self) == *old(self),
                None => {
                    &&& position == old(self).previous_textures@.len()
                    &&& final(self).previous_textures@.drop_last() == old(self).previous_textures@
                    &&& final(self).previous_textures@.last().0@ == name@
                    &&& final(self).previous_textures@.last().1 == attachment(
                        old(self).width,
                        old(self).height,
                        old(self).texture_type,
                        old(self).min_filter,
                        old(self).mag_filter,
                    )
                    &&& *final(self) == (RenderTarget { previous_textures: final(self).previous_textures, ..*old(self) })
                },
            },
    {
        let name = name.to_string();
        match find(&self.previous_textures, &name) {
            Some(i) => i,
            None => {
                let texture = color_attachment(
                    self.width,
                    self.height,
                    self.texture_type,
                    self.min_filter,
                    self.mag_filter,
                );
                let ghost before = self.previous_textures@;
                let position = self.previous_textures.len();
                self.previous_textures.push((name, texture));
                proof {
                    assert(self.previous_textures@.drop_last() == before);
                    assert forall|i: int, j: int|
                        0 <= i < self.previous_textures@.len() && 0 <= j < self.previous_textures@.len() && i
                            != j implies self.previous_textures@[i].0@ != self.previous_textures@[j].0@ by {
                        if i < before.len() && j < before.len() {
                            assert(before[i] == self.previous_textures@[i] && before[j]
                                == self.previous_textures@[j]);
                        } else if i < before.len() {
                            assert(before[i] == self.previous_textures@[i]);
                        } else {
                            assert(before[j] == self.previous_textures@[j]);
                        }
                    }
                }
                position
            },
        }
    }

    /// Exchanges the GPU textures behind output `name` and its previous
    /// texture, so that what was written this frame is read as the previous
    /// frame next time. Nothing happens for a name without a previous
    /// texture or without an attachment.
    pub fn toggle_texture(&mut self, name: &str)
        requires
            old(self).wf(),
        ensures
            final(self).wf(),
            toggled(*old(self), *final(self), name@),
    {
        let name = name.to_string();
        let output = OUTPUT_ATTACHMENT.to_string();
        let p = match find(&self.previous_textures, &name) {
            Some(p) => p,
            None => return,
        };
        if name == output {
            self.swap_output_gpu(p);
            assert(toggled(*old(self), *self, name@));
        } else {
            match find(&self.extra_textures, &name) {
                Some(e) => {
                    self.swap_extra_gpu(p, e);
                    assert(toggled(*old(self), *self, name@));
                },
                None => {},
            }
        }
    }

    /// Exchanges the GPU textures of the first attachment and previous
    /// texture `p`.
    fn swap_output_gpu(&mut self, p: usize)
        requires
            old(self).wf(),
            p < old(self).previous_textures@.len(),
        ensures
            final(self).wf(),
            ({
                let previous = old(self).previous_textures@[p as int];
                &&& final(self).texture == (Texture2D { gpu: previous.1.gpu, ..old(self).texture })
                &&& final(self).previous_textures@ == old(self).previous_textures@.update(
                    p as int,
                    (previous.0, Texture2D { gpu: old(self).texture.gpu, ..previous.1 }),
                )
                &&& *final(self) == (RenderTarget {
                    texture: final(self).texture,
                    previous_textures: final(self).previous_textures,
                    ..*old(self)
                })
            }),
    {
        let ghost before = self.previous_textures@;
        let (previous_name, mut previous) = self.previous_textures.remove(p);
        std::mem::swap(&mut self.texture.gpu, &mut previous.gpu);
        self.previous_textures.insert(p, (previous_name, previous));
        proof {
            assert(self.previous_textures@ =~= before.update(p as int, self.previous_textures@[p as int]));
            assert forall|i: int, j: int|
                0 <= i < self.previous_textures@.len() && 0 <= j < self.previous_textures@.len() && i != j implies self.previous_textures@[i].0@
                != self.previous_textures@[j].0@ by {
                assert(self.previous_textures@[i].0 == before[i].0);
                assert(self.previous_textures@[j].0 == before[j].0);
            }
        }
    }

    /// Exchanges the GPU textures of further attachment `e` and previous
    /// texture `p`.
    fn swap_extra_gpu(&mut self, p: usize, e: usize)
        requires
            old(self).wf(),
            p < old(self).previous_textures@.len(),
            e < old(self).extra_textures@.len(),
        ensures
            final(self).wf(),
            ({
                let previous = old(self).previous_textures@[p as int];
                let current = old(self).extra_textures@[e as int];
                &&& final(self).extra_textures@ == old(self).extra_textures@.update(
                    e as int,
                    (current.0, Texture2D { gpu: previous.1.gpu, ..current.1 }),
                )
                &&& final(self).previous_textures@ == old(self).previous_textures@.update(
                    p as int,
                    (previous.0, Texture2D { gpu: current.1.gpu, ..previous.1 }),
                )
                &&& *final(self) == (RenderTarget {
                    extra_textures: final(self).extra_textures,
                    previous_textures: final(self).previous_textures,
                    ..*old(self)
                })
            }),
    {
        let ghost previous_before = self.previous_textures@;
        let ghost extra_before = self.extra_textures@;
        let (previous_name, mut previous) = self.previous_textures.remove(p);
        let (current_name, mut current) = self.extra_textures.remove(e);
        std::mem::swap(&mut current.gpu, &mut previous.gpu);
        self.extra_textures.insert(e, (current_name, current));
        self.previous_textures.insert(p, (previous_name, previous));
        proof {
            assert(self.previous_textures@ =~= previous_before.update(p as int, self.previous_textures@[p as int]));
            assert(self.extra_textures@ =~= extra_before.update(e as int, self.extra_textures@[e as int]));
            assert forall|i: int, j: int|
                0 <= i < self.previous_textures@.len() && 0 <= j < self.previous_textures@.len() && i != j implies self.previous_textures@[i].0@
                != self.previous_textures@[j].0@ by {
                assert(self.previous_textures@[i].0 == previous_before[i].0);
                assert(self.previous_textures@[j].0 == previous_before[j].0);
            }
            assert forall|i: int, j: int|
                0 <= i < self.extra_textures@.len() && 0 <= j < self.extra_textures@.len() && i != j implies self.extra_textures@[i].0@
                != self.extra_textures@[j].0@ by {
                assert(self.extra_textures@[i].0 == extra_before[i].0);
                assert(self.extra_textures@[j].0 == extra_before[j].0);
            }
            assert forall|i: int| 0 <= i < self.extra_textures@.len() implies #[trigger] self.extra_textures@[i].0@
                != OUTPUT_ATTACHMENT@ by {
                assert(self.extra_textures@[i].0 == extra_before[i].0);
            }
        }
    }

    /// The output names of the colour attachments, by location: the output
    /// first, then the further attachments in the order they were added.
    pub fn attachment_names(&self) -> (names: Vec<String>)
        ensures
            names@.len() == self.extra_textures@.len() + 1,
            names@[0]@ == OUTPUT_ATTACHMENT@,
            forall|i: int| 0 <= i < self.extra_textures@.len() ==> #[trigger] names@[i + 1]@ == self.extra_textures@[i].0@,
    {
        let mut names: Vec<String> = Vec::new();
        names.push(OUTPUT_ATTACHMENT.to_string());
        let mut i: usize = 0;
        while i < self.extra_textures.len()
            invariant
                i <= self.extra_textures@.len(),
                names@.len() == i + 1,
                names@[0]@ == OUTPUT_ATTACHMENT@,
                forall|j: int| 0 <= j < i ==> #[trigger] names@[j + 1]@ == self.extra_textures@[j].0@,
            decreases self.extra_textures@.len() - i,
        {
            names.push(self.extra_textures[i].0.clone());
            i = i + 1;
        }
        names
    }

    /// Attaches `depth_texture`, multisampled exactly when the target is.
    pub fn set_depth_texture(&mut self, depth_texture: DepthTexture)
        requires
            old(self).wf(),
        ensures
            final(self).wf(),
            final(self).depth_texture matches Some(attached) && (attached.multisample == (old(self).samples
                > 1)) && (attached.multisample == depth_texture.multisample ==> attached == depth_texture) && (
            attached.multisample != depth_texture.multisample ==> attached == (DepthTexture {
                multisample: attached.multisample,
                gpu: None,
                ..depth_texture
            })),
            *final(self) == (RenderTarget { depth_texture: final(self).depth_texture, ..*old(self) }),
    {
        let mut depth_texture = depth_texture;
        depth_texture.set_multisample(self.samples > 1);
        self.depth_texture = Some(depth_texture);
    }

    pub fn depth_texture(&self) -> (depth_texture: Option<&DepthTexture>)
        ensures
            depth_texture == match self.depth_texture {
                Some(texture) => Some(&texture),
                None => None::<&DepthTexture>,
            },
    {
        self.depth_texture.as_ref()
    }

    /// Width and height.
    pub fn size(&self) -> (size: (u32, u32))
        ensures
            size == (self.width, self.height),
    {
        (self.width, self.height)
    }

    /// A new size. A change resizes every attachment and previous texture
    /// and takes everything off the GPU, to be created again at the new
    /// size; the same size changes nothing.
    pub fn set_size(&mut self, width: u32, height: u32)
        requires
            old(self).wf(),
        ensures
            final(self).wf(),
            width == old(self).width && height == old(self).height ==> *final(self) == *old(self),
            width != old(self).width || height != old(self).height ==> {
                &&& final(self).texture == resized(old(self).texture, width, height)
                &&& final(self).extra_textures@ == all_resized(old(self).extra_textures@, width, height)
                &&& final(self).previous_textures@ == all_resized(old(self).previous_textures@, width, height)
                &&& final(self).msaa_extra@.len() == 0
                &&& final(self).depth_texture == match old(self).depth_texture {
                    Some(texture) => Some(DepthTexture { gpu: None, ..texture }),
                    None => None,
                }
                &&& *final(self) == (RenderTarget {
                    width,
                    height,
                    texture: final(self).texture,
                    extra_textures: final(self).extra_textures,
                    previous_textures: final(self).previous_textures,
                    msaa: None,
                    msaa_extra: final(self).msaa_extra,
                    depth: None,
                    depth_texture: final(self).depth_texture,
                    ..*old(self)
                })
            },
    {
        if self.width == width && self.height == height {
            return;
        }
        self.width = width;
        self.height = height;
        self.texture.set_size(width, height);
        self.texture.clear_gpu();
        self.msaa = None;
        self.msaa_extra.clear();
        self.depth = None;
        let depth_texture = self.depth_texture.take();
        self.depth_texture = drop_depth_gpu(depth_texture);
        let mut extras: Vec<(String, Texture2D)> = Vec::new();
        std::mem::swap(&mut extras, &mut self.extra_textures);
        self.extra_textures = resize_all(extras, width, height);
        let mut previous: Vec<(String, Texture2D)> = Vec::new();
        std::mem::swap(&mut previous, &mut self.previous_textures);
        self.previous_textures = resize_all(previous, width, height);
        proof {
            let old_extras = old(self).extra_textures@;
            let old_previous = old(self).previous_textures@;
            assert forall|i: int| 0 <= i < self.extra_textures@.len() implies #[trigger] self.extra_textures@[i].0
                == old_extras[i].0 by {}
            assert forall|i: int| 0 <= i < self.previous_textures@.len() implies #[trigger] self.previous_textures@[i].0
                == old_previous[i].0 by {}
            assert(names_unique(self.extra_textures@)) by {
                assert forall|i: int, j: int|
                    0 <= i < self.extra_textures@.len() && 0 <= j < self.extra_textures@.len() && i != j implies self.extra_textures@[i].0@
                    != self.extra_textures@[j].0@ by {
                    assert(self.extra_textures@[i].0 == old_extras[i].0);
                    assert(self.extra_textures@[j].0 == old_extras[j].0);
                }
            }
            assert(names_unique(self.previous_textures@)) by {
                assert forall|i: int, j: int|
                    0 <= i < self.previous_textures@.len() && 0 <= j < self.previous_textures@.len() && i != j implies self.previous_textures@[i].0@
                    != self.previous_textures@[j].0@ by {
                    assert(self.previous_textures@[i].0 == old_previous[i].0);
                    assert(self.previous_textures@[j].0 == old_previous[j].0);
                }
            }
            assert forall|i: int| 0 <= i < self.extra_textures@.len() implies #[trigger] self.extra_textures@[i].0@
                != OUTPUT_ATTACHMENT@ by {
                assert(self.extra_textures@[i].0 == old_extras[i].0);
            }
        }
    }

    /// The first colour attachment.
    pub fn texture(&self) -> (texture: &Texture2D)
        ensures
            *texture == self.texture,
    {
        &self.texture
    }

    pub fn samples(&self) -> (samples: u32)
        ensures
            samples == self.samples,
    {
        self.samples
    }

    /// A new sample count. A change drops the multisampled textures and the
    /// depth buffer, to be created again with it, and an attached depth
    /// texture follows it into or out of multisampling.
    pub fn set_samples(&mut self, samples: u32)
        requires
            old(self).wf(),
        ensures
            final(self).wf(),
            samples == old(self).samples ==> *final(self) == *old(self),
            samples != old(self).samples ==> {
                &&& final(self).msaa_extra@.len() == 0
                &&& final(self).depth_texture == match old(self).depth_texture {
                    Some(texture) => Some(
                        if texture.multisample == (samples > 1) {
                            texture
                        } else {
                            DepthTexture { multisample: samples > 1, gpu: None, ..texture }
                        },
                    ),
                    None => None,
                }
                &&& *final(self) == (RenderTarget {
                    samples,
                    msaa: None,
                    msaa_extra: final(self).msaa_extra,
                    depth: None,
                    depth_texture: final(self).depth_texture,
                    ..*old(self)
                })
            },
    {
        if self.samples == samples {
            return;
        }
        self.samples = samples;
        self.msaa = None;
        self.msaa_extra.clear();
        self.depth = None;
        let depth_texture = self.depth_texture.take();
        self.depth_texture = match depth_texture {
            Some(mut texture) => {
                texture.set_multisample(samples > 1);
                Some(texture)
            },
            None => None,
        };
    }

    pub fn scissor_test(&self) -> (scissor_test: bool)
        ensures
            scissor_test == self.scissor_test,
    {
        self.scissor_test
    }

    pub fn set_scissor_test(&mut self, scissor_test: bool)
        ensures
            *final(self) == (RenderTarget { scissor_test, ..*old(self) }),
    {
        self.scissor_test = scissor_test;
    }

    /// The colour format of the attachments.
    pub fn color_format(&self) -> (format: wgpu::TextureFormat)
        requires
            self.wf(),
        ensures
            format == color_format_of(color_format_for_type(self.texture_type)),
    {
        self.texture_type.color_gpu_format()
    }
}

impl RenderTarget {
    /// A second target like this one, with textures of its own: the same
    /// size, samples, type, depth buffer and filters, a new depth texture if
    /// this one has one, and an attachment of its own for each of this
    /// one's further outputs, in the same order. Nothing of it is on the GPU,
    /// and it has no previous textures.
    pub fn clone_target(&self) -> (clone: Self)
        requires
            self.wf(),
        ensures
            clone.wf(),
            clone.width == self.width,
            clone.height == self.height,
            clone.samples == self.samples,
            clone.texture_type == self.texture_type,
            clone.depth_buffer == self.depth_buffer,
            clone.min_filter == self.min_filter,
            clone.mag_filter == self.mag_filter,
            clone.texture == attachment(self.width, self.height, self.texture_type, self.min_filter, self.mag_filter),
            clone.extra_textures@.len() == self.extra_textures@.len(),
            forall|i: int|
                0 <= i < self.extra_textures@.len() ==> #[trigger] clone.extra_textures@[i].0@
                    == self.extra_textures@[i].0@ && clone.extra_textures@[i].1 == attachment(
                    self.width,
                    self.height,
                    self.texture_type,
                    self.min_filter,
                    self.mag_filter,
                ),
            clone.previous_textures@.len() == 0,
            self.depth_texture is None ==> clone.depth_texture is None,
            self.depth_texture is Some ==> clone.depth_texture == Some(
                DepthTexture { multisample: self.samples > 1, ..fresh_depth_texture() },
            ),
            clone.msaa is None,
            clone.msaa_extra@.len() == 0,
            clone.depth is None,
            !clone.scissor_test,
    {
        let options = RenderTargetOptions {
            texture_type: self.texture_type,
            samples: self.samples,
            depth_buffer: self.depth_buffer,
            min_filter: self.min_filter,
            mag_filter: self.mag_filter,
        };
        let mut clone = match Self::new_with_options(self.width, self.height, options) {
            Ok(target) => target,
            Err(_) => vstd::pervasive::unreached(),
        };
        if self.depth_texture.is_some() {
            clone.set_depth_texture(DepthTexture::new());
        }
        let ghost fresh = clone;
        let mut i: usize = 0;
        while i < self.extra_textures.len()
            invariant
                self.wf(),
                clone.wf(),
                i <= self.extra_textures@.len(),
                clone.extra_textures@.len() == i,
                forall|j: int|
                    0 <= j < i ==> #[trigger] clone.extra_textures@[j].0@ == self.extra_textures@[j].0@
                        && clone.extra_textures@[j].1 == attachment(
                        self.width,
                        self.height,
                        self.texture_type,
                        self.min_filter,
                        self.mag_filter,
                    ),
                clone == (RenderTarget { extra_textures: clone.extra_textures, ..fresh }),
                fresh.width == self.width && fresh.height == self.height,
                fresh.texture_type == self.texture_type,
                fresh.min_filter == self.min_filter && fresh.mag_filter == self.mag_filter,
            decreases self.extra_textures@.len() - i,
        {
            let name = self.extra_textures[i].0.clone();
            proof {
                if let Some(k) = position_of(clone.extra_textures@, name@) {
                    assert(clone.extra_textures@[k].0@ == name@);
                    assert(self.extra_textures@[k].0@ == self.extra_textures@[i as int].0@);
                }
                assert(self.extra_textures@[i as int].0@ != OUTPUT_ATTACHMENT@);
            }
            let ghost before = clone.extra_textures@;
            clone.push_attachment(name);
            proof {
                assert forall|j: int| 0 <= j < i + 1 implies #[trigger] clone.extra_textures@[j].0@
                    == self.extra_textures@[j].0@ && clone.extra_textures@[j].1 == attachment(
                    self.width,
                    self.height,
                    self.texture_type,
                    self.min_filter,
                    self.mag_filter,
                ) by {
                    if j < i {
                        assert(clone.extra_textures@[j] == before[j]);
                    }
                }
            }
            i = i + 1;
        }
        clone
    }
}

/// An output name has one location: asking for its attachment a second
/// time gives the location it got the first time and changes nothing, and
/// the name listed at that location is the name asked for.
pub proof fn an_output_keeps_its_location(
    first: RenderTarget,
    second: RenderTarget,
    third: RenderTarget,
    name: Seq<char>,
    location: int,
    again: int,
)
    requires
        first.wf(),
        second.wf(),
        texture_added(first, second, name, location),
        texture_added(second, third, name, again),
    ensures
        again == location,
        third == second,
        0 <= location < attachment_names_of(second.extra_textures@).len(),
        attachment_names_of(second.extra_textures@)[location] == name,
{
    let names = attachment_names_of(second.extra_textures@);
    if name != OUTPUT_ATTACHMENT@ {
        let k = location - 1;
        match position_of(first.extra_textures@, name) {
            Some(i) => {
                assert(first.extra_textures@[i].0@ == name);
            },
            None => {
                assert(second.extra_textures@[k] == second.extra_textures@.last());
            },
        }
        assert(second.extra_textures@[k].0@ == name);
        lemma_position_unique(second.extra_textures@, name, k);
        assert(names[location] == second.extra_textures@.map_values(|entry: (String, Texture2D)| entry.0@)[k]);
    }
}

/// Toggling an output twice gives back the GPU textures it started with.
#[verifier::spinoff_prover]
pub proof fn toggling_twice_restores(first: RenderTarget, second: RenderTarget, third: RenderTarget, name: Seq<char>)
    requires
        first.wf(),
        toggled(first, second, name),
        toggled(second, third, name),
    ensures
        third.texture == first.texture,
        third.extra_textures@ == first.extra_textures@,
        third.previous_textures@ == first.previous_textures@,
        third == (RenderTarget {
            extra_textures: third.extra_textures,
            previous_textures: third.previous_textures,
            ..first
        }),
{
    match position_of(first.previous_textures@, name) {
        None => {},
        Some(p) => {
            if name == OUTPUT_ATTACHMENT@ {
                assert(second.previous_textures@[p].0@ == name);
                lemma_position_unique(second.previous_textures@, name, p);
                assert(third.texture == first.texture);
                assert(third.previous_textures@ =~= first.previous_textures@);
            } else {
                match position_of(first.extra_textures@, name) {
                    None => {
                        assert(second == first);
                    },
                    Some(e) => {
                        assert(second.previous_textures@[p].0@ == name);
                        lemma_position_unique(second.previous_textures@, name, p);
                        assert(second.extra_textures@[e].0@ == name);
                        assert(names_unique(second.extra_textures@)) by {
                            assert forall|i: int, j: int|
                                0 <= i < second.extra_textures@.len() && 0 <= j < second.extra_textures@.len() && i
                                    != j implies second.extra_textures@[i].0@ != second.extra_textures@[j].0@ by {
                                assert(second.extra_textures@[i].0 == first.extra_textures@[i].0);
                                assert(second.extra_textures@[j].0 == first.extra_textures@[j].0);
                            }
                        }
                        lemma_position_unique(second.extra_textures@, name, e);
                        assert(third.extra_textures@ =~= first.extra_textures@);
                        assert(third.previous_textures@ =~= first.previous_textures@);

                    },
                }
            }
        },
    }
}

/// The positions among the first `n` of `entries` whose texture is not on
/// the GPU, in order.
pub open spec fn missing(entries: Seq<(String, Texture2D)>, n: int) -> Seq<usize>
    decreases n,
{
    if n <= 0 {
        Seq::empty()
    } else if entries[n - 1].1.gpu is None {
        missing(entries, n - 1).push((n - 1) as usize)
    } else {
        missing(entries, n - 1)
    }
}

/// What a render target lacks on the GPU before a pass can draw into it,
/// and what it is all created with.
#[derive(Clone, Debug, PartialEq, Eq)]
pub struct TargetAllocations {
    pub width: u32,
    pub height: u32,
    /// The sample count of the multisampled colour texture and of the depth
    /// buffers: the target's, and at least 1.
    pub sample_count: u32,
    /// The first attachment's texture.
    pub color: bool,
    /// The positions of the further attachments without a texture.
    pub extra: Vec<usize>,
    /// The positions of the previous textures without a texture.
    pub previous: Vec<usize>,
    /// The multisampled colour texture.
    pub msaa: bool,
    /// The depth buffer allocated for a target with no depth texture.
    pub depth_buffer: bool,
    /// The attached depth texture's texture.
    pub depth_texture: bool,
}

/// The positions of `entries` whose texture is not on the GPU.
fn missing_positions(entries: &Vec<(String, Texture2D)>) -> (positions: Vec<usize>)
    ensures
        positions@ == missing(entries@, entries@.len() as int),
{
    let mut positions: Vec<usize> = Vec::new();
    let mut i: usize = 0;
    while i < entries.len()
        invariant
            i <= entries@.len(),
            positions@ == missing(entries@, i as int),
        decreases entries@.len() - i,
    {
        if entries[i].1.gpu.is_none() {
            positions.push(i);
        }
        i = i + 1;
    }
    positions
}

impl RenderTarget {
    /// What has to be created on the GPU before a pass into this target: the
    /// first attachment's texture, each further attachment's and previous
    /// texture's that is missing (all single-sampled, at the target's size
    /// and format), the multisampled colour texture when the target has more
    /// than one sample and none yet, a depth buffer when depth is wanted, no
    /// depth texture is attached and there is none yet, and the attached
    /// depth texture's texture when it has none. What is there is kept.
    pub fn allocations(&self) -> (needed: TargetAllocations)
        ensures
            needed.width == self.width,
            needed.height == self.height,
            needed.sample_count == if self.samples > 1 {
                self.samples
            } else {
                1
            },
            needed.color == (self.texture.gpu is None),
            needed.extra@ == missing(self.extra_textures@, self.extra_textures@.len() as int),
            needed.previous@ == missing(self.previous_textures@, self.previous_textures@.len() as int),
            needed.msaa == (self.samples > 1 && self.msaa is None),
            needed.depth_buffer == (self.depth_texture is None && self.depth_buffer && self.depth is None),
            needed.depth_texture == (self.depth_texture matches Some(depth) && depth.gpu is None),
    {
        let sample_count = if self.samples > 1 {
            self.samples
        } else {
            1
        };
        TargetAllocations {
            width: self.width,
            height: self.height,
            sample_count,
            color: self.texture.gpu.is_none(),
            extra: missing_positions(&self.extra_textures),
            previous: missing_positions(&self.previous_textures),
            msaa: sample_count > 1 && self.msaa.is_none(),
            depth_buffer: self.depth_texture.is_none() && self.depth_buffer && self.depth.is_none(),
            depth_texture: match &self.depth_texture {
                Some(depth) => depth.gpu.is_none(),
                None => false,
            },
        }
    }
}

} // verus!
