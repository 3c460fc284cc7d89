//! Decisions a renderer makes around its passes: the pixel rectangle a
//! viewport or scissor becomes inside its target, where a manual clear
//! lands, how many samples the current pass has, when the canvas textures
//! are made again, in which order mip levels are filled, and how far apart
//! the elements of a storage array lie.

use vstd::prelude::*;

verus! {

/// A viewport or scissor rectangle in a pass target's own pixels, its origin
/// at the top-left.
#[derive(Clone, Copy, Debug, PartialEq, Eq, Structural)]
pub struct Rect {
    pub x: u32,
    pub y: u32,
    pub width: u32,
    pub height: u32,
}

/// The smaller of `a` and `b`.
pub open spec fn min_u32(a: u32, b: u32) -> u32 {
    if a <= b {
        a
    } else {
        b
    }
}

/// A rectangle kept inside a `width` x `height` target: its corner moved
/// into the target, and its size cut at the target's edges.
pub open spec fn clamped_rect(x: u32, y: u32, w: u32, h: u32, width: u32, height: u32) -> Rect {
    let x = min_u32(x, width);
    let y = min_u32(y, height);
    Rect { x, y, width: min_u32(w, (width - x) as u32), height: min_u32(h, (height - y) as u32) }
}

impl Rect {
    /// The rectangle at `x`, `y` of `w` x `h` pixels (already scaled to the
    /// target's pixels and floored), clamped into a `width` x `height`
    /// target, which GPU validation would reject it for leaving.
    pub fn clamped(x: u32, y: u32, w: u32, h: u32, width: u32, height: u32) -> (rect: Self)
        ensures
            rect == clamped_rect(x, y, w, h, width, height),
    {
        let x = if x <= width {
            x
        } else {
            width
        };
        let y = if y <= height {
            y
        } else {
            height
        };
        let room_x = width - x;
        let room_y = height - y;
        Rect {
            x,
            y,
            width: if w <= room_x {
                w
            } else {
                room_x
            },
            height: if h <= room_y {
                h
            } else {
                room_y
            },
        }
    }

    /// The whole of a `width` x `height` target.
    pub fn full(width: u32, height: u32) -> (rect: Self)
        ensures
            rect == (Rect { x: 0, y: 0, width, height }),
    {
        Rect { x: 0, y: 0, width, height }
    }
}

/// A clamped rectangle lies inside its target, and a rectangle already
/// inside is kept as it is.
pub proof fn a_clamped_rect_stays_inside(x: u32, y: u32, w: u32, h: u32, width: u32, height: u32)
    ensures
        ({
            let rect = clamped_rect(x, y, w, h, width, height);
            &&& rect.x + rect.width <= width
            &&& rect.y + rect.height <= height
            &&& x + w <= width && y + h <= height ==> rect == (Rect { x, y, width: w, height: h })
        }),
{
}

/// Where a manual clear lands.
#[derive(Clone, Copy, Debug, PartialEq, Eq, Structural)]
pub enum ClearTarget {
    /// The internal framebuffer target the frame goes through, after which
    /// the output is blitted to the canvas.
    FrameBuffer,
    /// The render target that is bound.
    RenderTarget,
    /// The canvas itself.
    Canvas,
}

/// A manual clear: which target, and which of its buffers.
#[derive(Clone, Copy, Debug, PartialEq, Eq, Structural)]
pub struct ClearPlan {
    pub target: ClearTarget,
    pub color: bool,
    pub depth: bool,
    /// Whether the output is blitted to the canvas afterwards.
    pub then_output: bool,
}

/// Where `renderer.clear( color, depth )` lands: a bound render target takes
/// it as it is; otherwise the internal framebuffer target does when the
/// output needs one (tone mapping or a colour-space conversion), and the
/// output is blitted afterwards; otherwise the canvas. It always covers the
/// whole target.
pub fn clear_plan(needs_frame_buffer_target: bool, render_target_bound: bool, color: bool, depth: bool) -> (plan: ClearPlan)
    ensures
        plan.color == color,
        plan.depth == depth,
        plan.target == if render_target_bound {
            ClearTarget::RenderTarget
        } else if needs_frame_buffer_target {
            ClearTarget::FrameBuffer
        } else {
            ClearTarget::Canvas
        },
        plan.then_output == (plan.target == ClearTarget::FrameBuffer),
{
    let use_frame_buffer_target = needs_frame_buffer_target && !render_target_bound;
    let target = if use_frame_buffer_target {
        ClearTarget::FrameBuffer
    } else if render_target_bound {
        ClearTarget::RenderTarget
    } else {
        ClearTarget::Canvas
    };
    ClearPlan { target, color, depth, then_output: use_frame_buffer_target }
}

/// Where the colour a pass clears to comes from.
#[derive(Clone, Copy, Debug, PartialEq, Eq, Structural)]
pub enum ClearColorSource {
    /// The scene's background colour.
    Background,
    /// The renderer's own clear colour.
    Renderer,
}

/// What the scene pass clears: the colour buffer (and with which colour),
/// and the depth buffer.
#[derive(Clone, Copy, Debug, PartialEq, Eq, Structural)]
pub struct SceneClear {
    pub color: Option<ClearColorSource>,
    pub depth: bool,
}

/// What a render clears before it draws the scene. A background that is a
/// colour becomes the clear colour and forces the clear even with
/// auto-clear off; otherwise the pass clears only with auto-clear on, to
/// the renderer's clear colour. When it clears, the colour buffer is
/// cleared if auto-clear-colour is on and the depth buffer if
/// auto-clear-depth is on; when it does not, nothing is cleared.
pub fn scene_clear(
    background_is_color: bool,
    auto_clear: bool,
    auto_clear_color: bool,
    auto_clear_depth: bool,
) -> (clear: SceneClear)
    ensures
        auto_clear || background_is_color ==> clear == (SceneClear {
            color: if auto_clear_color {
                Some(
                    if background_is_color {
                        ClearColorSource::Background
                    } else {
                        ClearColorSource::Renderer
                    },
                )
            } else {
                None
            },
            depth: auto_clear_depth,
        }),
        !(auto_clear || background_is_color) ==> clear == (SceneClear { color: None, depth: false }),
{
    if auto_clear || background_is_color {
        let source = if background_is_color {
            ClearColorSource::Background
        } else {
            ClearColorSource::Renderer
        };
        SceneClear {
            color: if auto_clear_color {
                Some(source)
            } else {
                None
            },
            depth: auto_clear_depth,
        }
    } else {
        SceneClear { color: None, depth: false }
    }
}

/// The sample count of the current pass: a bound render target's own, and
/// for the canvas none whenever the framebuffer target or a fullscreen pass
/// is in play (they resolve later), the renderer's otherwise.
pub fn current_samples(
    render_target_samples: Option<u32>,
    needs_frame_buffer_target: bool,
    fullscreen_pass: bool,
    samples: u32,
) -> (current: u32)
    ensures
        current == match render_target_samples {
            Some(target_samples) => target_samples,
            None => if needs_frame_buffer_target || fullscreen_pass {
                0
            } else {
                samples
            },
        },
{
    match render_target_samples {
        Some(target_samples) => target_samples,
        None => {
            if needs_frame_buffer_target || fullscreen_pass {
                0
            } else {
                samples
            }
        },
    }
}

/// The bytes between elements of a runtime-sized storage array of
/// `components`-component 32-bit elements: a three-component vector is
/// aligned to 16 bytes, everything else is packed.
pub fn storage_stride(components: usize) -> (stride: usize)
    requires
        components <= usize::MAX / 4,
    ensures
        stride == if components == 3 {
            16
        } else {
            4 * components
        },
{
    if components == 3 {
        16
    } else {
        components * 4
    }
}

/// What becomes of the canvas textures before a pass into the canvas.
#[derive(Clone, Copy, Debug, PartialEq, Eq, Structural)]
pub enum CanvasPlan {
    /// They fit the pass as they are.
    Keep,
    /// They fit, but the pass needs a depth buffer they lack.
    AddDepth,
    /// They are made again at the pass's size and sample count: a colour
    /// texture, a multisampled one if `msaa`, and a depth buffer if `depth`.
    Create { msaa: bool, depth: bool },
}

/// The canvas textures a pass of `width` x `height` pixels and
/// `sample_count` samples needs, given the ones there are (`current`: their
/// size, sample count and whether they have a depth buffer): kept while size
/// and sample count agree, with a depth buffer added on demand, and made
/// again otherwise.
pub fn canvas_plan(
    current: Option<(u32, u32, u32, bool)>,
    width: u32,
    height: u32,
    sample_count: u32,
    needs_depth: bool,
) -> (plan: CanvasPlan)
    ensures
        plan == match current {
            Some((w, h, samples, has_depth)) if w == width && h == height && samples == sample_count => if needs_depth
                && !has_depth {
                CanvasPlan::AddDepth
            } else {
                CanvasPlan::Keep
            },
            _ => CanvasPlan::Create { msaa: sample_count > 1, depth: needs_depth },
        },
{
    match current {
        Some((w, h, samples, has_depth)) => {
            if w == width && h == height && samples == sample_count {
                if needs_depth && !has_depth {
                    return CanvasPlan::AddDepth;
                }
                return CanvasPlan::Keep;
            }
        },
        None => {},
    }
    CanvasPlan::Create { msaa: sample_count > 1, depth: needs_depth }
}

/// One pass of mipmap generation: layer `layer` of mip level `target`
/// drawn, filtered, from the same layer of level `target - 1`.
#[derive(Clone, Copy, Debug, PartialEq, Eq, Structural)]
pub struct MipmapPass {
    pub target: u32,
    pub layer: u32,
}

/// The passes that fill the mip levels after the first of a texture with
/// `levels` levels and `layers` layers: level by level, and within a level
/// layer by layer, so each level is complete before the next one reads it.
pub fn mipmap_passes(levels: u32, layers: u32) -> (passes: Vec<MipmapPass>)
    requires
        (levels as int - 1) * layers <= usize::MAX,
    ensures
        levels >= 1 ==> passes@.len() == (levels - 1) * layers,
        levels == 0 ==> passes@.len() == 0,
        forall|k: int|
            0 <= k < passes@.len() ==> #[trigger] passes@[k] == (MipmapPass {
                target: (1 + k / layers as int) as u32,
                layer: (k % layers as int) as u32,
            }),
{
    let mut passes: Vec<MipmapPass> = Vec::new();
    let mut target: u32 = 1;
    while target < levels
        invariant
            1 <= target,
            levels >= 1 ==> target <= levels,
            levels == 0 ==> target == 1,
            (levels as int - 1) * layers <= usize::MAX,
            layers > 0 ==> passes@.len() == (target - 1) * layers,
            layers == 0 ==> passes@.len() == 0,
            forall|k: int|
                0 <= k < passes@.len() ==> #[trigger] passes@[k] == (MipmapPass {
                    target: (1 + k / layers as int) as u32,
                    layer: (k % layers as int) as u32,
                }),
        decreases levels - target,
    {
        let mut layer: u32 = 0;
        let ghost start = passes@.len() as int;
        while layer < layers
            invariant
                1 <= target < levels,
                (levels as int - 1) * layers <= usize::MAX,
                start == (target - 1) * layers,
                layer <= layers,
                passes@.len() == start + layer,
                forall|k: int|
                    0 <= k < passes@.len() ==> #[trigger] passes@[k] == (MipmapPass {
                        target: (1 + k / layers as int) as u32,
                        layer: (k % layers as int) as u32,
                    }),
            decreases layers - layer,
        {
            proof {
                let k = start + layer;
                assert(k / layers as int == target - 1 && k % layers as int == layer) by {
                    vstd::arithmetic::div_mod::lemma_fundamental_div_mod_converse(
                        k,
                        layers as int,
                        target - 1,
                        layer as int,
                    );
                }
                assert(start + layer < (levels as int - 1) * layers) by (nonlinear_arith)
                    requires start == (target - 1) * layers, layer < layers, target < levels;
            }
            passes.push(MipmapPass { target, layer });
            layer = layer + 1;
        }
        proof {
            assert((target + 1 - 1) * layers == (target - 1) * layers + layers) by (nonlinear_arith);
        }
        target = target + 1;
    }
    proof {
        if levels >= 1 && layers > 0 {
            assert(target == levels);
        }
        if levels >= 1 && layers == 0 {
            assert((levels - 1) * layers == 0) by (nonlinear_arith)
                requires layers == 0;
        }
    }
    passes
}

/// Mip levels are filled in order: a pass never comes after a pass of a
/// later level, so the level it reads from is complete when it runs.
pub proof fn mip_levels_are_filled_in_order(layers: u32, j: int, k: int)
    requires
        layers > 0,
        0 <= j <= k,
    ensures
        1 + j / layers as int <= 1 + k / layers as int,
{
    vstd::arithmetic::div_mod::lemma_div_is_ordered(j, k, layers as int);
}

} // verus!
