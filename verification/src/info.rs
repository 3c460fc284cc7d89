//! The renderer's frame counts: what the last frame drew, what it had to
//! build, and what the renderer is still holding. Counts are exact, so a
//! steady frame's build block is zero rather than under a bound.

use vstd::prelude::*;

use crate::text::{decimal, decimal_text, joined, lemma_joined_window, literal, shows};

verus! {

/// The primitive assembly of a draw.
#[derive(Clone, Copy, Debug, PartialEq, Eq, Hash, Structural)]
pub enum Topology {
    PointList,
    LineList,
    LineStrip,
    TriangleList,
    TriangleStrip,
}

/// Compute dispatches since startup.
#[derive(Clone, Copy, Debug, PartialEq, Eq, Structural)]
pub struct ComputeCounts {
    pub calls: u64,
}

/// What one frame drew.
#[derive(Clone, Copy, Debug, PartialEq, Eq, Structural)]
pub struct RenderCounts {
    /// Draw calls, an instanced draw counting once.
    pub calls: u64,
    /// Primitives, with the instance count multiplied in.
    pub triangles: u64,
    pub points: u64,
    pub lines: u64,
}

/// What one frame had to build or upload: the work a steady frame must not
/// do.
#[derive(Clone, Copy, Debug, PartialEq, Eq, Structural)]
pub struct BuildCounts {
    pub programs_compiled: u64,
    pub pipelines_built: u64,
    pub geometries_uploaded: u64,
    pub buffers_written: u64,
    pub textures_uploaded: u64,
    pub buffers_created: u64,
    pub views_created: u64,
    pub samplers_created: u64,
    pub bind_groups_created: u64,
}

/// What the renderer holds right now; never reset.
#[derive(Clone, Copy, Debug, PartialEq, Eq, Structural)]
pub struct MemoryCounts {
    pub geometries: usize,
    pub textures: usize,
    pub programs: usize,
}

/// What one frame drew and what it cost to get there.
#[derive(Clone, Copy, Debug, PartialEq, Eq, Structural)]
pub struct Info {
    /// Reset `render` and `build` at the top of every render.
    pub auto_reset: bool,
    /// Reset every frame: what was drawn.
    pub render: RenderCounts,
    /// Reset every frame: what was built or uploaded.
    pub build: BuildCounts,
    /// Not reset: what the renderer is holding.
    pub memory: MemoryCounts,
    /// Not reset: compute dispatches.
    pub compute: ComputeCounts,
}

impl ComputeCounts {
    /// No dispatches.
    pub fn new() -> (counts: Self)
        ensures
            counts.calls == 0,
    {
        ComputeCounts { calls: 0 }
    }
}

impl RenderCounts {
    /// Nothing drawn.
    pub fn new() -> (counts: Self)
        ensures
            counts == (RenderCounts { calls: 0, triangles: 0, points: 0, lines: 0 }),
    {
        RenderCounts { calls: 0, triangles: 0, points: 0, lines: 0 }
    }
}

/// Every field of `build`, summed.
pub open spec fn build_total(build: BuildCounts) -> int {
    build.programs_compiled + build.pipelines_built + build.geometries_uploaded
        + build.buffers_written + build.textures_uploaded + build.buffers_created
        + build.views_created + build.samplers_created + build.bind_groups_created
}

/// The empty build block.
pub open spec fn no_build() -> BuildCounts {
    BuildCounts {
        programs_compiled: 0,
        pipelines_built: 0,
        geometries_uploaded: 0,
        buffers_written: 0,
        textures_uploaded: 0,
        buffers_created: 0,
        views_created: 0,
        samplers_created: 0,
        bind_groups_created: 0,
    }
}

impl BuildCounts {
    /// Nothing built.
    pub fn new() -> (counts: Self)
        ensures
            counts == no_build(),
    {
        BuildCounts {
            programs_compiled: 0,
            pipelines_built: 0,
            geometries_uploaded: 0,
            buffers_written: 0,
            textures_uploaded: 0,
            buffers_created: 0,
            views_created: 0,
            samplers_created: 0,
            bind_groups_created: 0,
        }
    }

    /// Everything this frame built or uploaded. Zero is the steady frame.
    pub fn total(&self) -> (total: u64)
        requires
            build_total(*self) <= u64::MAX,
        ensures
            total == build_total(*self),
    {
        self.programs_compiled + self.pipelines_built + self.geometries_uploaded
            + self.buffers_written + self.textures_uploaded + self.buffers_created
            + self.views_created + self.samplers_created + self.bind_groups_created
    }
}

impl MemoryCounts {
    /// Nothing resident.
    pub fn new() -> (counts: Self)
        ensures
            counts == (MemoryCounts { geometries: 0, textures: 0, programs: 0 }),
    {
        MemoryCounts { geometries: 0, textures: 0, programs: 0 }
    }
}

/// How many primitives `elements` vertices or indices make, drawn
/// `instances` times.
pub open spec fn primitives(topology: Topology, elements: u32, instances: u32) -> int {
    match topology {
        Topology::TriangleList => (elements / 3) * instances,
        Topology::TriangleStrip => (if elements >= 2 { elements - 2 } else { 0 }) * instances,
        Topology::LineList => (elements / 2) * instances,
        Topology::LineStrip => (if elements >= 1 { elements - 1 } else { 0 }) * instances,
        Topology::PointList => elements * instances,
    }
}

/// `render` after one draw: one more call, and the primitives added to the
/// counter the topology feeds.
pub open spec fn after_draw(render: RenderCounts, topology: Topology, elements: u32, instances: u32) -> RenderCounts {
    let n = primitives(topology, elements, instances);
    let calls = (render.calls + 1) as u64;
    match topology {
        Topology::TriangleList | Topology::TriangleStrip => RenderCounts {
            calls,
            triangles: (render.triangles + n) as u64,
            ..render
        },
        Topology::LineList | Topology::LineStrip => RenderCounts {
            calls,
            lines: (render.lines + n) as u64,
            ..render
        },
        Topology::PointList => RenderCounts { calls, points: (render.points + n) as u64, ..render },
    }
}

/// Whether one more draw fits the counters.
pub open spec fn draw_fits(render: RenderCounts, topology: Topology, elements: u32, instances: u32) -> bool {
    let n = primitives(topology, elements, instances);
    &&& render.calls < u64::MAX
    &&& match topology {
        Topology::TriangleList | Topology::TriangleStrip => render.triangles + n <= u64::MAX,
        Topology::LineList | Topology::LineStrip => render.lines + n <= u64::MAX,
        Topology::PointList => render.points + n <= u64::MAX,
    }
}

impl Info {
    /// A renderer's counts at startup: all zero, auto-reset on.
    pub fn new() -> (info: Self)
        ensures
            info.auto_reset,
            info.render == (RenderCounts { calls: 0, triangles: 0, points: 0, lines: 0 }),
            info.build == no_build(),
            info.memory == (MemoryCounts { geometries: 0, textures: 0, programs: 0 }),
            info.compute.calls == 0,
    {
        Info {
            auto_reset: true,
            render: RenderCounts::new(),
            build: BuildCounts::new(),
            memory: MemoryCounts::new(),
            compute: ComputeCounts::new(),
        }
    }

    /// Clear the two per-frame blocks, leaving what is resident.
    pub fn reset(&mut self)
        ensures
            reset_step(*old(self), *final(self)),
    {
        self.render = RenderCounts::new();
        self.build = BuildCounts::new();
    }

    /// What the top of every render does to the counts: with auto-reset on,
    /// the draw and build blocks are cleared as by [`Info::reset`]; with it
    /// off (a frame of several renders that resets once itself), nothing
    /// changes.
    pub fn start_render(&mut self)
        ensures
            old(self).auto_reset ==> reset_step(*old(self), *final(self)),
            !old(self).auto_reset ==> *final(self) == *old(self),
    {
        if self.auto_reset {
            self.reset();
        }
    }

    /// One draw of `elements` vertices or indices, `instances` times.
    pub fn record_draw(&mut self, topology: Topology, elements: u32, instances: u32)
        requires
            draw_fits(old(self).render, topology, elements, instances),
        ensures
            final(self).render == after_draw(old(self).render, topology, elements, instances),
            final(self).build == old(self).build,
            final(self).memory == old(self).memory,
            final(self).compute == old(self).compute,
            final(self).auto_reset == old(self).auto_reset,
    {
        self.render.calls = self.render.calls + 1;
        let elements = elements as u64;
        let instances = instances as u64;
        assert(elements / 3 * instances <= elements * instances) by (nonlinear_arith);
        assert(elements / 2 * instances <= elements * instances) by (nonlinear_arith);
        assert(elements * instances <= 0xffff_ffff * 0xffff_ffff) by (nonlinear_arith)
            requires elements <= 0xffff_ffff, instances <= 0xffff_ffff;
        match topology {
            Topology::TriangleList => {
                self.render.triangles = self.render.triangles + elements / 3 * instances;
            },
            Topology::TriangleStrip => {
                assert(elements.saturating_sub(2) * instances <= elements * instances) by (nonlinear_arith)
                    requires elements.saturating_sub(2) <= elements;
                self.render.triangles = self.render.triangles + elements.saturating_sub(2) * instances;
            },
            Topology::LineList => {
                self.render.lines = self.render.lines + elements / 2 * instances;
            },
            Topology::LineStrip => {
                assert(elements.saturating_sub(1) * instances <= elements * instances) by (nonlinear_arith)
                    requires elements.saturating_sub(1) <= elements;
                self.render.lines = self.render.lines + elements.saturating_sub(1) * instances;
            },
            Topology::PointList => {
                self.render.points = self.render.points + elements * instances;
            },
        }
    }
}

/// The one-line summary of `info`: what was drawn, what was built and
/// created, and what is resident.
pub open spec fn info_line(info: Info) -> Seq<char> {
    "calls "@ + decimal(info.render.calls as nat) + " triangles "@ + decimal(info.render.triangles as nat)
        + " lines "@ + decimal(info.render.lines as nat) + " | programs "@
        + decimal(info.build.programs_compiled as nat) + " pipelines "@ + decimal(info.build.pipelines_built as nat)
        + " geometries "@ + decimal(info.build.geometries_uploaded as nat) + " buffers "@
        + decimal(info.build.buffers_written as nat) + " textures "@ + decimal(info.build.textures_uploaded as nat)
        + " | created "@ + decimal(info.build.buffers_created as nat) + " buffers "@
        + decimal(info.build.views_created as nat) + " views "@ + decimal(info.build.samplers_created as nat)
        + " samplers "@ + decimal(info.build.bind_groups_created as nat) + " bind groups | resident "@
        + decimal(info.memory.geometries as nat) + " geometries "@ + decimal(info.memory.textures as nat)
        + " textures "@ + decimal(info.memory.programs as nat) + " programs"@
}

impl Info {
    /// One line, as a harness or a film strip prints it.
    pub fn to_string(&self) -> (line: String)
        ensures
            line@ == info_line(*self),
    {
        let mut line = literal("calls ");
        line.append(decimal_text(self.render.calls).as_str());
        line.append(" triangles ");
        line.append(decimal_text(self.render.triangles).as_str());
        line.append(" lines ");
        line.append(decimal_text(self.render.lines).as_str());
        line.append(" | programs ");
        line.append(decimal_text(self.build.programs_compiled).as_str());
        line.append(" pipelines ");
        line.append(decimal_text(self.build.pipelines_built).as_str());
        line.append(" geometries ");
        line.append(decimal_text(self.build.geometries_uploaded).as_str());
        line.append(" buffers ");
        line.append(decimal_text(self.build.buffers_written).as_str());
        line.append(" textures ");
        line.append(decimal_text(self.build.textures_uploaded).as_str());
        line.append(" | created ");
        line.append(decimal_text(self.build.buffers_created).as_str());
        line.append(" buffers ");
        line.append(decimal_text(self.build.views_created).as_str());
        line.append(" views ");
        line.append(decimal_text(self.build.samplers_created).as_str());
        line.append(" samplers ");
        line.append(decimal_text(self.build.bind_groups_created).as_str());
        line.append(" bind groups | resident ");
        line.append(decimal_text(self.memory.geometries as u64).as_str());
        line.append(" geometries ");
        line.append(decimal_text(self.memory.textures as u64).as_str());
        line.append(" textures ");
        line.append(decimal_text(self.memory.programs as u64).as_str());
        line.append(" programs");
        assert(line@ =~= info_line(*self));
        line
    }
}

/// The summary line's pieces, in order: each label and each count.
spec fn summary_parts(info: Info) -> Seq<Seq<char>> {
    let r = info.render;
    let b = info.build;
    let m = info.memory;
    let d0 = decimal(r.calls as nat);
    let d1 = decimal(r.triangles as nat);
    let d2 = decimal(r.lines as nat);
    let d3 = decimal(b.programs_compiled as nat);
    let d4 = decimal(b.pipelines_built as nat);
    let d5 = decimal(b.geometries_uploaded as nat);
    let d6 = decimal(b.buffers_written as nat);
    let d7 = decimal(b.textures_uploaded as nat);
    let d8 = decimal(b.buffers_created as nat);
    let d9 = decimal(b.views_created as nat);
    let d10 = decimal(b.samplers_created as nat);
    let d11 = decimal(b.bind_groups_created as nat);
    let d12 = decimal(m.geometries as nat);
    let d13 = decimal(m.textures as nat);
    let d14 = decimal(m.programs as nat);
    let l0 = "calls "@;
    let l1 = " triangles "@;
    let l2 = " lines "@;
    let l3 = " | programs "@;
    let l4 = " pipelines "@;
    let l5 = " geometries "@;
    let l6 = " buffers "@;
    let l7 = " textures "@;
    let l8 = " | created "@;
    let l9 = " buffers "@;
    let l10 = " views "@;
    let l11 = " samplers "@;
    let l12 = " bind groups | resident "@;
    let l13 = " geometries "@;
    let l14 = " textures "@;
    let l15 = " programs"@;
    seq![l0, d0, l1, d1, l2, d2, l3, d3, l4, d4, l5, d5, l6, d6, l7, d7, l8, d8, l9, d9, l10, d10, l11, d11, l12, d12, l13, d13, l14, d14, l15]
}

/// The summary line is its pieces joined.
proof fn lemma_summary_parts(info: Info)
    ensures
        info_line(info) == joined(summary_parts(info), 31),
{
    reveal_with_fuel(joined, 32);
    assert(info_line(info) =~= joined(summary_parts(info), 31));
}

/// The summary line prints each count after its own label: the draw counts
/// after "calls", "triangles" and "lines"; the build counts after
/// "programs", "pipelines", "geometries", "buffers" and "textures"; the
/// created counts before "buffers", "views", "samplers" and "bind groups";
/// the resident counts before "geometries", "textures" and "programs". It
/// starts with the call count and ends with the resident program count.
#[verifier::spinoff_prover]
#[verifier::rlimit(50)]
pub proof fn the_summary_prints_each_count_by_its_label(info: Info)
    ensures
        ({
            let line = info_line(info);
            let r = info.render;
            let b = info.build;
            let m = info.memory;
            &&& exists|rest: Seq<char>| line == "calls "@ + decimal(r.calls as nat) + " triangles "@ + rest
            &&& shows(line, " triangles "@ + decimal(r.triangles as nat) + " lines "@)
            &&& shows(line, " lines "@ + decimal(r.lines as nat) + " | programs "@)
            &&& shows(line, " | programs "@ + decimal(b.programs_compiled as nat) + " pipelines "@)
            &&& shows(line, " pipelines "@ + decimal(b.pipelines_built as nat) + " geometries "@)
            &&& shows(line, " pipelines "@ + decimal(b.pipelines_built as nat) + " geometries "@ + decimal(
                b.geometries_uploaded as nat,
            ) + " buffers "@)
            &&& shows(line, " geometries "@ + decimal(b.geometries_uploaded as nat) + " buffers "@ + decimal(
                b.buffers_written as nat,
            ) + " textures "@)
            &&& shows(line, " textures "@ + decimal(b.textures_uploaded as nat) + " | created "@)
            &&& shows(line, " | created "@ + decimal(b.buffers_created as nat) + " buffers "@)
            &&& shows(line, " buffers "@ + decimal(b.views_created as nat) + " views "@)
            &&& shows(line, " views "@ + decimal(b.samplers_created as nat) + " samplers "@)
            &&& shows(line, " samplers "@ + decimal(b.bind_groups_created as nat) + " bind groups | resident "@)
            &&& shows(line, " bind groups | resident "@ + decimal(m.geometries as nat) + " geometries "@)
            &&& shows(line, " bind groups | resident "@ + decimal(m.geometries as nat) + " geometries "@ + decimal(
                m.textures as nat,
            ) + " textures "@)
            &&& exists|start: Seq<char>| line == start + " textures "@ + decimal(m.programs as nat) + " programs"@
        }),
{
    let r = info.render;
    let b = info.build;
    let m = info.memory;
    let d0 = decimal(r.calls as nat);
    let d1 = decimal(r.triangles as nat);
    let d2 = decimal(r.lines as nat);
    let d3 = decimal(b.programs_compiled as nat);
    let d4 = decimal(b.pipelines_built as nat);
    let d5 = decimal(b.geometries_uploaded as nat);
    let d6 = decimal(b.buffers_written as nat);
    let d7 = decimal(b.textures_uploaded as nat);
    let d8 = decimal(b.buffers_created as nat);
    let d9 = decimal(b.views_created as nat);
    let d10 = decimal(b.samplers_created as nat);
    let d11 = decimal(b.bind_groups_created as nat);
    let d12 = decimal(m.geometries as nat);
    let d13 = decimal(m.textures as nat);
    let d14 = decimal(m.programs as nat);
    let l0 = "calls "@;
    let l1 = " triangles "@;
    let l2 = " lines "@;
    let l3 = " | programs "@;
    let l4 = " pipelines "@;
    let l5 = " geometries "@;
    let l6 = " buffers "@;
    let l7 = " textures "@;
    let l8 = " | created "@;
    let l9 = " buffers "@;
    let l10 = " views "@;
    let l11 = " samplers "@;
    let l12 = " bind groups | resident "@;
    let l13 = " geometries "@;
    let l14 = " textures "@;
    let l15 = " programs"@;
    let parts = summary_parts(info);
    let line = info_line(info);
    lemma_summary_parts(info);
    reveal_with_fuel(joined, 6);
    lemma_joined_window(parts, 2, 5, 31);
    assert(joined(parts.subrange(2, 5), 3) =~= l1 + d1 + l2);
    lemma_joined_window(parts, 4, 7, 31);
    assert(joined(parts.subrange(4, 7), 3) =~= l2 + d2 + l3);
    lemma_joined_window(parts, 6, 9, 31);
    assert(joined(parts.subrange(6, 9), 3) =~= l3 + d3 + l4);
    lemma_joined_window(parts, 8, 11, 31);
    assert(joined(parts.subrange(8, 11), 3) =~= l4 + d4 + l5);
    lemma_joined_window(parts, 8, 13, 31);
    assert(joined(parts.subrange(8, 13), 5) =~= l4 + d4 + l5 + d5 + l6);
    lemma_joined_window(parts, 10, 15, 31);
    assert(joined(parts.subrange(10, 15), 5) =~= l5 + d5 + l6 + d6 + l7);
    lemma_joined_window(parts, 14, 17, 31);
    assert(joined(parts.subrange(14, 17), 3) =~= l7 + d7 + l8);
    lemma_joined_window(parts, 16, 19, 31);
    assert(joined(parts.subrange(16, 19), 3) =~= l8 + d8 + l9);
    lemma_joined_window(parts, 18, 21, 31);
    assert(joined(parts.subrange(18, 21), 3) =~= l9 + d9 + l10);
    lemma_joined_window(parts, 20, 23, 31);
    assert(joined(parts.subrange(20, 23), 3) =~= l10 + d10 + l11);
    lemma_joined_window(parts, 22, 25, 31);
    assert(joined(parts.subrange(22, 25), 3) =~= l11 + d11 + l12);
    lemma_joined_window(parts, 24, 27, 31);
    assert(joined(parts.subrange(24, 27), 3) =~= l12 + d12 + l13);
    lemma_joined_window(parts, 24, 29, 31);
    assert(joined(parts.subrange(24, 29), 5) =~= l12 + d12 + l13 + d13 + l14);
    lemma_joined_window(parts, 0, 3, 31);
    lemma_joined_window(parts, 0, 3, 31);
    assert(joined(parts.subrange(0, 3), 3) =~= l0 + d0 + l1);
    let rest = joined(parts.subrange(3, 31), 28);
    assert(line =~= l0 + d0 + l1 + rest);
    lemma_joined_window(parts, 28, 31, 31);
    lemma_joined_window(parts, 28, 31, 31);
    assert(joined(parts.subrange(28, 31), 3) =~= l14 + d14 + l15);
    let start = joined(parts, 28);
    lemma_joined_window(parts, 31, 31, 31);
    assert(joined(parts.subrange(31, 31), 0) =~= Seq::<char>::empty());
    assert(line =~= start + l14 + d14 + l15);
}

/// What [`Info::reset`] does: clear the draw and build blocks, keep the
/// resident counts, the compute count and the auto-reset switch.
pub open spec fn reset_step(before: Info, after: Info) -> bool {
    &&& after.render == (RenderCounts { calls: 0, triangles: 0, points: 0, lines: 0 })
    &&& after.build == no_build()
    &&& after.memory == before.memory
    &&& after.compute == before.compute
    &&& after.auto_reset == before.auto_reset
}

/// Right after a reset the frame has built nothing and drawn nothing,
/// whatever the frames before did, and the resident counts are untouched.
pub proof fn a_reset_frame_has_built_nothing(before: Info, after: Info)
    requires
        reset_step(before, after),
    ensures
        build_total(after.build) == 0,
        after.render.calls == 0,
        after.memory == before.memory,
{
}

/// Drawing never counts as building: a frame that only draws after a reset
/// still has an empty build block.
pub proof fn drawing_builds_nothing(before: Info, after: Info, topology: Topology, elements: u32, instances: u32)
    requires
        draw_fits(before.render, topology, elements, instances),
        after.render == after_draw(before.render, topology, elements, instances),
        after.build == before.build,
        before.build == no_build(),
    ensures
        build_total(after.build) == 0,
{
}

/// A draw counts one call and feeds only the counter of its own kind of
/// primitive: a triangle draw leaves the line and point counts alone, a line
/// draw the triangle and point counts, a point draw the triangle and line
/// counts. One instance of a list of `3 * k` vertices adds `k` triangles
/// (`2 * k` vertices: `k` lines), of a strip of `k + 2` vertices `k`
/// triangles (`k + 1` vertices: `k` lines), and each vertex of a point list
/// is a point; `n` instances count `n` times as much.
pub proof fn a_draw_counts_only_its_own_primitives(
    render: RenderCounts,
    topology: Topology,
    elements: u32,
    instances: u32,
)
    requires
        draw_fits(render, topology, elements, instances),
    ensures
        ({
            let after = after_draw(render, topology, elements, instances);
            &&& after.calls == render.calls + 1
            &&& (topology == Topology::TriangleList || topology == Topology::TriangleStrip) ==> after.lines
                == render.lines && after.points == render.points && after.triangles >= render.triangles
            &&& (topology == Topology::LineList || topology == Topology::LineStrip) ==> after.triangles
                == render.triangles && after.points == render.points && after.lines >= render.lines
            &&& topology == Topology::PointList ==> after.triangles == render.triangles && after.lines
                == render.lines && after.points == render.points + elements as int * instances as int
            &&& topology == Topology::TriangleList && elements % 3 == 0 ==> after.triangles == render.triangles
                + (elements / 3) * instances
            &&& topology == Topology::TriangleStrip && elements >= 2 ==> after.triangles == render.triangles
                + (elements - 2) * instances
            &&& topology == Topology::LineList && elements % 2 == 0 ==> after.lines == render.lines + (elements / 2)
                * instances
            &&& topology == Topology::LineStrip && elements >= 1 ==> after.lines == render.lines + (elements - 1)
                * instances
        }),
{
    draws_only_add(render, topology, elements, instances);
}

/// A draw only ever adds: no counter of `render` goes down, and the build
/// block it leaves alone.
pub proof fn draws_only_add(render: RenderCounts, topology: Topology, elements: u32, instances: u32)
    requires
        draw_fits(render, topology, elements, instances),
    ensures
        after_draw(render, topology, elements, instances).calls == render.calls + 1,
        after_draw(render, topology, elements, instances).triangles >= render.triangles,
        after_draw(render, topology, elements, instances).lines >= render.lines,
        after_draw(render, topology, elements, instances).points >= render.points,
{
    assert(primitives(topology, elements, instances) >= 0) by (nonlinear_arith)
        requires
            primitives(topology, elements, instances) == match topology {
                Topology::TriangleList => (elements / 3) * instances,
                Topology::TriangleStrip => (if elements >= 2 { elements - 2 } else { 0 }) * instances,
                Topology::LineList => (elements / 2) * instances,
                Topology::LineStrip => (if elements >= 1 { elements - 1 } else { 0 }) * instances,
                Topology::PointList => elements * instances,
            };
}

} // verus!
