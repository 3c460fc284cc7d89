use three_rs::info::{BuildCounts, Info, Topology};

#[test]
fn a_draw_counts_its_primitives_times_its_instances() {
    let mut info = Info::new();
    assert!(info.auto_reset);
    info.record_draw(Topology::TriangleList, 36, 2);
    assert_eq!(info.render.calls, 1);
    assert_eq!(info.render.triangles, 24);
    info.record_draw(Topology::TriangleStrip, 4, 3);
    assert_eq!(info.render.triangles, 30);
    info.record_draw(Topology::TriangleStrip, 1, 3);
    assert_eq!(info.render.triangles, 30);
    info.record_draw(Topology::LineList, 5, 1);
    assert_eq!(info.render.lines, 2);
    info.record_draw(Topology::LineStrip, 5, 2);
    assert_eq!(info.render.lines, 10);
    info.record_draw(Topology::LineStrip, 0, 2);
    assert_eq!(info.render.lines, 10);
    info.record_draw(Topology::PointList, 7, 3);
    assert_eq!(info.render.points, 21);
    assert_eq!(info.render.calls, 7);
    assert_eq!(info.build.total(), 0);
}

#[test]
fn a_reset_clears_the_frame_and_keeps_what_is_resident() {
    let mut info = Info::new();
    info.record_draw(Topology::TriangleList, 3, 1);
    info.build.programs_compiled = 2;
    info.build.bind_groups_created = 5;
    info.memory.programs = 2;
    info.compute.calls = 9;
    info.auto_reset = false;
    assert_eq!(info.build.total(), 7);
    info.reset();
    assert_eq!(info.render.calls, 0);
    assert_eq!(info.render.triangles, 0);
    assert_eq!(info.build.total(), 0);
    assert_eq!(info.memory.programs, 2);
    assert_eq!(info.compute.calls, 9);
    assert!(!info.auto_reset);
}

#[test]
fn the_build_total_sums_every_field() {
    let build = BuildCounts {
        programs_compiled: 1,
        pipelines_built: 2,
        geometries_uploaded: 3,
        buffers_written: 4,
        textures_uploaded: 5,
        buffers_created: 6,
        views_created: 7,
        samplers_created: 8,
        bind_groups_created: 9,
    };
    assert_eq!(build.total(), 45);
    assert_eq!(BuildCounts::new().total(), 0);
}

#[test]
fn the_counts_print_on_one_line() {
    let mut info = Info::new();
    info.record_draw(Topology::TriangleList, 6, 1);
    info.build.programs_compiled = 1;
    info.build.bind_groups_created = 12;
    info.memory.geometries = 3;
    assert_eq!(
        info.to_string(),
        "calls 1 triangles 2 lines 0 | programs 1 pipelines 0 geometries 0 buffers 0 textures 0 \
         | created 0 buffers 0 views 0 samplers 12 bind groups | resident 3 geometries 0 textures 0 programs"
    );
}

#[test]
fn a_render_resets_the_frame_counts_only_with_auto_reset_on() {
    let mut info = Info::new();
    info.record_draw(Topology::TriangleList, 3, 1);
    info.build.programs_compiled = 2;
    info.memory.textures = 5;
    let mut composed = info;
    info.start_render();
    assert_eq!(info.render.calls, 0);
    assert_eq!(info.build, BuildCounts::new());
    assert_eq!(info.memory.textures, 5);

    composed.auto_reset = false;
    let before = composed;
    composed.start_render();
    assert_eq!(composed, before);
}
