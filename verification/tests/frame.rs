use three_rs::frame::{
    scene_clear, ClearColorSource, SceneClear,
    canvas_plan, clear_plan, current_samples, mipmap_passes, storage_stride, CanvasPlan, ClearPlan, ClearTarget, MipmapPass,
    Rect,
};

#[test]
fn a_rectangle_is_clamped_into_its_target() {
    assert_eq!(Rect::clamped(10, 20, 30, 40, 100, 100), Rect { x: 10, y: 20, width: 30, height: 40 });
    assert_eq!(Rect::clamped(90, 95, 30, 40, 100, 100), Rect { x: 90, y: 95, width: 10, height: 5 });
    assert_eq!(Rect::clamped(150, 10, 30, 40, 100, 100), Rect { x: 100, y: 10, width: 0, height: 40 });
    assert_eq!(Rect::full(64, 32), Rect { x: 0, y: 0, width: 64, height: 32 });
}

#[test]
fn a_clear_lands_where_the_frame_goes() {
    assert_eq!(
        clear_plan(true, false, true, true),
        ClearPlan { target: ClearTarget::FrameBuffer, color: true, depth: true, then_output: true }
    );
    assert_eq!(
        clear_plan(true, true, false, true),
        ClearPlan { target: ClearTarget::RenderTarget, color: false, depth: true, then_output: false }
    );
    assert_eq!(
        clear_plan(false, false, true, false),
        ClearPlan { target: ClearTarget::Canvas, color: true, depth: false, then_output: false }
    );
}

#[test]
fn the_canvas_is_single_sampled_behind_the_framebuffer_target() {
    assert_eq!(current_samples(Some(4), true, true, 1), 4);
    assert_eq!(current_samples(None, true, false, 4), 0);
    assert_eq!(current_samples(None, false, true, 4), 0);
    assert_eq!(current_samples(None, false, false, 4), 4);
}

#[test]
fn a_vec3_is_padded_to_sixteen_bytes() {
    assert_eq!(storage_stride(1), 4);
    assert_eq!(storage_stride(2), 8);
    assert_eq!(storage_stride(3), 16);
    assert_eq!(storage_stride(4), 16);
    assert_eq!(storage_stride(16), 64);
}

#[test]
fn the_canvas_is_made_again_only_when_it_no_longer_fits() {
    assert_eq!(canvas_plan(None, 800, 500, 4, true), CanvasPlan::Create { msaa: true, depth: true });
    assert_eq!(canvas_plan(Some((800, 500, 4, true)), 800, 500, 4, true), CanvasPlan::Keep);
    assert_eq!(canvas_plan(Some((800, 500, 1, false)), 800, 500, 1, true), CanvasPlan::AddDepth);
    assert_eq!(canvas_plan(Some((800, 500, 1, false)), 800, 500, 1, false), CanvasPlan::Keep);
    assert_eq!(canvas_plan(Some((800, 500, 4, true)), 400, 500, 4, false), CanvasPlan::Create { msaa: true, depth: false });
    assert_eq!(canvas_plan(Some((800, 500, 4, true)), 800, 500, 1, false), CanvasPlan::Create { msaa: false, depth: false });
}

#[test]
fn mip_levels_are_filled_level_by_level() {
    let passes = mipmap_passes(3, 2);
    assert_eq!(
        passes,
        vec![
            MipmapPass { target: 1, layer: 0 },
            MipmapPass { target: 1, layer: 1 },
            MipmapPass { target: 2, layer: 0 },
            MipmapPass { target: 2, layer: 1 },
        ]
    );
    assert_eq!(mipmap_passes(1, 6).len(), 0);
    assert_eq!(mipmap_passes(9, 6).len(), 48);
    assert_eq!(mipmap_passes(0, 1).len(), 0);
}

#[test]
fn a_colour_background_forces_the_clear() {
    assert_eq!(
        scene_clear(true, false, true, true),
        SceneClear { color: Some(ClearColorSource::Background), depth: true }
    );
    assert_eq!(
        scene_clear(false, true, true, false),
        SceneClear { color: Some(ClearColorSource::Renderer), depth: false }
    );
    assert_eq!(scene_clear(false, false, true, true), SceneClear { color: None, depth: false });
    assert_eq!(scene_clear(true, true, false, true), SceneClear { color: None, depth: true });
}
