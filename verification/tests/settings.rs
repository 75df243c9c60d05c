use terrarium::app_loop::AppLoopHandlerCreateDesc;
use terrarium::frame_plan::{plan_frame, RenderToggles};
use terrarium::frame_plan::RenderStep::{
    BuildFrustum, Bloom, Blit, ClearLighting, ClearReflection, ColorCorrection, DebugLines,
    EndFrame, Gizmo, LtcCull, LtcLighting, MirrorReflection, RtGbuffer, Shade, Taa,
    UpdateGpuResources,
};
use terrarium::shade_pass::ShadingMode;

#[test]
fn shading_mode_codes_and_names() {
    let modes = [
        (ShadingMode::Full, 0, "Full"),
        (ShadingMode::LightingOnly, 1, "Lighting Only"),
        (ShadingMode::Albedo, 2, "Albedo"),
        (ShadingMode::Normals, 3, "Normals"),
        (ShadingMode::Texcoords, 4, "Texcoords"),
        (ShadingMode::Emission, 5, "Emission"),
        (ShadingMode::Velocity, 6, "Velocity"),
        (ShadingMode::Fog, 7, "Fog"),
        (ShadingMode::SimpleLighting, 8, "Simple Lighting"),
    ];
    for (mode, code, name) in modes {
        assert_eq!(mode.code(), code);
        assert_eq!(mode.name(), name);
        assert_eq!(mode.to_string(), name);
    }
    assert_eq!(ShadingMode::default(), ShadingMode::Full);
}

#[test]
fn app_loop_create_desc_default() {
    let d = AppLoopHandlerCreateDesc::default();
    assert_eq!(d.title, "Terrarium");
    assert_eq!((d.width, d.height), (1920, 1080));
    assert!(!d.resizeable && !d.maximized && !d.no_gpu_validation);
}

#[test]
fn frame_plan_with_everything_enabled() {
    let t = RenderToggles {
        enable_lighting: true,
        enable_reflections: true,
        enable_taa: true,
        enable_bloom: true,
        enable_debug_lines: true,
        draw_gizmo: true,
    };
    let p = plan_frame(&t, 7);
    assert_eq!(
        p.steps,
        vec![
            UpdateGpuResources, RtGbuffer, BuildFrustum, LtcCull, LtcLighting, MirrorReflection,
            Shade, Taa, Blit, Bloom, DebugLines, Gizmo, ColorCorrection, EndFrame
        ]
    );
    assert_eq!((p.shading_slot, p.prev_shading_slot), (1, 0));
}

#[test]
fn frame_plan_with_everything_disabled() {
    let t = RenderToggles {
        enable_lighting: false,
        enable_reflections: false,
        enable_taa: false,
        enable_bloom: false,
        enable_debug_lines: false,
        draw_gizmo: false,
    };
    let p = plan_frame(&t, 4);
    assert_eq!(
        p.steps,
        vec![
            UpdateGpuResources, RtGbuffer, BuildFrustum, LtcCull, ClearLighting, ClearReflection,
            Shade, Blit, ColorCorrection, EndFrame
        ]
    );
    assert_eq!((p.shading_slot, p.prev_shading_slot), (0, 1));
    let q = plan_frame(&t, u32::MAX);
    assert_eq!((q.shading_slot, q.prev_shading_slot), (1, 0));
}

use terrarium::app_loop::{is_minimized, next_frame_idx, window_event_action, WindowEventAction, WindowEventKind};

#[test]
fn window_events_decide_actions() {
    assert_eq!(window_event_action(false, 800, 600, WindowEventKind::CloseRequested), WindowEventAction::Exit);
    assert_eq!(
        window_event_action(true, 800, 600, WindowEventKind::RedrawRequested),
        WindowEventAction::Redraw { render: true }
    );
    assert_eq!(
        window_event_action(true, 1, 600, WindowEventKind::RedrawRequested),
        WindowEventAction::Redraw { render: false }
    );
    assert_eq!(window_event_action(false, 800, 600, WindowEventKind::RedrawRequested), WindowEventAction::Ignore);
    assert_eq!(
        window_event_action(true, 800, 600, WindowEventKind::Resized { width: 0, height: 720 }),
        WindowEventAction::Resize { width: 1, height: 720 }
    );
    assert_eq!(
        window_event_action(false, 800, 600, WindowEventKind::Resized { width: 5, height: 5 }),
        WindowEventAction::Ignore
    );
    assert_eq!(window_event_action(true, 800, 600, WindowEventKind::Other), WindowEventAction::Ignore);
    assert!(is_minimized(800, 1));
    assert!(!is_minimized(2, 2));
    assert_eq!(next_frame_idx(4, WindowEventKind::RedrawRequested), 5);
    assert_eq!(next_frame_idx(4, WindowEventKind::Other), 4);
    assert_eq!(next_frame_idx(u32::MAX, WindowEventKind::RedrawRequested), 0);
}

use terrarium::frame_plan::Renderer;

#[test]
fn renderer_counts_frames_and_alternates_targets() {
    let t = RenderToggles {
        enable_lighting: true,
        enable_reflections: false,
        enable_taa: true,
        enable_bloom: false,
        enable_debug_lines: false,
        draw_gizmo: false,
    };
    let mut r = Renderer::new();
    assert_eq!(r.frame_idx(), 0);
    let p0 = r.render(&t);
    assert_eq!(r.frame_idx(), 1);
    let p1 = r.render(&t);
    assert_eq!(r.frame_idx(), 2);
    assert_eq!((p0.shading_slot, p0.prev_shading_slot), (0, 1));
    assert_eq!((p1.shading_slot, p1.prev_shading_slot), (1, 0));
    assert_eq!(p0.steps, plan_frame(&t, 0).steps);
}
