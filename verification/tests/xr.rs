use terrarium::xr_session::{
    session_event_step, views_supported, waits_for_frame, xr_redraw_plan, XrEventAction,
    XrRuntimeEvent, XrViewConfig,
};
use terrarium::xr::{
    hand_input_key, input_action_name, input_action_path, XrControllerProfile, XrHand, XrInputKind,
};

#[test]
fn profile_from_system_name() {
    assert_eq!(XrControllerProfile::from_system_name("Oculus Quest2"), XrControllerProfile::Oculus);
    assert_eq!(XrControllerProfile::from_system_name("HTC Vive Pro"), XrControllerProfile::Vive);
    assert_eq!(XrControllerProfile::from_system_name("Valve Index"), XrControllerProfile::Valve);
    assert_eq!(XrControllerProfile::from_system_name("Monado"), XrControllerProfile::KhronosSimple);
    assert_eq!(XrControllerProfile::from_system_name(""), XrControllerProfile::KhronosSimple);
    assert_eq!(XrControllerProfile::from_system_name("oculus"), XrControllerProfile::KhronosSimple);
    assert_eq!(XrControllerProfile::from_system_name("Vive by Oculus"), XrControllerProfile::Oculus);
    assert_eq!(XrControllerProfile::from_system_name("Valve Vive"), XrControllerProfile::Vive);
}

#[test]
fn interaction_profile_paths() {
    assert_eq!(
        XrControllerProfile::Oculus.interaction_profile_path(),
        "/interaction_profiles/oculus/touch_controller"
    );
    assert_eq!(
        XrControllerProfile::Vive.interaction_profile_path(),
        "/interaction_profiles/htc/vive_controller"
    );
    assert_eq!(
        XrControllerProfile::Valve.interaction_profile_path(),
        "/interaction_profiles/valve/index_controller"
    );
    assert_eq!(
        XrControllerProfile::KhronosSimple.interaction_profile_path(),
        "/interaction_profiles/khr/simple_controller"
    );
}

#[test]
fn hand_names() {
    assert_eq!(XrHand::Left.name(), "left");
    assert_eq!(XrHand::Right.name(), "right");
}

#[test]
fn input_bindings_per_profile() {
    let left = XrControllerProfile::Oculus.input_bindings(XrHand::Left);
    let right = XrControllerProfile::Oculus.input_bindings(XrHand::Right);
    assert_eq!(left.len(), 12);
    assert_eq!(right.len(), 12);
    assert_eq!(left[0].kind, XrInputKind::Analog2d);
    assert_eq!(left[0].input_path, "thumbstick");
    assert_eq!(left[7].input_path, "menu/click");
    assert_eq!(right[7].input_path, "system/click");
    assert_eq!(right[11].input_path, "b/touch");
    assert_eq!(XrControllerProfile::Vive.input_bindings(XrHand::Left).len(), 10);
    let valve = XrControllerProfile::Valve.input_bindings(XrHand::Right);
    assert_eq!(valve.len(), 19);
    assert_eq!(valve[16].kind, XrInputKind::Analog);
    assert_eq!(valve[16].input_path, "trackpad/force");
    let khr = XrControllerProfile::KhronosSimple.input_bindings(XrHand::Left);
    let paths: Vec<&str> = khr.iter().map(|b| b.input_path).collect();
    assert_eq!(paths, vec!["menu/click", "system/click", "grip/pose", "aim/pose"]);
    assert_eq!(khr[3].kind, XrInputKind::Pose);
}

#[test]
fn action_paths_and_names() {
    assert_eq!(input_action_path(XrHand::Left, "grip/pose"), "/user/hand/left/input/grip/pose");
    assert_eq!(input_action_name(XrHand::Right, "thumbstick/click"), "right_thumbstick_click");
    assert_eq!(input_action_name(XrHand::Left, "trackpad"), "left_trackpad");
    assert_eq!(hand_input_key(XrHand::Left, "/input/x/click"), "/user/hand/left/input/x/click");
}

#[test]
fn session_events_begin_and_end_the_session() {
    assert_eq!(session_event_step(false, XrRuntimeEvent::SessionReady), (XrEventAction::BeginSession, true));
    assert_eq!(session_event_step(true, XrRuntimeEvent::SessionStopping), (XrEventAction::EndSession, false));
    assert_eq!(session_event_step(true, XrRuntimeEvent::SessionExiting), (XrEventAction::NoFrame, true));
    assert_eq!(session_event_step(false, XrRuntimeEvent::SessionLossPending), (XrEventAction::NoFrame, false));
    assert_eq!(session_event_step(true, XrRuntimeEvent::InstanceLossPending), (XrEventAction::NoFrame, true));
    assert_eq!(session_event_step(true, XrRuntimeEvent::SessionOtherState), (XrEventAction::Continue, true));
    assert_eq!(session_event_step(false, XrRuntimeEvent::Other), (XrEventAction::Continue, false));

    assert!(!waits_for_frame(false, &[]));
    assert!(waits_for_frame(true, &[]));
    assert!(waits_for_frame(false, &[XrRuntimeEvent::SessionReady, XrRuntimeEvent::Other]));
    assert!(!waits_for_frame(true, &[XrRuntimeEvent::SessionStopping]));
    assert!(!waits_for_frame(true, &[XrRuntimeEvent::SessionReady, XrRuntimeEvent::SessionExiting]));
    assert!(!waits_for_frame(false, &[XrRuntimeEvent::InstanceLossPending, XrRuntimeEvent::SessionReady]));
}

#[test]
fn runtimes_must_offer_two_identical_views() {
    let v = XrViewConfig {
        recommended_image_rect_width: 1832,
        max_image_rect_width: 4096,
        recommended_image_rect_height: 1920,
        max_image_rect_height: 4096,
        recommended_swapchain_sample_count: 1,
        max_swapchain_sample_count: 4,
    };
    let mut w = v;
    w.recommended_image_rect_width = 1000;
    assert!(views_supported(&[v, v]));
    assert!(!views_supported(&[v, w]));
    assert!(!views_supported(&[v]));
    assert!(!views_supported(&[v, v, v]));
    assert!(!views_supported(&[]));
}

#[test]
fn redraws_use_xr_only_for_handed_out_frames() {
    let p = xr_redraw_plan(true, false, true);
    assert!(p.wait_frame && p.post_frame && p.camera_from_views && p.submit_views && p.present);
    let p = xr_redraw_plan(true, false, false);
    assert!(p.wait_frame && !p.post_frame && !p.camera_from_views && !p.submit_views && p.present);
    let p = xr_redraw_plan(true, true, true);
    assert!(!p.wait_frame && !p.post_frame && !p.camera_from_views && !p.submit_views && !p.present);
    let p = xr_redraw_plan(false, false, true);
    assert!(!p.wait_frame && !p.post_frame && !p.camera_from_views && !p.submit_views && p.present);
}
