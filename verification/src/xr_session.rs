//! What the XR frame loop does with each event the runtime reports before a frame, which views
//! a runtime must offer, and what a redraw does with the XR session.
//!
//! The loop polls events one by one; each event may begin or end the session, or end the
//! polling with no frame to render.  Once the queue is empty a frame is waited for only while
//! the session runs.
use vstd::prelude::*;

verus! {

/// An event from the XR runtime, as far as the frame loop tells them apart.
#[derive(Debug, Clone, Copy, PartialEq, Eq, Structural)]
pub enum XrRuntimeEvent {
    /// The session state became `READY`.
    SessionReady,
    /// The session state became `STOPPING`.
    SessionStopping,
    /// The session state became `EXITING`.
    SessionExiting,
    /// The session state became `LOSS_PENDING`.
    SessionLossPending,
    /// The session state became another state.
    SessionOtherState,
    /// The instance is about to be lost.
    InstanceLossPending,
    /// Any other event.
    Other,
}

/// What the loop does for one event.
#[derive(Debug, Clone, Copy, PartialEq, Eq, Structural)]
pub enum XrEventAction {
    /// Begin the session, which then runs.
    BeginSession,
    /// End the session, which then no longer runs.
    EndSession,
    /// Stop polling: there is no frame this time.
    NoFrame,
    /// Nothing; poll the next event.
    Continue,
}

/// The action an event calls for.
pub open spec fn spec_event_action(event: XrRuntimeEvent) -> XrEventAction {
    match event {
        XrRuntimeEvent::SessionReady => XrEventAction::BeginSession,
        XrRuntimeEvent::SessionStopping => XrEventAction::EndSession,
        XrRuntimeEvent::SessionExiting => XrEventAction::NoFrame,
        XrRuntimeEvent::SessionLossPending => XrEventAction::NoFrame,
        XrRuntimeEvent::InstanceLossPending => XrEventAction::NoFrame,
        XrRuntimeEvent::SessionOtherState => XrEventAction::Continue,
        XrRuntimeEvent::Other => XrEventAction::Continue,
    }
}

/// Whether the session runs after `action`, given whether it ran before.
pub open spec fn spec_running_after(running: bool, action: XrEventAction) -> bool {
    match action {
        XrEventAction::BeginSession => true,
        XrEventAction::EndSession => false,
        _ => running,
    }
}

/// The action for `event`, and whether the session runs once it is done.
pub fn session_event_step(running: bool, event: XrRuntimeEvent) -> (r: (XrEventAction, bool))
    ensures
        r.0 == spec_event_action(event),
        r.1 == spec_running_after(running, r.0),
{
    let action = match event {
        XrRuntimeEvent::SessionReady => XrEventAction::BeginSession,
        XrRuntimeEvent::SessionStopping => XrEventAction::EndSession,
        XrRuntimeEvent::SessionExiting => XrEventAction::NoFrame,
        XrRuntimeEvent::SessionLossPending => XrEventAction::NoFrame,
        XrRuntimeEvent::InstanceLossPending => XrEventAction::NoFrame,
        XrRuntimeEvent::SessionOtherState => XrEventAction::Continue,
        XrRuntimeEvent::Other => XrEventAction::Continue,
    };
    let now_running = match action {
        XrEventAction::BeginSession => true,
        XrEventAction::EndSession => false,
        _ => running,
    };
    (action, now_running)
}

/// Where polling a queue of events ends: `Some(running)` when the queue ran dry with the session
/// running or not, `None` when an event stopped the polling with no frame.
pub open spec fn spec_poll_events(running: bool, events: Seq<XrRuntimeEvent>) -> Option<bool>
    decreases events.len(),
{
    if events.len() == 0 {
        Some(running)
    } else {
        let action = spec_event_action(events[0]);
        if action == XrEventAction::NoFrame {
            None
        } else {
            spec_poll_events(spec_running_after(running, action), events.drop_first())
        }
    }
}

/// Whether a frame is waited for after polling `events`, starting from `running`: only when no
/// event stopped the polling and the session runs at the end.
pub open spec fn spec_waits_for_frame(running: bool, events: Seq<XrRuntimeEvent>) -> bool {
    spec_poll_events(running, events) == Some(true)
}

/// Polls `events` in order, as the frame loop does, and says whether a frame is then waited for.
pub fn waits_for_frame(running: bool, events: &[XrRuntimeEvent]) -> (r: bool)
    ensures
        r == spec_waits_for_frame(running, events@),
{
    let mut now_running = running;
    let mut i: usize = 0;
    proof {
        assert(events@.subrange(0, events@.len() as int) =~= events@);
    }
    while i < events.len()
        invariant
            i <= events@.len(),
            spec_poll_events(running, events@) == spec_poll_events(
                now_running,
                events@.subrange(i as int, events@.len() as int),
            ),
        decreases events@.len() - i,
    {
        let ghost rest = events@.subrange(i as int, events@.len() as int);
        let (action, next) = session_event_step(now_running, events[i]);
        proof {
            assert(rest[0] == events@[i as int]);
            assert(rest.drop_first() =~= events@.subrange(i + 1, events@.len() as int));
        }
        if action == XrEventAction::NoFrame {
            return false;
        }
        now_running = next;
        i = i + 1;
    }
    proof {
        assert(events@.subrange(i as int, events@.len() as int) =~= Seq::<XrRuntimeEvent>::empty());
    }
    now_running
}

/// A `READY` event that no later event undoes leaves a frame to wait for: once the session
/// begins, polling ends with it running unless a later event stops or ends it.
pub proof fn lemma_ready_then_quiet_waits(running: bool, quiet: Seq<XrRuntimeEvent>)
    requires
        forall|i: int| 0 <= i < quiet.len() ==> #[trigger] spec_event_action(quiet[i]) == XrEventAction::Continue,
    ensures
        spec_waits_for_frame(running, seq![XrRuntimeEvent::SessionReady] + quiet),
{
    lemma_quiet_events_keep_state(true, quiet);
    assert((seq![XrRuntimeEvent::SessionReady] + quiet).drop_first() =~= quiet);
}

/// Events that call for nothing leave the running state as it was.
pub proof fn lemma_quiet_events_keep_state(running: bool, quiet: Seq<XrRuntimeEvent>)
    requires
        forall|i: int| 0 <= i < quiet.len() ==> #[trigger] spec_event_action(quiet[i]) == XrEventAction::Continue,
    ensures
        spec_poll_events(running, quiet) == Some(running),
    decreases quiet.len(),
{
    if quiet.len() > 0 {
        assert(spec_event_action(quiet[0]) == XrEventAction::Continue);
        let rest = quiet.drop_first();
        assert forall|i: int| 0 <= i < rest.len() implies #[trigger] spec_event_action(rest[i]) == XrEventAction::Continue by {
            assert(rest[i] == quiet[i + 1]);
        }
        lemma_quiet_events_keep_state(running, rest);
    }
}

/// The sizes and sample counts the runtime recommends and allows for one view.
#[derive(Debug, Clone, Copy, PartialEq, Eq, Structural)]
pub struct XrViewConfig {
    pub recommended_image_rect_width: u32,
    pub max_image_rect_width: u32,
    pub recommended_image_rect_height: u32,
    pub max_image_rect_height: u32,
    pub recommended_swapchain_sample_count: u32,
    pub max_swapchain_sample_count: u32,
}

/// The renderer draws both eyes into one two-layer target, so it takes a runtime only with two
/// views configured exactly alike.
pub open spec fn spec_views_supported(views: Seq<XrViewConfig>) -> bool {
    views.len() == 2 && views[0] == views[1]
}

/// Whether the runtime's view configurations are two identical views.
pub fn views_supported(views: &[XrViewConfig]) -> (r: bool)
    ensures
        r == spec_views_supported(views@),
{
    views.len() == 2 && views[0] == views[1]
}

/// What a redraw does with the XR session.
#[derive(Debug, Clone, Copy, PartialEq, Eq, Structural)]
pub struct XrRedrawPlan {
    /// Handle the runtime's events and wait for its next frame, then begin the frame.
    pub wait_frame: bool,
    /// Render the views of the frame the runtime handed out.
    pub post_frame: bool,
    /// Place the camera from the frame's views; otherwise it takes its default place.
    pub camera_from_views: bool,
    /// Hand the rendered views back to the runtime once the commands are submitted.
    pub submit_views: bool,
    /// Present the window's frame.
    pub present: bool,
}

/// What a redraw does, given whether an XR session exists, whether the window is minimized,
/// and whether waiting handed out a frame: nothing of XR while minimized; the views are
/// rendered, used for the camera and handed back only for a frame the runtime handed out.
pub open spec fn spec_xr_redraw_plan(has_xr: bool, minimized: bool, got_frame: bool) -> XrRedrawPlan {
    let wait_frame = has_xr && !minimized;
    let post_frame = wait_frame && got_frame;
    XrRedrawPlan {
        wait_frame,
        post_frame,
        camera_from_views: post_frame,
        submit_views: post_frame,
        present: !minimized,
    }
}

/// The redraw plan for these facts.
pub fn xr_redraw_plan(has_xr: bool, minimized: bool, got_frame: bool) -> (r: XrRedrawPlan)
    ensures
        r == spec_xr_redraw_plan(has_xr, minimized, got_frame),
        r.present == !minimized,
        r.wait_frame == (has_xr && !minimized),
        r.post_frame == (has_xr && !minimized && got_frame),
        r.camera_from_views == r.post_frame,
        r.submit_views == r.post_frame,
{
    let wait_frame = has_xr && !minimized;
    let post_frame = wait_frame && got_frame;
    XrRedrawPlan {
        wait_frame,
        post_frame,
        camera_from_views: post_frame,
        submit_views: post_frame,
        present: !minimized,
    }
}

/// What a redraw does, for every combination of facts: the window's frame is presented exactly
/// when the window is not minimized, with or without XR and whether or not a frame came; the
/// runtime is waited on only with an XR session and a visible window; and the views are
/// rendered, used for the camera and handed back exactly when the runtime handed out a frame
/// that was waited for.
pub proof fn lemma_redraw_plan(has_xr: bool, minimized: bool, got_frame: bool)
    ensures
        spec_xr_redraw_plan(has_xr, minimized, got_frame).present == !minimized,
        spec_xr_redraw_plan(has_xr, minimized, got_frame).wait_frame == (has_xr && !minimized),
        spec_xr_redraw_plan(has_xr, minimized, got_frame).post_frame == (has_xr && !minimized
            && got_frame),
        spec_xr_redraw_plan(has_xr, minimized, got_frame).camera_from_views == (has_xr && !minimized
            && got_frame),
        spec_xr_redraw_plan(has_xr, minimized, got_frame).submit_views == (has_xr && !minimized
            && got_frame),
{
}

} // verus!
