//! How the application window is created.
use vstd::prelude::*;
use vstd::string::StringExecFns;

verus! {

/// Settings of the window the application loop opens.
#[derive(Debug, Clone)]
pub struct AppLoopHandlerCreateDesc {
    pub title: String,
    pub width: u32,
    pub height: u32,
    pub resizeable: bool,
    pub maximized: bool,
    pub no_gpu_validation: bool,
}

impl Default for AppLoopHandlerCreateDesc {
    /// A 1920 by 1080 window titled "Terrarium", neither resizable nor maximized, with GPU
    /// validation on.
    fn default() -> (r: Self)
        ensures
            r.title@ == "Terrarium"@,
            r.width == 1920,
            r.height == 1080,
            !r.resizeable,
            !r.maximized,
            !r.no_gpu_validation,
    {
        Self {
            title: String::from_str("Terrarium"),
            width: 1920,
            height: 1080,
            resizeable: false,
            maximized: false,
            no_gpu_validation: false,
        }
    }
}

/// The window events the application loop reacts to.
#[derive(Debug, Clone, Copy, PartialEq, Eq, Structural)]
pub enum WindowEventKind {
    CloseRequested,
    RedrawRequested,
    Resized { width: u32, height: u32 },
    Other,
}

/// What the application loop does for a window event.
#[derive(Debug, Clone, Copy, PartialEq, Eq, Structural)]
pub enum WindowEventAction {
    /// Leave the event loop.
    Exit,
    /// Run the frame's update; render and present it only when `render` holds, which is when
    /// the surface is not minimized.
    Redraw { render: bool },
    /// Resize the surface and the render target to this size.
    Resize { width: u32, height: u32 },
    /// Nothing to do.
    Ignore,
}

/// A surface of width or height 1 stands for a minimized window.
pub open spec fn spec_is_minimized(width: u32, height: u32) -> bool {
    width == 1 || height == 1
}

/// Whether a surface of this size stands for a minimized window.
pub fn is_minimized(width: u32, height: u32) -> (r: bool)
    ensures
        r == spec_is_minimized(width, height),
{
    width == 1 || height == 1
}

/// What to do for `event`, given whether the window's GPU state exists and the current surface
/// size: close exits; a redraw renders unless the surface is minimized; a resize clamps each
/// side to at least 1; without GPU state only closing does anything.
pub fn window_event_action(
    has_state: bool,
    surface_width: u32,
    surface_height: u32,
    event: WindowEventKind,
) -> (r: WindowEventAction)
    ensures
        r == match event {
            WindowEventKind::CloseRequested => WindowEventAction::Exit,
            WindowEventKind::RedrawRequested => if has_state {
                WindowEventAction::Redraw { render: !spec_is_minimized(surface_width, surface_height) }
            } else {
                WindowEventAction::Ignore
            },
            WindowEventKind::Resized { width, height } => if has_state {
                WindowEventAction::Resize {
                    width: if width >= 1 { width } else { 1 },
                    height: if height >= 1 { height } else { 1 },
                }
            } else {
                WindowEventAction::Ignore
            },
            WindowEventKind::Other => WindowEventAction::Ignore,
        },
{
    match event {
        WindowEventKind::CloseRequested => WindowEventAction::Exit,
        WindowEventKind::RedrawRequested => {
            if has_state {
                WindowEventAction::Redraw { render: !is_minimized(surface_width, surface_height) }
            } else {
                WindowEventAction::Ignore
            }
        },
        WindowEventKind::Resized { width, height } => {
            if has_state {
                WindowEventAction::Resize {
                    width: if width >= 1 { width } else { 1 },
                    height: if height >= 1 { height } else { 1 },
                }
            } else {
                WindowEventAction::Ignore
            }
        },
        WindowEventKind::Other => WindowEventAction::Ignore,
    }
}

/// The frame counter after `event`: every redraw request counts a frame.
pub fn next_frame_idx(frame_idx: u32, event: WindowEventKind) -> (r: u32)
    ensures
        r == if event == WindowEventKind::RedrawRequested {
            frame_idx.wrapping_add(1)
        } else {
            frame_idx
        },
{
    match event {
        WindowEventKind::RedrawRequested => frame_idx.wrapping_add(1),
        _ => frame_idx,
    }
}

} // verus!
