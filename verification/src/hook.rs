//! The decisions of the low-level mouse hook that need no floats: which
//! button an event is about, when a press starts a gesture, what a release
//! hands on, whether a window covers its monitor, and the overlay's points.
//!
//! Installing the hook, timing and measuring strokes with floats stay with
//! the application, which feeds the results to the functions here.

use vstd::prelude::*;
use crate::config::TriggerButton;
use crate::fbits::{f32_as_i32, f32_to_i32};
use crate::gesture::Point as GesturePoint;

verus! {

/// `WM_MOUSEMOVE`: the pointer moved.
pub const WM_MOUSEMOVE: u32 = 0x0200;

/// `WM_RBUTTONDOWN`: the right button went down.
pub const WM_RBUTTONDOWN: u32 = 0x0204;

/// `WM_RBUTTONUP`: the right button went up.
pub const WM_RBUTTONUP: u32 = 0x0205;

/// `WM_XBUTTONDOWN`: an extra button went down.
pub const WM_XBUTTONDOWN: u32 = 0x020B;

/// `WM_XBUTTONUP`: an extra button went up.
pub const WM_XBUTTONUP: u32 = 0x020C;

/// Posted to the trail window when a stroke becomes visible.
pub const WM_APP_OVERLAY_BEGIN: u32 = 0x8001;

/// Posted to the trail window with the next point of a visible stroke.
pub const WM_APP_OVERLAY_POINT: u32 = 0x8002;

/// Posted to the trail window when the stroke ends.
pub const WM_APP_OVERLAY_END: u32 = 0x8003;

/// Asks the window to show the clipboard history.
pub const WM_APP_SHOW_HISTORY: u32 = 0x8004;

/// Asks the window to show a short notice.
pub const WM_APP_TOAST: u32 = 0x8005;

/// Notification from the tray icon.
pub const WM_APP_TRAY: u32 = 0x8006;

/// A clipboard capture has finished.
pub const WM_APP_CAPTURE_DONE: u32 = 0x8007;

/// Marks the input events that the application injects itself, so that the
/// hook lets them pass.
pub const INJECTED_EVENT_TOKEN: u64 = 0x4743_4C49_505F_0001;

/// The `mouseData` high word of the first extra button.
pub const XBUTTON1_VALUE: u16 = 0x0001;

/// The `mouseData` high word of the second extra button.
pub const XBUTTON2_VALUE: u16 = 0x0002;

/// A gesture ready for recognition: the buffered stroke, coordinates as
/// `f32` bits, and the window it was drawn over.
#[derive(Debug)]
pub struct StrokeRequest {
    pub points: Vec<GesturePoint>,
    pub target_hwnd: isize,
}

/// What the hook hands to the worker when a trigger button is released.
#[derive(Debug)]
pub enum HookCommand {
    /// A committed, visible stroke to recognise.
    Stroke(StrokeRequest),
    /// Not a gesture: send the button's click on to the application.
    Replay(TriggerButton),
    /// A committed stroke that never became visible: nothing to do.
    Cancelled,
}

/// A screen point in pixels.
#[derive(Debug, Clone, Copy, PartialEq, Eq, Structural)]
pub struct UiPoint {
    pub x: i32,
    pub y: i32,
}

/// The points of a stroke already drawn when its trail appears.
pub struct UiStrokeBegin {
    pub points: Vec<UiPoint>,
}

/// A screen rectangle: left and top inside, right and bottom outside.
#[derive(Debug, Clone, Copy, PartialEq, Eq, Structural)]
pub struct Rect {
    pub left: i32,
    pub top: i32,
    pub right: i32,
    pub bottom: i32,
}

/// The trigger button a mouse event is about, if any: the right button, or
/// an extra button named by the high word of `mouse_data`.
pub open spec fn event_button(message: u32, mouse_data: u32) -> Option<TriggerButton> {
    if message == WM_RBUTTONDOWN || message == WM_RBUTTONUP {
        Some(TriggerButton::Right)
    } else if message == WM_XBUTTONDOWN || message == WM_XBUTTONUP {
        if mouse_data / 0x1_0000 == XBUTTON1_VALUE {
            Some(TriggerButton::X1)
        } else if mouse_data / 0x1_0000 == XBUTTON2_VALUE {
            Some(TriggerButton::X2)
        } else {
            None
        }
    } else {
        None
    }
}

/// The trigger button a mouse event is about, if any.
pub fn trigger_for_event(message: u32, mouse_data: u32) -> (r: Option<TriggerButton>)
    ensures
        r == event_button(message, mouse_data),
{
    if message == WM_RBUTTONDOWN || message == WM_RBUTTONUP {
        Some(TriggerButton::Right)
    } else if message == WM_XBUTTONDOWN || message == WM_XBUTTONUP {
        let high = mouse_data >> 16;
        assert(high == mouse_data / 0x1_0000) by (bit_vector)
            requires
                high == mouse_data >> 16,
        ;
        if high == XBUTTON1_VALUE as u32 {
            Some(TriggerButton::X1)
        } else if high == XBUTTON2_VALUE as u32 {
            Some(TriggerButton::X2)
        } else {
            None
        }
    } else {
        None
    }
}

/// A press of the configured trigger button.
pub fn is_trigger_down(message: u32, event_button: Option<TriggerButton>, configured: TriggerButton) -> (r: bool)
    ensures
        r == ((message == WM_RBUTTONDOWN || message == WM_XBUTTONDOWN) && event_button == Some(
            configured,
        )),
{
    (message == WM_RBUTTONDOWN || message == WM_XBUTTONDOWN) && match event_button {
        Some(button) => button == configured,
        None => false,
    }
}

/// A release of any trigger button.
pub fn is_trigger_up(message: u32, event_button: Option<TriggerButton>) -> (r: bool)
    ensures
        r == ((message == WM_RBUTTONUP || message == WM_XBUTTONUP) && event_button is Some),
{
    (message == WM_RBUTTONUP || message == WM_XBUTTONUP) && event_button.is_some()
}

/// Whether a press starts a new gesture candidate: gestures are on, the
/// event presses the configured trigger, and no candidate is under way.
pub fn starts_candidate(
    enabled: bool,
    message: u32,
    event_button: Option<TriggerButton>,
    configured: TriggerButton,
    candidate_present: bool,
) -> (r: bool)
    ensures
        r == (enabled && (message == WM_RBUTTONDOWN || message == WM_XBUTTONDOWN) && event_button
            == Some(configured) && !candidate_present),
{
    enabled && is_trigger_down(message, event_button, configured) && !candidate_present
}

/// What the release of a candidate's button hands on, and whether the trail
/// must be closed first: a stroke that was not committed replays the click
/// (closing a visible trail); a committed, visible one is recognised; a
/// committed one that never showed is dropped.
pub fn release_command(
    button: TriggerButton,
    committed: bool,
    active: bool,
    points: Vec<GesturePoint>,
    target_hwnd: isize,
) -> (r: (bool, HookCommand))
    ensures
        r.0 == active,
        !committed ==> r.1 == HookCommand::Replay(button),
        committed && active ==> (r.1 matches HookCommand::Stroke(req) && req.points@ == points@
            && req.target_hwnd == target_hwnd),
        committed && !active ==> r.1 == HookCommand::Cancelled,
{
    if !committed {
        (active, HookCommand::Replay(button))
    } else if active {
        (true, HookCommand::Stroke(StrokeRequest { points, target_hwnd }))
    } else {
        (false, HookCommand::Cancelled)
    }
}

/// The window covers the monitor up to `tolerance` pixels on each side.
pub open spec fn covers(window: Rect, monitor: Rect, tolerance: int) -> bool {
    &&& window.left <= monitor.left + tolerance
    &&& window.top <= monitor.top + tolerance
    &&& window.right >= monitor.right - tolerance
    &&& window.bottom >= monitor.bottom - tolerance
}

/// A window counts as covering a monitor exactly when it reaches all four of
/// the monitor's edges within the tolerance: a window that reaches only some
/// edges (such as one snapped to a corner) does not.
pub proof fn lemma_covers_all_four_edges(window: Rect, monitor: Rect, tolerance: int)
    ensures
        covers(window, monitor, tolerance) <==> (window.left <= monitor.left + tolerance && window.top
            <= monitor.top + tolerance && window.right >= monitor.right - tolerance && window.bottom
            >= monitor.bottom - tolerance),
        window.left > monitor.left + tolerance ==> !covers(window, monitor, tolerance),
        window.top > monitor.top + tolerance ==> !covers(window, monitor, tolerance),
{
}

/// Whether the window covers the monitor up to `tolerance` pixels on each
/// side, as a full-screen application's window does.
pub fn rect_covers_monitor(window: Rect, monitor: Rect, tolerance: i32) -> (r: bool)
    requires
        i32::MIN <= monitor.left + tolerance <= i32::MAX,
        i32::MIN <= monitor.top + tolerance <= i32::MAX,
        i32::MIN <= monitor.right - tolerance <= i32::MAX,
        i32::MIN <= monitor.bottom - tolerance <= i32::MAX,
    ensures
        r == covers(window, monitor, tolerance as int),
        r <==> (window.left <= monitor.left + tolerance && window.top <= monitor.top + tolerance
            && window.right >= monitor.right - tolerance && window.bottom >= monitor.bottom - tolerance),
{
    window.left <= monitor.left + tolerance && window.top <= monitor.top + tolerance
        && window.right >= monitor.right - tolerance && window.bottom >= monitor.bottom
        - tolerance
}

/// The pixel point of a stroke point, each coordinate converted as
/// `as i32` converts an `f32`.
pub open spec fn ui_point_of(p: GesturePoint) -> UiPoint {
    UiPoint { x: f32_as_i32(p.x) as i32, y: f32_as_i32(p.y) as i32 }
}

/// The pixel points of a stroke, for the trail.
pub fn stroke_ui_points(points: &[GesturePoint]) -> (r: Vec<UiPoint>)
    ensures
        r@ == points@.map_values(|p: GesturePoint| ui_point_of(p)),
{
    let mut r: Vec<UiPoint> = Vec::new();
    let mut i: usize = 0;
    while i < points.len()
        invariant
            0 <= i <= points@.len(),
            r@ == points@.take(i as int).map_values(|p: GesturePoint| ui_point_of(p)),
        decreases points.len() - i,
    {
        let p = points[i];
        r.push(UiPoint { x: f32_to_i32(p.x), y: f32_to_i32(p.y) });
        assert(r@ =~= points@.take(i + 1).map_values(|p: GesturePoint| ui_point_of(p)));
        i = i + 1;
    }
    assert(points@.take(points@.len() as int) =~= points@);
    r
}

} // verus!
