use xmouse::config::TriggerButton;
use xmouse::gesture::Point as GesturePoint;
use xmouse::hook::{
    is_trigger_down, is_trigger_up, rect_covers_monitor, release_command, starts_candidate,
    stroke_ui_points, trigger_for_event, HookCommand, Rect, UiPoint, WM_MOUSEMOVE,
    WM_RBUTTONDOWN, WM_RBUTTONUP, WM_XBUTTONDOWN, WM_XBUTTONUP,
};

fn point(x: f32, y: f32) -> GesturePoint {
    GesturePoint::new(x.to_bits(), y.to_bits())
}

#[test]
fn overlay_activation_keeps_the_buffered_path() {
    let points = [point(10.0, 20.0), point(16.0, 28.0), point(25.0, 31.0)];
    assert_eq!(
        stroke_ui_points(&points),
        vec![
            UiPoint { x: 10, y: 20 },
            UiPoint { x: 16, y: 28 },
            UiPoint { x: 25, y: 31 },
        ]
    );
}

#[test]
fn stroke_points_convert_like_float_casts() {
    let values = [
        -0.9f32, 2.99, -2.99, 1e10, -1e10, f32::NAN, f32::INFINITY, f32::NEG_INFINITY, 2147483520.0,
        -2147483648.0, 1e-30,
    ];
    let points: Vec<GesturePoint> = values.iter().map(|v| point(*v, -*v)).collect();
    let converted = stroke_ui_points(&points);
    for (value, ui) in values.iter().zip(converted) {
        assert_eq!(ui.x, *value as i32);
        assert_eq!(ui.y, (-*value) as i32);
    }
}

#[test]
fn fullscreen_rect_accepts_exact_and_small_overscan_bounds() {
    let monitor = Rect { left: 0, top: 0, right: 2560, bottom: 1440 };
    assert!(rect_covers_monitor(monitor, monitor, 8));
    assert!(rect_covers_monitor(
        Rect { left: -2, top: -2, right: 2562, bottom: 1442 },
        monitor,
        8,
    ));
}

#[test]
fn fullscreen_rect_rejects_work_area_and_partial_windows() {
    let monitor = Rect { left: 0, top: 0, right: 1920, bottom: 1080 };
    assert!(!rect_covers_monitor(
        Rect { left: 0, top: 0, right: 1920, bottom: 1040 },
        monitor,
        8,
    ));
    assert!(!rect_covers_monitor(
        Rect { left: 160, top: 90, right: 1760, bottom: 990 },
        monitor,
        8,
    ));
}

#[test]
fn buttons_of_mouse_events() {
    assert_eq!(trigger_for_event(WM_RBUTTONDOWN, 0), Some(TriggerButton::Right));
    assert_eq!(trigger_for_event(WM_RBUTTONUP, 0x0002_0000), Some(TriggerButton::Right));
    assert_eq!(trigger_for_event(WM_XBUTTONDOWN, 0x0001_0000), Some(TriggerButton::X1));
    assert_eq!(trigger_for_event(WM_XBUTTONUP, 0x0002_1234), Some(TriggerButton::X2));
    assert_eq!(trigger_for_event(WM_XBUTTONUP, 0x0003_0000), None);
    assert_eq!(trigger_for_event(WM_MOUSEMOVE, 0x0001_0000), None);

    assert!(is_trigger_down(WM_XBUTTONDOWN, Some(TriggerButton::X1), TriggerButton::X1));
    assert!(!is_trigger_down(WM_XBUTTONDOWN, Some(TriggerButton::X2), TriggerButton::X1));
    assert!(!is_trigger_down(WM_RBUTTONUP, Some(TriggerButton::Right), TriggerButton::Right));
    assert!(is_trigger_up(WM_RBUTTONUP, Some(TriggerButton::Right)));
    assert!(!is_trigger_up(WM_XBUTTONUP, None));

    assert!(starts_candidate(true, WM_RBUTTONDOWN, Some(TriggerButton::Right), TriggerButton::Right, false));
    assert!(!starts_candidate(false, WM_RBUTTONDOWN, Some(TriggerButton::Right), TriggerButton::Right, false));
    assert!(!starts_candidate(true, WM_RBUTTONDOWN, Some(TriggerButton::Right), TriggerButton::Right, true));
}

#[test]
fn release_hands_on_the_right_command() {
    let points = vec![point(1.0, 2.0)];
    match release_command(TriggerButton::X1, false, true, points.clone(), 5) {
        (true, HookCommand::Replay(TriggerButton::X1)) => {}
        other => panic!("{other:?}"),
    }
    match release_command(TriggerButton::Right, true, true, points.clone(), 5) {
        (true, HookCommand::Stroke(request)) => {
            assert_eq!(request.points, points);
            assert_eq!(request.target_hwnd, 5);
        }
        other => panic!("{other:?}"),
    }
    match release_command(TriggerButton::Right, true, false, points, 5) {
        (false, HookCommand::Cancelled) => {}
        other => panic!("{other:?}"),
    }
}
