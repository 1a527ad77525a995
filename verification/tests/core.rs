//! The compositor decision core: top-level tracking, input routing,
//! resize propagation, and the virtual output size.

use termui::compositor::{CompositorCore, InputDirective};
use termui::input::{ButtonState, KeyState, WaylandInputEvent};
use termui::virtual_size;

#[test]
fn new_toplevel_is_configured_to_output_size() {
    let mut core = CompositorCore::new(200, 150);
    let cfg = core.new_toplevel(42);
    assert_eq!((cfg.width, cfg.height), (200, 150));
    assert!(cfg.activated && cfg.maximized);
    assert_eq!(core.toplevels, vec![42]);
    assert!(core.running);
}

#[test]
fn s6_last_toplevel_destroyed_stops_loop() {
    let mut core = CompositorCore::new(200, 150);
    core.new_toplevel(1);
    core.new_toplevel(2);
    core.toplevel_destroyed(1);
    assert!(core.running, "a top-level remains");
    assert_eq!(core.toplevels, vec![2]);
    core.toplevel_destroyed(2);
    assert!(!core.running, "no top-level remains");
    assert!(core.toplevels.is_empty());
}

#[test]
fn destroy_of_unknown_surface_changes_nothing() {
    let mut core = CompositorCore::new(10, 10);
    core.new_toplevel(5);
    core.toplevel_destroyed(99);
    assert_eq!(core.toplevels, vec![5]);
    assert!(core.running);
}

#[test]
fn pointer_targets_first_toplevel() {
    let mut core = CompositorCore::new(10, 10);
    assert_eq!(core.surface_under_pointer(), None);
    core.new_toplevel(7);
    core.new_toplevel(8);
    assert_eq!(core.surface_under_pointer(), Some(7));
    assert!(core.commit_is_tracked(8));
    assert!(!core.commit_is_tracked(9));
}

#[test]
fn motion_updates_pointer_and_targets_first() {
    let mut core = CompositorCore::new(10, 10);
    core.new_toplevel(7);
    let d = core.handle_input_event(WaylandInputEvent::PointerMotion { x: 3, y: 4, time: 9 });
    assert_eq!((core.pointer_x, core.pointer_y), (3, 4));
    match d {
        InputDirective::Motion { target, x, y, time, serial } => {
            assert_eq!(target, Some(7));
            assert_eq!((x, y, time), (3, 4, 9));
            assert_eq!(serial, 1);
        }
        _ => panic!("expected a motion directive"),
    }
}

#[test]
fn each_event_draws_a_fresh_serial() {
    let mut core = CompositorCore::new(10, 10);
    let b1 = core.handle_input_event(WaylandInputEvent::PointerButton {
        button: 0x110,
        state: ButtonState::Pressed,
        time: 1,
    });
    let b2 = core.handle_input_event(WaylandInputEvent::PointerButton {
        button: 0x110,
        state: ButtonState::Released,
        time: 2,
    });
    match (b1, b2) {
        (
            InputDirective::Button { serial: s1, pressed: p1, .. },
            InputDirective::Button { serial: s2, pressed: p2, .. },
        ) => {
            assert_eq!((s1, s2), (1, 2));
            assert!(p1 && !p2);
        }
        _ => panic!("expected button directives"),
    }
}

#[test]
fn key_event_carries_physical_keycode() {
    let mut core = CompositorCore::new(10, 10);
    let d = core.handle_input_event(WaylandInputEvent::KeyboardKey {
        keysym: 0x61, // 'a'
        state: KeyState::Pressed,
        time: 4,
    });
    match d {
        InputDirective::Key { keycode, pressed, .. } => {
            assert_eq!(keycode, 38); // evdev 30 for 'a', plus 8
            assert!(pressed);
        }
        _ => panic!("expected a key directive"),
    }
}

#[test]
fn axis_event_passes_amounts_through() {
    let mut core = CompositorCore::new(10, 10);
    let d = core.handle_input_event(WaylandInputEvent::PointerAxis {
        horizontal: -15,
        vertical: 0,
        time: 4,
    });
    assert!(matches!(d, InputDirective::Axis { horizontal: -15, vertical: 0, time: 4 }));
}

#[test]
fn resize_event_updates_output() {
    let mut core = CompositorCore::new(10, 10);
    core.new_toplevel(1);
    let d = core.handle_input_event(WaylandInputEvent::Resize { width: 400, height: 300 });
    assert!(matches!(d, InputDirective::Resized));
    assert_eq!((core.term_width, core.term_height), (400, 300));
    assert_eq!(core.toplevels, vec![1], "top-levels stay tracked across resize");
}

#[test]
fn quit_event_stops_loop() {
    let mut core = CompositorCore::new(10, 10);
    let d = core.handle_input_event(WaylandInputEvent::Quit);
    assert!(matches!(d, InputDirective::Quit));
    assert!(!core.running);
}

#[test]
fn virtual_size_divides_by_scale() {
    assert_eq!(virtual_size(800, 600, 4), (200, 150));
    assert_eq!(virtual_size(803, 601, 4), (200, 150));
    assert_eq!(virtual_size(10, 10, 1), (10, 10));
}
