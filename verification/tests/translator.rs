//! The input translator and the physical key-code table.

use termui::input::{
    ButtonState, KeyCode, KeyEventKind, KeyState, MouseButton, MouseEventKind, TermEvent,
    TerminalInput, WaylandInputEvent,
};
use termui::keymap::keysym_to_keycode;

fn translator() -> TerminalInput {
    // An 80x24 terminal sized 800x480 pixels.
    TerminalInput::new(80, 24, 800, 480)
}

#[test]
fn s3_key_a_press() {
    let t = translator();
    let ev = TermEvent::Key {
        code: KeyCode::Char('a'),
        ctrl: false,
        kind: KeyEventKind::Press,
    };
    match t.translate_event(ev, 1234, None) {
        Some(WaylandInputEvent::KeyboardKey { keysym, state, time }) => {
            assert_eq!(keysym, 0x61);
            assert!(matches!(state, KeyState::Pressed));
            assert_eq!(time, 1234);
        }
        _ => panic!("expected a keyboard event"),
    }
    // Routed with physical keycode 30 + 8 = 38.
    assert_eq!(keysym_to_keycode(0x61), 38);
}

#[test]
fn s4_mouse_move_maps_to_cell_centre() {
    let t = translator();
    let ev = TermEvent::Mouse { kind: MouseEventKind::Moved, column: 10, row: 5 };
    match t.translate_event(ev, 0, None) {
        Some(WaylandInputEvent::PointerMotion { x, y, .. }) => {
            assert_eq!((x, y), (105, 110));
        }
        _ => panic!("expected pointer motion"),
    }
}

#[test]
fn p5_ctrl_c_quits() {
    let t = translator();
    for kind in [KeyEventKind::Press, KeyEventKind::Repeat, KeyEventKind::Release] {
        let ev = TermEvent::Key { code: KeyCode::Char('c'), ctrl: true, kind };
        assert!(matches!(t.translate_event(ev, 7, None), Some(WaylandInputEvent::Quit)));
    }
}

#[test]
fn p5_ctrl_q_quits() {
    let t = translator();
    let ev = TermEvent::Key { code: KeyCode::Char('q'), ctrl: true, kind: KeyEventKind::Press };
    assert!(matches!(t.translate_event(ev, 7, None), Some(WaylandInputEvent::Quit)));
}

#[test]
fn plain_c_is_a_key_event() {
    let t = translator();
    let ev = TermEvent::Key { code: KeyCode::Char('c'), ctrl: false, kind: KeyEventKind::Press };
    assert!(matches!(
        t.translate_event(ev, 7, None),
        Some(WaylandInputEvent::KeyboardKey { keysym: 0x63, .. })
    ));
}

#[test]
fn named_keys_map_to_keysym_constants() {
    let cases = [
        (KeyCode::Enter, 0xff0du32),
        (KeyCode::Tab, 0xff09),
        (KeyCode::Backspace, 0xff08),
        (KeyCode::Esc, 0xff1b),
        (KeyCode::Left, 0xff51),
        (KeyCode::Right, 0xff53),
        (KeyCode::Up, 0xff52),
        (KeyCode::Down, 0xff54),
        (KeyCode::Home, 0xff50),
        (KeyCode::End, 0xff57),
        (KeyCode::PageUp, 0xff55),
        (KeyCode::PageDown, 0xff56),
        (KeyCode::Insert, 0xff63),
        (KeyCode::Delete, 0xffff),
        (KeyCode::F(1), 0xffbe),
        (KeyCode::F(5), 0xffc2),
        (KeyCode::F(12), 0xffc9),
    ];
    for (code, sym) in cases {
        assert_eq!(TerminalInput::keycode_to_keysym(code), Some(sym));
    }
    assert_eq!(TerminalInput::keycode_to_keysym(KeyCode::Other), None);
}

#[test]
fn non_ascii_char_uses_unicode_range() {
    assert_eq!(TerminalInput::keycode_to_keysym(KeyCode::Char('é')), Some(0x0100_00e9));
}

#[test]
fn release_kind_maps_to_released() {
    let t = translator();
    let ev = TermEvent::Key { code: KeyCode::Enter, ctrl: false, kind: KeyEventKind::Release };
    assert!(matches!(
        t.translate_event(ev, 0, None),
        Some(WaylandInputEvent::KeyboardKey { state: KeyState::Released, .. })
    ));
}

#[test]
fn mouse_buttons_and_scroll() {
    let t = translator();
    let down = TermEvent::Mouse {
        kind: MouseEventKind::Down(MouseButton::Right),
        column: 0,
        row: 0,
    };
    assert!(matches!(
        t.translate_event(down, 0, None),
        Some(WaylandInputEvent::PointerButton {
            button: 0x111,
            state: ButtonState::Pressed,
            ..
        })
    ));
    let up = TermEvent::Mouse { kind: MouseEventKind::Up(MouseButton::Left), column: 0, row: 0 };
    assert!(matches!(
        t.translate_event(up, 0, None),
        Some(WaylandInputEvent::PointerButton {
            button: 0x110,
            state: ButtonState::Released,
            ..
        })
    ));
    let scroll = TermEvent::Mouse { kind: MouseEventKind::ScrollUp, column: 0, row: 0 };
    assert!(matches!(
        t.translate_event(scroll, 0, None),
        Some(WaylandInputEvent::PointerAxis { horizontal: 0, vertical: -15, .. })
    ));
    let scroll_r = TermEvent::Mouse { kind: MouseEventKind::ScrollRight, column: 0, row: 0 };
    assert!(matches!(
        t.translate_event(scroll_r, 0, None),
        Some(WaylandInputEvent::PointerAxis { horizontal: 15, vertical: 0, .. })
    ));
    assert_eq!(TerminalInput::mouse_button_to_code(MouseButton::Middle), 0x112);
}

#[test]
fn p2_resize_updates_dimensions_and_bounds_hold() {
    let mut t = translator();
    // The resize event carries the re-queried pixel size.
    let ev = TermEvent::Resize { cols: 100, rows: 50 };
    match t.translate_event(ev, 0, Some((1000, 500))) {
        Some(WaylandInputEvent::Resize { width, height }) => {
            assert_eq!((width, height), (1000, 500));
            t.update_dimensions(100, 50, width, height);
        }
        _ => panic!("expected resize"),
    }
    assert_eq!(
        (t.term_width, t.term_height, t.pixel_width, t.pixel_height),
        (100, 50, 1000, 500)
    );
    // Every in-grid cell now maps inside the new pixel area.
    for (col, row) in [(0u16, 0u16), (99, 49), (50, 25)] {
        let (x, y) = t.cell_to_pixel(col, row);
        assert!(x < 1000 && y < 500);
    }
}

#[test]
fn resize_without_query_uses_fallback() {
    let t = translator();
    let ev = TermEvent::Resize { cols: 120, rows: 40 };
    assert!(matches!(
        t.translate_event(ev, 0, None),
        Some(WaylandInputEvent::Resize { width: 1200, height: 800 })
    ));
}

#[test]
fn unknown_event_is_dropped() {
    let t = translator();
    assert!(t.translate_event(TermEvent::Other, 0, None).is_none());
    let f0 = TermEvent::Key { code: KeyCode::F(0), ctrl: false, kind: KeyEventKind::Press };
    assert!(t.translate_event(f0, 0, None).is_none());
}

#[test]
fn keymap_table_spot_checks() {
    // Letters, a digit, punctuation, named keys, space, and the unmapped
    // fallback, each offset by eight.
    assert_eq!(keysym_to_keycode('q' as u32), 16 + 8);
    assert_eq!(keysym_to_keycode('Q' as u32), 16 + 8);
    assert_eq!(keysym_to_keycode('z' as u32), 44 + 8);
    assert_eq!(keysym_to_keycode('1' as u32), 2 + 8);
    assert_eq!(keysym_to_keycode('!' as u32), 2 + 8);
    assert_eq!(keysym_to_keycode('/' as u32), 53 + 8);
    assert_eq!(keysym_to_keycode(0x20), 57 + 8);
    assert_eq!(keysym_to_keycode(0xff0d), 28 + 8);
    assert_eq!(keysym_to_keycode(0xff51), 105 + 8);
    assert_eq!(keysym_to_keycode(0x1234), 8);
}
