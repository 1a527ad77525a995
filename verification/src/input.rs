//! The input translator: terminal key, mouse and resize events become
//! display-server input events, with cell-to-pixel mapping at the centre
//! of the hovered cell, quit-gesture capture, and keysym derivation.

use vstd::prelude::*;

use crate::arith::mul_le;

verus! {

/// A terminal key, as the translator reads it: a printable character or
/// one of the named keys it maps; everything else is `Other` and is
/// dropped.
#[derive(Clone, Copy)]
pub enum KeyCode {
    Char(char),
    Enter,
    Tab,
    Backspace,
    Esc,
    Left,
    Right,
    Up,
    Down,
    Home,
    End,
    PageUp,
    PageDown,
    Insert,
    Delete,
    F(u8),
    Other,
}

/// Whether a terminal key event is a press, an auto-repeat, or a release
/// (releases arrive only when the terminal supports key-release
/// reporting).
#[derive(Clone, Copy)]
pub enum KeyEventKind {
    Press,
    Repeat,
    Release,
}

/// A terminal mouse button the translator maps.
#[derive(Clone, Copy)]
pub enum MouseButton {
    Left,
    Right,
    Middle,
}

/// The kind of a terminal mouse event.
#[derive(Clone, Copy)]
pub enum MouseEventKind {
    Moved,
    Drag(MouseButton),
    Down(MouseButton),
    Up(MouseButton),
    ScrollDown,
    ScrollUp,
    ScrollLeft,
    ScrollRight,
}

/// A terminal event, reduced to what the translator reads: the key with
/// its control-modifier bit and kind, the mouse event with its cell, or
/// a resize with the new character grid.
#[derive(Clone, Copy)]
pub enum TermEvent {
    Key { code: KeyCode, ctrl: bool, kind: KeyEventKind },
    Mouse { kind: MouseEventKind, column: u16, row: u16 },
    Resize { cols: u16, rows: u16 },
    Other,
}

/// Whether a key reached the client pressed or released.
#[derive(Clone, Copy, Debug)]
pub enum KeyState {
    Pressed,
    Released,
}

/// Whether a pointer button reached the client pressed or released.
#[derive(Clone, Copy, Debug)]
pub enum ButtonState {
    Pressed,
    Released,
}

/// A display-server input event produced by the translator and routed to
/// the client.
pub enum WaylandInputEvent {
    PointerMotion { x: u64, y: u64, time: u32 },
    PointerButton { button: u32, state: ButtonState, time: u32 },
    PointerAxis { horizontal: i32, vertical: i32, time: u32 },
    KeyboardKey { keysym: u32, state: KeyState, time: u32 },
    Resize { width: u32, height: u32 },
    Quit,
}

/// The keysym a terminal key maps to: ASCII characters map to their code
/// point, other characters to the Unicode keysym range, named keys to
/// their fixed keysym constants. Keys outside the table (and a function
/// key numbered zero, which no terminal reports) map to nothing.
pub open spec fn spec_keysym(code: KeyCode) -> Option<u32> {
    match code {
        KeyCode::Char(c) => {
            if (c as u32) < 128 {
                Some(c as u32)
            } else {
                Some((0x01000000 + c as u32) as u32)
            }
        },
        KeyCode::Enter => Some(0xff0du32),
        KeyCode::Tab => Some(0xff09u32),
        KeyCode::Backspace => Some(0xff08u32),
        KeyCode::Esc => Some(0xff1bu32),
        KeyCode::Left => Some(0xff51u32),
        KeyCode::Right => Some(0xff53u32),
        KeyCode::Up => Some(0xff52u32),
        KeyCode::Down => Some(0xff54u32),
        KeyCode::Home => Some(0xff50u32),
        KeyCode::End => Some(0xff57u32),
        KeyCode::PageUp => Some(0xff55u32),
        KeyCode::PageDown => Some(0xff56u32),
        KeyCode::Insert => Some(0xff63u32),
        KeyCode::Delete => Some(0xffffu32),
        KeyCode::F(n) => {
            if n >= 1 {
                Some((0xffbd + n as u32) as u32)
            } else {
                None
            }
        },
        KeyCode::Other => None,
    }
}

/// The protocol button code of a mouse button.
pub open spec fn spec_button_code(button: MouseButton) -> u32 {
    match button {
        MouseButton::Left => 0x110u32,
        MouseButton::Right => 0x111u32,
        MouseButton::Middle => 0x112u32,
    }
}

/// The translator's state: the terminal's character grid and its pixel
/// size, updated on every resize event.
pub struct TerminalInput {
    pub term_width: u32,
    pub term_height: u32,
    pub pixel_width: u32,
    pub pixel_height: u32,
}

impl TerminalInput {
    /// A translator for the given character grid and pixel size.
    pub fn new(term_width: u32, term_height: u32, pixel_width: u32, pixel_height: u32) -> (r:
        TerminalInput)
        ensures
            r.term_width == term_width,
            r.term_height == term_height,
            r.pixel_width == pixel_width,
            r.pixel_height == pixel_height,
    {
        TerminalInput { term_width, term_height, pixel_width, pixel_height }
    }

    /// Replaces all four dimensions, as done once per resize event.
    pub fn update_dimensions(
        &mut self,
        term_width: u32,
        term_height: u32,
        pixel_width: u32,
        pixel_height: u32,
    )
        ensures
            final(self).term_width == term_width,
            final(self).term_height == term_height,
            final(self).pixel_width == pixel_width,
            final(self).pixel_height == pixel_height,
    {
        self.term_width = term_width;
        self.term_height = term_height;
        self.pixel_width = pixel_width;
        self.pixel_height = pixel_height;
    }

    /// The pixel width of one terminal cell (zero on a degenerate grid).
    pub open spec fn spec_cell_width(self) -> int {
        if self.term_width == 0 {
            0
        } else {
            self.pixel_width as int / self.term_width as int
        }
    }

    /// The pixel height of one terminal cell (zero on a degenerate grid).
    pub open spec fn spec_cell_height(self) -> int {
        if self.term_height == 0 {
            0
        } else {
            self.pixel_height as int / self.term_height as int
        }
    }

    /// The pixel position of the centre of a terminal cell.
    pub open spec fn spec_cell_to_pixel(self, col: int, row: int) -> (int, int) {
        (
            col * self.spec_cell_width() + self.spec_cell_width() / 2,
            row * self.spec_cell_height() + self.spec_cell_height() / 2,
        )
    }

    /// Maps a terminal cell to the pixel position of its centre.
    pub fn cell_to_pixel(&self, col: u16, row: u16) -> (r: (u64, u64))
        ensures
            r.0 == self.spec_cell_to_pixel(col as int, row as int).0,
            r.1 == self.spec_cell_to_pixel(col as int, row as int).1,
    {
        let cw: u64 = if self.term_width == 0 {
            0
        } else {
            (self.pixel_width / self.term_width) as u64
        };
        let ch: u64 = if self.term_height == 0 {
            0
        } else {
            (self.pixel_height / self.term_height) as u64
        };
        proof {
            mul_le(col as int, 0xffff, cw as int);
            mul_le(row as int, 0xffff, ch as int);
        }
        (col as u64 * cw + cw / 2, row as u64 * ch + ch / 2)
    }

    /// Maps a terminal key to its keysym.
    pub fn keycode_to_keysym(key: KeyCode) -> (r: Option<u32>)
        ensures
            r == spec_keysym(key),
    {
        match key {
            KeyCode::Char(c) => {
                let code = c as u32;
                if code < 128 {
                    Some(code)
                } else {
                    Some(0x01000000 + code)
                }
            },
            KeyCode::Enter => Some(0xff0d),
            KeyCode::Tab => Some(0xff09),
            KeyCode::Backspace => Some(0xff08),
            KeyCode::Esc => Some(0xff1b),
            KeyCode::Left => Some(0xff51),
            KeyCode::Right => Some(0xff53),
            KeyCode::Up => Some(0xff52),
            KeyCode::Down => Some(0xff54),
            KeyCode::Home => Some(0xff50),
            KeyCode::End => Some(0xff57),
            KeyCode::PageUp => Some(0xff55),
            KeyCode::PageDown => Some(0xff56),
            KeyCode::Insert => Some(0xff63),
            KeyCode::Delete => Some(0xffff),
            KeyCode::F(n) => {
                if n >= 1 {
                    Some(0xffbd + n as u32)
                } else {
                    None
                }
            },
            KeyCode::Other => None,
        }
    }

    /// Maps a mouse button to its protocol button code.
    pub fn mouse_button_to_code(button: MouseButton) -> (r: u32)
        ensures
            r == spec_button_code(button),
    {
        match button {
            MouseButton::Left => 0x110,
            MouseButton::Right => 0x111,
            MouseButton::Middle => 0x112,
        }
    }

    /// The translation of one terminal event, given the event timestamp
    /// and, for resize events, the re-queried terminal pixel size (with
    /// the cell heuristic as fallback when the query yields nothing).
    pub open spec fn spec_translate(
        self,
        event: TermEvent,
        time: u32,
        queried: Option<(u32, u32)>,
    ) -> Option<WaylandInputEvent> {
        match event {
            TermEvent::Key { code, ctrl, kind } => {
                if ctrl && (code matches KeyCode::Char(c) && (c == 'c' || c == 'q')) {
                    Some(WaylandInputEvent::Quit)
                } else {
                    match spec_keysym(code) {
                        Option::Some(sym) => Some(
                            WaylandInputEvent::KeyboardKey {
                                keysym: sym,
                                state: match kind {
                                    KeyEventKind::Release => KeyState::Released,
                                    _ => KeyState::Pressed,
                                },
                                time,
                            },
                        ),
                        Option::None => None,
                    }
                }
            },
            TermEvent::Mouse { kind, column, row } => {
                let x = self.spec_cell_to_pixel(column as int, row as int).0 as u64;
                let y = self.spec_cell_to_pixel(column as int, row as int).1 as u64;
                match kind {
                    MouseEventKind::Moved => Some(WaylandInputEvent::PointerMotion { x, y, time }),
                    MouseEventKind::Drag(_) => Some(
                        WaylandInputEvent::PointerMotion { x, y, time },
                    ),
                    MouseEventKind::Down(b) => Some(
                        WaylandInputEvent::PointerButton {
                            button: spec_button_code(b),
                            state: ButtonState::Pressed,
                            time,
                        },
                    ),
                    MouseEventKind::Up(b) => Some(
                        WaylandInputEvent::PointerButton {
                            button: spec_button_code(b),
                            state: ButtonState::Released,
                            time,
                        },
                    ),
                    MouseEventKind::ScrollDown => Some(
                        WaylandInputEvent::PointerAxis { horizontal: 0, vertical: 15, time },
                    ),
                    MouseEventKind::ScrollUp => Some(
                        WaylandInputEvent::PointerAxis { horizontal: 0, vertical: -15i32, time },
                    ),
                    MouseEventKind::ScrollLeft => Some(
                        WaylandInputEvent::PointerAxis { horizontal: -15i32, vertical: 0, time },
                    ),
                    MouseEventKind::ScrollRight => Some(
                        WaylandInputEvent::PointerAxis { horizontal: 15, vertical: 0, time },
                    ),
                }
            },
            TermEvent::Resize { cols, rows } => match queried {
                Option::Some(p) => Some(WaylandInputEvent::Resize { width: p.0, height: p.1 }),
                Option::None => Some(
                    WaylandInputEvent::Resize {
                        width: (cols * 10) as u32,
                        height: (rows * 20) as u32,
                    },
                ),
            },
            TermEvent::Other => None,
        }
    }

    /// Translates one terminal event into a display-server input event.
    /// `time` is the caller's millisecond timestamp; `queried` is the
    /// re-queried pixel size for resize events, `None` when the query
    /// failed.
    pub fn translate_event(
        &self,
        event: TermEvent,
        time: u32,
        queried: Option<(u32, u32)>,
    ) -> (r: Option<WaylandInputEvent>)
        ensures
            r == self.spec_translate(event, time, queried),
    {
        match event {
            TermEvent::Key { code: KeyCode::Char(c), ctrl: true, kind: _ } if c == 'c' || c
                == 'q' => Some(WaylandInputEvent::Quit),
            TermEvent::Key { code, ctrl: _, kind } => {
                match Self::keycode_to_keysym(code) {
                    Some(sym) => {
                        let state = match kind {
                            KeyEventKind::Release => KeyState::Released,
                            _ => KeyState::Pressed,
                        };
                        Some(WaylandInputEvent::KeyboardKey { keysym: sym, state, time })
                    },
                    None => None,
                }
            },
            TermEvent::Mouse { kind, column, row } => {
                let (x, y) = self.cell_to_pixel(column, row);
                match kind {
                    MouseEventKind::Moved | MouseEventKind::Drag(_) => Some(
                        WaylandInputEvent::PointerMotion { x, y, time },
                    ),
                    MouseEventKind::Down(button) => Some(
                        WaylandInputEvent::PointerButton {
                            button: Self::mouse_button_to_code(button),
                            state: ButtonState::Pressed,
                            time,
                        },
                    ),
                    MouseEventKind::Up(button) => Some(
                        WaylandInputEvent::PointerButton {
                            button: Self::mouse_button_to_code(button),
                            state: ButtonState::Released,
                            time,
                        },
                    ),
                    MouseEventKind::ScrollDown => Some(
                        WaylandInputEvent::PointerAxis { horizontal: 0, vertical: 15, time },
                    ),
                    MouseEventKind::ScrollUp => Some(
                        WaylandInputEvent::PointerAxis { horizontal: 0, vertical: -15, time },
                    ),
                    MouseEventKind::ScrollLeft => Some(
                        WaylandInputEvent::PointerAxis { horizontal: -15, vertical: 0, time },
                    ),
                    MouseEventKind::ScrollRight => Some(
                        WaylandInputEvent::PointerAxis { horizontal: 15, vertical: 0, time },
                    ),
                }
            },
            TermEvent::Resize { cols, rows } => {
                match queried {
                    Some(p) => Some(WaylandInputEvent::Resize { width: p.0, height: p.1 }),
                    None => Some(
                        WaylandInputEvent::Resize {
                            width: cols as u32 * 10,
                            height: rows as u32 * 20,
                        },
                    ),
                }
            },
            TermEvent::Other => None,
        }
    }
}

/// The centre of a cell inside the grid always lies inside the pixel
/// area: translated pointer positions stay within
/// `[0, pixel_width) x [0, pixel_height)`.
pub proof fn lemma_cell_to_pixel_in_bounds(t: TerminalInput, col: int, row: int)
    requires
        0 <= col < t.term_width,
        0 <= row < t.term_height,
        t.pixel_width > 0,
        t.pixel_height > 0,
    ensures
        0 <= t.spec_cell_to_pixel(col, row).0 < t.pixel_width,
        0 <= t.spec_cell_to_pixel(col, row).1 < t.pixel_height,
{
    lemma_centre_in_bounds(t.pixel_width as int, t.term_width as int, col);
    lemma_centre_in_bounds(t.pixel_height as int, t.term_height as int, row);
}

/// One axis of the cell-centre bound.
proof fn lemma_centre_in_bounds(pixels: int, cells: int, i: int)
    requires
        0 <= i < cells,
        pixels > 0,
    ensures
        0 <= i * (pixels / cells) + (pixels / cells) / 2 < pixels,
{
    let cw = pixels / cells;
    assert(0 <= cw && cw * cells <= pixels) by (nonlinear_arith)
        requires pixels > 0, cells > 0, cw == pixels / cells;
    assert(0 <= i * cw) by (nonlinear_arith)
        requires 0 <= i, 0 <= cw;
    mul_le(i, cells - 1, cw);
    assert((cells - 1) * cw == cells * cw - cw) by (nonlinear_arith);
    if cw == 0 {
        assert(i * cw == 0) by (nonlinear_arith)
            requires cw == 0;
    } else {
        assert(cw / 2 < cw) by (nonlinear_arith)
            requires cw >= 1;
        assert(i * cw + cw / 2 <= cells * cw - cw + cw / 2);
        assert(cells * cw - cw + cw / 2 < cells * cw);
        assert(cells * cw == cw * cells) by (nonlinear_arith);
        assert(i * cw + cw / 2 < pixels);
    }
}

/// Control-C and Control-Q translate to exactly one `Quit` event each,
/// never to a keyboard event, whatever the key kind and the translator's
/// state.
pub proof fn lemma_quit_gestures(
    t: TerminalInput,
    c: char,
    kind: KeyEventKind,
    time: u32,
    queried: Option<(u32, u32)>,
)
    requires
        c == 'c' || c == 'q',
    ensures
        t.spec_translate(
            TermEvent::Key { code: KeyCode::Char(c), ctrl: true, kind },
            time,
            queried,
        ) == Some(WaylandInputEvent::Quit),
{
}

} // verus!
