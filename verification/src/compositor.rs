//! The compositor's decision core: the tracked top-level list, the run
//! flag, the virtual output's size, the pointer position, the serial
//! counter, and the routing decisions for every input event. The
//! surrounding process performs the protocol-library calls that each
//! returned directive names.

use vstd::prelude::*;

use crate::input::{ButtonState, KeyState, WaylandInputEvent};
use crate::keymap;

verus! {

/// What a newly created or resized top-level is told: its size and its
/// window states.
pub struct ConfigureDirective {
    pub width: u32,
    pub height: u32,
    pub activated: bool,
    pub maximized: bool,
}

/// The protocol action that one input event calls for; the serial values
/// are drawn from the core's counter.
pub enum InputDirective {
    /// Move the pointer over the target surface (none when no top-level
    /// is alive) to the given position.
    Motion { target: Option<u64>, x: u64, y: u64, time: u32, serial: u64 },
    /// Press or release a pointer button.
    Button { button: u32, pressed: bool, time: u32, serial: u64 },
    /// Scroll by the given axis amounts.
    Axis { horizontal: i32, vertical: i32, time: u32 },
    /// Press or release a key, already mapped to its physical code.
    Key { keycode: u32, pressed: bool, time: u32, serial: u64 },
    /// The output was resized; every tracked top-level needs a new
    /// configure with the core's current size.
    Resized,
    /// Stop the event loop.
    Quit,
}

/// The compositor state this crate decides over: everything else (the
/// protocol-library objects) lives with the surrounding process, which
/// identifies each top-level's root surface by an opaque handle.
pub struct CompositorCore {
    /// The event loop runs while this holds.
    pub running: bool,
    /// Root-surface handles of the tracked top-levels, in creation
    /// order; only the first is rendered and focused.
    pub toplevels: Vec<u64>,
    /// The virtual output's current width in pixels.
    pub term_width: u32,
    /// The virtual output's current height in pixels.
    pub term_height: u32,
    /// The last pointer position routed to a client.
    pub pointer_x: u64,
    /// The last pointer position routed to a client.
    pub pointer_y: u64,
    /// The process-wide serial counter; each routed event draws the
    /// next value.
    pub serial: u64,
}

impl CompositorCore {
    /// A fresh core for a virtual output of the given size: running, no
    /// top-levels, pointer at the origin.
    pub fn new(term_width: u32, term_height: u32) -> (r: CompositorCore)
        ensures
            r.running,
            r.toplevels@ == Seq::<u64>::empty(),
            r.term_width == term_width,
            r.term_height == term_height,
            r.pointer_x == 0,
            r.pointer_y == 0,
            r.serial == 0,
    {
        CompositorCore {
            running: true,
            toplevels: Vec::new(),
            term_width: term_width,
            term_height: term_height,
            pointer_x: 0,
            pointer_y: 0,
            serial: 0,
        }
    }

    /// Draws the next serial.
    pub fn next_serial(&mut self) -> (r: u64)
        requires
            old(self).serial < u64::MAX,
        ensures
            final(self).serial == old(self).serial + 1,
            r == final(self).serial,
            final(self).running == old(self).running,
            final(self).toplevels == old(self).toplevels,
            final(self).term_width == old(self).term_width,
            final(self).term_height == old(self).term_height,
            final(self).pointer_x == old(self).pointer_x,
            final(self).pointer_y == old(self).pointer_y,
    {
        self.serial = self.serial + 1;
        self.serial
    }

    /// Tracks a new top-level and says how to configure it: the virtual
    /// output's full size with the activated and maximized states; the
    /// new top-level also receives keyboard focus.
    pub fn new_toplevel(&mut self, surface: u64) -> (r: ConfigureDirective)
        ensures
            final(self).toplevels@ == old(self).toplevels@.push(surface),
            r.width == old(self).term_width,
            r.height == old(self).term_height,
            r.activated,
            r.maximized,
            final(self).running == old(self).running,
            final(self).term_width == old(self).term_width,
            final(self).term_height == old(self).term_height,
            final(self).serial == old(self).serial,
    {
        self.toplevels.push(surface);
        ConfigureDirective {
            width: self.term_width,
            height: self.term_height,
            activated: true,
            maximized: true,
        }
    }

    /// Stops tracking a destroyed top-level; when none remain, the event
    /// loop is asked to stop.
    pub fn toplevel_destroyed(&mut self, surface: u64)
        ensures
            final(self).toplevels@ == old(self).toplevels@.filter(|t: u64| t != surface),
            final(self).running == (if final(self).toplevels@.len() == 0 {
                false
            } else {
                old(self).running
            }),
            final(self).term_width == old(self).term_width,
            final(self).term_height == old(self).term_height,
            final(self).serial == old(self).serial,
    {
        let mut kept: Vec<u64> = Vec::new();
        let mut i: usize = 0;
        while i < self.toplevels.len()
            invariant
                0 <= i <= self.toplevels@.len(),
                kept@ == self.toplevels@.take(i as int).filter(|t: u64| t != surface),
            decreases self.toplevels@.len() - i,
        {
            let t = self.toplevels[i];
            if t != surface {
                kept.push(t);
            }
            proof {
                let s = self.toplevels@;
                let pred = |t: u64| t != surface;
                let single = seq![s[i as int]];
                assert(s.take(i as int + 1) =~= s.take(i as int) + single);
                Seq::<u64>::filter_distributes_over_add(s.take(i as int), single, pred);
                reveal(Seq::filter);
                assert(single.drop_last() =~= Seq::<u64>::empty());
                assert(single.drop_last().filter(pred) == Seq::<u64>::empty());
                assert(single.filter(pred) == (if pred(s[i as int]) {
                    single
                } else {
                    Seq::<u64>::empty()
                }));
                if t != surface {
                    assert(kept@ =~= s.take(i as int).filter(pred) + single);
                } else {
                    assert(kept@ =~= s.take(i as int).filter(pred) + Seq::<u64>::empty());
                }
                assert(kept@ == s.take(i as int + 1).filter(pred));
            }
            i = i + 1;
        }
        proof {
            assert(self.toplevels@.take(self.toplevels@.len() as int) =~= self.toplevels@);
        }
        self.toplevels = kept;
        if self.toplevels.len() == 0 {
            self.running = false;
        }
    }

    /// The surface under the pointer: the first top-level's root (at
    /// offset zero), if any is tracked. The surrounding process still
    /// checks that the surface is alive before routing to it.
    pub fn surface_under_pointer(&self) -> (r: Option<u64>)
        ensures
            r == (if self.toplevels@.len() > 0 {
                Some(self.toplevels@[0])
            } else {
                None::<u64>
            }),
    {
        if self.toplevels.len() > 0 {
            Some(self.toplevels[0])
        } else {
            None
        }
    }

    /// Whether a committing root surface belongs to a tracked top-level:
    /// only then is its buffer captured and are frame callbacks sent.
    pub fn commit_is_tracked(&self, root: u64) -> (r: bool)
        ensures
            r <==> self.toplevels@.contains(root),
    {
        let mut i: usize = 0;
        while i < self.toplevels.len()
            invariant
                0 <= i <= self.toplevels@.len(),
                forall|j: int| 0 <= j < i ==> self.toplevels@[j] != root,
            decreases self.toplevels@.len() - i,
        {
            if self.toplevels[i] == root {
                assert(self.toplevels@.contains(root));
                return true;
            }
            i = i + 1;
        }
        false
    }

    /// Applies a resize: the virtual output takes the new size, and the
    /// caller sends every tracked top-level a configure with it.
    pub fn resize_output(&mut self, width: u32, height: u32)
        ensures
            final(self).term_width == width,
            final(self).term_height == height,
            final(self).toplevels == old(self).toplevels,
            final(self).running == old(self).running,
            final(self).serial == old(self).serial,
            final(self).pointer_x == old(self).pointer_x,
            final(self).pointer_y == old(self).pointer_y,
    {
        self.term_width = width;
        self.term_height = height;
    }

    /// Routes one translated input event: updates the core's state and
    /// returns the protocol action the surrounding process performs.
    /// Every event draws one serial, as the process-wide counter does.
    pub fn handle_input_event(&mut self, event: WaylandInputEvent) -> (r: InputDirective)
        requires
            old(self).serial < u64::MAX,
        ensures
            final(self).serial == old(self).serial + 1,
            event matches WaylandInputEvent::PointerMotion { x, y, time } ==> {
                &&& final(self).pointer_x == x
                &&& final(self).pointer_y == y
                &&& r matches InputDirective::Motion { target, x: rx, y: ry, time: rt, serial }
                    && target == (if old(self).toplevels@.len() > 0 {
                        Some(old(self).toplevels@[0])
                    } else {
                        None::<u64>
                    }) && rx == x && ry == y && rt == time && serial == old(self).serial + 1
                &&& final(self).running == old(self).running
                &&& final(self).toplevels == old(self).toplevels
            },
            event matches WaylandInputEvent::PointerButton { button, state, time } ==> {
                &&& r matches InputDirective::Button { button: rb, pressed, time: rt, serial }
                    && rb == button && pressed == (state is Pressed) && rt == time
                    && serial == old(self).serial + 1
                &&& final(self).running == old(self).running
                &&& final(self).toplevels == old(self).toplevels
            },
            event matches WaylandInputEvent::PointerAxis { horizontal, vertical, time } ==> {
                &&& r matches InputDirective::Axis { horizontal: rh, vertical: rv, time: rt }
                    && rh == horizontal && rv == vertical && rt == time
                &&& final(self).running == old(self).running
                &&& final(self).toplevels == old(self).toplevels
            },
            event matches WaylandInputEvent::KeyboardKey { keysym, state, time } ==> {
                &&& r matches InputDirective::Key { keycode, pressed, time: rt, serial }
                    && keycode == keymap::spec_keycode(keysym) && pressed == (state is Pressed)
                    && rt == time && serial == old(self).serial + 1
                &&& final(self).running == old(self).running
                &&& final(self).toplevels == old(self).toplevels
            },
            event matches WaylandInputEvent::Resize { width, height } ==> {
                &&& r is Resized
                &&& final(self).term_width == width
                &&& final(self).term_height == height
                &&& final(self).running == old(self).running
                &&& final(self).toplevels == old(self).toplevels
            },
            event is Quit ==> {
                &&& r is Quit
                &&& !final(self).running
                &&& final(self).toplevels == old(self).toplevels
            },
    {
        let serial = self.next_serial();
        match event {
            WaylandInputEvent::PointerMotion { x, y, time } => {
                self.pointer_x = x;
                self.pointer_y = y;
                let target = self.surface_under_pointer();
                InputDirective::Motion { target, x, y, time, serial }
            },
            WaylandInputEvent::PointerButton { button, state, time } => {
                let pressed = match state {
                    ButtonState::Pressed => true,
                    ButtonState::Released => false,
                };
                InputDirective::Button { button, pressed, time, serial }
            },
            WaylandInputEvent::PointerAxis { horizontal, vertical, time } => {
                InputDirective::Axis { horizontal, vertical, time }
            },
            WaylandInputEvent::KeyboardKey { keysym, state, time } => {
                let keycode = keymap::keysym_to_keycode(keysym);
                let pressed = match state {
                    KeyState::Pressed => true,
                    KeyState::Released => false,
                };
                InputDirective::Key { keycode, pressed, time, serial }
            },
            WaylandInputEvent::Resize { width, height } => {
                self.resize_output(width, height);
                InputDirective::Resized
            },
            WaylandInputEvent::Quit => {
                self.running = false;
                InputDirective::Quit
            },
        }
    }
}

} // verus!
