//! Core of a terminal-embedded display server: it captures a client's
//! shared-memory pixel buffers, encodes them into the terminal's graphics
//! escape protocol, and translates terminal key and mouse input back into
//! display-server input events.
//!
//! The surrounding process (socket handling, the protocol library, raw-mode
//! terminal I/O) lives outside this crate; this crate holds the data model
//! and the decision and encoding logic, each function with a contract.

use vstd::prelude::*;

pub mod arith;
pub mod b64;
pub mod compositor;
pub mod frame;
pub mod input;
pub mod keymap;
pub mod kitty;
pub mod scale;

verus! {

/// Virtual display size derived from the terminal's pixel size: each
/// dimension is divided by the scale factor.
pub fn virtual_size(pixel_width: u32, pixel_height: u32, scale: u32) -> (r: (u32, u32))
    requires
        scale > 0,
    ensures
        r.0 == pixel_width as int / scale as int,
        r.1 == pixel_height as int / scale as int,
{
    (pixel_width / scale, pixel_height / scale)
}

} // verus!
