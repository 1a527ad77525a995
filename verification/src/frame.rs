//! Frame capture: decoding a client's shared-memory pixel buffer into a
//! normalized, tightly packed RGBA frame, and the single pending-frame slot
//! that carries the most recent frame to the render tick.

use vstd::prelude::*;

use crate::arith::{lemma_pixel_index, mul_le};

verus! {

/// A captured pixel frame: RGBA order, 4 bytes per pixel, row-major,
/// tightly packed (no stride padding).
#[derive(Clone)]
pub struct FrameData {
    pub width: u32,
    pub height: u32,
    /// RGBA bytes; a well-formed frame has `width * height * 4` of them.
    pub data: Vec<u8>,
}

impl FrameData {
    /// A frame's byte length always equals `width * height * 4`.
    pub open spec fn wf(self) -> bool {
        self.data@.len() == self.width * self.height * 4
    }
}

/// The byte at position `i` of the captured output for a source buffer
/// laid out in memory as `B, G, R, X` per pixel with the given stride:
/// output pixels are emitted in `R, G, B, X` order.
pub open spec fn spec_captured_byte(
    pool: Seq<u8>,
    offset: int,
    width: int,
    stride: int,
    i: int,
) -> u8 {
    let p = i / 4;
    let c = i % 4;
    let y = p / width;
    let x = p % width;
    let base = offset + y * stride + x * 4;
    if c == 0 {
        pool[base + 2]
    } else if c == 1 {
        pool[base + 1]
    } else if c == 2 {
        pool[base]
    } else {
        pool[base + 3]
    }
}

/// The full captured byte stream for a valid source window.
pub open spec fn spec_capture(
    pool: Seq<u8>,
    offset: int,
    width: int,
    height: int,
    stride: int,
) -> Seq<u8> {
    Seq::new((width * height * 4) as nat, |i: int| spec_captured_byte(pool, offset, width, stride, i))
}

/// Whether the declared window lies inside the pool and each row holds
/// its pixels: the one validation the capture path performs.
pub open spec fn spec_capture_valid(
    pool_len: int,
    offset: int,
    width: int,
    height: int,
    stride: int,
) -> bool {
    &&& 4 * width <= stride
    &&& offset + height * stride <= pool_len
}

/// Decodes one committed shared-memory buffer into a tightly packed RGBA
/// frame. The buffer is the window of `pool` described by `offset`,
/// `width`, `height` and `stride`, holding little-endian `XRGB8888`
/// pixels (`B, G, R, X` in memory order). Returns `None` exactly when the
/// window does not fit the pool or the stride cannot hold a row.
pub fn capture_frame(
    pool: &[u8],
    offset: usize,
    width: u32,
    height: u32,
    stride: u32,
) -> (r: Option<FrameData>)
    ensures
        r is Some <==> spec_capture_valid(
            pool@.len() as int,
            offset as int,
            width as int,
            height as int,
            stride as int,
        ),
        r is Some ==> {
            &&& r->Some_0.width == width
            &&& r->Some_0.height == height
            &&& r->Some_0.data@ == spec_capture(
                pool@,
                offset as int,
                width as int,
                height as int,
                stride as int,
            )
            &&& r->Some_0.wf()
        },
{
    if (stride as u64) < 4 * (width as u64) {
        return None;
    }
    proof {
        assert((height as int) * (stride as int) < 0x1_0000_0000_0000_0000) by (nonlinear_arith)
            requires height < 0x1_0000_0000, stride < 0x1_0000_0000;
    }
    let need: u64 = (height as u64) * (stride as u64);
    if (offset as u128) + (need as u128) > pool.len() as u128 {
        return None;
    }
    let mut data: Vec<u8> = Vec::new();
    let mut y: u32 = 0;
    while y < height
        invariant
            0 <= y <= height,
            4 * (width as int) <= stride as int,
            offset + height * stride <= pool@.len(),
            pool@.len() <= usize::MAX,
            data@.len() == y * width * 4,
            forall|i: int|
                0 <= i < data@.len() ==> data@[i] == spec_captured_byte(
                    pool@, offset as int, width as int, stride as int, i),
        decreases height - y,
    {
        proof {
            mul_le(y as int, height as int - 1, stride as int);
            mul_le(height as int - 1, height as int, stride as int);
        }
        let row_base: usize = offset + (y as usize) * (stride as usize);
        let mut x: u32 = 0;
        while x < width
            invariant
                0 <= x <= width,
                0 <= y < height,
                4 * (width as int) <= stride as int,
                offset + height * stride <= pool@.len(),
                pool@.len() <= usize::MAX,
                row_base == offset + y * stride,
                data@.len() == (y * width + x) * 4,
                forall|i: int|
                    0 <= i < data@.len() ==> data@[i] == spec_captured_byte(
                        pool@, offset as int, width as int, stride as int, i),
            decreases width - x,
        {
            proof {
                mul_le(y as int + 1, height as int, stride as int);
                assert(4 * x + 4 <= stride) by {
                    assert(4 * (x as int + 1) <= 4 * (width as int)) by (nonlinear_arith)
                        requires x as int + 1 <= width as int;
                };
                assert(y * stride + stride == (y + 1) * stride) by (nonlinear_arith);
                assert(row_base + (x as int) * 4 + 4 <= offset + (y + 1) * stride);
                assert(offset + (y + 1) * stride <= offset + height * stride);
            }
            let base: usize = row_base + (x as usize) * 4;
            let b = pool[base];
            let g = pool[base + 1];
            let r = pool[base + 2];
            let a = pool[base + 3];
            data.push(r);
            data.push(g);
            data.push(b);
            data.push(a);
            proof {
                let p = y * (width as int) + x;
                lemma_pixel_index(width as int, y as int, x as int);
                assert forall|i: int| 0 <= i < data@.len() implies data@[i]
                    == spec_captured_byte(pool@, offset as int, width as int, stride as int, i) by {
                    if i == p * 4 || i == p * 4 + 1 || i == p * 4 + 2 || i == p * 4 + 3 {
                    }
                }
                assert((y * (width as int) + x + 1) * 4 == (y * (width as int) + x) * 4 + 4)
                    by (nonlinear_arith);
            }
            x = x + 1;
        }
        proof {
            assert((y + 1) * (width as int) * 4 == (y * (width as int) + width) * 4)
                by (nonlinear_arith);
        }
        y = y + 1;
    }
    proof {
        assert(width * height * 4 == height * width * 4) by (nonlinear_arith);
        assert(data@ =~= spec_capture(
            pool@, offset as int, width as int, height as int, stride as int));
    }
    Some(FrameData { width, height, data })
}

/// The mutex-guarded pending-frame option of the render path, holding at
/// most one frame: writers overwrite, the reader takes and leaves it
/// empty. (The surrounding process supplies the mutex; this is the state
/// it guards.)
pub struct PendingFrameSlot {
    pub frame: Option<FrameData>,
}

impl PendingFrameSlot {
    /// A fresh slot holds no frame.
    pub fn new() -> (r: PendingFrameSlot)
        ensures
            r.frame is None,
    {
        PendingFrameSlot { frame: None }
    }

    /// Stores a frame, dropping any frame still pending: most recent wins.
    pub fn push(&mut self, f: FrameData)
        ensures
            final(self).frame == Some(f),
    {
        self.frame = Some(f);
    }

    /// Takes the pending frame, if any, leaving the slot empty.
    pub fn take(&mut self) -> (r: Option<FrameData>)
        ensures
            r == old(self).frame,
            final(self).frame is None,
    {
        self.frame.take()
    }
}

/// The slot's contents after pushing `frames` in order onto a slot that
/// held `init`.
pub open spec fn slot_after_pushes(
    init: Option<FrameData>,
    frames: Seq<FrameData>,
) -> Option<FrameData>
    decreases frames.len(),
{
    if frames.len() == 0 {
        init
    } else {
        slot_after_pushes(Some(frames.first()), frames.drop_first())
    }
}

/// After any non-empty sequence of pushes, one take yields exactly the
/// last frame pushed; earlier frames are dropped.
pub proof fn lemma_take_after_pushes(init: Option<FrameData>, frames: Seq<FrameData>)
    requires
        frames.len() > 0,
    ensures
        slot_after_pushes(init, frames) == Some(frames.last()),
    decreases frames.len(),
{
    if frames.len() == 1 {
        assert(frames.drop_first().len() == 0);
        assert(slot_after_pushes(Some(frames.first()), frames.drop_first())
            == Some(frames.first()));
    } else {
        lemma_take_after_pushes(Some(frames.first()), frames.drop_first());
        assert(frames.drop_first().last() == frames.last());
    }
}

/// The byte at position `i` of the demonstration gradient: `XRGB8888`
/// pixels in memory order `B, G, R, X` with full red, a green gradient
/// down the rows, and an opaque `X` byte.
pub open spec fn spec_gradient_byte(height: int, width: int, i: int) -> u8 {
    let c = i % 4;
    let y = (i / 4) / width;
    if c == 0 {
        0u8
    } else if c == 1 {
        ((y * 255) / height) as u8
    } else {
        255u8
    }
}

/// The demonstration client's buffer contents: a red gradient, one
/// `XRGB8888` pixel per cell, tightly packed rows.
pub open spec fn spec_gradient(width: int, height: int) -> Seq<u8> {
    Seq::new((width * height * 4) as nat, |i: int| spec_gradient_byte(height, width, i))
}

/// Fills the demonstration client's buffer with a red gradient.
pub fn gradient_buffer(width: u32, height: u32) -> (r: Vec<u8>)
    requires
        height > 0,
        width * height * 4 <= usize::MAX,
    ensures
        r@ == spec_gradient(width as int, height as int),
        r@.len() == width * height * 4,
{
    let mut data: Vec<u8> = Vec::new();
    let mut y: u32 = 0;
    while y < height
        invariant
            0 <= y <= height,
            height > 0,
            width * height * 4 <= usize::MAX,
            data@.len() == y * width * 4,
            forall|i: int|
                0 <= i < data@.len() ==> data@[i] == spec_gradient_byte(
                    height as int, width as int, i),
        decreases height - y,
    {
        proof {
            assert(y * 255 < height * 255 && (y as int) * 255 / (height as int) < 255)
                by (nonlinear_arith)
                requires 0 <= (y as int) < height as int;
        }
        let green: u8 = (((y as u64) * 255) / (height as u64)) as u8;
        let mut x: u32 = 0;
        while x < width
            invariant
                0 <= x <= width,
                0 <= y < height,
                height > 0,
                width * height * 4 <= usize::MAX,
                green == (y * 255) / (height as int),
                data@.len() == (y * width + x) * 4,
                forall|i: int|
                    0 <= i < data@.len() ==> data@[i] == spec_gradient_byte(
                        height as int, width as int, i),
            decreases width - x,
        {
            proof {
                assert((y * (width as int) + x) * 4 + 4 <= width * height * 4)
                    by (nonlinear_arith)
                    requires 0 <= x < width as int, 0 <= y < height as int;
            }
            data.push(0);
            data.push(green);
            data.push(255);
            data.push(255);
            proof {
                let p = y * (width as int) + x;
                lemma_pixel_index(width as int, y as int, x as int);
                assert forall|i: int| 0 <= i < data@.len() implies data@[i]
                    == spec_gradient_byte(height as int, width as int, i) by {
                    if i == p * 4 || i == p * 4 + 1 || i == p * 4 + 2 || i == p * 4 + 3 {
                    }
                }
                assert((y * (width as int) + x + 1) * 4 == (y * (width as int) + x) * 4 + 4)
                    by (nonlinear_arith);
            }
            x = x + 1;
        }
        proof {
            assert((y + 1) * (width as int) * 4 == (y * (width as int) + width) * 4)
                by (nonlinear_arith);
        }
        y = y + 1;
    }
    proof {
        assert(width * height * 4 == height * width * 4) by (nonlinear_arith);
        assert(data@ =~= spec_gradient(width as int, height as int));
    }
    data
}

} // verus!
