//! The terminal graphics encoder: frames a pixel array as the terminal's
//! in-band graphics escape sequence, base64-encoded and split into chunks
//! of at most 4096 payload bytes, with per-frame image-identifier cycling
//! and a delete-all control when the displayed size changes.

use vstd::prelude::*;

use crate::b64::{b64_encode, lemma_base64_round_trip, spec_base64, spec_base64_decode};
use crate::scale::{scale_image, spec_scaled};

verus! {

/// Payload bytes per escape-sequence chunk.
pub const CHUNK_SIZE: usize = 4096;

/// Largest width the terminal is asked to display.
pub const MAX_DISPLAY_WIDTH: u32 = 1920;

/// Largest height the terminal is asked to display.
pub const MAX_DISPLAY_HEIGHT: u32 = 1080;

/// The decimal digits of `n`, most significant first.
pub open spec fn spec_dec(n: int) -> Seq<u8>
    decreases n,
{
    if n < 10 {
        seq![(48 + n) as u8]
    } else {
        spec_dec(n / 10) + seq![(48 + n % 10) as u8]
    }
}

/// Appends the decimal digits of `n`.
fn push_dec(out: &mut Vec<u8>, n: u32)
    ensures
        final(out)@ == old(out)@ + spec_dec(n as int),
    decreases n,
{
    if n >= 10 {
        push_dec(out, n / 10);
    }
    out.push(48 + (n % 10) as u8);
    proof {
        if n < 10 {
            assert(final(out)@ =~= old(out)@ + spec_dec(n as int));
        } else {
            assert(final(out)@ =~= old(out)@ + (spec_dec(n as int / 10) + seq![
                (48 + n as int % 10) as u8,
            ]));
        }
    }
}

/// The delete-all-images control sequence.
pub open spec fn spec_delete_all() -> Seq<u8> {
    seq![27u8, 95, 71, 97, 61, 100, 59, 27, 92]
}

/// The cursor-to-top-left control sequence.
pub open spec fn spec_home() -> Seq<u8> {
    seq![27u8, 91, 72]
}

/// Appends the delete-all-images control sequence.
fn push_delete_all(out: &mut Vec<u8>)
    ensures
        final(out)@ == old(out)@ + spec_delete_all(),
{
    out.push(27);
    out.push(95);
    out.push(71);
    out.push(97);
    out.push(61);
    out.push(100);
    out.push(59);
    out.push(27);
    out.push(92);
    proof {
        assert(final(out)@ =~= old(out)@ + spec_delete_all());
    }
}

/// Appends the cursor-to-top-left control sequence.
fn push_home(out: &mut Vec<u8>)
    ensures
        final(out)@ == old(out)@ + spec_home(),
{
    out.push(27);
    out.push(91);
    out.push(72);
    proof {
        assert(final(out)@ =~= old(out)@ + spec_home());
    }
}

/// The first chunk's framing: transmit-and-display action, 32-bit RGBA
/// format, source width and height, more-chunks flag, image identifier,
/// and response suppression, then the payload chunk.
pub open spec fn spec_first_header(w: int, h: int, more: bool, id: int) -> Seq<u8> {
    seq![27u8, 95, 71, 97, 61, 84, 44, 102, 61, 51, 50, 44, 115, 61] + spec_dec(w) + seq![
        44u8,
        118,
        61,
    ] + spec_dec(h) + seq![44u8, 109, 61] + seq![if more { 49u8 } else { 48u8 }] + seq![
        44u8,
        105,
        61,
    ] + spec_dec(id) + seq![44u8, 113, 61, 50, 59]
}

/// A continuation chunk's framing: only the more-chunks flag.
pub open spec fn spec_cont_header(more: bool) -> Seq<u8> {
    seq![27u8, 95, 71, 109, 61] + seq![if more { 49u8 } else { 48u8 }] + seq![59u8]
}

/// The escape terminator that closes every chunk.
pub open spec fn spec_chunk_tail() -> Seq<u8> {
    seq![27u8, 92]
}

/// Appends the first chunk's parameter header.
fn push_first_header(out: &mut Vec<u8>, w: u32, h: u32, more: bool, id: u32)
    ensures
        final(out)@ == old(out)@ + spec_first_header(w as int, h as int, more, id as int),
{
    out.push(27);
    out.push(95);
    out.push(71);
    out.push(97);
    out.push(61);
    out.push(84);
    out.push(44);
    out.push(102);
    out.push(61);
    out.push(51);
    out.push(50);
    out.push(44);
    out.push(115);
    out.push(61);
    push_dec(out, w);
    out.push(44);
    out.push(118);
    out.push(61);
    push_dec(out, h);
    out.push(44);
    out.push(109);
    out.push(61);
    out.push(if more { 49 } else { 48 });
    out.push(44);
    out.push(105);
    out.push(61);
    push_dec(out, id);
    out.push(44);
    out.push(113);
    out.push(61);
    out.push(50);
    out.push(59);
    proof {
        assert(final(out)@ =~= old(out)@ + spec_first_header(
            w as int, h as int, more, id as int));
    }
}

/// Appends a continuation chunk's header.
fn push_cont_header(out: &mut Vec<u8>, more: bool)
    ensures
        final(out)@ == old(out)@ + spec_cont_header(more),
{
    out.push(27);
    out.push(95);
    out.push(71);
    out.push(109);
    out.push(61);
    out.push(if more { 49 } else { 48 });
    out.push(59);
    proof {
        assert(final(out)@ =~= old(out)@ + spec_cont_header(more));
    }
}

/// Appends the chunk terminator.
fn push_chunk_tail(out: &mut Vec<u8>)
    ensures
        final(out)@ == old(out)@ + spec_chunk_tail(),
{
    out.push(27);
    out.push(92);
    proof {
        assert(final(out)@ =~= old(out)@ + spec_chunk_tail());
    }
}

/// The payload split into chunks of at most `k` bytes, in order; an empty
/// payload yields no chunks.
pub open spec fn spec_chunks(s: Seq<u8>, k: int) -> Seq<Seq<u8>>
    decreases s.len()
    when k >= 1
{
    if s.len() == 0 {
        Seq::empty()
    } else if s.len() <= k {
        seq![s]
    } else {
        seq![s.take(k)] + spec_chunks(s.skip(k), k)
    }
}

/// Concatenating the chunks gives back the payload.
pub proof fn lemma_chunks_flatten(s: Seq<u8>, k: int)
    requires
        k >= 1,
    ensures
        spec_chunks(s, k).flatten() == s,
    decreases s.len(),
{
    if s.len() == 0 {
        assert(spec_chunks(s, k).flatten() =~= s);
    } else if s.len() <= k {
        let t = seq![s].drop_first();
        assert(t.len() == 0);
        assert(t.flatten() == Seq::<u8>::empty());
        assert(seq![s].flatten() =~= s);
    } else {
        lemma_chunks_flatten(s.skip(k), k);
        let chunks = spec_chunks(s, k);
        assert(chunks == seq![s.take(k)] + spec_chunks(s.skip(k), k));
        assert(chunks.first() == s.take(k));
        assert(chunks.drop_first() =~= spec_chunks(s.skip(k), k));
        assert(s.take(k) + s.skip(k) =~= s);
    }
}

/// The full escape stream for a chunk list: the first chunk framed with
/// all parameters, later chunks framed with only the more-chunks flag,
/// which is set on every chunk but the last.
pub open spec fn spec_stream(chunks: Seq<Seq<u8>>, first: bool, w: int, h: int, id: int) -> Seq<u8>
    decreases chunks.len(),
{
    if chunks.len() == 0 {
        Seq::empty()
    } else {
        let more = chunks.len() > 1;
        let head = if first {
            spec_first_header(w, h, more, id)
        } else {
            spec_cont_header(more)
        };
        head + chunks[0] + spec_chunk_tail() + spec_stream(chunks.drop_first(), false, w, h, id)
    }
}

/// The full escape stream for a payload.
pub open spec fn spec_frame_stream(w: int, h: int, id: int, payload: Seq<u8>) -> Seq<u8> {
    spec_stream(spec_chunks(payload, CHUNK_SIZE as int), true, w, h, id)
}

/// Builds the chunked escape stream for an already-encoded payload.
#[verifier::rlimit(60)]
fn frame_stream(payload: &Vec<u8>, w: u32, h: u32, id: u32) -> (r: Vec<u8>)
    ensures
        r@ == spec_frame_stream(w as int, h as int, id as int, payload@),
{
    let len = payload.len();
    let mut out: Vec<u8> = Vec::new();
    let mut pos: usize = 0;
    proof {
        assert(payload@.skip(0) =~= payload@);
    }
    while pos < len
        invariant
            0 <= pos <= len,
            len == payload@.len(),
            out@ + spec_stream(
                spec_chunks(payload@.skip(pos as int), CHUNK_SIZE as int),
                pos == 0, w as int, h as int, id as int,
            ) == spec_stream(
                spec_chunks(payload@, CHUNK_SIZE as int),
                true, w as int, h as int, id as int,
            ),
        decreases len - pos,
    {
        let ghost out_entry = out@;
        let ghost s = payload@.skip(pos as int);
        let ghost chunks = spec_chunks(s, CHUNK_SIZE as int);
        let more = len - pos > CHUNK_SIZE;
        let end = if more {
            pos + CHUNK_SIZE
        } else {
            len
        };
        let ghost first = pos == 0;
        let ghost head: Seq<u8> = if first {
            spec_first_header(w as int, h as int, more, id as int)
        } else {
            spec_cont_header(more)
        };
        proof {
            if more {
                assert(chunks == seq![s.take(CHUNK_SIZE as int)] + spec_chunks(
                    s.skip(CHUNK_SIZE as int), CHUNK_SIZE as int));
                assert(chunks.drop_first() =~= spec_chunks(
                    s.skip(CHUNK_SIZE as int), CHUNK_SIZE as int));
                assert(spec_chunks(s.skip(CHUNK_SIZE as int), CHUNK_SIZE as int).len() >= 1);
            } else {
                assert(chunks == seq![s]);
                assert(chunks.drop_first() =~= Seq::<Seq<u8>>::empty());
            }
        }
        if pos == 0 {
            push_first_header(&mut out, w, h, more, id);
        } else {
            push_cont_header(&mut out, more);
        }
        proof {
            assert(out@ == out_entry + head);
        }
        let ghost mid = out@;
        let mut j = pos;
        while j < end
            invariant
                pos <= j <= end <= payload@.len(),
                out@ == mid + payload@.subrange(pos as int, j as int),
            decreases end - j,
        {
            let b = payload[j];
            out.push(b);
            proof {
                assert(out@ =~= mid + payload@.subrange(pos as int, j as int + 1));
            }
            j = j + 1;
        }
        push_chunk_tail(&mut out);
        proof {
            let chunk0 = chunks[0];
            assert(chunk0 =~= payload@.subrange(pos as int, end as int));
            if more {
                assert(s.skip(CHUNK_SIZE as int) =~= payload@.skip(end as int));
            } else {
                assert(payload@.skip(end as int) =~= Seq::<u8>::empty());
            }
            assert(chunks.drop_first() =~= spec_chunks(
                payload@.skip(end as int), CHUNK_SIZE as int));
            let rest = spec_stream(chunks.drop_first(), false, w as int, h as int, id as int);
            assert(spec_stream(chunks, first, w as int, h as int, id as int)
                == head + chunk0 + spec_chunk_tail() + rest);
            assert(out@ == mid + chunk0 + spec_chunk_tail());
            assert(out@ + rest =~= out_entry + spec_stream(
                chunks, first, w as int, h as int, id as int));
            assert(end > 0);
        }
        pos = end;
    }
    proof {
        assert(payload@.skip(pos as int).len() == 0);
        assert(spec_chunks(payload@.skip(pos as int), CHUNK_SIZE as int)
            == Seq::<Seq<u8>>::empty());
        assert(out@ =~= out@ + spec_stream(
            spec_chunks(payload@.skip(pos as int), CHUNK_SIZE as int),
            pos == 0, w as int, h as int, id as int,
        ));
    }
    out
}

/// The size actually displayed: the frame itself while it fits the
/// ceiling, otherwise the largest size inside the ceiling with the same
/// aspect ratio. A frame with no pixels keeps an empty dimension.
pub open spec fn spec_display_dims(w: int, h: int) -> (int, int) {
    if w <= MAX_DISPLAY_WIDTH && h <= MAX_DISPLAY_HEIGHT {
        (w, h)
    } else if h == 0 {
        (MAX_DISPLAY_WIDTH as int, 0)
    } else if w == 0 {
        (0, MAX_DISPLAY_HEIGHT as int)
    } else if MAX_DISPLAY_WIDTH * h <= MAX_DISPLAY_HEIGHT * w {
        (MAX_DISPLAY_WIDTH as int, h * MAX_DISPLAY_WIDTH / w)
    } else {
        (w * MAX_DISPLAY_HEIGHT / h, MAX_DISPLAY_HEIGHT as int)
    }
}

/// The pixel bytes actually displayed: the frame itself while it fits
/// the ceiling, otherwise its bilinear downscale.
pub open spec fn spec_display_data(w: int, h: int, data: Seq<u8>) -> Seq<u8> {
    let dims = spec_display_dims(w, h);
    if w <= MAX_DISPLAY_WIDTH && h <= MAX_DISPLAY_HEIGHT {
        data
    } else if dims.0 == 0 || dims.1 == 0 {
        Seq::empty()
    } else {
        spec_scaled(data, w, h, dims.0, dims.1)
    }
}

/// The displayed size never exceeds the ceiling.
pub proof fn lemma_display_dims_bounds(w: int, h: int)
    requires
        0 <= w,
        0 <= h,
    ensures
        0 <= spec_display_dims(w, h).0 <= MAX_DISPLAY_WIDTH,
        0 <= spec_display_dims(w, h).1 <= MAX_DISPLAY_HEIGHT,
{
    if w <= MAX_DISPLAY_WIDTH && h <= MAX_DISPLAY_HEIGHT {
    } else if h == 0 || w == 0 {
    } else if MAX_DISPLAY_WIDTH * h <= MAX_DISPLAY_HEIGHT * w {
        assert(0 <= h * (MAX_DISPLAY_WIDTH as int) / w <= MAX_DISPLAY_HEIGHT) by (nonlinear_arith)
            requires 1 <= w, 1 <= h, 1920 * h <= 1080 * w;
    } else {
        assert(0 <= w * (MAX_DISPLAY_HEIGHT as int) / h <= MAX_DISPLAY_WIDTH) by (nonlinear_arith)
            requires 1 <= w, 1 <= h, 1920 * h > 1080 * w;
    }
}

/// The identifier for the next frame: the previous one plus one, cycling
/// within `1..=1000` so that the terminal can release earlier frames.
pub open spec fn spec_next_id(id: int) -> int {
    if id >= 1000 {
        1
    } else {
        id + 1
    }
}

/// The graphics encoder's state: the identifier the next frame will
/// carry, and the size of the frame last displayed (zero before the
/// first frame).
pub struct KittyGraphics {
    pub image_id: u32,
    pub last_width: u32,
    pub last_height: u32,
}

impl KittyGraphics {
    /// The image identifier stays within its cycling range.
    pub open spec fn wf(self) -> bool {
        1 <= self.image_id <= 1000
    }

    /// A fresh encoder: first identifier, nothing displayed yet.
    pub fn new() -> (r: KittyGraphics)
        ensures
            r.image_id == 1,
            r.last_width == 0,
            r.last_height == 0,
            r.wf(),
    {
        KittyGraphics { image_id: 1, last_width: 0, last_height: 0 }
    }

    /// Encodes one RGBA frame as the byte stream that fully replaces any
    /// previously displayed frame: a delete-all control when the
    /// displayed size changes, the cursor moved home, then the
    /// base64-encoded (and, above the ceiling, downscaled) pixels in
    /// chunked graphics escapes under the current image identifier,
    /// which then advances.
    pub fn encode_frame(&mut self, width: u32, height: u32, rgba: &Vec<u8>) -> (r: Vec<u8>)
        requires
            old(self).wf(),
            rgba@.len() == width * height * 4,
        ensures
            final(self).wf(),
            final(self).image_id == spec_next_id(old(self).image_id as int),
            final(self).last_width == spec_display_dims(width as int, height as int).0,
            final(self).last_height == spec_display_dims(width as int, height as int).1,
            r@ == (if old(self).last_width != spec_display_dims(width as int, height as int).0
                || old(self).last_height != spec_display_dims(width as int, height as int).1 {
                spec_delete_all()
            } else {
                Seq::<u8>::empty()
            }) + spec_home() + spec_frame_stream(
                spec_display_dims(width as int, height as int).0,
                spec_display_dims(width as int, height as int).1,
                old(self).image_id as int,
                spec_base64(spec_display_data(width as int, height as int, rgba@)),
            ),
    {
        let ghost dims = spec_display_dims(width as int, height as int);
        let unscaled = width <= MAX_DISPLAY_WIDTH && height <= MAX_DISPLAY_HEIGHT;
        let dw: u32;
        let dh: u32;
        if unscaled {
            dw = width;
            dh = height;
        } else if height == 0 {
            dw = MAX_DISPLAY_WIDTH;
            dh = 0;
        } else if width == 0 {
            dw = 0;
            dh = MAX_DISPLAY_HEIGHT;
        } else if (MAX_DISPLAY_WIDTH as u64) * (height as u64)
            <= (MAX_DISPLAY_HEIGHT as u64) * (width as u64) {
            dw = MAX_DISPLAY_WIDTH;
            proof {
                lemma_display_dims_bounds(width as int, height as int);
            }
            dh = (((height as u64) * (MAX_DISPLAY_WIDTH as u64)) / (width as u64)) as u32;
        } else {
            proof {
                lemma_display_dims_bounds(width as int, height as int);
            }
            dw = (((width as u64) * (MAX_DISPLAY_HEIGHT as u64)) / (height as u64)) as u32;
            dh = MAX_DISPLAY_HEIGHT;
        }
        proof {
            assert(dw == dims.0 && dh == dims.1);
        }
        let mut out: Vec<u8> = Vec::new();
        if self.last_width != dw || self.last_height != dh {
            push_delete_all(&mut out);
            self.last_width = dw;
            self.last_height = dh;
        }
        let ghost prefix = out@;
        push_home(&mut out);
        let encoded: Vec<u8>;
        if unscaled {
            proof {
                assert(4 * ((rgba@.len() + 2) / 3) <= usize::MAX) by (nonlinear_arith)
                    requires
                        rgba@.len() == width * height * 4,
                        width <= 1920,
                        height <= 1080;
            }
            encoded = b64_encode(rgba);
        } else if dw == 0 || dh == 0 {
            encoded = Vec::new();
            proof {
                assert(encoded@ == spec_base64(spec_display_data(
                    width as int, height as int, rgba@)));
            }
        } else {
            proof {
                lemma_display_dims_bounds(width as int, height as int);
                assert(dw * dh * 4 <= 1920 * 1080 * 4) by (nonlinear_arith)
                    requires 0 < dw <= 1920, 0 < dh <= 1080;
            }
            let scaled = scale_image(rgba.as_slice(), width, height, dw, dh);
            proof {
                assert(4 * ((scaled@.len() + 2) / 3) <= usize::MAX) by (nonlinear_arith)
                    requires scaled@.len() <= 1920 * 1080 * 4;
            }
            encoded = b64_encode(&scaled);
        }
        let mut stream = frame_stream(&encoded, dw, dh, self.image_id);
        let ghost stream_view = stream@;
        out.append(&mut stream);
        self.image_id = if self.image_id >= 1000 {
            1
        } else {
            self.image_id + 1
        };
        proof {
            assert(out@ =~= prefix + spec_home() + stream_view);
        }
        out
    }
}

/// A fresh encoder is the default one.
impl Default for KittyGraphics {
    fn default() -> (r: KittyGraphics)
        ensures
            r.image_id == 1,
            r.last_width == 0,
            r.last_height == 0,
            r.wf(),
    {
        KittyGraphics::new()
    }
}

/// The terminal-preparation byte sequence: enter the alternate screen,
/// hide the cursor, clear, and move the cursor home.
pub open spec fn spec_setup_sequence() -> Seq<u8> {
    seq![
        27u8, 91, 63, 49, 48, 52, 57, 104,
        27, 91, 63, 50, 53, 108,
        27, 91, 50, 74,
        27, 91, 72,
    ]
}

/// The terminal-restoration byte sequence: delete all images, show the
/// cursor, and leave the alternate screen.
pub open spec fn spec_restore_sequence() -> Seq<u8> {
    spec_delete_all() + seq![
        27u8, 91, 63, 50, 53, 104,
        27, 91, 63, 49, 48, 52, 57, 108,
    ]
}

/// The bytes that prepare the terminal for graphics.
pub fn setup_sequence() -> (r: Vec<u8>)
    ensures
        r@ == spec_setup_sequence(),
{
    let mut out: Vec<u8> = Vec::new();
    out.push(27);
    out.push(91);
    out.push(63);
    out.push(49);
    out.push(48);
    out.push(52);
    out.push(57);
    out.push(104);
    out.push(27);
    out.push(91);
    out.push(63);
    out.push(50);
    out.push(53);
    out.push(108);
    out.push(27);
    out.push(91);
    out.push(50);
    out.push(74);
    out.push(27);
    out.push(91);
    out.push(72);
    proof {
        assert(out@ =~= spec_setup_sequence());
    }
    out
}

/// The bytes that restore the terminal when the process leaves.
pub fn restore_sequence() -> (r: Vec<u8>)
    ensures
        r@ == spec_restore_sequence(),
{
    let mut out: Vec<u8> = Vec::new();
    push_delete_all(&mut out);
    out.push(27);
    out.push(91);
    out.push(63);
    out.push(50);
    out.push(53);
    out.push(104);
    out.push(27);
    out.push(91);
    out.push(63);
    out.push(49);
    out.push(48);
    out.push(52);
    out.push(57);
    out.push(108);
    proof {
        assert(out@ =~= spec_restore_sequence());
    }
    out
}

/// The pixel-size heuristic when the terminal reports no pixel size:
/// ten by twenty pixels per character cell.
pub fn fallback_pixel_size(cols: u16, rows: u16) -> (r: (u32, u32))
    ensures
        r.0 == cols * 10,
        r.1 == rows * 20,
{
    ((cols as u32) * 10, (rows as u32) * 20)
}

/// A non-empty payload's stream opens with the first chunk's parameter
/// header: the transmit-and-display action, the 32-bit RGBA format, the
/// source width and height, the more-chunks flag, the image identifier
/// and response suppression all stand in the first chunk.
pub proof fn lemma_stream_opens_with_parameters(w: int, h: int, id: int, payload: Seq<u8>)
    requires
        payload.len() > 0,
    ensures
        ({
            let stream = spec_frame_stream(w, h, id, payload);
            let head = spec_first_header(w, h, payload.len() > CHUNK_SIZE as int, id);
            stream.len() >= head.len() && stream.take(head.len() as int) == head
        }),
{
    let chunks = spec_chunks(payload, CHUNK_SIZE as int);
    if payload.len() <= CHUNK_SIZE as int {
        assert(chunks == seq![payload]);
    } else {
        let rest = spec_chunks(payload.skip(CHUNK_SIZE as int), CHUNK_SIZE as int);
        assert(chunks == seq![payload.take(CHUNK_SIZE as int)] + rest);
        assert(payload.skip(CHUNK_SIZE as int).len() > 0);
        assert(rest.len() >= 1);
    }
    let head = spec_first_header(w, h, payload.len() > CHUNK_SIZE as int, id);
    assert(chunks.len() > 1 <==> payload.len() > CHUNK_SIZE as int);
    assert(spec_stream(chunks, true, w, h, id) == head + chunks[0] + spec_chunk_tail()
        + spec_stream(chunks.drop_first(), false, w, h, id));
    assert(spec_frame_stream(w, h, id, payload).take(head.len() as int) =~= head);
}

/// The emitted chunks, concatenated and base64-decoded, reproduce the
/// encoder's pixel bytes exactly; with the first chunk's parameter
/// framing fixed by `spec_frame_stream`, this is the stream's round
/// trip.
pub proof fn lemma_stream_payload_round_trip(payload: Seq<u8>)
    ensures
        spec_base64_decode(spec_chunks(spec_base64(payload), CHUNK_SIZE as int).flatten())
            == payload,
{
    lemma_chunks_flatten(spec_base64(payload), CHUNK_SIZE as int);
    lemma_base64_round_trip(payload);
}

} // verus!
