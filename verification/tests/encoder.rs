//! The graphics escape encoder: framing, chunking, replacement, scaling.

use base64::Engine;
use termui::kitty::{fallback_pixel_size, restore_sequence, setup_sequence, KittyGraphics};
use termui::scale::scale_image;

const ESC: u8 = 0x1b;

fn delete_all() -> Vec<u8> {
    b"\x1b_Ga=d;\x1b\\".to_vec()
}

/// Splits a stream of graphics escapes into (header, payload) pairs.
fn parse_chunks(mut stream: &[u8]) -> Vec<(String, Vec<u8>)> {
    let mut chunks = Vec::new();
    while !stream.is_empty() {
        assert_eq!(stream[0], ESC, "chunk starts with ESC _ G");
        assert_eq!(&stream[1..3], b"_G");
        let semi = stream.iter().position(|&b| b == b';').expect("parameter list ends");
        let header = String::from_utf8(stream[3..semi].to_vec()).unwrap();
        let rest = &stream[semi + 1..];
        let end = rest
            .windows(2)
            .position(|w| w == [ESC, b'\\'])
            .expect("chunk ends with ESC backslash");
        chunks.push((header, rest[..end].to_vec()));
        stream = &rest[end + 2..];
    }
    chunks
}

#[test]
fn s5_encoder_single_chunk() {
    let mut kitty = KittyGraphics::new();
    let data = vec![0xDEu8, 0xAD, 0xBE, 0xEF, 0x00, 0x11, 0x22, 0x33];
    let out = kitty.encode_frame(2, 1, &data);

    // First frame: the displayed size changes from 0x0, so the stream
    // opens with delete-all, then cursor home.
    let mut expected = delete_all();
    expected.extend_from_slice(b"\x1b[H");
    expected.extend_from_slice(b"\x1b_Ga=T,f=32,s=2,v=1,m=0,i=1,q=2;3q2+7wARIjM=\x1b\\");
    assert_eq!(out, expected);
    assert_eq!(kitty.image_id, 2);
    assert_eq!(kitty.last_width, 2);
    assert_eq!(kitty.last_height, 1);
}

#[test]
fn same_size_frame_skips_delete_all() {
    let mut kitty = KittyGraphics::new();
    let data = vec![0u8; 2 * 1 * 4];
    let _ = kitty.encode_frame(2, 1, &data);
    let second = kitty.encode_frame(2, 1, &data);
    assert_eq!(&second[..3], b"\x1b[H", "no delete-all when the size is unchanged");
    let third = kitty.encode_frame(1, 1, &vec![0u8; 4]);
    assert_eq!(&third[..delete_all().len()], &delete_all()[..], "size change deletes images");
}

#[test]
fn p4_chunks_decode_back_to_payload() {
    // Large enough that the base64 payload spans several 4096-byte
    // chunks.
    let mut kitty = KittyGraphics::new();
    let mut data = Vec::new();
    for i in 0..(64 * 48 * 4) {
        data.push((i % 251) as u8);
    }
    let out = kitty.encode_frame(64, 48, &data);

    let body = &out[delete_all().len() + 3..]; // skip delete-all and home
    let chunks = parse_chunks(body);
    assert!(chunks.len() > 1, "payload spans several chunks");

    // The first chunk carries all required parameters.
    let first = &chunks[0].0;
    assert!(first.starts_with("a=T,f=32,s=64,v=48,m=1,i=1,q=2"));
    // Continuation chunks carry only the more-chunks flag, set on all
    // but the last.
    for (i, (header, _)) in chunks.iter().enumerate().skip(1) {
        let last = i == chunks.len() - 1;
        assert_eq!(header, if last { "m=0" } else { "m=1" });
    }
    // Concatenated and decoded, the chunks reproduce the pixel bytes.
    let joined: Vec<u8> = chunks.iter().flat_map(|(_, c)| c.iter().copied()).collect();
    let decoded = base64::engine::general_purpose::STANDARD
        .decode(&joined)
        .expect("chunks concatenate to valid base64");
    assert_eq!(decoded, data);
}

#[test]
fn image_id_cycles_after_1000() {
    let mut kitty = KittyGraphics { image_id: 1000, last_width: 2, last_height: 1 };
    let data = vec![0u8; 8];
    let out = kitty.encode_frame(2, 1, &data);
    assert_eq!(kitty.image_id, 1);
    let header = String::from_utf8(out.clone()).unwrap();
    assert!(header.contains(",i=1000,"));
}

#[test]
fn oversized_frame_is_downscaled_to_ceiling() {
    let mut kitty = KittyGraphics::new();
    let w = 3840u32;
    let h = 1080u32;
    let data = vec![128u8; (w * h * 4) as usize];
    let out = kitty.encode_frame(w, h, &data);
    let text = String::from_utf8(out).unwrap();
    // 1920*h = 2073600*... the width binds: 1920 wide, 1080*1920/3840 = 540 tall.
    assert!(text.contains("s=1920,v=540,"), "scaled dimensions in the header");
    assert_eq!(kitty.last_width, 1920);
    assert_eq!(kitty.last_height, 540);
}

#[test]
fn scale_constant_image_stays_constant() {
    let data = vec![77u8; 8 * 8 * 4];
    let scaled = scale_image(&data, 8, 8, 3, 5);
    assert_eq!(scaled.len(), 3 * 5 * 4);
    assert!(scaled.iter().all(|&b| b == 77));
}

#[test]
fn scale_2x2_to_1x1_takes_top_left() {
    // With one destination cell the back-projected position is (0, 0)
    // with zero fraction, so the blend is exactly the top-left pixel.
    let data = vec![
        10u8, 20, 30, 40, // (0,0)
        50, 60, 70, 80, // (1,0)
        90, 100, 110, 120, // (0,1)
        130, 140, 150, 160, // (1,1)
    ];
    let scaled = scale_image(&data, 2, 2, 1, 1);
    assert_eq!(scaled, vec![10u8, 20, 30, 40]);
}

#[test]
fn scale_blends_neighbours() {
    // Two source pixels wide, three destination cells: the middle cell
    // lands between the pixels and blends them.
    let data = vec![
        0u8, 0, 0, 0, // left pixel, all channels 0
        120, 120, 120, 120, // right pixel, all channels 120
    ];
    let scaled = scale_image(&data, 2, 1, 3, 1);
    assert_eq!(scaled.len(), 3 * 4);
    // ratio = 2*256/3 = 170; cells back-project to 0, 170/256, 340/256.
    assert_eq!(&scaled[0..4], &[0u8, 0, 0, 0]);
    // fraction 170/256 of the way to the right pixel.
    let mid = ((120u32 * 170) / 256) as u8;
    assert_eq!(&scaled[4..8], &[mid; 4]);
    // x0 = 1 = last column, fraction 84: blends pixel 1 with itself.
    assert_eq!(&scaled[8..12], &[120u8; 4]);
}

#[test]
fn empty_frame_emits_no_chunks() {
    let mut kitty = KittyGraphics::new();
    let out = kitty.encode_frame(0, 0, &Vec::new());
    // The size matches the fresh encoder's zero marker, so no delete-all;
    // the cursor still moves home, and with no pixels there is no
    // graphics escape at all.
    assert_eq!(out, b"\x1b[H".to_vec());
    assert_eq!(kitty.image_id, 2, "the identifier advances regardless");
}

#[test]
fn degenerate_tall_frame_keeps_empty_dimension() {
    // Wider than the ceiling with zero height: nothing to scale, and the
    // ceiling width is reported.
    let mut kitty = KittyGraphics::new();
    let out = kitty.encode_frame(4000, 0, &Vec::new());
    assert_eq!(kitty.last_width, 1920);
    assert_eq!(kitty.last_height, 0);
    let mut expected = delete_all();
    expected.extend_from_slice(b"\x1b[H");
    assert_eq!(out, expected);
}

#[test]
fn setup_and_restore_sequences() {
    assert_eq!(setup_sequence(), b"\x1b[?1049h\x1b[?25l\x1b[2J\x1b[H".to_vec());
    assert_eq!(restore_sequence(), b"\x1b_Ga=d;\x1b\\\x1b[?25h\x1b[?1049l".to_vec());
}

#[test]
fn fallback_size_uses_cell_heuristic() {
    assert_eq!(fallback_pixel_size(80, 24), (800, 480));
    assert_eq!(fallback_pixel_size(0, 0), (0, 0));
}
