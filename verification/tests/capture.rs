//! Frame capture and pending-slot behaviour.

use termui::frame::{capture_frame, gradient_buffer, FrameData, PendingFrameSlot};

#[test]
fn s2_capture_red_frame() {
    // A 4x2 XRGB8888 buffer, B=0 G=0 R=255 X=255 everywhere.
    let mut pool = Vec::new();
    for _ in 0..8 {
        pool.extend_from_slice(&[0u8, 0, 255, 255]);
    }
    let frame = capture_frame(&pool, 0, 4, 2, 16).expect("valid buffer");
    assert_eq!(frame.width, 4);
    assert_eq!(frame.height, 2);
    assert_eq!(frame.data.len(), 4 * 2 * 4);
    for px in frame.data.chunks(4) {
        assert_eq!(px, &[255u8, 0, 0, 255]);
    }
}

#[test]
fn capture_len_is_width_height_4() {
    let pool = vec![7u8; 6 * 5 * 4];
    let frame = capture_frame(&pool, 0, 6, 5, 24).expect("valid buffer");
    assert_eq!(frame.data.len(), 6 * 5 * 4);
}

#[test]
fn capture_swizzles_bgrx_to_rgbx() {
    // One pixel: B=1, G=2, R=3, X=4 becomes R=3, G=2, B=1, X=4.
    let pool = vec![1u8, 2, 3, 4];
    let frame = capture_frame(&pool, 0, 1, 1, 4).expect("valid buffer");
    assert_eq!(frame.data, vec![3u8, 2, 1, 4]);
}

#[test]
fn capture_honours_offset_and_stride() {
    // Two rows of one pixel with a stride of 8 and an offset of 4.
    let pool = vec![
        9u8, 9, 9, 9, // skipped by offset
        1, 2, 3, 4, 0, 0, 0, 0, // row 0 plus padding
        5, 6, 7, 8, 0, 0, 0, 0, // row 1 plus padding
    ];
    let frame = capture_frame(&pool, 4, 1, 2, 8).expect("valid buffer");
    assert_eq!(frame.data, vec![3u8, 2, 1, 4, 7, 6, 5, 8]);
}

#[test]
fn capture_rejects_window_past_pool_end() {
    let pool = vec![0u8; 15];
    assert!(capture_frame(&pool, 0, 2, 2, 8).is_none());
    assert!(capture_frame(&pool, 8, 1, 1, 8).is_none());
}

#[test]
fn capture_rejects_stride_smaller_than_row() {
    let pool = vec![0u8; 64];
    assert!(capture_frame(&pool, 0, 4, 2, 12).is_none());
}

#[test]
fn p3_pending_slot_last_push_wins() {
    let mut slot = PendingFrameSlot::new();
    slot.push(FrameData { width: 1, height: 1, data: vec![1, 1, 1, 1] });
    slot.push(FrameData { width: 2, height: 1, data: vec![2; 8] });
    slot.push(FrameData { width: 3, height: 1, data: vec![3; 12] });
    let taken = slot.take().expect("slot holds the last frame");
    assert_eq!(taken.width, 3);
    assert_eq!(taken.data, vec![3; 12]);
    assert!(slot.take().is_none());
}

#[test]
fn gradient_matches_formula() {
    let data = gradient_buffer(4, 2);
    assert_eq!(data.len(), 4 * 2 * 4);
    for y in 0..2u32 {
        for x in 0..4u32 {
            let i = ((y * 4 + x) * 4) as usize;
            assert_eq!(data[i], 0); // blue
            assert_eq!(data[i + 1] as u32, (y * 255) / 2); // green gradient
            assert_eq!(data[i + 2], 255); // red
            assert_eq!(data[i + 3], 255); // alpha
        }
    }
}

#[test]
fn gradient_captures_back_as_red() {
    let data = gradient_buffer(4, 2);
    let frame = capture_frame(&data, 0, 4, 2, 16).expect("valid buffer");
    for px in frame.data.chunks(4) {
        assert_eq!(px[0], 255); // red first after the swizzle
        assert_eq!(px[3], 255);
    }
}
