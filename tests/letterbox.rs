use posenet::letterbox::{letterbox_layout, Letterbox};
use posenet::INPUT_SIZE;

#[test]
fn landscape_frame_is_padded_above_and_below() {
    let l = letterbox_layout(640, 480, INPUT_SIZE, INPUT_SIZE);
    assert_eq!(
        l,
        Letterbox { new_width: 257, new_height: 193, top: 32, bottom: 32, left: 0, right: 0 }
    );
}

#[test]
fn portrait_frame_is_padded_left_and_right() {
    let l = letterbox_layout(480, 640, 257, 257);
    assert_eq!(
        l,
        Letterbox { new_width: 193, new_height: 257, top: 0, bottom: 0, left: 32, right: 32 }
    );
}

#[test]
fn scaled_side_is_rounded_to_nearest() {
    // 257 * 200 / 300 = 171.33
    assert_eq!(letterbox_layout(300, 200, 257, 257).new_height, 171);
    // 257 * 480 / 640 = 192.75
    assert_eq!(letterbox_layout(640, 480, 257, 257).new_height, 193);
    // 257 * 2 / 4 = 128.5 rounds up
    assert_eq!(letterbox_layout(4, 2, 257, 257).new_height, 129);
}

#[test]
fn odd_padding_goes_to_bottom() {
    let l = letterbox_layout(400, 100, 257, 257);
    assert_eq!(l.new_height, 64);
    assert_eq!((l.top, l.bottom), (96, 97));
    let l = letterbox_layout(100, 400, 257, 257);
    assert_eq!(l.new_width, 64);
    assert_eq!((l.left, l.right), (96, 97));
}

#[test]
fn square_input_of_target_size_is_unchanged() {
    let l = letterbox_layout(257, 257, 257, 257);
    assert_eq!(
        l,
        Letterbox { new_width: 257, new_height: 257, top: 0, bottom: 0, left: 0, right: 0 }
    );
}

#[test]
fn square_input_is_only_scaled() {
    for side in [1, 50, 256, 257, 258, 1080] {
        let l = letterbox_layout(side, side, 257, 257);
        assert_eq!((l.new_width, l.new_height), (257, 257));
        assert_eq!((l.top, l.bottom, l.left, l.right), (0, 0, 0, 0));
    }
}

#[test]
fn output_always_fills_the_canvas() {
    let sizes = [1, 2, 3, 7, 100, 257, 480, 640, 1080, 1920, 4001];
    for &w in sizes.iter() {
        for &h in sizes.iter() {
            for s in [1, 9, 257, 300] {
                let l = letterbox_layout(w, h, s, s);
                assert_eq!(l.left + l.new_width + l.right, s);
                assert_eq!(l.top + l.new_height + l.bottom, s);
                assert_eq!(l.left, (s - l.new_width) / 2);
                assert_eq!(l.top, (s - l.new_height) / 2);
                let err = 2 * (l.new_width as i64 * h as i64 - l.new_height as i64 * w as i64).abs();
                assert!(err <= w.max(h) as i64);
            }
        }
    }
}

#[test]
fn rectangular_target_is_honoured() {
    let l = letterbox_layout(100, 100, 200, 100);
    assert_eq!(
        l,
        Letterbox { new_width: 100, new_height: 100, top: 0, bottom: 0, left: 50, right: 50 }
    );
}

#[test]
fn largest_dimensions_do_not_overflow() {
    let l = letterbox_layout(i32::MAX, 1, i32::MAX, i32::MAX);
    assert_eq!(l.new_width, i32::MAX);
    assert_eq!(l.new_height, 1);
    let l = letterbox_layout(1, i32::MAX, 257, 257);
    assert_eq!((l.new_width, l.new_height), (0, 257));
}
