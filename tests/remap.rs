use posenet::decode::{decode_confidences, grid_position_eighths, heatmap_index, HEATMAP_LEN};
use posenet::letterbox::letterbox_layout;
use posenet::remap::{display_mapping, to_display, DisplayMapping};

fn scale(mapping: &DisplayMapping, model: f32) -> i32 {
    (mapping.long_side as f32 / 257.0 * model).round() as i32
}

#[test]
fn landscape_frame_pads_vertically() {
    assert_eq!(display_mapping(640, 480), DisplayMapping { long_side: 640, pad_x: 0, pad_y: 80 });
}

#[test]
fn portrait_frame_pads_horizontally() {
    assert_eq!(display_mapping(480, 640), DisplayMapping { long_side: 640, pad_x: 80, pad_y: 0 });
    assert_eq!(display_mapping(480, 641), DisplayMapping { long_side: 641, pad_x: 80, pad_y: 0 });
}

#[test]
fn square_frame_has_no_pad() {
    assert_eq!(display_mapping(300, 300), DisplayMapping { long_side: 300, pad_x: 0, pad_y: 0 });
}

#[test]
fn grid_centre_maps_to_frame_centre() {
    let m = display_mapping(640, 480);
    let p = to_display(m, scale(&m, 128.5), scale(&m, 128.5));
    assert_eq!(p, Some((320, 240)));
}

#[test]
fn to_display_reports_overflow() {
    let m = DisplayMapping { long_side: 10, pad_x: 5, pad_y: 0 };
    assert_eq!(to_display(m, i32::MIN, 0), None);
    assert_eq!(to_display(m, i32::MIN + 5, 0), Some((i32::MIN, 0)));
    let m = DisplayMapping { long_side: 10, pad_x: 0, pad_y: -1 };
    assert_eq!(to_display(m, 0, i32::MAX), None);
}

#[test]
fn marker_survives_letterbox_decode_and_remap() {
    let (frame_w, frame_h) = (640, 480);
    let (marker_x, marker_y) = (500.0f32, 100.0f32);
    // where the marker lands in the model input
    let l = letterbox_layout(frame_w, frame_h, 257, 257);
    let sx = l.new_width as f32 / frame_w as f32;
    let sy = l.new_height as f32 / frame_h as f32;
    let model_x = marker_x * sx + l.left as f32;
    let model_y = marker_y * sy + l.top as f32;
    // the model's peak sits at the nearest grid cell
    let col = (model_x / (257.0 / 8.0)).round() as usize;
    let row = (model_y / (257.0 / 8.0)).round() as usize;
    let mut heatmap = vec![0.0f32; HEATMAP_LEN];
    heatmap[heatmap_index(row, col, 0)] = 0.8;
    let heatmap_bits: Vec<u32> = heatmap.iter().map(|v| v.to_bits()).collect();
    let kps = decode_confidences(&heatmap_bits, 0.25f32.to_bits());
    assert!(kps[0].visible);
    let decoded_x = grid_position_eighths(kps[0].col) as f32 / 8.0;
    let decoded_y = grid_position_eighths(kps[0].row) as f32 / 8.0;
    let m = display_mapping(frame_w, frame_h);
    let (x, y) = to_display(m, scale(&m, decoded_x), scale(&m, decoded_y)).unwrap();
    let cell = 640.0 / 8.0;
    assert!((x as f32 - marker_x).abs() <= cell);
    assert!((y as f32 - marker_y).abs() <= cell);
}

#[test]
fn letterbox_then_remap_returns_frame_points() {
    for (w, h) in [(640, 480), (480, 640), (1920, 1080), (300, 300), (7, 1000), (1000, 3)] {
        let l = letterbox_layout(w, h, 257, 257);
        let m = display_mapping(w, h);
        let long = m.long_side as f64;
        let bound = long / 257.0 + 0.5 + 1e-9;
        for i in 0..=20 {
            let px = w as f64 * i as f64 / 20.0;
            let py = h as f64 * i as f64 / 20.0;
            let model_x = px * l.new_width as f64 / w as f64 + l.left as f64;
            let model_y = py * l.new_height as f64 / h as f64 + l.top as f64;
            let back_x = model_x * long / 257.0 - m.pad_x as f64;
            let back_y = model_y * long / 257.0 - m.pad_y as f64;
            assert!((back_x - px).abs() <= bound, "x {} {} {}", w, h, px);
            assert!((back_y - py).abs() <= bound, "y {} {} {}", w, h, py);
        }
    }
}
