use vstd::prelude::*;

use crate::letterbox::{fitted_height, fitted_width, lemma_rounded_ratio_bounds, rounded_ratio};

verus! {

/// How model-space positions map back onto a display frame: the frame's
/// longer side, which the model's 257 pixels span, and the border the
/// letterbox added along the shorter side, in display pixels.
#[derive(Clone, Copy, Debug, PartialEq, Eq, Structural)]
pub struct DisplayMapping {
    pub long_side: i32,
    pub pad_x: i32,
    pub pad_y: i32,
}

/// Border the letterbox added left and right of a frame, in display pixels.
pub open spec fn display_pad_x(frame_width: int, frame_height: int) -> int {
    if frame_height > frame_width { (frame_height - frame_width) / 2 } else { 0 }
}

/// Border the letterbox added above and below a frame, in display pixels.
pub open spec fn display_pad_y(frame_width: int, frame_height: int) -> int {
    if frame_height > frame_width { 0 } else { (frame_width - frame_height) / 2 }
}

/// The longer side of a frame, which the model input spans.
pub open spec fn display_long_side(frame_width: int, frame_height: int) -> int {
    if frame_height > frame_width { frame_height } else { frame_width }
}

/// Derives the mapping of a `frame_width`x`frame_height` frame: a frame
/// taller than wide was bordered left and right, any other above and below.
pub fn display_mapping(frame_width: i32, frame_height: i32) -> (r: DisplayMapping)
    requires
        frame_width >= 0,
        frame_height >= 0,
    ensures
        r.long_side == display_long_side(frame_width as int, frame_height as int),
        r.pad_x == display_pad_x(frame_width as int, frame_height as int),
        r.pad_y == display_pad_y(frame_width as int, frame_height as int),
        frame_height > frame_width ==> r == (DisplayMapping {
            long_side: frame_height,
            pad_x: ((frame_height - frame_width) / 2) as i32,
            pad_y: 0,
        }),
        frame_height <= frame_width ==> r == (DisplayMapping {
            long_side: frame_width,
            pad_x: 0,
            pad_y: ((frame_width - frame_height) / 2) as i32,
        }),
{
    if frame_height > frame_width {
        DisplayMapping { long_side: frame_height, pad_x: (frame_height - frame_width) / 2, pad_y: 0 }
    } else {
        DisplayMapping { long_side: frame_width, pad_x: 0, pad_y: (frame_width - frame_height) / 2 }
    }
}

/// Moves a position already scaled to the frame's size off the letterbox
/// border: `(x - pad_x, y - pad_y)`, or `None` where that leaves `i32`.
pub fn to_display(mapping: DisplayMapping, scaled_x: i32, scaled_y: i32) -> (r: Option<(i32, i32)>)
    ensures
        r.is_some() <==> (i32::MIN <= scaled_x - mapping.pad_x <= i32::MAX && i32::MIN
            <= scaled_y - mapping.pad_y <= i32::MAX),
        r.is_some() ==> r == Some(
            ((scaled_x - mapping.pad_x) as i32, (scaled_y - mapping.pad_y) as i32),
        ),
{
    let x = scaled_x as i64 - mapping.pad_x as i64;
    let y = scaled_y as i64 - mapping.pad_y as i64;
    if x < i32::MIN as i64 || x > i32::MAX as i64 || y < i32::MIN as i64 || y > i32::MAX as i64 {
        None
    } else {
        Some((x as i32, y as i32))
    }
}

proof fn lemma_round_trip_short_axis(long: int, short: int, q: int, border: int, pad: int, p: int)
    requires
        0 < short <= long,
        0 <= p <= short,
        -long < 2 * long * q - 2 * (257 * short) <= long,
        257 - q - 1 <= 2 * border <= 257 - q,
        long - short - 1 <= 2 * pad <= long - short,
    ensures
        -(short * (2 * long + 257)) <= 2 * (p * q * long + border * long * short - pad * 257 * short - p
            * 257 * short) <= short * (2 * long + 257),
{
    let d = long * q - 257 * short;
    let e1 = 257 - q - 2 * border;
    let e2 = long - short - 2 * pad;
    assert(2 * (border * long * short) == (257 - q - e1) * long * short) by (nonlinear_arith)
        requires
            2 * border == 257 - q - e1,
    ;
    assert(2 * (pad * 257 * short) == (long - short - e2) * 257 * short) by (nonlinear_arith)
        requires
            2 * pad == long - short - e2,
    ;
    let pql = p * q * long;
    let qls = q * long * short;
    let ls = long * short;
    let ss = short * short;
    let ps = p * short;
    assert(d * (2 * p - short) == 2 * pql - 514 * ps - qls + 257 * ss) by (nonlinear_arith)
        requires
            d == long * q - 257 * short,
            pql == p * q * long,
            qls == q * long * short,
            ss == short * short,
            ps == p * short,
    ;
    assert((257 - q - e1) * long * short == 257 * ls - qls - e1 * ls) by (nonlinear_arith)
        requires
            qls == q * long * short,
            ls == long * short,
    ;
    assert((long - short - e2) * 257 * short == 257 * ls - 257 * ss - 257 * short * e2) by (nonlinear_arith)
        requires
            ls == long * short,
            ss == short * short,
    ;
    assert(p * 257 * short == 257 * ps) by (nonlinear_arith)
        requires
            ps == p * short,
    ;
    assert(e1 * long * short == e1 * ls) by (nonlinear_arith)
        requires
            ls == long * short,
    ;
    assert(2 * d == 2 * long * q - 2 * (257 * short)) by (nonlinear_arith)
        requires
            d == long * q - 257 * short,
    ;
    assert(-(long * short) <= d * (2 * p - short) <= long * short) by (nonlinear_arith)
        requires
            -long < 2 * d <= long,
            0 <= p <= short,
    ;
    assert(0 <= e1 * long * short <= long * short) by (nonlinear_arith)
        requires
            0 <= e1 <= 1,
            0 < short,
            0 < long,
    ;
    assert(0 <= 257 * short * e2 <= 257 * short) by (nonlinear_arith)
        requires
            0 <= e2 <= 1,
            0 < short,
    ;
    assert(short * (2 * long + 257) == 2 * (long * short) + 257 * short) by (nonlinear_arith);
}

/// Letterboxing a frame into the 257-pixel model input and mapping back onto
/// the frame returns every point of the frame to where it was, up to one model
/// pixel's worth of display pixels and a half: a point at `p` on the shorter
/// axis lands in the model at `p * scaled / short + border`, and that maps back
/// to `that * long / 257 - pad`, which is stated here multiplied by
/// `2 * 257 * short`. Along the longer axis the round trip is exact.
pub proof fn lemma_letterbox_remap_round_trip(frame_width: int, frame_height: int, px: int, py: int)
    requires
        0 < frame_width < 0x8000_0000,
        0 < frame_height < 0x8000_0000,
        0 <= px <= frame_width,
        0 <= py <= frame_height,
    ensures
        ({
            let long = display_long_side(frame_width, frame_height);
            let new_width = fitted_width(frame_width, frame_height, 257, 257);
            let new_height = fitted_height(frame_width, frame_height, 257, 257);
            let left = (257 - new_width) / 2;
            let top = (257 - new_height) / 2;
            let pad_x = display_pad_x(frame_width, frame_height);
            let pad_y = display_pad_y(frame_width, frame_height);
            if frame_width >= frame_height {
                &&& new_width == 257 && left == 0 && pad_x == 0 && long == frame_width
                &&& -(frame_height * (2 * long + 257)) <= 2 * (py * new_height * long + top * long
                    * frame_height - pad_y * 257 * frame_height - py * 257 * frame_height)
                    <= frame_height * (2 * long + 257)
            } else {
                &&& new_height == 257 && top == 0 && pad_y == 0 && long == frame_height
                &&& -(frame_width * (2 * long + 257)) <= 2 * (px * new_width * long + left * long
                    * frame_width - pad_x * 257 * frame_width - px * 257 * frame_width)
                    <= frame_width * (2 * long + 257)
            }
        }),
{
    let w = frame_width;
    let h = frame_height;
    if w >= h {
        let q = fitted_height(w, h, 257, 257);
        if w > h {
            assert(w * 257 > 257 * h);
            lemma_rounded_ratio_bounds(257 * h, w, 257);
        } else {
            assert(!(w * 257 > 257 * h));
            assert(fitted_width(w, h, 257, 257) == 257) by {
                assert(rounded_ratio(257 * w, h) == 257) by (nonlinear_arith)
                    requires
                        w == h,
                        h > 0,
                ;
            }
            assert(2 * w * q - 2 * (257 * h) == 0) by (nonlinear_arith)
                requires
                    q == 257,
                    w == h,
            ;
        }
        lemma_round_trip_short_axis(w, h, q, (257 - q) / 2, (w - h) / 2, py);
    } else {
        let q = fitted_width(w, h, 257, 257);
        assert(!(w * 257 > 257 * h));
        lemma_rounded_ratio_bounds(257 * w, h, 257);
        lemma_round_trip_short_axis(h, w, q, (257 - q) / 2, (h - w) / 2, px);
    }
}

} // verus!
