use vstd::prelude::*;

verus! {

/// The geometry of a letterbox: the size the source is scaled to, and the
/// zero border added on each side to reach the target canvas.
#[derive(Clone, Copy, Debug, PartialEq, Eq, Structural)]
pub struct Letterbox {
    pub new_width: i32,
    pub new_height: i32,
    pub top: i32,
    pub bottom: i32,
    pub left: i32,
    pub right: i32,
}

/// `n / d` rounded to the nearest integer, halves rounded up.
pub open spec fn rounded_ratio(n: int, d: int) -> int {
    (2 * n + d) / (2 * d)
}

/// The source is relatively wider than the target, so its width binds.
pub open spec fn width_binds(w: int, h: int, tw: int, th: int) -> bool {
    w * th > tw * h
}

/// Scaled width of a `w`x`h` source fitted into a `tw`x`th` canvas.
pub open spec fn fitted_width(w: int, h: int, tw: int, th: int) -> int {
    if width_binds(w, h, tw, th) { tw } else { rounded_ratio(th * w, h) }
}

/// Scaled height of a `w`x`h` source fitted into a `tw`x`th` canvas.
pub open spec fn fitted_height(w: int, h: int, tw: int, th: int) -> int {
    if width_binds(w, h, tw, th) { rounded_ratio(tw * h, w) } else { th }
}

/// The longer of the two sides.
pub open spec fn longer_side(w: int, h: int) -> int {
    if w >= h { w } else { h }
}

pub(crate) proof fn lemma_rounded_ratio_bounds(n: int, d: int, m: int)
    requires
        0 <= n,
        0 < d,
        n <= m * d,
    ensures
        0 <= rounded_ratio(n, d) <= m,
        -d < 2 * d * rounded_ratio(n, d) - 2 * n <= d,
{
    let q = rounded_ratio(n, d);
    vstd::arithmetic::div_mod::lemma_fundamental_div_mod(2 * n + d, 2 * d);
    vstd::arithmetic::div_mod::lemma_mod_bound(2 * n + d, 2 * d);
    vstd::arithmetic::div_mod::lemma_div_pos_is_pos(2 * n + d, 2 * d);
    assert(q <= m) by (nonlinear_arith)
        requires
            2 * n + d == 2 * d * q + (2 * n + d) % (2 * d),
            0 <= (2 * n + d) % (2 * d),
            n <= m * d,
            0 < d,
    {
        if q > m {
            assert(2 * d * q >= 2 * d * (m + 1)) by (nonlinear_arith)
                requires q >= m + 1, d > 0;
        }
    }
}

/// Computes how a `width`x`height` image is fitted into a
/// `target_width`x`target_height` canvas without distortion: the binding side
/// is scaled to the canvas, the other rounded to the nearest pixel, and the
/// remainder split as a zero border, the odd pixel going to the bottom or right.
pub fn letterbox_layout(width: i32, height: i32, target_width: i32, target_height: i32) -> (r:
    Letterbox)
    requires
        width > 0,
        height > 0,
        target_width > 0,
        target_height > 0,
    ensures
        r.new_width == fitted_width(width as int, height as int, target_width as int, target_height as int),
        r.new_height == fitted_height(width as int, height as int, target_width as int, target_height as int),
        r.left == (target_width - r.new_width) / 2,
        r.right == (target_width - r.new_width) - r.left,
        r.top == (target_height - r.new_height) / 2,
        r.bottom == (target_height - r.new_height) - r.top,
        0 <= r.new_width <= target_width,
        0 <= r.new_height <= target_height,
        0 <= r.left <= r.right <= r.left + 1,
        0 <= r.top <= r.bottom <= r.top + 1,
        r.left + r.new_width + r.right == target_width,
        r.top + r.new_height + r.bottom == target_height,
        // the scale is the same on both axes, up to rounding of one side
        -longer_side(width as int, height as int) <= 2 * (r.new_width * height - r.new_height * width)
            <= longer_side(width as int, height as int),
        // a source of the target's shape is scaled with no border at all
        width * target_height == target_width * height ==> (r.new_width == target_width
            && r.new_height == target_height && r.left == 0 && r.right == 0 && r.top == 0
            && r.bottom == 0),
{
    let w = width as u64;
    let h = height as u64;
    let tw = target_width as u64;
    let th = target_height as u64;
    let new_width: i32;
    let new_height: i32;
    proof {
        assert(w * th < 0x4000_0000_0000_0000 && tw * h < 0x4000_0000_0000_0000
            && th * w < 0x4000_0000_0000_0000) by (nonlinear_arith)
            requires
                w < 0x8000_0000,
                h < 0x8000_0000,
                tw < 0x8000_0000,
                th < 0x8000_0000,
        ;
    }
    if w * th > tw * h {
        proof {
            lemma_rounded_ratio_bounds(tw * h, w as int, th as int);
        }
        new_width = target_width;
        let scaled = tw * h;
        new_height = ((2 * scaled + w) / (2 * w)) as i32;
        proof {
            let q = new_height as int;
            assert(-(w as int) <= 2 * (tw * h - q * w) <= w) by (nonlinear_arith)
                requires
                    -(w as int) < 2 * w * q - 2 * (tw * h) <= w,
            ;
        }
    } else {
        proof {
            lemma_rounded_ratio_bounds(th * w, h as int, tw as int);
            if w * th == tw * h {
                assert(rounded_ratio(th * w, h as int) == tw) by (nonlinear_arith)
                    requires th * w == tw * h, h > 0;
            }
        }
        let scaled = th * w;
        new_width = ((2 * scaled + h) / (2 * h)) as i32;
        proof {
            let q = new_width as int;
            assert(-(h as int) <= 2 * (q * h - th * w) <= h) by (nonlinear_arith)
                requires
                    -(h as int) < 2 * h * q - 2 * (th * w) <= h,
            ;
        }
        new_height = target_height;
    }
    let delta_w = target_width - new_width;
    let delta_h = target_height - new_height;
    Letterbox {
        new_width,
        new_height,
        top: delta_h / 2,
        bottom: delta_h - delta_h / 2,
        left: delta_w / 2,
        right: delta_w - delta_w / 2,
    }
}

} // verus!
