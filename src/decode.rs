use vstd::prelude::*;

use crate::score::{is_nan_bits, score_key_of, score_keys, signed_magnitude, threshold_key, threshold_key_of};

verus! {

/// Cells along each side of the model's output grid.
pub const GRID_SIZE: usize = 9;

/// Body joints the model predicts, in the model's own order.
pub const NUM_JOINTS: usize = 17;

/// Values per cell in the offset grid: the y offsets of every joint, then the x offsets.
pub const OFFSET_CHANNELS: usize = 34;

/// Length of a heatmap grid: rows, columns, joints.
pub const HEATMAP_LEN: usize = 1377;

/// Length of an offset grid: rows, columns, offset channels.
pub const OFFSET_LEN: usize = 2754;

/// Pixels spanned by the grid's eight steps, the model input's side length.
pub const GRID_SPAN: usize = 257;

/// The decoded peak of one joint.
///
/// Scores are order keys: integers that compare as the model's confidence
/// values do. The score of a confidence of zero is zero.
#[derive(Clone, Copy, Debug, PartialEq, Eq, Structural)]
pub struct Keypoint {
    pub row: usize,
    pub col: usize,
    pub score: i32,
    pub visible: bool,
}

/// Confidence of `joint` at the cell numbered `cell` in row-major scan order.
pub open spec fn heat(h: Seq<i32>, cell: int, joint: int) -> int {
    h[cell * 17 + joint] as int
}

/// `(cell, score)` is the running maximum of `joint` over the first `n` cells
/// scanned, started at cell 0 with score 0: no cell scanned scores above it,
/// every earlier cell scores below it, and it is a cell's score unless it is 0.
pub open spec fn is_peak_upto(h: Seq<i32>, joint: int, n: int, cell: int, score: int) -> bool {
    &&& 0 <= cell < 81
    &&& 0 <= score
    &&& forall|c: int| 0 <= c < n ==> #[trigger] heat(h, c, joint) <= score
    &&& forall|c: int| 0 <= c < cell ==> #[trigger] heat(h, c, joint) < score
    &&& score > 0 ==> cell < n && heat(h, cell, joint) == score
    &&& score == 0 ==> cell == 0
}

/// `(cell, score)` is the first maximum of `joint` over the whole grid, or
/// cell 0 with score 0 when no cell scores above 0.
pub open spec fn is_peak(h: Seq<i32>, joint: int, cell: int, score: int) -> bool {
    is_peak_upto(h, joint, 81, cell, score)
}

/// `kp` is what decoding gives for `joint`: its peak, visible exactly when the
/// peak's score is above `threshold`.
pub open spec fn decodes_to(h: Seq<i32>, threshold: i32, joint: int, kp: Keypoint) -> bool {
    &&& kp.row < 9
    &&& kp.col < 9
    &&& is_peak(h, joint, kp.row * 9 + kp.col, kp.score as int)
    &&& kp.visible == (kp.score > threshold)
}

/// `r` is the decoding of every joint, in joint order.
pub open spec fn decodes_all(h: Seq<i32>, threshold: i32, r: Seq<Keypoint>) -> bool {
    &&& r.len() == 17
    &&& forall|k: int| 0 <= k < 17 ==> #[trigger] decodes_to(h, threshold, k, r[k])
}

/// Position of `(row, col, joint)` in a heatmap grid.
pub fn heatmap_index(row: usize, col: usize, joint: usize) -> (r: usize)
    requires
        row < GRID_SIZE,
        col < GRID_SIZE,
        joint < NUM_JOINTS,
    ensures
        r == (row * 9 + col) * 17 + joint,
        r < HEATMAP_LEN,
{
    (row * GRID_SIZE + col) * NUM_JOINTS + joint
}

/// Position of `(row, col, channel)` in an offset grid. The y offset of joint
/// `k` is channel `k`, its x offset channel `k + 17`.
pub fn offset_index(row: usize, col: usize, channel: usize) -> (r: usize)
    requires
        row < GRID_SIZE,
        col < GRID_SIZE,
        channel < OFFSET_CHANNELS,
    ensures
        r == (row * 9 + col) * 34 + channel,
        r < OFFSET_LEN,
{
    (row * GRID_SIZE + col) * OFFSET_CHANNELS + channel
}

/// Pixel position of grid line `index` in the model input, in eighths of a
/// pixel: `index / 8 * 257` exactly.
pub fn grid_position_eighths(index: usize) -> (r: usize)
    requires
        index < GRID_SIZE,
    ensures
        r == index * 257,
        r <= 2056,
{
    index * GRID_SPAN
}

/// Finds the peak of one joint by a row-major scan with a strict comparison,
/// and marks it visible when its score is above `threshold`.
pub fn find_peak(heatmap: &[i32], joint: usize, threshold: i32) -> (kp: Keypoint)
    requires
        heatmap@.len() == HEATMAP_LEN,
        joint < NUM_JOINTS,
    ensures
        decodes_to(heatmap@, threshold, joint as int, kp),
{
    let mut max_val: i32 = 0;
    let mut max_row: usize = 0;
    let mut max_col: usize = 0;
    let mut r: usize = 0;
    while r < GRID_SIZE
        invariant
            heatmap@.len() == HEATMAP_LEN,
            joint < NUM_JOINTS,
            r <= 9,
            max_row < 9,
            max_col < 9,
            is_peak_upto(heatmap@, joint as int, r * 9, max_row * 9 + max_col, max_val as int),
        decreases 9 - r,
    {
        let mut c: usize = 0;
        while c < GRID_SIZE
            invariant
                heatmap@.len() == HEATMAP_LEN,
                joint < NUM_JOINTS,
                r < 9,
                c <= 9,
                max_row < 9,
                max_col < 9,
                is_peak_upto(heatmap@, joint as int, r * 9 + c, max_row * 9 + max_col, max_val as int),
            decreases 9 - c,
        {
            let v = heatmap[heatmap_index(r, c, joint)];
            assert(v == heat(heatmap@, r * 9 + c, joint as int));
            if v > max_val {
                max_val = v;
                max_row = r;
                max_col = c;
            }
            c = c + 1;
        }
        r = r + 1;
    }
    Keypoint { row: max_row, col: max_col, score: max_val, visible: max_val > threshold }
}

/// Decodes the 17 joints from a heatmap grid of order keys: for each joint the
/// first cell of highest score in row-major order (cell `(0, 0)` with score 0
/// when no cell scores above 0), visible when that score is above `threshold`.
pub fn parse_keypoints(heatmap: &[i32], threshold: i32) -> (r: Vec<Keypoint>)
    requires
        heatmap@.len() == HEATMAP_LEN,
    ensures
        decodes_all(heatmap@, threshold, r@),
{
    let mut out: Vec<Keypoint> = Vec::new();
    let mut k: usize = 0;
    while k < NUM_JOINTS
        invariant
            heatmap@.len() == HEATMAP_LEN,
            k <= 17,
            out@.len() == k,
            forall|j: int| 0 <= j < k ==> #[trigger] decodes_to(heatmap@, threshold, j, out@[j]),
        decreases 17 - k,
    {
        let kp = find_peak(heatmap, k, threshold);
        out.push(kp);
        k = k + 1;
    }
    out
}

/// Decodes the 17 joints from a heatmap of `f32` confidences and an `f32`
/// threshold, each given by its bit pattern: the decoding of their order keys.
pub fn decode_confidences(heatmap_bits: &[u32], threshold_bits: u32) -> (r: Vec<Keypoint>)
    requires
        heatmap_bits@.len() == HEATMAP_LEN,
    ensures
        decodes_all(
            heatmap_bits@.map_values(|b: u32| score_key_of(b)),
            threshold_key_of(threshold_bits),
            r@,
        ),
{
    let keys = score_keys(heatmap_bits);
    parse_keypoints(keys.as_slice(), threshold_key(threshold_bits))
}

/// A joint has exactly one peak: the cell and score of a peak are fixed by
/// the heatmap alone.
pub proof fn lemma_peak_unique(h: Seq<i32>, joint: int, c1: int, s1: int, c2: int, s2: int)
    requires
        is_peak(h, joint, c1, s1),
        is_peak(h, joint, c2, s2),
    ensures
        c1 == c2,
        s1 == s2,
{
    if s1 > 0 {
        assert(heat(h, c1, joint) <= s2);
    }
    if s2 > 0 {
        assert(heat(h, c2, joint) <= s1);
    }
    if c1 < c2 {
        assert(heat(h, c1, joint) < s2);
    }
    if c2 < c1 {
        assert(heat(h, c2, joint) < s1);
    }
}

/// Decoding is deterministic: two decodings of the same heatmap with the same
/// threshold are identical, joint for joint.
pub proof fn lemma_decode_deterministic(h: Seq<i32>, threshold: i32, r1: Seq<Keypoint>, r2: Seq<Keypoint>)
    requires
        decodes_all(h, threshold, r1),
        decodes_all(h, threshold, r2),
    ensures
        r1 == r2,
{
    assert forall|k: int| 0 <= k < 17 implies r1[k] == r2[k] by {
        assert(decodes_to(h, threshold, k, r1[k]));
        assert(decodes_to(h, threshold, k, r2[k]));
        lemma_peak_unique(
            h,
            k,
            r1[k].row * 9 + r1[k].col,
            r1[k].score as int,
            r2[k].row * 9 + r2[k].col,
            r2[k].score as int,
        );
    }
    assert(r1 =~= r2);
}

/// Lowering the threshold only adds visible joints: a joint visible at
/// `high` is visible at any `low <= high`, at the same position.
pub proof fn lemma_threshold_monotone(
    h: Seq<i32>,
    high: i32,
    low: i32,
    at_high: Seq<Keypoint>,
    at_low: Seq<Keypoint>,
)
    requires
        low <= high,
        decodes_all(h, high, at_high),
        decodes_all(h, low, at_low),
    ensures
        forall|k: int|
            0 <= k < 17 && (#[trigger] at_high[k]).visible ==> at_low[k].visible
                && at_low[k].row == at_high[k].row && at_low[k].col == at_high[k].col,
{
    assert forall|k: int| 0 <= k < 17 && (#[trigger] at_high[k]).visible implies at_low[k].visible
        && at_low[k].row == at_high[k].row && at_low[k].col == at_high[k].col by {
        assert(decodes_to(h, high, k, at_high[k]));
        assert(decodes_to(h, low, k, at_low[k]));
        lemma_peak_unique(
            h,
            k,
            at_high[k].row * 9 + at_high[k].col,
            at_high[k].score as int,
            at_low[k].row * 9 + at_low[k].col,
            at_low[k].score as int,
        );
    }
}

/// A heatmap with no score above zero decodes to no visible joint under any
/// threshold of at least zero; every joint sits at cell `(0, 0)`.
pub proof fn lemma_no_signal_invisible(h: Seq<i32>, threshold: i32, r: Seq<Keypoint>)
    requires
        h.len() == 1377,
        forall|i: int| 0 <= i < 1377 ==> h[i] <= 0,
        threshold >= 0,
        decodes_all(h, threshold, r),
    ensures
        forall|k: int|
            0 <= k < 17 ==> !(#[trigger] r[k]).visible && r[k].row == 0 && r[k].col == 0,
{
    assert forall|k: int| 0 <= k < 17 implies !(#[trigger] r[k]).visible && r[k].row == 0
        && r[k].col == 0 by {
        assert(decodes_to(h, threshold, k, r[k]));
        let cell = r[k].row * 9 + r[k].col;
        assert(0 <= cell * 17 + k < 1377);
        assert(h[cell * 17 + k] <= 0);
    }
}

/// A heatmap of zeros decodes, under any threshold that is not a NaN and not
/// below zero, to no visible joint.
pub proof fn lemma_zero_confidences_invisible(heatmap_bits: Seq<u32>, threshold_bits: u32, r: Seq<Keypoint>)
    requires
        heatmap_bits.len() == 1377,
        forall|i: int| 0 <= i < 1377 ==> #[trigger] heatmap_bits[i] == 0 || heatmap_bits[i] == 0x8000_0000,
        !is_nan_bits(threshold_bits),
        signed_magnitude(threshold_bits) >= 0,
        decodes_all(
            heatmap_bits.map_values(|b: u32| score_key_of(b)),
            threshold_key_of(threshold_bits),
            r,
        ),
    ensures
        forall|k: int| 0 <= k < 17 ==> !(#[trigger] r[k]).visible,
{
    let keys = heatmap_bits.map_values(|b: u32| score_key_of(b));
    assert forall|i: int| 0 <= i < 1377 implies keys[i] <= 0 by {
        assert(heatmap_bits[i] == 0 || heatmap_bits[i] == 0x8000_0000);
    }
    lemma_no_signal_invisible(keys, threshold_key_of(threshold_bits), r);
}

} // verus!
