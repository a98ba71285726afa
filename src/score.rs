use vstd::prelude::*;

verus! {

/// The bit pattern of an `f32` is a NaN: all exponent bits set and a
/// nonzero fraction.
pub open spec fn is_nan_bits(bits: u32) -> bool {
    bits % 0x8000_0000 > 0x7f80_0000
}

/// Sign and magnitude of an `f32` bit pattern read as one integer. On
/// patterns that are not NaN this orders as the floats do, with both zeros
/// equal to 0.
pub open spec fn signed_magnitude(bits: u32) -> int {
    if bits >= 0x8000_0000 {
        -(bits - 0x8000_0000)
    } else {
        bits as int
    }
}

/// Order key of a confidence: its signed magnitude, and for a NaN, which
/// never compares above anything, the least key.
pub open spec fn score_key_of(bits: u32) -> i32 {
    if is_nan_bits(bits) {
        i32::MIN
    } else {
        signed_magnitude(bits) as i32
    }
}

/// Order key of a threshold: its signed magnitude, and for a NaN, which
/// nothing compares above, the greatest key.
pub open spec fn threshold_key_of(bits: u32) -> i32 {
    if is_nan_bits(bits) {
        i32::MAX
    } else {
        signed_magnitude(bits) as i32
    }
}

/// The order key of an `f32` confidence given by its bit pattern.
pub fn score_key(bits: u32) -> (r: i32)
    ensures
        r == score_key_of(bits),
        !is_nan_bits(bits) ==> r == signed_magnitude(bits),
{
    let magnitude = bits % 0x8000_0000;
    if magnitude > 0x7f80_0000 {
        i32::MIN
    } else if bits >= 0x8000_0000 {
        -(magnitude as i32)
    } else {
        magnitude as i32
    }
}

/// The order key of an `f32` threshold given by its bit pattern.
pub fn threshold_key(bits: u32) -> (r: i32)
    ensures
        r == threshold_key_of(bits),
        !is_nan_bits(bits) ==> r == signed_magnitude(bits),
{
    let magnitude = bits % 0x8000_0000;
    if magnitude > 0x7f80_0000 {
        i32::MAX
    } else if bits >= 0x8000_0000 {
        -(magnitude as i32)
    } else {
        magnitude as i32
    }
}

/// The order keys of a grid of confidences, one for one.
pub fn score_keys(bits: &[u32]) -> (r: Vec<i32>)
    ensures
        r@ == bits@.map_values(|b: u32| score_key_of(b)),
{
    let mut out: Vec<i32> = Vec::new();
    let mut i: usize = 0;
    while i < bits.len()
        invariant
            i <= bits@.len(),
            out@ == bits@.take(i as int).map_values(|b: u32| score_key_of(b)),
        decreases bits@.len() - i,
    {
        out.push(score_key(bits[i]));
        proof {
            assert(bits@.take(i + 1) == bits@.take(i as int).push(bits@[i as int]));
        }
        i = i + 1;
    }
    proof {
        assert(bits@.take(bits@.len() as int) == bits@);
    }
    out
}

} // verus!
