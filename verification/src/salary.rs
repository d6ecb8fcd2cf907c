//! Salaries, as they come out of a draw from a distribution.
//!
//! A draw is a single-precision number. It is held here by its 32 bits: one
//! bit of sign, eight of exponent, twenty-three of fraction.

use crate::error::GenError;
use vstd::prelude::*;

verus! {

/// The sign bit of a draw.
pub open spec fn sign_of(bits: u32) -> bool {
    bits >= 0x8000_0000
}

/// The exponent field of a draw.
pub open spec fn exponent_of(bits: u32) -> int {
    (bits as int / 0x80_0000) % 256
}

/// The fraction field of a draw.
pub open spec fn fraction_of(bits: u32) -> int {
    bits as int % 0x80_0000
}

/// Whether the draw is not a number.
pub open spec fn is_nan(bits: u32) -> bool {
    exponent_of(bits) == 255 && fraction_of(bits) != 0
}

/// Whether the draw is zero, of either sign.
pub open spec fn is_zero(bits: u32) -> bool {
    exponent_of(bits) == 0 && fraction_of(bits) == 0
}

/// Whether the draw is below zero.
pub open spec fn draw_is_negative(bits: u32) -> bool {
    sign_of(bits) && !is_nan(bits) && !is_zero(bits)
}

/// `m` doubled `k` times.
pub open spec fn doubled(m: int, k: nat) -> int
    decreases k,
{
    if k == 0 {
        m
    } else {
        2 * doubled(m, (k - 1) as nat)
    }
}

/// `m` halved `k` times, rounding down each time.
pub open spec fn halved(m: int, k: nat) -> int
    decreases k,
{
    if k == 0 {
        m
    } else {
        halved(m, (k - 1) as nat) / 2
    }
}

/// The whole part of a draw that is not below zero: the draw rounded towards
/// zero, no larger than the largest `u32`; 0 for a draw that is not a number.
pub open spec fn draw_whole(bits: u32) -> int {
    let e = exponent_of(bits);
    let m = 0x80_0000 + fraction_of(bits);
    if is_nan(bits) || sign_of(bits) || e < 127 {
        0
    } else if e >= 159 {
        u32::MAX as int
    } else if e >= 150 {
        doubled(m, (e - 150) as nat)
    } else {
        halved(m, (150 - e) as nat)
    }
}

/// The salary that a draw stands for: its whole part, or the failure of the
/// run where the draw is below zero.
pub open spec fn salary_of(bits: u32) -> Result<u32, GenError> {
    if draw_is_negative(bits) {
        Err(GenError::NegativeSalary { draw: bits })
    } else {
        Ok(draw_whole(bits) as u32)
    }
}

/// Doubling at most eight times keeps a number below 2^24 below 2^32.
pub proof fn lemma_doubled_bound(m: int, k: nat)
    requires
        0 <= m < 0x100_0000,
        k <= 8,
    ensures
        0 <= doubled(m, k) <= 0xffff_ffff,
        k < 8 ==> doubled(m, k) < 0x8000_0000,
{
    reveal_with_fuel(doubled, 9);
}

/// The salary that a draw stands for.
pub fn salary_from_draw(bits: u32) -> (r: Result<u32, GenError>)
    ensures
        r == salary_of(bits),
{
    let sign: bool = bits >= 0x8000_0000;
    let e: u32 = (bits / 0x80_0000) % 256;
    let fraction: u32 = bits % 0x80_0000;
    let nan: bool = e == 255 && fraction != 0;
    if sign && !nan && !(e == 0 && fraction == 0) {
        return Err(GenError::NegativeSalary { draw: bits });
    }
    if nan || sign || e < 127 {
        return Ok(0);
    }
    if e >= 159 {
        return Ok(u32::MAX);
    }
    let mut whole: u32 = 0x80_0000 + fraction;
    let ghost m = whole as int;
    let mut k: u32 = 0;
    if e >= 150 {
        while k < e - 150
            invariant
                150 <= e < 159,
                0 <= m < 0x100_0000,
                k <= e - 150,
                whole == doubled(m, k as nat),
            decreases e - 150 - k,
        {
            proof {
                lemma_doubled_bound(m, k as nat);
            }
            whole = whole * 2;
            k = k + 1;
        }
    } else {
        while k < 150 - e
            invariant
                127 <= e < 150,
                k <= 150 - e,
                whole == halved(m, k as nat),
            decreases 150 - e - k,
        {
            whole = whole / 2;
            k = k + 1;
        }
    }
    Ok(whole)
}

} // verus!
