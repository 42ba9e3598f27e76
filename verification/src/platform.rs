//! Small platform rules: which sound file each signal plays and how the
//! reported screen size is enlarged on Windows.

use vstd::prelude::*;

verus! {

/// The sound file for a signal: 0 arming, 1 success, anything else stop.
pub open spec fn sound_file(number: i32) -> Seq<char> {
    if number == 0 {
        "blip-131856.mp3"@
    } else if number == 1 {
        "success-48018.mp3"@
    } else {
        "stop-13692.mp3"@
    }
}

/// The name of the sound file played for signal `number`.
pub fn sound_file_name(number: i32) -> (r: String)
    ensures
        r@ == sound_file(number),
{
    if number == 0 {
        String::from_str("blip-131856.mp3")
    } else if number == 1 {
        String::from_str("success-48018.mp3")
    } else {
        String::from_str("stop-13692.mp3")
    }
}

/// Integer division rounding toward zero, as Rust's `/` does.
pub open spec fn div_toward_zero(a: int, b: int) -> int
    recommends
        b > 0,
{
    if a >= 0 {
        a / b
    } else {
        -((-a) / b)
    }
}

/// A screen dimension enlarged by a quarter, rounding the quarter toward
/// zero: `v + 25 * v / 100` in 32-bit arithmetic.
pub fn scaled_screen_dimension(v: i32) -> (r: i32)
    requires
        -85899345 <= v <= 85899345,
    ensures
        r == v + div_toward_zero(25 * v, 100),
{
    let q: i32 = 25 * v;
    if q >= 0 {
        v + q / 100
    } else {
        v - (-q) / 100
    }
}

} // verus!
