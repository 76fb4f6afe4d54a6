//! The fixed-point units of the simulation, and the arithmetic between them.
//!
//! Every quantity is an integer:
//!
//! | quantity | unit                         | written        |
//! |----------|------------------------------|----------------|
//! | time     | millisecond                  | `_ms`          |
//! | length   | nanometre (1e-9 m)           | `_nm`          |
//! | speed    | micrometre per second        | `_um_s`        |
//! | angle    | nanodegree (1e-9 degree)     | `_ndeg`        |
//!
//! A speed times a time is then a length with no rounding at all
//! (1 um/s for 1 ms is 1 nm), and a length over a time is a speed.
//! Results that do not fit their type stop at the type's bounds.

use vstd::prelude::*;

verus! {

/// Nanometres in a metre.
pub const NANOMETERS_PER_METER: u64 = 1_000_000_000;

/// Micrometres per second in a metre per second.
pub const UM_S_PER_M_S: u64 = 1_000_000;

/// Nanodegrees in a degree.
pub const NANODEGREES_PER_DEGREE: i64 = 1_000_000_000;

/// A full turn, 360 degrees.
pub const FULL_TURN_NDEG: i64 = 360_000_000_000;

/// `x`, or the bound of `i64` that it lies beyond.
pub open spec fn clamp_i64(x: int) -> i64 {
    if x < i64::MIN {
        i64::MIN
    } else if x > i64::MAX {
        i64::MAX
    } else {
        x as i64
    }
}

/// `x`, or the bound of `u64` that it lies beyond.
pub open spec fn clamp_u64(x: int) -> u64 {
    if x < 0 {
        0
    } else if x > u64::MAX {
        u64::MAX
    } else {
        x as u64
    }
}

/// The time from `last_ms` to `now_ms`; none where the clock went back.
pub open spec fn elapsed(now_ms: u64, last_ms: u64) -> u64 {
    if now_ms >= last_ms {
        (now_ms - last_ms) as u64
    } else {
        0
    }
}

/// The length covered at `speed_um_s` during `millis`, in nanometres.
pub open spec fn distance_covered(speed_um_s: u64, millis: u64) -> u64 {
    clamp_u64(speed_um_s * millis)
}

/// The altitude reached from `altitude_nm` at the climb rate `rate_um_s`
/// (negative when descending) during `millis`.
pub open spec fn altitude_after(altitude_nm: i64, rate_um_s: i64, millis: u64) -> i64 {
    clamp_i64(altitude_nm + rate_um_s * millis)
}

/// The speed that covers `length_nm` in `millis`, rounded down; zero where
/// there is no time to cover it in.
pub open spec fn speed_over(length_nm: int, millis: u64) -> u64 {
    if millis == 0 {
        0
    } else {
        clamp_u64(length_nm / (millis as int))
    }
}

/// The climb rate that gains `rise_nm` while `distance_nm` is flown at
/// `speed_um_s`: `rise * speed / distance`, rounded toward zero. A leg of no
/// length has no climb rate: zero.
pub open spec fn climb_rate(rise_nm: int, speed_um_s: u64, distance_nm: u64) -> i64 {
    if distance_nm == 0 {
        0
    } else if rise_nm >= 0 {
        clamp_i64((rise_nm * speed_um_s) / (distance_nm as int))
    } else {
        clamp_i64(-(((-rise_nm) * speed_um_s) / (distance_nm as int)))
    }
}

/// The angle in `[0, 360)` degrees that points the same way as `bearing_ndeg`.
pub open spec fn normalized(bearing_ndeg: int) -> int {
    bearing_ndeg % (FULL_TURN_NDEG as int)
}

/// A time cut in two covers the same length as the time in one piece: no
/// length is lost between ticks, however short they are.
pub proof fn lemma_covered_adds_up(speed_um_s: u64, first: u64, second: u64)
    requires
        first + second <= u64::MAX,
        speed_um_s * (first + second) <= u64::MAX,
    ensures
        distance_covered(speed_um_s, first) + distance_covered(speed_um_s, second)
            == distance_covered(speed_um_s, (first + second) as u64),
{
    assert(speed_um_s * (first + second) == speed_um_s * first + speed_um_s * second
        && speed_um_s * first >= 0 && speed_um_s * second >= 0) by (nonlinear_arith);
}

/// A climb cut in two reaches the same altitude as the climb in one piece,
/// as long as the altitudes on the way fit their type.
pub proof fn lemma_climb_adds_up(altitude_nm: i64, rate_um_s: i64, first: u64, second: u64)
    requires
        first + second <= u64::MAX,
        i64::MIN <= altitude_nm + rate_um_s * first <= i64::MAX,
        i64::MIN <= altitude_nm + rate_um_s * (first + second) <= i64::MAX,
    ensures
        altitude_after(altitude_after(altitude_nm, rate_um_s, first), rate_um_s, second)
            == altitude_after(altitude_nm, rate_um_s, (first + second) as u64),
{
    assert(rate_um_s * (first + second) == rate_um_s * first + rate_um_s * second)
        by (nonlinear_arith);
}

/// The time from `last_ms` to `now_ms`.
pub fn elapsed_ms(now_ms: u64, last_ms: u64) -> (millis: u64)
    ensures
        millis == elapsed(now_ms, last_ms),
{
    if now_ms >= last_ms {
        now_ms - last_ms
    } else {
        0
    }
}

/// The length covered at a speed during a time.
pub fn covered_nm(speed_um_s: u64, millis: u64) -> (length: u64)
    ensures
        length == distance_covered(speed_um_s, millis),
{
    assert(0 <= speed_um_s * millis <= 0xffff_ffff_ffff_ffff * 0xffff_ffff_ffff_ffff)
        by (nonlinear_arith)
        requires
            0 <= speed_um_s <= 0xffff_ffff_ffff_ffff,
            0 <= millis <= 0xffff_ffff_ffff_ffff,
    ;
    let product: u128 = (speed_um_s as u128) * (millis as u128);
    if product > u64::MAX as u128 {
        u64::MAX
    } else {
        product as u64
    }
}

/// The altitude after climbing at a rate during a time.
pub fn climbed_nm(altitude_nm: i64, rate_um_s: i64, millis: u64) -> (altitude: i64)
    ensures
        altitude == altitude_after(altitude_nm, rate_um_s, millis),
{
    assert(-0x8000_0000_0000_0000 * 0xffff_ffff_ffff_ffff <= rate_um_s * millis
        <= 0x7fff_ffff_ffff_ffff * 0xffff_ffff_ffff_ffff) by (nonlinear_arith)
        requires
            -0x8000_0000_0000_0000 <= rate_um_s <= 0x7fff_ffff_ffff_ffff,
            0 <= millis <= 0xffff_ffff_ffff_ffff,
    ;
    let gain: i128 = (rate_um_s as i128) * (millis as i128);
    let reached: i128 = (altitude_nm as i128) + gain;
    saturate_i64(reached)
}

/// The speed that covers a length in a time.
pub fn speed_um_s(length_nm: u128, millis: u64) -> (speed: u64)
    ensures
        speed == speed_over(length_nm as int, millis),
{
    if millis == 0 {
        0
    } else {
        let quotient: u128 = length_nm / (millis as u128);
        if quotient > u64::MAX as u128 {
            u64::MAX
        } else {
            quotient as u64
        }
    }
}

/// The climb rate that takes the aircraft from `from_nm` to `to_nm` of
/// altitude over a leg of `distance_nm` flown at `speed_um_s`.
pub fn climb_rate_um_s(from_nm: i64, to_nm: i64, speed_um_s: u64, distance_nm: u64) -> (rate: i64)
    ensures
        rate == climb_rate(to_nm - from_nm, speed_um_s, distance_nm),
{
    if distance_nm == 0 {
        return 0;
    }
    let rise: i128 = (to_nm as i128) - (from_nm as i128);
    let climbing: bool = rise >= 0;
    let height: u128 = if climbing {
        rise as u128
    } else {
        (-rise) as u128
    };
    assert(0 <= height * speed_um_s <= 0xffff_ffff_ffff_ffff * 0xffff_ffff_ffff_ffff)
        by (nonlinear_arith)
        requires
            0 <= height <= 0xffff_ffff_ffff_ffff,
            0 <= speed_um_s <= 0xffff_ffff_ffff_ffff,
    ;
    let quotient: u128 = (height * (speed_um_s as u128)) / (distance_nm as u128);
    if climbing {
        if quotient > i64::MAX as u128 {
            i64::MAX
        } else {
            quotient as i64
        }
    } else {
        if quotient > 0x8000_0000_0000_0000u128 {
            i64::MIN
        } else {
            let magnitude: i128 = quotient as i128;
            (-magnitude) as i64
        }
    }
}

/// Brings a bearing into `[0, 360)` degrees: a bearing west of north, which
/// the geodesy gives as a negative angle, becomes the same direction counted
/// clockwise from north.
pub fn normalize_bearing(bearing_ndeg: i64) -> (track: i64)
    ensures
        track == normalized(bearing_ndeg as int),
        0 <= track < FULL_TURN_NDEG,
        -FULL_TURN_NDEG <= bearing_ndeg < 0 ==> track == bearing_ndeg + FULL_TURN_NDEG,
        0 <= bearing_ndeg < FULL_TURN_NDEG ==> track == bearing_ndeg,
{
    let turn: u64 = 360_000_000_000;
    if bearing_ndeg >= 0 {
        let rest: u64 = (bearing_ndeg as u64) % turn;
        proof {
            vstd::arithmetic::div_mod::lemma_small_mod(rest as nat, turn as nat);
            vstd::arithmetic::div_mod::lemma_fundamental_div_mod(bearing_ndeg as int, turn as int);
        }
        rest as i64
    } else {
        let below: u64 = (-(bearing_ndeg as i128)) as u64;
        let rest: u64 = below % turn;
        let track: u64 = if rest == 0 {
            0
        } else {
            turn - rest
        };
        proof {
            let q = (below as int) / (turn as int);
            vstd::arithmetic::div_mod::lemma_fundamental_div_mod(below as int, turn as int);
            assert(bearing_ndeg as int == -((turn as int) * q + rest));
            if rest == 0 {
                assert(bearing_ndeg as int == (turn as int) * (-q) + 0) by (nonlinear_arith)
                    requires
                        bearing_ndeg as int == -((turn as int) * q + rest),
                        rest == 0,
                ;
                vstd::arithmetic::div_mod::lemma_fundamental_div_mod_converse(
                    bearing_ndeg as int,
                    turn as int,
                    -q,
                    0,
                );
            } else {
                assert(bearing_ndeg as int == (turn as int) * (-q - 1) + (turn - rest))
                    by (nonlinear_arith)
                    requires
                        bearing_ndeg as int == -((turn as int) * q + rest),
                ;
                vstd::arithmetic::div_mod::lemma_fundamental_div_mod_converse(
                    bearing_ndeg as int,
                    turn as int,
                    -q - 1,
                    (turn - rest) as int,
                );
            }
        }
        track as i64
    }
}

/// `x`, held to the range of `i64`.
pub fn saturate_i64(x: i128) -> (held: i64)
    ensures
        held == clamp_i64(x as int),
{
    if x > i64::MAX as i128 {
        i64::MAX
    } else if x < i64::MIN as i128 {
        i64::MIN
    } else {
        x as i64
    }
}

} // verus!
