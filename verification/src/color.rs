//! HSV <-> RGB color model.
//!
//! Hue is an integer in degrees in `[0, 360)`, saturation is a flag in
//! `{0, 1}`, and value (brightness) is a fixed-point fraction of
//! [`VALUE_SCALE`]: `1000` stands for full brightness, `500` for half.
//! `hsv_to_rgb` is the classic piecewise conversion with six 60-degree hue
//! sectors; `rgb_to_hsv` is its documented lossy inverse (hue truncated to
//! whole degrees, saturation truncated to the flag), used to dim an existing
//! pixel by extracting its hue and brightness.

use vstd::prelude::*;

verus! {

/// Brightness values are fixed-point fractions of this scale:
/// `1000` means full brightness, `500` means half.
pub const VALUE_SCALE: u16 = 1000;

pub open spec fn abs_int(x: int) -> int {
    if x < 0 {
        -x
    } else {
        x
    }
}

/// `a / b` rounded to the nearest integer, halves rounding up
/// (for `a >= 0`, `b > 0`).
pub open spec fn div_round(a: int, b: int) -> int {
    (2 * a + b) / (2 * b)
}

/// The triangular fold of a hue angle onto `[0, 60]`: `0` at the hue
/// boundaries that give a pure primary or secondary channel mix, `60`
/// where two channels tie.
pub open spec fn hue_fold(h: int) -> int {
    60 - abs_int(h % 120 - 60)
}

/// One output channel byte from a color component scaled by 60_000
/// (brightness in thousandths times a hue fold in `[0, 60]`).
pub open spec fn channel_byte(p: int) -> int {
    div_round(255 * p, 60_000)
}

/// The (red, green, blue) components, scaled by 60_000, before the match
/// offset is added: a permutation of (chroma, x, 0) chosen by the hue sector.
pub open spec fn sector_components(h: int, c60: int, x60: int) -> (int, int, int) {
    if h < 60 {
        (c60, x60, 0)
    } else if h < 120 {
        (x60, c60, 0)
    } else if h < 180 {
        (0, c60, x60)
    } else if h < 240 {
        (0, x60, c60)
    } else if h < 300 {
        (x60, 0, c60)
    } else {
        (c60, 0, x60)
    }
}

/// The exact result of the HSV-to-RGB conversion: chroma `c = s * v`,
/// intermediate `x = c * hue_fold(h) / 60`, match offset `m = v - c`,
/// each channel `round(255 * (component + m))` over the per-mille scale.
pub open spec fn hsv_to_rgb_spec(h: int, s: int, v: int) -> (int, int, int) {
    let c = s * v;
    let c60 = 60 * c;
    let x60 = c * hue_fold(h);
    let m60 = 60 * (v - c);
    let (r1, g1, b1) = sector_components(h, c60, x60);
    (channel_byte(r1 + m60), channel_byte(g1 + m60), channel_byte(b1 + m60))
}

/// An executable pixel equals a spec pixel, channel by channel.
pub open spec fn rgb_matches(p: (u8, u8, u8), s: (int, int, int)) -> bool {
    p.0 == s.0 && p.1 == s.1 && p.2 == s.2
}

/// One channel byte from a component-plus-offset scaled by 60_000.
fn channel_of(p: u64) -> (r: u8)
    requires
        p <= 60_000,
    ensures
        r == channel_byte(p as int),
{
    proof {
        assert((2 * (255 * (p as int)) + 60_000) / (2int * 60_000) == (510 * (p as int) + 60_000)
            / 120_000);
        vstd::arithmetic::div_mod::lemma_div_is_ordered(
            510 * p + 60_000,
            510int * 60_000 + 60_000,
            120_000,
        );
    }
    ((510 * p + 60_000) / 120_000) as u8
}

/// HSV to RGB. Hue must already be normalized into `[0, 360)` (the sentinel
/// `-1` for "rainbow" is resolved to a concrete hue before this point),
/// saturation is the flag in `{0, 1}`, and value is in thousandths of full
/// brightness. Returns the three channel bytes.
pub fn hsv_to_rgb(hue: i32, saturation: i32, value: u16) -> (rgb: (u8, u8, u8))
    requires
        0 <= hue < 360,
        saturation == 0 || saturation == 1,
        value <= VALUE_SCALE,
    ensures
        rgb_matches(rgb, hsv_to_rgb_spec(hue as int, saturation as int, value as int)),
{
    let c: u64 = (saturation as u64) * (value as u64);
    let hm: i32 = hue % 120;
    let fold: u64 = if hm < 60 {
        hm as u64
    } else {
        (120 - hm) as u64
    };
    proof {
        assert(fold == hue_fold(hue as int));
        vstd::arithmetic::mul::lemma_mul_basics(value as int);
        assert(c <= value && (saturation == 1 ==> c == value) && (saturation == 0 ==> c == 0));
        assert(c * fold <= 60 * c && c * fold <= 60_000) by (nonlinear_arith)
            requires
                0 <= c <= 1000,
                0 <= fold <= 60,
        ;
    }
    let c60: u64 = 60 * c;
    let x60: u64 = c * fold;
    let m60: u64 = 60 * ((value as u64) - c);
    proof {
        assert(x60 + m60 <= 60_000 && c60 + m60 <= 60_000);
    }
    let (r1, g1, b1): (u64, u64, u64) = if hue < 60 {
        (c60, x60, 0)
    } else if hue < 120 {
        (x60, c60, 0)
    } else if hue < 180 {
        (0, c60, x60)
    } else if hue < 240 {
        (0, x60, c60)
    } else if hue < 300 {
        (x60, 0, c60)
    } else {
        (c60, 0, x60)
    };
    (channel_of(r1 + m60), channel_of(g1 + m60), channel_of(b1 + m60))
}

pub open spec fn max3(r: int, g: int, b: int) -> int {
    if r >= g && r >= b {
        r
    } else if g >= b {
        g
    } else {
        b
    }
}

pub open spec fn min3(r: int, g: int, b: int) -> int {
    if r <= g && r <= b {
        r
    } else if g <= b {
        g
    } else {
        b
    }
}

/// Hue in whole degrees recovered from channel bytes: the standard
/// max-channel branch formulas in degrees, reduced modulo 360 and
/// truncated to an integer. Zero when the pixel is achromatic.
pub open spec fn hue_of_rgb(r: int, g: int, b: int) -> int {
    let mx = max3(r, g, b);
    let d = mx - min3(r, g, b);
    if d == 0 {
        0
    } else if mx == r {
        ((60 * (g - b)) % (360 * d)) / d
    } else if mx == g {
        (60 * (b - r) + 120 * d) / d
    } else {
        (60 * (r - g) + 240 * d) / d
    }
}

/// Saturation recovered as a flag: the continuous ratio `delta / max`
/// truncated to an integer, so `1` exactly when the darkest channel is
/// zero and the pixel is not black.
pub open spec fn sat_of_rgb(r: int, g: int, b: int) -> int {
    let mx = max3(r, g, b);
    if mx > 0 && mx - min3(r, g, b) == mx {
        1
    } else {
        0
    }
}

/// Brightness in thousandths recovered from channel bytes: the brightest
/// channel as a fraction of 255, rounded to the per-mille scale.
pub open spec fn val_of_rgb(r: int, g: int, b: int) -> int {
    div_round(1000 * max3(r, g, b), 255)
}

/// RGB to HSV, the documented lossy inverse of `hsv_to_rgb`: hue is
/// truncated to whole degrees in `[0, 360)`, saturation to the flag in
/// `{0, 1}`, and value is the brightest channel in thousandths. It does
/// not round-trip `hsv_to_rgb` exactly; only the brightness survives to
/// within rounding (see `lemma_value_round_trip`).
pub fn rgb_to_hsv(r: u8, g: u8, b: u8) -> (hsv: (i32, i32, u16))
    ensures
        hsv.0 == hue_of_rgb(r as int, g as int, b as int),
        hsv.1 == sat_of_rgb(r as int, g as int, b as int),
        hsv.2 == val_of_rgb(r as int, g as int, b as int),
        0 <= hsv.0 < 360,
        hsv.1 == 0 || hsv.1 == 1,
        hsv.2 <= VALUE_SCALE,
{
    let mx: u8 = if r >= g && r >= b {
        r
    } else if g >= b {
        g
    } else {
        b
    };
    let mn: u8 = if r <= g && r <= b {
        r
    } else if g <= b {
        g
    } else {
        b
    };
    let d: i32 = mx as i32 - mn as i32;
    let hue: i32 = if d == 0 {
        0
    } else if mx == r {
        let num: i32 = 60 * (g as i32 - b as i32);
        proof {
            lemma_hue_red_branch_mod(num as int, d as int);
        }
        if num >= 0 {
            num / d
        } else {
            (num + 360 * d) / d
        }
    } else if mx == g {
        (60 * (b as i32 - r as i32) + 120 * d) / d
    } else {
        (60 * (r as i32 - g as i32) + 240 * d) / d
    };
    proof {
        lemma_hue_of_rgb_in_range(r as int, g as int, b as int);
    }
    let sat: i32 = if mx > 0 && d == mx as i32 {
        1
    } else {
        0
    };
    let val: u16 = ((2000 * (mx as u32) + 255) / 510) as u16;
    proof {
        vstd::arithmetic::div_mod::lemma_div_is_ordered(
            2000 * (mx as int) + 255,
            2000int * 255 + 255,
            510,
        );
    }
    (hue, sat, val)
}

/// In the max-red branch the hue numerator lies strictly within one
/// period on either side, so the Euclidean remainder is the numerator
/// itself when it is nonnegative and one period more when negative.
proof fn lemma_hue_red_branch_mod(num: int, d: int)
    requires
        d > 0,
        -(360 * d) < num < 360 * d,
    ensures
        num >= 0 ==> num % (360 * d) == num,
        num < 0 ==> num % (360 * d) == num + 360 * d,
{
    if num >= 0 {
        vstd::arithmetic::div_mod::lemma_small_mod(num as nat, (360 * d) as nat);
    } else {
        vstd::arithmetic::div_mod::lemma_fundamental_div_mod_converse_mod(
            num,
            360 * d,
            -1,
            num + 360 * d,
        );
    }
}

/// The recovered hue always lies in `[0, 360)`.
pub proof fn lemma_hue_of_rgb_in_range(r: int, g: int, b: int)
    requires
        0 <= r <= 255,
        0 <= g <= 255,
        0 <= b <= 255,
    ensures
        0 <= hue_of_rgb(r, g, b) < 360,
{
    let mx = max3(r, g, b);
    let d = mx - min3(r, g, b);
    if d != 0 {
        if mx == r {
            let num = 60 * (g - b);
            vstd::arithmetic::div_mod::lemma_mod_bound(num, 360 * d);
            let e = num % (360 * d);
            vstd::arithmetic::div_mod::lemma_div_is_ordered(0, e, d);
            vstd::arithmetic::div_mod::lemma_div_is_ordered(e, 360 * d - 1, d);
            lemma_mul_div_cancel_lt(e, 360, d);
        } else if mx == g {
            let num = 60 * (b - r) + 120 * d;
            vstd::arithmetic::div_mod::lemma_div_is_ordered(0, num, d);
            lemma_mul_div_cancel_lt(num, 360, d);
        } else {
            let num = 60 * (r - g) + 240 * d;
            vstd::arithmetic::div_mod::lemma_div_is_ordered(0, num, d);
            lemma_mul_div_cancel_lt(num, 360, d);
        }
    }
}

/// A channel byte computed from a component in `[0, 60_000]` lies in
/// `[0, 255]`.
pub proof fn lemma_channel_byte_bounded(p: int)
    requires
        0 <= p <= 60_000,
    ensures
        0 <= channel_byte(p) <= 255,
{
    vstd::arithmetic::div_mod::lemma_div_is_ordered(60_000, 2 * (255 * p) + 60_000, 120_000);
    vstd::arithmetic::div_mod::lemma_div_is_ordered(
        2 * (255 * p) + 60_000,
        2int * (255 * 60_000) + 60_000,
        120_000,
    );
}

/// For every hue in the domain, saturation flag, and brightness up to full
/// scale, every channel of `hsv_to_rgb` lies in `[0, 255]`.
pub proof fn lemma_hsv_to_rgb_bounded(h: int, s: int, v: int)
    requires
        0 <= h < 360,
        s == 0 || s == 1,
        0 <= v <= 1000,
    ensures
        ({
            let (r, g, b) = hsv_to_rgb_spec(h, s, v);
            0 <= r <= 255 && 0 <= g <= 255 && 0 <= b <= 255
        }),
{
    let c = s * v;
    vstd::arithmetic::mul::lemma_mul_basics(v);
    assert(c <= v && c >= 0);
    let fold = hue_fold(h);
    vstd::arithmetic::div_mod::lemma_mod_bound(h, 120);
    assert(0 <= fold <= 60);
    let x60 = c * fold;
    assert(0 <= x60 <= 60 * c) by (nonlinear_arith)
        requires
            0 <= c,
            0 <= fold <= 60,
            x60 == c * fold,
    ;
    let m60 = 60 * (v - c);
    lemma_channel_byte_bounded(60 * c + m60);
    lemma_channel_byte_bounded(x60 + m60);
    lemma_channel_byte_bounded(m60);
}

/// The weak round trip that does hold of the lossy inverse: when the hue
/// lies exactly on a sector boundary, converting `(h, 1, v)` to RGB and
/// reading the brightness back recovers `v` to within two thousandths.
pub proof fn lemma_value_round_trip(h: int, v: int)
    requires
        0 <= v <= 1000,
        h == 0 || h == 60 || h == 120 || h == 180 || h == 240 || h == 300,
    ensures
        ({
            let (r, g, b) = hsv_to_rgb_spec(h, 1, v);
            abs_int(val_of_rgb(r, g, b) - v) <= 2
        }),
{
    vstd::arithmetic::mul::lemma_mul_basics(v);
    let c = 1 * v;
    assert(c == v);
    let fold = hue_fold(h);
    assert(fold == 0 || fold == 60);
    let x60 = c * fold;
    vstd::arithmetic::mul::lemma_mul_basics(c);
    assert(fold == 0 ==> x60 == 0);
    assert(fold == 60 ==> x60 == 60 * c);
    let vbyte = channel_byte(60 * v);
    lemma_channel_byte_bounded(60 * v);
    assert(channel_byte(0) == 0);
    let (r, g, b) = hsv_to_rgb_spec(h, 1, v);
    assert(max3(r, g, b) == vbyte);
    vstd::arithmetic::div_mod::lemma_fundamental_div_mod(30600 * v + 60_000, 120_000);
    vstd::arithmetic::div_mod::lemma_mod_bound(30600 * v + 60_000, 120_000);
    assert(vbyte == (30600 * v + 60_000) / 120_000);
    vstd::arithmetic::div_mod::lemma_fundamental_div_mod(2000 * vbyte + 255, 510);
    vstd::arithmetic::div_mod::lemma_mod_bound(2000 * vbyte + 255, 510);
    assert(val_of_rgb(r, g, b) == (2000 * vbyte + 255) / 510);
}

/// A nonnegative numerator strictly below `k * d` divides by `d` to
/// strictly below `k`.
pub proof fn lemma_mul_div_cancel_lt(num: int, k: int, d: int)
    requires
        d > 0,
        k > 0,
        0 <= num < k * d,
    ensures
        num / d < k,
{
    vstd::arithmetic::div_mod::lemma_fundamental_div_mod(num, d);
    vstd::arithmetic::div_mod::lemma_mod_bound(num, d);
    assert(num / d < k) by (nonlinear_arith)
        requires
            d > 0,
            k > 0,
            num == d * (num / d) + num % d,
            0 <= num % d < d,
            num < k * d,
    ;
}

} // verus!
