//! Per-pixel math of the pattern engine: rainbow hue spreading, the pulse
//! ramp, chase band profiles, the scanning point's brightness and bounce,
//! and the random draws behind the sparking patterns.

use vstd::prelude::*;

use crate::color::abs_int;
use crate::color::div_round;
use crate::color::hsv_to_rgb_spec;
use crate::color::rgb_matches;
use crate::color::VALUE_SCALE;
use crate::rng::rand_in_range;

verus! {

/// Upper bound on the LED count of a strip. It keeps every brightness
/// and hue formula comfortably inside 64-bit arithmetic.
pub const MAX_LEDS: usize = 1_000_000;

/// The position-derived hue of the rainbow modes: pixel `i` of an
/// `n`-pixel strip gets `(i / n) * 359` degrees, truncated.
pub open spec fn rainbow_hue_spec(i: int, n: int) -> int {
    (359 * i) / n
}

pub fn rainbow_hue(i: usize, n: usize) -> (h: i32)
    requires
        i < n,
        n <= MAX_LEDS,
    ensures
        h == rainbow_hue_spec(i as int, n as int),
        0 <= h < 359,
{
    proof {
        vstd::arithmetic::div_mod::lemma_div_is_ordered(0, 359 * (i as int), n as int);
        crate::color::lemma_mul_div_cancel_lt(359 * (i as int), 359, n as int);
        vstd::arithmetic::mul::lemma_mul_inequality(i as int, n as int - 1, 359);
    }
    ((359 * (i as u64)) / (n as u64)) as i32
}

/// A hue argument as the patterns accept it: the rainbow sentinel `-1`,
/// or a hue already normalized into the domain.
pub open spec fn valid_hue(hue: int) -> bool {
    hue == -1 || 0 <= hue < 360
}

/// The sentinel hue `-1` resolved at a pixel: rainbow mode derives the
/// hue from the pixel position, any other hue is used as given.
pub open spec fn resolved_hue(hue: int, i: int, n: int) -> int {
    if hue == -1 {
        rainbow_hue_spec(i, n)
    } else {
        hue
    }
}

pub fn resolve_hue(hue: i32, i: usize, n: usize) -> (h: i32)
    requires
        valid_hue(hue as int),
        i < n,
        n <= MAX_LEDS,
    ensures
        h == resolved_hue(hue as int, i as int, n as int),
        0 <= h < 360,
{
    if hue == -1 {
        rainbow_hue(i, n)
    } else {
        hue
    }
}

/// Number of frames of one pulse invocation: a single breath.
pub const PULSE_STEPS: usize = 100;

/// Pulse brightness at a step of the 100-step breath: a ramp from 0.15
/// of full scale at step 0 up to full scale at the midpoint, then back
/// down, in exact thousandths.
pub open spec fn pulse_value_spec(step: int) -> int {
    if step <= 50 {
        150 + 17 * step
    } else {
        1000 - 17 * (step - 50)
    }
}

pub fn pulse_value(step: usize) -> (v: u16)
    requires
        step < PULSE_STEPS,
    ensures
        v == pulse_value_spec(step as int),
        150 <= v <= VALUE_SCALE,
{
    if step <= 50 {
        150 + 17 * (step as u16)
    } else {
        1000 - 17 * ((step as u16) - 50)
    }
}

/// Number of traveling bands of the chase: one per 30 LEDs, at least one.
pub open spec fn chase_bands_spec(n: int) -> int {
    if n > 30 {
        n / 30
    } else {
        1
    }
}

pub fn chase_bands(n: usize) -> (k: usize)
    requires
        1 <= n <= MAX_LEDS,
    ensures
        k == chase_bands_spec(n as int),
        1 <= k <= n,
{
    if n > 30 {
        proof {
            vstd::arithmetic::div_mod::lemma_div_is_ordered(30, n as int, 30);
            vstd::arithmetic::div_mod::lemma_div_nonincreasing(n as int, 30);
        }
        n / 30
    } else {
        1
    }
}

/// Width of a half band: the rising and the falling ramp each span this
/// many pixels. Zero on strips too short to hold half a band.
pub open spec fn chase_band_width_spec(n: int) -> int {
    n / (2 * chase_bands_spec(n))
}

pub fn chase_band_width(n: usize) -> (w: usize)
    requires
        1 <= n <= MAX_LEDS,
    ensures
        w == chase_band_width_spec(n as int),
        w <= n,
{
    let k = chase_bands(n);
    proof {
        vstd::arithmetic::div_mod::lemma_div_is_ordered_by_denominator(n as int, 1, 2 * k as int);
    }
    n / (2 * k)
}

/// `round(1000 * (x / w)^2)` for `0 <= x <= w`: the squared ramp of the
/// chase band profile, in thousandths.
fn sq_ratio(x: u64, w: u64) -> (v: u16)
    requires
        1 <= w <= MAX_LEDS,
        x <= w,
    ensures
        v == div_round(1000 * ((x as int) * (x as int)), (w as int) * (w as int)),
        v <= VALUE_SCALE,
{
    proof {
        vstd::arithmetic::mul::lemma_mul_upper_bound(x as int, w as int, x as int, w as int);
        vstd::arithmetic::mul::lemma_mul_upper_bound(
            w as int,
            MAX_LEDS as int,
            w as int,
            MAX_LEDS as int,
        );
        vstd::arithmetic::mul::lemma_mul_strict_inequality(0, w as int, w as int);
        let w2 = (w as int) * (w as int);
        vstd::arithmetic::div_mod::lemma_fundamental_div_mod_converse_div(
            2001 * w2,
            2 * w2,
            1000,
            w2,
        );
        vstd::arithmetic::div_mod::lemma_div_is_ordered(
            2 * (1000 * ((x as int) * (x as int))) + w2,
            2001 * w2,
            2 * w2,
        );
        vstd::arithmetic::div_mod::lemma_div_is_ordered(
            0,
            2 * (1000 * ((x as int) * (x as int))) + w2,
            2 * w2,
        );
    }
    let x2: u64 = x * x;
    let w2: u64 = w * w;
    ((2 * (1000 * x2) + w2) / (2 * w2)) as u16
}

/// Brightness of one chase band at offset `pos` inside the band: a
/// squared ramp up over the first `w` pixels, a squared ramp down over
/// the next `w`, dark elsewhere (and everywhere when `w` is zero).
pub open spec fn band_value_spec(pos: int, w: int) -> int {
    if 0 <= pos < w {
        div_round(1000 * (pos * pos), w * w)
    } else if w <= pos < 2 * w {
        div_round(1000 * ((2 * w - pos) * (2 * w - pos)), w * w)
    } else {
        0
    }
}

pub fn band_value(pos: usize, w: usize) -> (v: u16)
    requires
        w <= MAX_LEDS,
        pos <= 2 * MAX_LEDS,
    ensures
        v == band_value_spec(pos as int, w as int),
        v <= VALUE_SCALE,
{
    if pos < w {
        sq_ratio(pos as u64, w as u64)
    } else if pos < 2 * w {
        sq_ratio((2 * w - pos) as u64, w as u64)
    } else {
        0
    }
}

/// Within the rising half of a band the brightness never falls.
pub proof fn lemma_band_rises(w: int, p1: int, p2: int)
    requires
        1 <= w,
        0 <= p1 <= p2 < w,
    ensures
        band_value_spec(p1, w) <= band_value_spec(p2, w),
{
    vstd::arithmetic::mul::lemma_mul_upper_bound(p1, p2, p1, p2);
    vstd::arithmetic::mul::lemma_mul_strict_inequality(0, w, w);
    vstd::arithmetic::div_mod::lemma_div_is_ordered(
        2 * (1000 * (p1 * p1)) + w * w,
        2 * (1000 * (p2 * p2)) + w * w,
        2 * (w * w),
    );
}

/// Within the falling half of a band the brightness never rises.
pub proof fn lemma_band_falls(w: int, p1: int, p2: int)
    requires
        1 <= w,
        w <= p1 <= p2 < 2 * w,
    ensures
        band_value_spec(p1, w) >= band_value_spec(p2, w),
{
    let t1 = 2 * w - p1;
    let t2 = 2 * w - p2;
    vstd::arithmetic::mul::lemma_mul_upper_bound(t2, t1, t2, t1);
    vstd::arithmetic::mul::lemma_mul_strict_inequality(0, w, w);
    vstd::arithmetic::div_mod::lemma_div_is_ordered(
        2 * (1000 * (t2 * t2)) + w * w,
        2 * (1000 * (t1 * t1)) + w * w,
        2 * (w * w),
    );
}

/// A band starts dark and peaks at full brightness where the falling
/// ramp begins.
pub proof fn lemma_band_edges(w: int)
    requires
        1 <= w,
    ensures
        band_value_spec(0, w) == 0,
        band_value_spec(w, w) == 1000,
{
    vstd::arithmetic::mul::lemma_mul_strict_inequality(0, w, w);
    let w2 = w * w;
    vstd::arithmetic::mul::lemma_mul_basics(w2);
    vstd::arithmetic::div_mod::lemma_fundamental_div_mod_converse_div(w2, 2 * w2, 0, w2);
    vstd::arithmetic::div_mod::lemma_fundamental_div_mod_converse_div(2001 * w2, 2 * w2, 1000, w2);
}

/// The brightest contribution to pixel `i` on frame `step` among the
/// first `k` bands, each band shifted by two half-band widths from the
/// previous one and wrapped around the strip.
pub open spec fn chase_value_rec(i: int, step: int, n: int, w: int, k: int) -> int
    decreases k,
{
    if k <= 0 {
        0
    } else {
        let pos = (i + step + (k - 1) * (2 * w)) % n;
        let v = band_value_spec(pos, w);
        let rest = chase_value_rec(i, step, n, w, k - 1);
        if v >= rest {
            v
        } else {
            rest
        }
    }
}

/// Chase brightness of pixel `i` on frame `step`: the brightest band
/// contribution at that pixel.
pub open spec fn chase_value_spec(i: int, step: int, n: int) -> int {
    chase_value_rec(i, step, n, chase_band_width_spec(n), chase_bands_spec(n))
}

pub fn chase_value(i: usize, step: usize, n: usize) -> (v: u16)
    requires
        1 <= n <= MAX_LEDS,
        i < n,
        step < n,
    ensures
        v == chase_value_spec(i as int, step as int, n as int),
        v <= VALUE_SCALE,
{
    let k = chase_bands(n);
    let w = chase_band_width(n);
    proof {
        vstd::arithmetic::div_mod::lemma_fundamental_div_mod(n as int, 2 * k as int);
        vstd::arithmetic::div_mod::lemma_mod_bound(n as int, 2 * k as int);
        assert((2 * k as int) * (n as int / (2 * k as int)) <= n as int);
        assert((2 * k as int) * w as int <= n as int);
    }
    let mut v: u16 = 0;
    let mut band: usize = 0;
    while band < k
        invariant
            band <= k,
            v == chase_value_rec(i as int, step as int, n as int, w as int, band as int),
            v <= VALUE_SCALE,
            1 <= n <= MAX_LEDS,
            i < n,
            step < n,
            k == chase_bands_spec(n as int),
            w == chase_band_width_spec(n as int),
            (2 * k as int) * w as int <= n as int,
        decreases k - band,
    {
        proof {
            assert((band as int) * (2 * w as int) <= n as int) by (nonlinear_arith)
                requires
                    0 <= (band as int) && (band as int) < (k as int),
                    0 <= (w as int),
                    (2 * k as int) * (w as int) <= (n as int),
            ;
        }
        let pos = (i + step + band * (2 * w)) % n;
        let bv = band_value(pos, w);
        if bv > v {
            v = bv;
        }
        band += 1;
    }
    v
}

/// The hue of the rainbow chase at pixel `i` when the gradient has been
/// shifted by `offset` whole degrees: `(offset + i * 360 / n) mod 360`,
/// truncated to whole degrees.
pub open spec fn chase_rainbow_hue_spec(offset: int, i: int, n: int) -> int {
    ((360 * i + offset * n) % (360 * n)) / n
}

pub fn chase_rainbow_hue(offset: usize, i: usize, n: usize) -> (h: i32)
    requires
        offset < 360,
        i < n,
        n <= MAX_LEDS,
    ensures
        h == chase_rainbow_hue_spec(offset as int, i as int, n as int),
        0 <= h < 360,
{
    proof {
        vstd::arithmetic::mul::lemma_mul_strict_inequality(offset as int, 360, n as int);
        vstd::arithmetic::mul::lemma_mul_upper_bound(offset as int, 359, n as int, MAX_LEDS as int);
        vstd::arithmetic::mul::lemma_mul_inequality(0, offset as int, n as int);
    }
    let num: u64 = 360 * (i as u64) + (offset as u64) * (n as u64);
    proof {
        if num < 360 * (n as int) {
            vstd::arithmetic::div_mod::lemma_small_mod(num as nat, (360 * (n as int)) as nat);
        } else {
            vstd::arithmetic::div_mod::lemma_fundamental_div_mod_converse_mod(
                num as int,
                360 * (n as int),
                1,
                num as int - 360 * (n as int),
            );
        }
        vstd::arithmetic::div_mod::lemma_div_is_ordered(
            0,
            (num as int) % (360 * (n as int)),
            n as int,
        );
        crate::color::lemma_mul_div_cancel_lt((num as int) % (360 * (n as int)), 360, n as int);
    }
    let m: u64 = 360 * (n as u64);
    let folded: u64 = if num >= m {
        num - m
    } else {
        num
    };
    (folded / (n as u64)) as i32
}

/// Tail length of the scanning bar: 40% of the strip, at least one pixel.
pub open spec fn scan_tail_spec(n: int) -> int {
    if 2 * n / 5 < 1 {
        1
    } else {
        2 * n / 5
    }
}

pub fn scan_tail(n: usize) -> (t: usize)
    requires
        n <= MAX_LEDS,
    ensures
        t == scan_tail_spec(n as int),
        1 <= t <= MAX_LEDS,
{
    proof {
        vstd::arithmetic::div_mod::lemma_div_is_ordered(2 * n as int, 2 * MAX_LEDS as int, 5);
    }
    let t = 2 * n / 5;
    if t < 1 {
        1
    } else {
        t
    }
}

/// Scan brightness of pixel `i` while the bright point stands at `pos`:
/// `1 - distance / tail` of full scale within the tail, dark beyond it.
pub open spec fn scan_brightness_spec(pos: int, i: int, tail: int) -> int {
    let d = abs_int(pos - i);
    if d <= tail {
        div_round(1000 * (tail - d), tail)
    } else {
        0
    }
}

pub fn scan_brightness(pos: i64, i: usize, tail: usize) -> (v: u16)
    requires
        1 <= tail <= MAX_LEDS,
        i <= MAX_LEDS,
        abs_int(pos - i) <= 4 * MAX_LEDS,
    ensures
        v == scan_brightness_spec(pos as int, i as int, tail as int),
        v <= VALUE_SCALE,
{
    let diff: i64 = pos - (i as i64);
    let d: u64 = if diff < 0 {
        (-diff) as u64
    } else {
        diff as u64
    };
    if d <= tail as u64 {
        proof {
            let t = tail as int;
            vstd::arithmetic::div_mod::lemma_fundamental_div_mod_converse_div(2001 * t, 2 * t, 1000, t);
            vstd::arithmetic::div_mod::lemma_div_is_ordered(
                2 * (1000 * (t - d as int)) + t,
                2001 * t,
                2 * t,
            );
            vstd::arithmetic::div_mod::lemma_div_is_ordered(0, 2 * (1000 * (t - d as int)) + t, 2 * t);
        }
        let num: u64 = 1000 * (tail as u64 - d);
        ((2 * num + tail as u64) / (2 * tail as u64)) as u16
    } else {
        0
    }
}

/// The scanning point is at full brightness exactly where it stands, and
/// pixels at or beyond the tail length are dark.
pub proof fn lemma_scan_brightness_edges(pos: int, i: int, tail: int)
    requires
        1 <= tail,
    ensures
        pos == i ==> scan_brightness_spec(pos, i, tail) == 1000,
        abs_int(pos - i) >= tail ==> scan_brightness_spec(pos, i, tail) == 0,
{
    vstd::arithmetic::div_mod::lemma_fundamental_div_mod_converse_div(2001 * tail, 2 * tail, 1000, tail);
    vstd::arithmetic::div_mod::lemma_fundamental_div_mod_converse_div(tail, 2 * tail, 0, tail);
}

/// One step of the scanning point: the position moves one pixel in the
/// current direction, and the direction reverses exactly when the new
/// position reaches a reflecting boundary, `-tail` below or `n - 1` above.
pub fn scan_advance(pos: i64, dir: i64, n: usize, tail: usize) -> (next: (i64, i64))
    requires
        dir == 1 || dir == -1,
        1 <= n <= MAX_LEDS,
        1 <= tail <= MAX_LEDS,
        -(tail as int) - 1 <= pos <= 2 * MAX_LEDS as int,
    ensures
        next.0 == pos + dir,
        (next.0 <= -(tail as int) || next.0 >= n as int - 1) ==> next.1 == -dir,
        !(next.0 <= -(tail as int) || next.0 >= n as int - 1) ==> next.1 == dir,
{
    let p = pos + dir;
    if p <= -(tail as i64) || p >= n as i64 - 1 {
        (p, -dir)
    } else {
        (p, dir)
    }
}

/// The (position, direction) of the scanning point as frame `j` is
/// rendered: the point starts at pixel 0 heading up; after each frame it
/// moves one pixel and reflects at the boundaries.
pub open spec fn scan_state_spec(n: int, tail: int, j: int) -> (int, int)
    decreases j,
{
    if j <= 0 {
        (0, 1)
    } else {
        let prev = scan_state_spec(n, tail, j - 1);
        let p = prev.0 + prev.1;
        if p <= -tail || p >= n - 1 {
            (p, -prev.1)
        } else {
            (p, prev.1)
        }
    }
}

/// Largest number of sparks of one frame: a tenth of the strip, or the
/// whole strip when it is shorter than ten pixels.
pub open spec fn max_sparks_spec(n: int) -> int {
    if n < 10 {
        n
    } else {
        n / 10
    }
}

/// Draws how many pixels spark this frame: always at least one, never
/// more than `max_sparks_spec` allows.
pub fn draw_spark_count(n: usize) -> (c: usize)
    requires
        1 <= n,
    ensures
        1 <= c <= max_sparks_spec(n as int),
{
    if n < 10 {
        rand_in_range(1, n)
    } else {
        proof {
            vstd::arithmetic::div_mod::lemma_div_is_ordered(10, n as int, 10);
        }
        rand_in_range(1, n / 10)
    }
}

/// Draws a spark brightness: between half and full scale.
pub fn draw_spark_value() -> (v: u16)
    ensures
        500 <= v <= 1000,
{
    rand_in_range(500, 1000) as u16
}

/// Draws a spark position on the strip.
pub fn draw_spark_index(n: usize) -> (i: usize)
    requires
        1 <= n,
    ensures
        i < n,
{
    rand_in_range(0, n - 1)
}

/// Draws a hue from the warm ember range, below 25 degrees.
pub fn draw_ember_hue() -> (h: i32)
    ensures
        0 <= h < 25,
{
    rand_in_range(0, 24) as i32
}

/// The pixel `p` dimmed to `pct` percent of its recovered brightness:
/// hue, saturation flag and brightness are read back through the lossy
/// inverse, the brightness is scaled and rounded, and the pixel is
/// re-rendered.
pub open spec fn dim_pixel_spec(p: (u8, u8, u8), pct: int) -> (int, int, int) {
    let h = crate::color::hue_of_rgb(p.0 as int, p.1 as int, p.2 as int);
    let s = crate::color::sat_of_rgb(p.0 as int, p.1 as int, p.2 as int);
    let v = crate::color::val_of_rgb(p.0 as int, p.1 as int, p.2 as int);
    hsv_to_rgb_spec(h, s, div_round(pct * v, 100))
}

pub fn dim_pixel(p: (u8, u8, u8), pct: u16) -> (q: (u8, u8, u8))
    requires
        1 <= pct <= 100,
    ensures
        rgb_matches(q, dim_pixel_spec(p, pct as int)),
{
    let (h, s, v) = crate::color::rgb_to_hsv(p.0, p.1, p.2);
    proof {
        vstd::arithmetic::mul::lemma_mul_upper_bound(pct as int, 100, v as int, 1000);
        vstd::arithmetic::div_mod::lemma_div_is_ordered(
            2 * ((pct as int) * (v as int)) + 100,
            2int * 100_000 + 100,
            200,
        );
        vstd::arithmetic::div_mod::lemma_div_is_ordered(0, 2 * ((pct as int) * (v as int)) + 100, 200);
    }
    let scaled: u32 = (2 * ((pct as u32) * (v as u32)) + 100) / 200;
    crate::color::hsv_to_rgb(h, s, scaled as u16)
}

/// Some spark at hue `h` could have produced pixel `p`: the pixel
/// renders `h` at full saturation and a brightness in the spark range.
pub open spec fn spark_pixel_ok(p: (u8, u8, u8), h: int) -> bool {
    exists|v: int| 500 <= v <= 1000 && rgb_matches(p, #[trigger] hsv_to_rgb_spec(h, 1, v))
}

} // verus!
