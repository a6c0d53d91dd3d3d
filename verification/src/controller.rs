//! The controller: owns the LED count and the engine's model of the pixel
//! buffer, and renders one full invocation of each pattern as the sequence
//! of frames the transport should show, in order, one per frame delay.

use vstd::prelude::*;

use crate::color::hsv_to_rgb;
use crate::color::hsv_to_rgb_spec;
use crate::color::rgb_matches;
use crate::patterns::chase_rainbow_hue;
use crate::patterns::chase_rainbow_hue_spec;
use crate::patterns::chase_value;
use crate::patterns::chase_value_spec;
use crate::patterns::dim_pixel;
use crate::patterns::dim_pixel_spec;
use crate::patterns::draw_ember_hue;
use crate::patterns::draw_spark_count;
use crate::patterns::draw_spark_index;
use crate::patterns::draw_spark_value;
use crate::patterns::max_sparks_spec;
use crate::patterns::pulse_value;
use crate::patterns::pulse_value_spec;
use crate::patterns::resolve_hue;
use crate::patterns::resolved_hue;
use crate::patterns::scan_brightness;
use crate::patterns::scan_brightness_spec;
use crate::patterns::scan_advance;
use crate::patterns::scan_state_spec;
use crate::patterns::scan_tail;
use crate::patterns::scan_tail_spec;
use crate::patterns::spark_pixel_ok;
use crate::patterns::valid_hue;
use crate::patterns::MAX_LEDS;
use crate::patterns::PULSE_STEPS;
use crate::rng::rand_in_range;

verus! {

/// Color choices to be passed to `execute_pattern`. Colors are translated
/// to handpicked hue values; `Rainbow` means an evenly spaced spectrum of
/// hue values across the strip.
pub enum Color {
    /// hue value 0
    Red,
    /// hue value 18
    Orange,
    /// hue value 40
    Yellow,
    /// hue value 116
    Green,
    /// hue value 240
    Blue,
    /// hue value 266
    Purple,
    Rainbow,
}

/// Pattern type to be passed to `execute_pattern`.
pub enum Pattern {
    /// All LEDs gently pulse through one breath of brightness.
    Pulse,
    /// Scrolling bands of color, or a scrolling rainbow for `Color::Rainbow`.
    Chase,
    /// Random LEDs suddenly brighten while the rest fade slowly to off.
    Sparkle,
    /// A bright point bounces between the strip's ends, dragging a tail.
    KnightRider,
}

/// Pattern options with a fixed colorway, for `execute_colorway_pattern`.
pub enum ColorwayPattern {
    /// Reminiscent of a crackling fireplace: warm random sparks, mild decay.
    Fireplace,
    /// A traditional string-of-lights colorway: white, red, green, blue,
    /// violet sparks, no decay.
    ChristmasTraditional,
}

/// The handpicked hue of each color choice; `Rainbow` is the sentinel `-1`
/// that resolves per pixel.
pub open spec fn color_hue(c: Color) -> int {
    match c {
        Color::Red => 0,
        Color::Orange => 18,
        Color::Yellow => 40,
        Color::Green => 116,
        Color::Blue => 240,
        Color::Purple => 266,
        Color::Rainbow => -1,
    }
}

/// A frame where every pixel shows the hue (or, for the rainbow sentinel,
/// its position-derived hue) at full saturation and one shared brightness.
pub open spec fn solid_frame_ok(f: Seq<(u8, u8, u8)>, n: int, hue: int, value: int) -> bool {
    f.len() == n && forall|i: int|
        0 <= i < n ==> rgb_matches(
            #[trigger] f[i],
            hsv_to_rgb_spec(resolved_hue(hue, i, n), 1, value),
        )
}

/// One full pulse: 100 frames of the shared brightness ramp.
pub open spec fn pulse_frames_ok(n: int, hue: int, frames: Seq<Vec<(u8, u8, u8)>>) -> bool {
    frames.len() == PULSE_STEPS && forall|j: int|
        0 <= j < frames.len() ==> solid_frame_ok(
            (#[trigger] frames[j])@,
            n,
            hue,
            pulse_value_spec(j),
        )
}

/// One chase frame at a fixed hue: every pixel carries its band brightness.
pub open spec fn chase_frame_ok(f: Seq<(u8, u8, u8)>, n: int, hue: int, step: int) -> bool {
    f.len() == n && forall|i: int|
        0 <= i < n ==> rgb_matches(
            #[trigger] f[i],
            hsv_to_rgb_spec(hue, 1, chase_value_spec(i, step, n)),
        )
}

/// One rainbow chase frame: a full-brightness hue gradient shifted by
/// `offset` degrees.
pub open spec fn chase_rainbow_frame_ok(f: Seq<(u8, u8, u8)>, n: int, offset: int) -> bool {
    f.len() == n && forall|i: int|
        0 <= i < n ==> rgb_matches(
            #[trigger] f[i],
            hsv_to_rgb_spec(chase_rainbow_hue_spec(offset, i, n), 1, 1000),
        )
}

/// One full chase: the traveling bands shifted one pixel per frame for a
/// full cycle of the strip, or, in rainbow mode, the gradient shifted one
/// degree per frame for a full turn of the color wheel.
pub open spec fn chase_frames_ok(n: int, hue: int, frames: Seq<Vec<(u8, u8, u8)>>) -> bool {
    if hue == -1 {
        frames.len() == 360 && forall|j: int|
            0 <= j < frames.len() ==> chase_rainbow_frame_ok((#[trigger] frames[j])@, n, j)
    } else {
        frames.len() == n && forall|j: int|
            0 <= j < frames.len() ==> chase_frame_ok((#[trigger] frames[j])@, n, hue, j)
    }
}

/// One scan frame: every pixel carries the tail brightness of the point's
/// current position at its (possibly position-derived) hue.
pub open spec fn scan_frame_ok(f: Seq<(u8, u8, u8)>, n: int, hue: int, pos: int) -> bool {
    f.len() == n && forall|i: int|
        0 <= i < n ==> rgb_matches(
            #[trigger] f[i],
            hsv_to_rgb_spec(resolved_hue(hue, i, n), 1, scan_brightness_spec(pos, i, scan_tail_spec(n))),
        )
}

/// One full scan: two traversals of the strip, frame `j` rendered with the
/// point where the bounce recursion puts it.
pub open spec fn scan_frames_ok(n: int, hue: int, frames: Seq<Vec<(u8, u8, u8)>>) -> bool {
    frames.len() == 2 * n && forall|j: int|
        0 <= j < frames.len() ==> scan_frame_ok(
            (#[trigger] frames[j])@,
            n,
            hue,
            scan_state_spec(n, scan_tail_spec(n), j).0,
        )
}

/// The expected spec-level pixels of a frame wholly dimmed to `pct`
/// percent.
pub open spec fn dimmed_seq(oldf: Seq<(u8, u8, u8)>, pct: int) -> Seq<(int, int, int)> {
    Seq::new(oldf.len(), |i: int| dim_pixel_spec(oldf[i], pct))
}

/// A frame's pixels as spec-level channel triples.
pub open spec fn as_int_pixels(f: Seq<(u8, u8, u8)>) -> Seq<(int, int, int)> {
    Seq::new(f.len(), |i: int| (f[i].0 as int, f[i].1 as int, f[i].2 as int))
}

/// How many of the first `k` pixels of `f` differ from what `expected`
/// prescribes.
pub open spec fn diff_count(expected: Seq<(int, int, int)>, f: Seq<(u8, u8, u8)>, k: int) -> int
    decreases k,
{
    if k <= 0 {
        0
    } else {
        diff_count(expected, f, k - 1) + if rgb_matches(f[k - 1], expected[k - 1]) {
            0int
        } else {
            1int
        }
    }
}

/// A frame that matches `expected` everywhere differs nowhere.
proof fn lemma_diff_count_zero(expected: Seq<(int, int, int)>, f: Seq<(u8, u8, u8)>, k: int)
    requires
        forall|i: int| 0 <= i < k ==> rgb_matches(#[trigger] f[i], expected[i]),
    ensures
        diff_count(expected, f, k) == 0,
    decreases k,
{
    if k > 0 {
        lemma_diff_count_zero(expected, f, k - 1);
    }
}

/// Replacing one pixel raises the number of differing pixels by at most
/// one.
proof fn lemma_diff_count_update(
    expected: Seq<(int, int, int)>,
    f: Seq<(u8, u8, u8)>,
    idx: int,
    p: (u8, u8, u8),
    k: int,
)
    requires
        0 <= idx < f.len(),
        k <= f.len(),
    ensures
        diff_count(expected, f.update(idx, p), k) <= diff_count(expected, f, k) + 1,
        idx >= k ==> diff_count(expected, f.update(idx, p), k) == diff_count(expected, f, k),
    decreases k,
{
    if k > 0 {
        lemma_diff_count_update(expected, f, idx, p, k - 1);
        if idx == k - 1 {
            assert(f.update(idx, p)[k - 1] == p);
        } else {
            assert(f.update(idx, p)[k - 1] == f[k - 1]);
        }
    }
}

/// After a sparkle frame a pixel either was dimmed to `pct` percent of its
/// old brightness, or it sparked at the pattern's hue.
pub open spec fn sparkle_pixel_ok(
    oldp: (u8, u8, u8),
    newp: (u8, u8, u8),
    hue: int,
    i: int,
    n: int,
    pct: int,
) -> bool {
    rgb_matches(newp, dim_pixel_spec(oldp, pct)) || spark_pixel_ok(newp, resolved_hue(hue, i, n))
}

/// One sparkle frame over the previous buffer: every pixel dimmed or
/// sparked, and at least one spark set.
pub open spec fn sparkle_frame_ok(
    oldf: Seq<(u8, u8, u8)>,
    f: Seq<(u8, u8, u8)>,
    n: int,
    hue: int,
    pct: int,
) -> bool {
    &&& f.len() == n
    &&& forall|i: int| 0 <= i < n ==> sparkle_pixel_ok(oldf[i], #[trigger] f[i], hue, i, n, pct)
    &&& exists|i: int|
        0 <= i < n && spark_pixel_ok(#[trigger] f[i], resolved_hue(hue, i, n))
    &&& diff_count(dimmed_seq(oldf, pct), f, n) <= max_sparks_spec(n)
}

/// Sparkle produces a single frame with the standard decay.
pub open spec fn sparkle_frames_ok(
    oldf: Seq<(u8, u8, u8)>,
    n: int,
    hue: int,
    frames: Seq<Vec<(u8, u8, u8)>>,
) -> bool {
    frames.len() == 1 && sparkle_frame_ok(oldf, frames[0]@, n, hue, 75)
}

/// Some warm ember spark could have produced pixel `p`.
pub open spec fn ember_spark_ok(p: (u8, u8, u8)) -> bool {
    exists|h: int| 0 <= h < 25 && #[trigger] spark_pixel_ok(p, h)
}

/// One ember frame: every pixel dimmed with the mild decay or sparked
/// warm, and at least one spark set.
pub open spec fn ember_frame_ok(oldf: Seq<(u8, u8, u8)>, f: Seq<(u8, u8, u8)>, n: int) -> bool {
    &&& f.len() == n
    &&& forall|i: int|
        0 <= i < n ==> rgb_matches(#[trigger] f[i], dim_pixel_spec(oldf[i], 85)) || ember_spark_ok(
            f[i],
        )
    &&& exists|i: int| 0 <= i < n && ember_spark_ok(#[trigger] f[i])
    &&& diff_count(dimmed_seq(oldf, 85), f, n) <= max_sparks_spec(n)
}

pub open spec fn ember_frames_ok(
    oldf: Seq<(u8, u8, u8)>,
    n: int,
    frames: Seq<Vec<(u8, u8, u8)>>,
) -> bool {
    frames.len() == 1 && ember_frame_ok(oldf, frames[0]@, n)
}

/// A palette hue entry as `christmas_traditional` accepts it: the white
/// sentinel `-1` or a normalized hue.
pub open spec fn valid_palette(palette: Seq<i32>) -> bool {
    palette.len() >= 1 && forall|k: int|
        0 <= k < palette.len() ==> (#[trigger] palette[k] == -1 || 0 <= palette[k] < 360)
}

/// Some spark drawn from the palette could have produced pixel `p`:
/// pure white for the sentinel, otherwise the palette hue at a spark
/// brightness.
pub open spec fn palette_spark_ok(p: (u8, u8, u8), palette: Seq<i32>) -> bool {
    exists|k: int|
        0 <= k < palette.len() && (if #[trigger] palette[k] == -1 {
            p == (255u8, 255u8, 255u8)
        } else {
            spark_pixel_ok(p, palette[k] as int)
        })
}

/// One multi-color spray frame: no decay, every pixel kept or sparked
/// from the palette, and at least one spark set.
pub open spec fn multi_frame_ok(
    oldf: Seq<(u8, u8, u8)>,
    f: Seq<(u8, u8, u8)>,
    n: int,
    palette: Seq<i32>,
) -> bool {
    &&& f.len() == n
    &&& forall|i: int| 0 <= i < n ==> #[trigger] f[i] == oldf[i] || palette_spark_ok(f[i], palette)
    &&& exists|i: int| 0 <= i < n && palette_spark_ok(#[trigger] f[i], palette)
    &&& diff_count(as_int_pixels(oldf), f, n) <= max_sparks_spec(n)
}

pub open spec fn multi_frames_ok(
    oldf: Seq<(u8, u8, u8)>,
    n: int,
    palette: Seq<i32>,
    frames: Seq<Vec<(u8, u8, u8)>>,
) -> bool {
    frames.len() == 1 && multi_frame_ok(oldf, frames[0]@, n, palette)
}

/// Where the bounce can put the scanning point, above: the upper strip
/// end, except that the very first step of a one-pixel strip overshoots
/// to 1 before reflecting.
spec fn scan_max_pos(n: int) -> int {
    if n >= 2 {
        n - 1
    } else {
        1
    }
}

/// The fixed colorway of `ColorwayPattern::ChristmasTraditional`: pure
/// white plus red, green, blue and violet hues.
pub open spec fn christmas_palette() -> Seq<i32> {
    seq![-1i32, 0i32, 120i32, 240i32, 270i32]
}

/// Replaces one pixel of a frame.
fn set_frame_pixel(f: &mut Vec<(u8, u8, u8)>, i: usize, p: (u8, u8, u8))
    requires
        i < old(f)@.len(),
    ensures
        final(f)@ == old(f)@.update(i as int, p),
{
    let slot = &mut f[i];
    *slot = p;
}

/// Copies a frame pixel by pixel.
fn copy_frame(f: &Vec<(u8, u8, u8)>) -> (r: Vec<(u8, u8, u8)>)
    ensures
        r@ == f@,
{
    let mut r: Vec<(u8, u8, u8)> = Vec::new();
    let mut i: usize = 0;
    while i < f.len()
        invariant
            i <= f@.len(),
            r@.len() == i,
            forall|t: int| 0 <= t < i ==> r@[t] == f@[t],
        decreases f@.len() - i,
    {
        r.push(f[i]);
        i += 1;
    }
    proof {
        assert(r@ =~= f@);
    }
    r
}

/// Renders one frame of a shared brightness at a fixed or rainbow hue.
fn solid_frame(n: usize, hue: i32, value: u16) -> (f: Vec<(u8, u8, u8)>)
    requires
        1 <= n <= MAX_LEDS,
        valid_hue(hue as int),
        value <= crate::color::VALUE_SCALE,
    ensures
        solid_frame_ok(f@, n as int, hue as int, value as int),
{
    let mut f: Vec<(u8, u8, u8)> = Vec::new();
    let mut i: usize = 0;
    while i < n
        invariant
            i <= n,
            1 <= n <= MAX_LEDS,
            valid_hue(hue as int),
            value <= crate::color::VALUE_SCALE,
            f@.len() == i,
            forall|t: int|
                0 <= t < i ==> rgb_matches(
                    #[trigger] f@[t],
                    hsv_to_rgb_spec(resolved_hue(hue as int, t, n as int), 1, value as int),
                ),
        decreases n - i,
    {
        let h = resolve_hue(hue, i, n);
        f.push(hsv_to_rgb(h, 1, value));
        i += 1;
    }
    f
}

/// The main struct. It owns the LED count and the engine's model of the
/// pixel buffer: one RGB triple per LED, holding the last frame rendered,
/// the readback source of the decaying patterns.
pub struct EasyBlinkController {
    frame: Vec<(u8, u8, u8)>,
    num_leds: usize,
}

impl EasyBlinkController {
    /// The LED count.
    pub closed spec fn leds(self) -> int {
        self.num_leds as int
    }

    /// The model pixel buffer: the last frame rendered.
    pub closed spec fn buffer(self) -> Seq<(u8, u8, u8)> {
        self.frame@
    }

    /// Well-formed: at least one LED, not more than `MAX_LEDS`, and the
    /// buffer sized to the count.
    pub open spec fn wf(self) -> bool {
        1 <= self.leds() <= MAX_LEDS && self.buffer().len() == self.leds()
    }

    /// Creates a new `EasyBlinkController` for a strip of `num_leds`
    /// LEDs (at least 1), with every pixel dark.
    pub fn new(num_leds: usize) -> (c: EasyBlinkController)
        requires
            1 <= num_leds <= MAX_LEDS,
        ensures
            c.wf(),
            c.leds() == num_leds,
            forall|i: int| 0 <= i < num_leds ==> c.buffer()[i] == (0u8, 0u8, 0u8),
    {
        let mut frame: Vec<(u8, u8, u8)> = Vec::new();
        let mut i: usize = 0;
        while i < num_leds
            invariant
                i <= num_leds,
                frame@.len() == i,
                forall|t: int| 0 <= t < i ==> frame@[t] == (0u8, 0u8, 0u8),
            decreases num_leds - i,
        {
            frame.push((0, 0, 0));
            i += 1;
        }
        EasyBlinkController { frame, num_leds }
    }

    /// Simple getter for the number of LEDs.
    pub fn get_num_leds(&self) -> (n: usize)
        ensures
            n == self.leds(),
    {
        self.num_leds
    }

    /// Sets the number of LEDs; it takes effect on the next pattern
    /// invocation. The model buffer is resized to match, keeping the
    /// pixels both sizes share and darkening any new ones.
    pub fn set_num_leds(&mut self, num_leds: usize)
        requires
            old(self).wf(),
            1 <= num_leds <= MAX_LEDS,
        ensures
            final(self).wf(),
            final(self).leds() == num_leds,
            forall|i: int|
                0 <= i < num_leds ==> final(self).buffer()[i] == (if i < old(self).leds() {
                    old(self).buffer()[i]
                } else {
                    (0u8, 0u8, 0u8)
                }),
    {
        let mut nf: Vec<(u8, u8, u8)> = Vec::new();
        let mut i: usize = 0;
        while i < num_leds
            invariant
                i <= num_leds,
                *self == *old(self),
                nf@.len() == i,
                forall|t: int|
                    0 <= t < i ==> nf@[t] == (if t < old(self).buffer().len() {
                        old(self).buffer()[t]
                    } else {
                        (0u8, 0u8, 0u8)
                    }),
            decreases num_leds - i,
        {
            if i < self.frame.len() {
                let p = self.frame[i];
                nf.push(p);
            } else {
                nf.push((0, 0, 0));
            }
            i += 1;
        }
        self.frame = nf;
        self.num_leds = num_leds;
    }

    /// One full pulse breath at a fixed hue or the rainbow sentinel: 100
    /// frames of a brightness ramp from 0.15 of full scale up to full and
    /// back, applied uniformly (rainbow mode spreads a static hue gradient
    /// across the strip under the same ramp).
    pub fn pulse_color(&mut self, hue: i32) -> (frames: Vec<Vec<(u8, u8, u8)>>)
        requires
            old(self).wf(),
            valid_hue(hue as int),
        ensures
            final(self).wf(),
            final(self).leds() == old(self).leds(),
            pulse_frames_ok(old(self).leds(), hue as int, frames@),
            final(self).buffer() == frames@[frames@.len() - 1]@,
    {
        let n = self.num_leds;
        let mut frames: Vec<Vec<(u8, u8, u8)>> = Vec::new();
        let mut step: usize = 0;
        while step < PULSE_STEPS
            invariant
                step <= PULSE_STEPS,
                1 <= n <= MAX_LEDS,
                valid_hue(hue as int),
                frames@.len() == step,
                forall|j: int|
                    0 <= j < step ==> solid_frame_ok(
                        (#[trigger] frames@[j])@,
                        n as int,
                        hue as int,
                        pulse_value_spec(j),
                    ),
            decreases PULSE_STEPS - step,
        {
            let v = pulse_value(step);
            frames.push(solid_frame(n, hue, v));
            step += 1;
        }
        self.frame = copy_frame(&frames[PULSE_STEPS - 1]);
        frames
    }

    /// One full chase cycle at a fixed hue: the strip is divided into
    /// traveling bands whose squared-ramp brightness profile shifts one
    /// pixel per frame, one frame per LED.
    pub fn chase_color(&mut self, hue: i32) -> (frames: Vec<Vec<(u8, u8, u8)>>)
        requires
            old(self).wf(),
            0 <= hue < 360,
        ensures
            final(self).wf(),
            final(self).leds() == old(self).leds(),
            frames@.len() == old(self).leds(),
            forall|j: int|
                0 <= j < frames@.len() ==> chase_frame_ok(
                    (#[trigger] frames@[j])@,
                    old(self).leds(),
                    hue as int,
                    j,
                ),
            final(self).buffer() == frames@[frames@.len() - 1]@,
    {
        let n = self.num_leds;
        let mut frames: Vec<Vec<(u8, u8, u8)>> = Vec::new();
        let mut step: usize = 0;
        while step < n
            invariant
                step <= n,
                1 <= n <= MAX_LEDS,
                0 <= hue < 360,
                frames@.len() == step,
                forall|j: int|
                    0 <= j < step ==> chase_frame_ok((#[trigger] frames@[j])@, n as int, hue as int, j),
            decreases n - step,
        {
            let mut f: Vec<(u8, u8, u8)> = Vec::new();
            let mut i: usize = 0;
            while i < n
                invariant
                    i <= n,
                    1 <= n <= MAX_LEDS,
                    0 <= hue < 360,
                    step < n,
                    f@.len() == i,
                    forall|t: int|
                        0 <= t < i ==> rgb_matches(
                            #[trigger] f@[t],
                            hsv_to_rgb_spec(hue as int, 1, chase_value_spec(t, step as int, n as int)),
                        ),
                decreases n - i,
            {
                let v = chase_value(i, step, n);
                f.push(hsv_to_rgb(hue, 1, v));
                i += 1;
            }
            frames.push(f);
            step += 1;
        }
        self.frame = copy_frame(&frames[n - 1]);
        frames
    }

    /// One full rainbow chase: a full-brightness hue gradient across the
    /// strip, shifted one degree per frame for a full turn of the wheel.
    pub fn chase_rainbow(&mut self) -> (frames: Vec<Vec<(u8, u8, u8)>>)
        requires
            old(self).wf(),
        ensures
            final(self).wf(),
            final(self).leds() == old(self).leds(),
            frames@.len() == 360,
            forall|j: int|
                0 <= j < frames@.len() ==> chase_rainbow_frame_ok(
                    (#[trigger] frames@[j])@,
                    old(self).leds(),
                    j,
                ),
            final(self).buffer() == frames@[frames@.len() - 1]@,
    {
        let n = self.num_leds;
        let mut frames: Vec<Vec<(u8, u8, u8)>> = Vec::new();
        let mut offset: usize = 0;
        while offset < 360
            invariant
                offset <= 360,
                1 <= n <= MAX_LEDS,
                frames@.len() == offset,
                forall|j: int|
                    0 <= j < offset ==> chase_rainbow_frame_ok((#[trigger] frames@[j])@, n as int, j),
            decreases 360 - offset,
        {
            let mut f: Vec<(u8, u8, u8)> = Vec::new();
            let mut i: usize = 0;
            while i < n
                invariant
                    i <= n,
                    1 <= n <= MAX_LEDS,
                    offset < 360,
                    f@.len() == i,
                    forall|t: int|
                        0 <= t < i ==> rgb_matches(
                            #[trigger] f@[t],
                            hsv_to_rgb_spec(chase_rainbow_hue_spec(offset as int, t, n as int), 1, 1000),
                        ),
                decreases n - i,
            {
                let h = chase_rainbow_hue(offset, i, n);
                f.push(hsv_to_rgb(h, 1, 1000));
                i += 1;
            }
            frames.push(f);
            offset += 1;
        }
        self.frame = copy_frame(&frames[360 - 1]);
        frames
    }

    /// Dispatches the chase on the chosen color: rainbow scrolls the
    /// gradient, every other color scrolls its bands.
    pub fn chase(&mut self, color: Color) -> (frames: Vec<Vec<(u8, u8, u8)>>)
        requires
            old(self).wf(),
        ensures
            final(self).wf(),
            final(self).leds() == old(self).leds(),
            chase_frames_ok(old(self).leds(), color_hue(color), frames@),
            frames@.len() >= 1,
            final(self).buffer() == frames@[frames@.len() - 1]@,
    {
        match color {
            Color::Rainbow => self.chase_rainbow(),
            Color::Red => self.chase_color(0),
            Color::Orange => self.chase_color(18),
            Color::Yellow => self.chase_color(40),
            Color::Green => self.chase_color(116),
            Color::Blue => self.chase_color(240),
            Color::Purple => self.chase_color(266),
        }
    }

    /// One full scan at a fixed or rainbow hue: a bright point bounces
    /// between the reflecting boundaries `-tail` and `n - 1` for two
    /// traversals of the strip, dragging a linearly fading tail.
    pub fn knightrider_color(&mut self, hue: i32) -> (frames: Vec<Vec<(u8, u8, u8)>>)
        requires
            old(self).wf(),
            valid_hue(hue as int),
        ensures
            final(self).wf(),
            final(self).leds() == old(self).leds(),
            scan_frames_ok(old(self).leds(), hue as int, frames@),
            final(self).buffer() == frames@[frames@.len() - 1]@,
    {
        let n = self.num_leds;
        let tail = scan_tail(n);
        let mut frames: Vec<Vec<(u8, u8, u8)>> = Vec::new();
        let mut pos: i64 = 0;
        let mut dir: i64 = 1;
        let total = 2 * n;
        let mut j: usize = 0;
        while j < total
            invariant
                j <= total,
                total == 2 * n,
                1 <= n <= MAX_LEDS,
                valid_hue(hue as int),
                tail == scan_tail_spec(n as int),
                1 <= tail <= MAX_LEDS,
                (pos as int, dir as int) == scan_state_spec(n as int, tail as int, j as int),
                dir == 1 || dir == -1,
                -(tail as int) <= pos as int <= scan_max_pos(n as int),
                pos as int == -(tail as int) ==> dir == 1,
                pos as int == scan_max_pos(n as int) ==> dir == -1,
                frames@.len() == j,
                forall|t: int|
                    0 <= t < j ==> scan_frame_ok(
                        (#[trigger] frames@[t])@,
                        n as int,
                        hue as int,
                        scan_state_spec(n as int, tail as int, t).0,
                    ),
            decreases total - j,
        {
            let mut f: Vec<(u8, u8, u8)> = Vec::new();
            let mut i: usize = 0;
            while i < n
                invariant
                    i <= n,
                    1 <= n <= MAX_LEDS,
                    valid_hue(hue as int),
                    1 <= tail <= MAX_LEDS,
                    -(tail as int) <= pos as int <= scan_max_pos(n as int),
                    f@.len() == i,
                    forall|t: int|
                        0 <= t < i ==> rgb_matches(
                            #[trigger] f@[t],
                            hsv_to_rgb_spec(
                                resolved_hue(hue as int, t, n as int),
                                1,
                                scan_brightness_spec(pos as int, t, tail as int),
                            ),
                        ),
                decreases n - i,
            {
                let h = resolve_hue(hue, i, n);
                let v = scan_brightness(pos, i, tail);
                f.push(hsv_to_rgb(h, 1, v));
                i += 1;
            }
            frames.push(f);
            let next = scan_advance(pos, dir, n, tail);
            pos = next.0;
            dir = next.1;
            j += 1;
        }
        self.frame = copy_frame(&frames[total - 1]);
        frames
    }

    /// Dispatches the scan on the chosen color.
    pub fn knightrider(&mut self, color: Color) -> (frames: Vec<Vec<(u8, u8, u8)>>)
        requires
            old(self).wf(),
        ensures
            final(self).wf(),
            final(self).leds() == old(self).leds(),
            scan_frames_ok(old(self).leds(), color_hue(color), frames@),
            final(self).buffer() == frames@[frames@.len() - 1]@,
    {
        match color {
            Color::Rainbow => self.knightrider_color(-1),
            Color::Red => self.knightrider_color(0),
            Color::Orange => self.knightrider_color(18),
            Color::Yellow => self.knightrider_color(40),
            Color::Green => self.knightrider_color(116),
            Color::Blue => self.knightrider_color(240),
            Color::Purple => self.knightrider_color(266),
        }
    }

    /// One sparkle frame at a fixed or rainbow hue: every pixel of the
    /// previous frame is dimmed to 75% of its recovered brightness, then
    /// a random set of pixels (at least one) spark at a random brightness
    /// between half and full scale.
    pub fn sparkle_color(&mut self, hue: i32) -> (frames: Vec<Vec<(u8, u8, u8)>>)
        requires
            old(self).wf(),
            valid_hue(hue as int),
        ensures
            final(self).wf(),
            final(self).leds() == old(self).leds(),
            sparkle_frames_ok(old(self).buffer(), old(self).leds(), hue as int, frames@),
            final(self).buffer() == frames@[0]@,
    {
        let n = self.num_leds;
        self.dim_frame(75);
        proof {
            lemma_diff_count_zero(dimmed_seq(old(self).buffer(), 75), self.frame@, n as int);
        }
        let count = draw_spark_count(n);
        let mut s: usize = 0;
        let ghost mut witness: int = 0;
        while s < count
            invariant
                s <= count,
                count <= max_sparks_spec(n as int),
                1 <= n <= MAX_LEDS,
                valid_hue(hue as int),
                self.num_leds == n,
                self.frame@.len() == n,
                old(self).buffer().len() == n,
                forall|t: int|
                    0 <= t < n ==> sparkle_pixel_ok(
                        old(self).buffer()[t],
                        #[trigger] self.frame@[t],
                        hue as int,
                        t,
                        n as int,
                        75,
                    ),
                s >= 1 ==> 0 <= witness < n && spark_pixel_ok(
                    self.frame@[witness],
                    resolved_hue(hue as int, witness, n as int),
                ),
                diff_count(dimmed_seq(old(self).buffer(), 75), self.frame@, n as int) <= s,
            decreases count - s,
        {
            let idx = draw_spark_index(n);
            let v = draw_spark_value();
            let h = resolve_hue(hue, idx, n);
            let p = hsv_to_rgb(h, 1, v);
            let ghost pre = self.frame@;
            set_frame_pixel(&mut self.frame, idx, p);
            proof {
                lemma_diff_count_update(
                    dimmed_seq(old(self).buffer(), 75),
                    pre,
                    idx as int,
                    p,
                    n as int,
                );
                witness = idx as int;
                assert(spark_pixel_ok(p, resolved_hue(hue as int, idx as int, n as int))) by {
                    assert(rgb_matches(
                        p,
                        hsv_to_rgb_spec(resolved_hue(hue as int, idx as int, n as int), 1, v as int),
                    ));
                }
            }
            s += 1;
        }
        let f0 = copy_frame(&self.frame);
        let mut frames: Vec<Vec<(u8, u8, u8)>> = Vec::new();
        frames.push(f0);
        frames
    }

    /// Dims every pixel of the stored frame to `pct` percent of its
    /// recovered brightness.
    fn dim_frame(&mut self, pct: u16)
        requires
            old(self).wf(),
            1 <= pct <= 100,
        ensures
            final(self).wf(),
            final(self).leds() == old(self).leds(),
            final(self).buffer().len() == old(self).buffer().len(),
            forall|t: int|
                0 <= t < final(self).buffer().len() ==> rgb_matches(
                    #[trigger] final(self).buffer()[t],
                    dim_pixel_spec(old(self).buffer()[t], pct as int),
                ),
    {
        let n = self.num_leds;
        let mut i: usize = 0;
        while i < n
            invariant
                i <= n,
                1 <= pct <= 100,
                self.num_leds == n,
                self.frame@.len() == n,
                old(self).buffer().len() == n,
                forall|t: int|
                    0 <= t < i ==> rgb_matches(
                        #[trigger] self.frame@[t],
                        dim_pixel_spec(old(self).buffer()[t], pct as int),
                    ),
                forall|t: int| i <= t < n ==> self.frame@[t] == old(self).buffer()[t],
            decreases n - i,
        {
            let p = self.frame[i];
            let q = dim_pixel(p, pct);
            set_frame_pixel(&mut self.frame, i, q);
            i += 1;
        }
    }

    /// Dispatches `sparkle_color` on the chosen color.
    pub fn sparkle(&mut self, color: Color) -> (frames: Vec<Vec<(u8, u8, u8)>>)
        requires
            old(self).wf(),
        ensures
            final(self).wf(),
            final(self).leds() == old(self).leds(),
            sparkle_frames_ok(old(self).buffer(), old(self).leds(), color_hue(color), frames@),
            final(self).buffer() == frames@[0]@,
    {
        match color {
            Color::Rainbow => self.sparkle_color(-1),
            Color::Red => self.sparkle_color(0),
            Color::Orange => self.sparkle_color(18),
            Color::Yellow => self.sparkle_color(40),
            Color::Green => self.sparkle_color(116),
            Color::Blue => self.sparkle_color(240),
            Color::Purple => self.sparkle_color(266),
        }
    }

    /// One ember frame: like sparkle, but the decay is the milder 85%
    /// and every spark draws its own hue from the warm range below 25
    /// degrees.
    pub fn fireplace(&mut self) -> (frames: Vec<Vec<(u8, u8, u8)>>)
        requires
            old(self).wf(),
        ensures
            final(self).wf(),
            final(self).leds() == old(self).leds(),
            ember_frames_ok(old(self).buffer(), old(self).leds(), frames@),
            final(self).buffer() == frames@[0]@,
    {
        let n = self.num_leds;
        self.dim_frame(85);
        proof {
            lemma_diff_count_zero(dimmed_seq(old(self).buffer(), 85), self.frame@, n as int);
        }
        let count = draw_spark_count(n);
        let mut s: usize = 0;
        let ghost mut witness: int = 0;
        while s < count
            invariant
                s <= count,
                count <= max_sparks_spec(n as int),
                1 <= n <= MAX_LEDS,
                self.num_leds == n,
                self.frame@.len() == n,
                old(self).buffer().len() == n,
                forall|t: int|
                    0 <= t < n ==> rgb_matches(
                        #[trigger] self.frame@[t],
                        dim_pixel_spec(old(self).buffer()[t], 85),
                    ) || ember_spark_ok(self.frame@[t]),
                s >= 1 ==> 0 <= witness < n && ember_spark_ok(self.frame@[witness]),
                diff_count(dimmed_seq(old(self).buffer(), 85), self.frame@, n as int) <= s,
            decreases count - s,
        {
            let idx = draw_spark_index(n);
            let v = draw_spark_value();
            let h = draw_ember_hue();
            let p = hsv_to_rgb(h, 1, v);
            let ghost pre = self.frame@;
            set_frame_pixel(&mut self.frame, idx, p);
            proof {
                lemma_diff_count_update(
                    dimmed_seq(old(self).buffer(), 85),
                    pre,
                    idx as int,
                    p,
                    n as int,
                );
                witness = idx as int;
                assert(spark_pixel_ok(p, h as int)) by {
                    assert(rgb_matches(p, hsv_to_rgb_spec(h as int, 1, v as int)));
                }
                assert(ember_spark_ok(p)) by {
                    assert(0 <= h < 25 && spark_pixel_ok(p, h as int));
                }
            }
            s += 1;
        }
        let f0 = copy_frame(&self.frame);
        let mut frames: Vec<Vec<(u8, u8, u8)>> = Vec::new();
        frames.push(f0);
        frames
    }

    /// One multi-color spray frame: no decay; a random set of pixels (at
    /// least one) each receive a hue drawn from the palette at a random
    /// spark brightness, the sentinel `-1` standing for pure white.
    pub fn christmas_traditional(&mut self, palette: &Vec<i32>) -> (frames: Vec<
        Vec<(u8, u8, u8)>,
    >)
        requires
            old(self).wf(),
            valid_palette(palette@),
        ensures
            final(self).wf(),
            final(self).leds() == old(self).leds(),
            multi_frames_ok(old(self).buffer(), old(self).leds(), palette@, frames@),
            final(self).buffer() == frames@[0]@,
    {
        let n = self.num_leds;
        proof {
            lemma_diff_count_zero(as_int_pixels(old(self).buffer()), self.frame@, n as int);
        }
        let count = draw_spark_count(n);
        let mut s: usize = 0;
        let ghost mut witness: int = 0;
        while s < count
            invariant
                s <= count,
                count <= max_sparks_spec(n as int),
                1 <= n <= MAX_LEDS,
                valid_palette(palette@),
                self.num_leds == n,
                self.frame@.len() == n,
                old(self).buffer().len() == n,
                forall|t: int|
                    0 <= t < n ==> #[trigger] self.frame@[t] == old(self).buffer()[t]
                        || palette_spark_ok(self.frame@[t], palette@),
                s >= 1 ==> 0 <= witness < n && palette_spark_ok(self.frame@[witness], palette@),
                diff_count(as_int_pixels(old(self).buffer()), self.frame@, n as int) <= s,
            decreases count - s,
        {
            let idx = draw_spark_index(n);
            let k = rand_in_range(0, palette.len() - 1);
            let hue = palette[k];
            let p: (u8, u8, u8) = if hue == -1 {
                (255, 255, 255)
            } else {
                let v = draw_spark_value();
                let q = hsv_to_rgb(hue, 1, v);
                proof {
                    assert(spark_pixel_ok(q, palette@[k as int] as int)) by {
                        assert(rgb_matches(q, hsv_to_rgb_spec(palette@[k as int] as int, 1, v as int)));
                    }
                }
                q
            };
            let ghost pre = self.frame@;
            set_frame_pixel(&mut self.frame, idx, p);
            proof {
                lemma_diff_count_update(
                    as_int_pixels(old(self).buffer()),
                    pre,
                    idx as int,
                    p,
                    n as int,
                );
                witness = idx as int;
                assert(palette_spark_ok(p, palette@)) by {
                    assert(0 <= k < palette@.len());
                    assert(palette@[k as int] == hue);
                }
            }
            s += 1;
        }
        let f0 = copy_frame(&self.frame);
        let mut frames: Vec<Vec<(u8, u8, u8)>> = Vec::new();
        frames.push(f0);
        frames
    }

    /// Dispatches `pulse_color` on the chosen color.
    pub fn pulse(&mut self, color: Color) -> (frames: Vec<Vec<(u8, u8, u8)>>)
        requires
            old(self).wf(),
        ensures
            final(self).wf(),
            final(self).leds() == old(self).leds(),
            pulse_frames_ok(old(self).leds(), color_hue(color), frames@),
            final(self).buffer() == frames@[frames@.len() - 1]@,
    {
        match color {
            Color::Rainbow => self.pulse_color(-1),
            Color::Red => self.pulse_color(0),
            Color::Orange => self.pulse_color(18),
            Color::Yellow => self.pulse_color(40),
            Color::Green => self.pulse_color(116),
            Color::Blue => self.pulse_color(240),
            Color::Purple => self.pulse_color(266),
        }
    }

    /// The main entry point: renders the full frame sequence of one
    /// invocation of `pattern` in `color` and leaves the buffer at the
    /// last frame. Pulse and KnightRider run a fixed number of frames,
    /// Chase one full cycle, Sparkle a single frame; a caller wanting a
    /// continuous animation invokes this in a loop.
    pub fn execute_pattern(&mut self, color: Color, pattern: Pattern) -> (frames: Vec<
        Vec<(u8, u8, u8)>,
    >)
        requires
            old(self).wf(),
        ensures
            final(self).wf(),
            final(self).leds() == old(self).leds(),
            (match pattern {
                Pattern::Pulse => pulse_frames_ok(old(self).leds(), color_hue(color), frames@),
                Pattern::Chase => chase_frames_ok(old(self).leds(), color_hue(color), frames@),
                Pattern::Sparkle => sparkle_frames_ok(
                    old(self).buffer(),
                    old(self).leds(),
                    color_hue(color),
                    frames@,
                ),
                Pattern::KnightRider => scan_frames_ok(
                    old(self).leds(),
                    color_hue(color),
                    frames@,
                ),
            }),
            frames@.len() >= 1,
            final(self).buffer() == frames@[frames@.len() - 1]@,
    {
        match pattern {
            Pattern::Pulse => self.pulse(color),
            Pattern::Chase => self.chase(color),
            Pattern::Sparkle => self.sparkle(color),
            Pattern::KnightRider => self.knightrider(color),
        }
    }

    /// The fixed-colorway entry point: renders the single frame of the
    /// chosen colorway and leaves the buffer at it. Both colorways emit
    /// one frame per invocation; a caller loops for a continuous effect.
    pub fn execute_colorway_pattern(&mut self, pattern: ColorwayPattern) -> (frames: Vec<
        Vec<(u8, u8, u8)>,
    >)
        requires
            old(self).wf(),
        ensures
            final(self).wf(),
            final(self).leds() == old(self).leds(),
            (match pattern {
                ColorwayPattern::Fireplace => ember_frames_ok(
                    old(self).buffer(),
                    old(self).leds(),
                    frames@,
                ),
                ColorwayPattern::ChristmasTraditional => multi_frames_ok(
                    old(self).buffer(),
                    old(self).leds(),
                    christmas_palette(),
                    frames@,
                ),
            }),
            frames@.len() == 1,
            final(self).buffer() == frames@[0]@,
    {
        match pattern {
            ColorwayPattern::Fireplace => self.fireplace(),
            ColorwayPattern::ChristmasTraditional => {
                let palette: Vec<i32> = vec![-1, 0, 120, 240, 270];
                proof {
                    assert(palette@ =~= christmas_palette());
                }
                self.christmas_traditional(&palette)
            },
        }
    }
}

} // verus!
