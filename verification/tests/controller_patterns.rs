use easyblink::Color;
use easyblink::ColorwayPattern;
use easyblink::EasyBlinkController;
use easyblink::Pattern;

fn max_channel(p: (u8, u8, u8)) -> u8 {
    p.0.max(p.1).max(p.2)
}

#[test]
fn led_count_get_and_set() {
    let mut c = EasyBlinkController::new(120);
    assert_eq!(c.get_num_leds(), 120);
    c.set_num_leds(3);
    assert_eq!(c.get_num_leds(), 3);
    let frames = c.execute_pattern(Color::Red, Pattern::Pulse);
    assert_eq!(frames.len(), 100);
    assert!(frames.iter().all(|f| f.len() == 3));
}

#[test]
fn pulse_single_led_end_to_end() {
    // one LED, a fixed hue: one breath of exactly 100 frames, each
    // writing exactly one pixel
    let mut c = EasyBlinkController::new(1);
    let frames = c.execute_pattern(Color::Red, Pattern::Pulse);
    assert_eq!(frames.len(), 100);
    for f in &frames {
        assert_eq!(f.len(), 1);
    }
    assert_eq!(frames[0][0], (38, 0, 0));
    assert_eq!(frames[50][0], (255, 0, 0));
    assert_eq!(frames[99][0], (43, 0, 0));
}

#[test]
fn pulse_rainbow_spreads_hues() {
    let mut c = EasyBlinkController::new(4);
    let frames = c.execute_pattern(Color::Rainbow, Pattern::Pulse);
    assert_eq!(frames.len(), 100);
    for f in &frames {
        assert_eq!(f.len(), 4);
    }
    // at the crest the gradient shows full-value hues 0, 89, 179, 269
    assert_eq!(frames[50][0], (255, 0, 0));
    assert_eq!(frames[50][3], easyblink::hsv_to_rgb(269, 1, 1000));
}

#[test]
fn chase_runs_one_frame_per_led() {
    let mut c = EasyBlinkController::new(30);
    let frames = c.execute_pattern(Color::Green, Pattern::Chase);
    assert_eq!(frames.len(), 30);
    for f in &frames {
        assert_eq!(f.len(), 30);
    }
    // the crest of the single band shifts one pixel per frame
    let crest0: Vec<usize> =
        (0..30).filter(|&i| frames[0][i] == easyblink::hsv_to_rgb(116, 1, 1000)).collect();
    let crest1: Vec<usize> =
        (0..30).filter(|&i| frames[1][i] == easyblink::hsv_to_rgb(116, 1, 1000)).collect();
    assert_eq!(crest0.len(), 1);
    assert_eq!(crest1.len(), 1);
    assert_eq!((crest0[0] + 30 - crest1[0]) % 30, 1);
}

#[test]
fn chase_rainbow_runs_full_turn() {
    let mut c = EasyBlinkController::new(5);
    let frames = c.execute_pattern(Color::Rainbow, Pattern::Chase);
    assert_eq!(frames.len(), 360);
    for f in &frames {
        assert_eq!(f.len(), 5);
    }
    assert_eq!(frames[0][0], (255, 0, 0));
    // pixel 0 cycles through the wheel as the offset advances
    assert_eq!(frames[120][0], (0, 255, 0));
    assert_eq!(frames[240][0], (0, 0, 255));
}

#[test]
fn knightrider_bounces_with_tail() {
    let mut c = EasyBlinkController::new(10);
    let frames = c.execute_pattern(Color::Red, Pattern::KnightRider);
    assert_eq!(frames.len(), 20);
    for f in &frames {
        assert_eq!(f.len(), 10);
    }
    // frame 0: point at pixel 0, tail 4
    assert_eq!(frames[0][0], (255, 0, 0));
    assert_eq!(frames[0][2], easyblink::hsv_to_rgb(0, 1, 500));
    assert_eq!(frames[0][5], (0, 0, 0));
    // frame 1: point has moved to pixel 1
    assert_eq!(frames[1][1], (255, 0, 0));
}

#[test]
fn knightrider_traces_the_strip_and_returns() {
    let mut c = EasyBlinkController::new(10);
    let frames = c.execute_pattern(Color::Blue, Pattern::KnightRider);
    let full = easyblink::hsv_to_rgb(240, 1, 1000);
    // the point walks up the strip one pixel per frame...
    for (j, f) in frames.iter().take(10).enumerate() {
        assert_eq!(f[j], full);
    }
    // ...reflects at the upper end, and walks back down
    assert_eq!(frames[10][8], full);
    assert_eq!(frames[19][0], easyblink::hsv_to_rgb(240, 1, 750));
}

#[test]
fn sparkle_from_dark_sparks_within_bounds() {
    let mut c = EasyBlinkController::new(100);
    let frames = c.execute_pattern(Color::Red, Pattern::Sparkle);
    assert_eq!(frames.len(), 1);
    assert_eq!(frames[0].len(), 100);
    // dimming darkness leaves darkness, so every lit pixel is a spark:
    // pure red at half brightness or more, and between 1 and 10 of them
    let lit: Vec<(u8, u8, u8)> =
        frames[0].iter().copied().filter(|&p| p != (0, 0, 0)).collect();
    assert!((1..=10).contains(&lit.len()));
    for p in lit {
        assert_eq!(p.1, 0);
        assert_eq!(p.2, 0);
        assert!(p.0 >= 128);
    }
}

#[test]
fn sparkle_short_strip_always_sparks() {
    let mut c = EasyBlinkController::new(5);
    let frames = c.execute_pattern(Color::Blue, Pattern::Sparkle);
    let lit = frames[0].iter().filter(|&&p| p != (0, 0, 0)).count();
    assert!((1..=5).contains(&lit));
}

#[test]
fn sparkle_dims_what_does_not_spark() {
    let mut c = EasyBlinkController::new(100);
    // leave the buffer at the last pulse frame: every pixel (43, 0, 0)
    c.execute_pattern(Color::Red, Pattern::Pulse);
    let frames = c.execute_pattern(Color::Red, Pattern::Sparkle);
    // every pixel is either the 75%-dimmed (32, 0, 0) or a bright spark
    let mut sparks = 0;
    for &p in frames[0].iter() {
        if p == (32, 0, 0) {
            continue;
        }
        sparks += 1;
        assert_eq!(p.1, 0);
        assert_eq!(p.2, 0);
        assert!(p.0 >= 128);
    }
    assert!((1..=10).contains(&sparks));
}

#[test]
fn fireplace_sparks_warm() {
    let mut c = EasyBlinkController::new(50);
    let frames = c.execute_colorway_pattern(ColorwayPattern::Fireplace);
    assert_eq!(frames.len(), 1);
    assert_eq!(frames[0].len(), 50);
    // from darkness every lit pixel is a warm spark: no blue component,
    // red at least at half brightness, and at most 5 of them
    let lit: Vec<(u8, u8, u8)> =
        frames[0].iter().copied().filter(|&p| p != (0, 0, 0)).collect();
    assert!((1..=5).contains(&lit.len()));
    for p in lit {
        assert_eq!(p.2, 0);
        assert!(p.0 >= 128);
        assert!(p.0 >= p.1);
    }
}

#[test]
fn christmas_sparks_from_palette() {
    let mut c = EasyBlinkController::new(100);
    let frames = c.execute_colorway_pattern(ColorwayPattern::ChristmasTraditional);
    assert_eq!(frames.len(), 1);
    assert_eq!(frames[0].len(), 100);
    let lit: Vec<(u8, u8, u8)> =
        frames[0].iter().copied().filter(|&p| p != (0, 0, 0)).collect();
    assert!((1..=10).contains(&lit.len()));
    for p in lit {
        // pure white, or a palette hue at spark brightness: red, green,
        // blue or violet, each with at least one dark channel and its
        // brightest at half scale or more
        let white = p == (255, 255, 255);
        let colored = max_channel(p) >= 128 && (p.0 == 0 || p.1 == 0 || p.2 == 0);
        assert!(white || colored, "unexpected spark {p:?}");
    }
}

#[test]
fn colorway_patterns_keep_strip_length() {
    let mut c = EasyBlinkController::new(7);
    let frames = c.execute_colorway_pattern(ColorwayPattern::Fireplace);
    assert_eq!(frames[0].len(), 7);
    let frames = c.execute_colorway_pattern(ColorwayPattern::ChristmasTraditional);
    assert_eq!(frames[0].len(), 7);
    assert_eq!(c.get_num_leds(), 7);
}
