use easyblink::patterns::band_value;
use easyblink::patterns::chase_band_width;
use easyblink::patterns::chase_bands;
use easyblink::patterns::chase_value;
use easyblink::patterns::draw_ember_hue;
use easyblink::patterns::draw_spark_count;
use easyblink::patterns::draw_spark_index;
use easyblink::patterns::draw_spark_value;
use easyblink::patterns::pulse_value;
use easyblink::patterns::rainbow_hue;
use easyblink::patterns::scan_advance;
use easyblink::patterns::scan_brightness;
use easyblink::patterns::scan_tail;

#[test]
fn pulse_ramp_endpoints() {
    assert_eq!(pulse_value(0), 150);
    assert_eq!(pulse_value(50), 1000);
    assert_eq!(pulse_value(99), 167);
}

#[test]
fn pulse_ramp_rises_then_falls() {
    for step in 0..50 {
        assert!(pulse_value(step) < pulse_value(step + 1));
    }
    for step in 50..99 {
        assert!(pulse_value(step) > pulse_value(step + 1));
    }
}

#[test]
fn chase_geometry_for_thirty_leds() {
    assert_eq!(chase_bands(30), 1);
    assert_eq!(chase_band_width(30), 15);
    assert_eq!(chase_bands(90), 3);
    assert_eq!(chase_band_width(90), 15);
    assert_eq!(chase_bands(5), 1);
    assert_eq!(chase_band_width(5), 2);
    assert_eq!(chase_band_width(1), 0);
}

#[test]
fn chase_band_rises_then_falls() {
    // one band of width 15 on a 30-LED strip: dark at the band start,
    // near full at the crest, mirrored back toward dark
    assert_eq!(band_value(0, 15), 0);
    assert_eq!(band_value(14, 15), 871);
    assert_eq!(band_value(15, 15), 1000);
    assert_eq!(band_value(29, 15), 4);
    assert_eq!(band_value(30, 15), 0);
    for pos in 0..14 {
        assert!(band_value(pos, 15) <= band_value(pos + 1, 15));
    }
    for pos in 15..29 {
        assert!(band_value(pos, 15) >= band_value(pos + 1, 15));
    }
}

#[test]
fn chase_value_peaks_once_per_band() {
    // with one band the strip-wide value is the band profile shifted by
    // the step
    for i in 0..30 {
        assert_eq!(chase_value(i, 0, 30), band_value(i, 15));
    }
    // zero-width bands (one or two LEDs) stay dark rather than dividing
    // by zero
    assert_eq!(chase_value(0, 0, 1), 0);
}

#[test]
fn scan_tail_is_forty_percent() {
    assert_eq!(scan_tail(10), 4);
    assert_eq!(scan_tail(1), 1);
    assert_eq!(scan_tail(2), 1);
    assert_eq!(scan_tail(100), 40);
}

#[test]
fn scan_brightness_profile() {
    // tail of 4 on a 10-LED strip, point at pixel 0
    assert_eq!(scan_brightness(0, 0, 4), 1000);
    assert_eq!(scan_brightness(0, 2, 4), 500);
    assert_eq!(scan_brightness(0, 4, 4), 0);
    assert_eq!(scan_brightness(0, 5, 4), 0);
    assert_eq!(scan_brightness(3, 0, 4), 250);
}

#[test]
fn scan_direction_reverses_exactly_at_boundaries() {
    // 10 LEDs, tail 4: the reflecting interval is [-4, 9]
    assert_eq!(scan_advance(8, 1, 10, 4), (9, -1));
    assert_eq!(scan_advance(7, 1, 10, 4), (8, 1));
    assert_eq!(scan_advance(-3, -1, 10, 4), (-4, 1));
    assert_eq!(scan_advance(-2, -1, 10, 4), (-3, -1));
    assert_eq!(scan_advance(0, -1, 10, 4), (-1, -1));
}

#[test]
fn spark_count_stays_in_range() {
    for _ in 0..300 {
        let c = draw_spark_count(5);
        assert!((1..=5).contains(&c));
        let c = draw_spark_count(100);
        assert!((1..=10).contains(&c));
        let c = draw_spark_count(9);
        assert!((1..=9).contains(&c));
        let c = draw_spark_count(10);
        assert_eq!(c, 1);
    }
}

#[test]
fn spark_brightness_stays_in_range() {
    for _ in 0..300 {
        let v = draw_spark_value();
        assert!((500..=1000).contains(&v));
    }
}

#[test]
fn spark_index_and_ember_hue_stay_in_range() {
    for _ in 0..300 {
        assert!(draw_spark_index(7) < 7);
        let h = draw_ember_hue();
        assert!((0..25).contains(&h));
    }
}

#[test]
fn rainbow_hue_spreads_the_wheel() {
    assert_eq!(rainbow_hue(0, 10), 0);
    assert_eq!(rainbow_hue(5, 10), 179);
    assert_eq!(rainbow_hue(9, 10), 323);
    for i in 0..120 {
        let h = rainbow_hue(i, 120);
        assert!((0..359).contains(&h));
    }
}
