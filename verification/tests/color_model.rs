use easyblink::color::VALUE_SCALE;
use easyblink::hsv_to_rgb;
use easyblink::rgb_to_hsv;

#[test]
fn hue_boundaries_pure_colors() {
    assert_eq!(hsv_to_rgb(0, 1, 1000), (255, 0, 0));
    assert_eq!(hsv_to_rgb(60, 1, 1000), (255, 255, 0));
    assert_eq!(hsv_to_rgb(120, 1, 1000), (0, 255, 0));
    assert_eq!(hsv_to_rgb(180, 1, 1000), (0, 255, 255));
    assert_eq!(hsv_to_rgb(240, 1, 1000), (0, 0, 255));
    assert_eq!(hsv_to_rgb(300, 1, 1000), (255, 0, 255));
}

#[test]
fn zero_saturation_gives_gray() {
    assert_eq!(hsv_to_rgb(0, 0, 1000), (255, 255, 255));
    assert_eq!(hsv_to_rgb(123, 0, 500), (128, 128, 128));
    assert_eq!(hsv_to_rgb(300, 0, 0), (0, 0, 0));
}

#[test]
fn value_scales_channels() {
    assert_eq!(hsv_to_rgb(0, 1, 500), (128, 0, 0));
    assert_eq!(hsv_to_rgb(0, 1, 150), (38, 0, 0));
    assert_eq!(hsv_to_rgb(0, 1, 0), (0, 0, 0));
}

#[test]
fn conversion_total_over_domain() {
    // every accepted input converts without panicking, and gray inputs
    // keep all three channels equal
    let mut hue: i32 = 0;
    while hue < 360 {
        let mut value: u16 = 0;
        while value <= VALUE_SCALE {
            let (r, g, b) = hsv_to_rgb(hue, 0, value);
            assert!(r == g && g == b);
            let _ = hsv_to_rgb(hue, 1, value);
            value += 97;
        }
        hue += 7;
    }
}

#[test]
fn rgb_to_hsv_known_values() {
    assert_eq!(rgb_to_hsv(255, 0, 0), (0, 1, 1000));
    assert_eq!(rgb_to_hsv(0, 255, 0), (120, 1, 1000));
    assert_eq!(rgb_to_hsv(0, 0, 255), (240, 1, 1000));
    assert_eq!(rgb_to_hsv(255, 255, 255), (0, 0, 1000));
    assert_eq!(rgb_to_hsv(0, 0, 0), (0, 0, 0));
    assert_eq!(rgb_to_hsv(255, 128, 0), (30, 1, 1000));
    assert_eq!(rgb_to_hsv(0, 128, 255), (209, 1, 1000));
}

#[test]
fn rgb_to_hsv_hue_always_in_domain() {
    // the recovered hue stays in [0, 360) even where the continuous
    // formula goes negative (green below blue at a red maximum)
    let (h, s, v) = rgb_to_hsv(200, 10, 60);
    assert!((0..360).contains(&h));
    assert_eq!(s, 0);
    assert!(v <= 1000);
    let mut r: u16 = 0;
    while r <= 255 {
        let (h2, _, _) = rgb_to_hsv(r as u8, 77, 200);
        assert!((0..360).contains(&h2));
        r += 5;
    }
}

#[test]
fn value_round_trip_on_sector_boundaries() {
    // the documented weak inverse: brightness survives the round trip to
    // within two thousandths when the hue sits on a sector boundary
    for &hue in &[0, 60, 120, 180, 240, 300] {
        let mut value: u16 = 0;
        while value <= VALUE_SCALE {
            let (r, g, b) = hsv_to_rgb(hue, 1, value);
            let (_, _, recovered) = rgb_to_hsv(r, g, b);
            let diff = (recovered as i32 - value as i32).abs();
            assert!(diff <= 2, "hue {hue} value {value} recovered {recovered}");
            value += 1;
        }
    }
}

#[test]
fn round_trip_not_exact_in_general() {
    // off the boundaries the inverse is lossy by design: the saturation
    // flag and truncated hue do not reproduce the input exactly
    let (r, g, b) = hsv_to_rgb(18, 1, 700);
    let (h, s, v) = rgb_to_hsv(r, g, b);
    assert_eq!(s, 1);
    assert!((h - 18).abs() <= 2);
    assert!((v as i32 - 700).abs() <= 2);
}
