use paints::color::name_color_offset;
use paints::color::color_distance_millis;
use paints::color::isqrt;
use paints::color::ColorMillis;
use paints::color::CHANNEL_MAX;

#[test]
fn identical_colors_score_zero() {
    let c = ColorMillis::new(500, 500, 500, 1000);
    assert_eq!(color_distance_millis(&c, &c), 0);
    let d = ColorMillis::new(123, 456, 789, 10);
    assert_eq!(color_distance_millis(&d, &d), 0);
}

#[test]
fn opposite_colors_score_full() {
    let black = ColorMillis::new(0, 0, 0, 1000);
    let white = ColorMillis::new(1000, 1000, 1000, 1000);
    assert_eq!(color_distance_millis(&black, &white), CHANNEL_MAX);
    assert_eq!(color_distance_millis(&white, &black), CHANNEL_MAX);
}

#[test]
fn example_bucket_scores_191() {
    // paint (0.2, 0.4, 0.6) against label (0.5, 0.5, 0.5):
    // sqrt(0.3^2 + 0.1^2 + 0.1^2) / sqrt(3) = 0.19148..., i.e. 191 thousandths
    let paint = ColorMillis::new(200, 400, 600, 1000);
    let label = ColorMillis::new(500, 500, 500, 1000);
    assert_eq!(color_distance_millis(&paint, &label), 191);
}

#[test]
fn distance_is_symmetric() {
    let a = ColorMillis::new(100, 900, 250, 1000);
    let b = ColorMillis::new(750, 0, 333, 1000);
    assert_eq!(
        color_distance_millis(&a, &b),
        color_distance_millis(&b, &a)
    );
}

#[test]
fn alpha_does_not_score() {
    let a = ColorMillis::new(400, 400, 400, 0);
    let b = ColorMillis::new(400, 400, 400, 1000);
    assert_eq!(color_distance_millis(&a, &b), 0);
}

#[test]
fn integer_square_roots() {
    assert_eq!(isqrt(0), 0);
    assert_eq!(isqrt(1), 1);
    assert_eq!(isqrt(3), 1);
    assert_eq!(isqrt(4), 2);
    assert_eq!(isqrt(36_666), 191);
    assert_eq!(isqrt(999_999), 999);
    assert_eq!(isqrt(1_000_000), 1000);
    assert_eq!(isqrt(u32::MAX), 65_535);
}

#[test]
fn name_offset_wraps_to_eight_bits() {
    assert_eq!(name_color_offset(&Vec::new()), 0);
    let name: Vec<u8> = b"Paint bucket".to_vec();
    // 80+97+105+110+116+32+98+117+99+107+101+116 = 1178; 1178 mod 256 = 154
    assert_eq!(name_color_offset(&name), 154);
    assert_eq!(name_color_offset(&vec![200, 200]), 144);
    assert_eq!(name_color_offset(&vec![255, 1]), 0);
}
