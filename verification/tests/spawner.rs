use paints::color::ColorMillis;
use paints::round::spawn_cadence_micros;
use paints::round::spawn_x_micro;
use paints::round::Round;
use paints::round::SimConfig;

fn label() -> ColorMillis {
    ColorMillis::new(300, 600, 900, 1000)
}

#[test]
fn cadence_is_two_bucket_widths() {
    // 168 px / 300 px/s * 2 = 1.12 s
    let cfg = SimConfig::standard();
    assert_eq!(spawn_cadence_micros(&cfg), 1_120_000);
}

#[test]
fn spawn_position_is_just_off_screen_left() {
    let cfg = SimConfig::standard();
    // -(1280/2 + 168/2) px in micropixels
    assert_eq!(spawn_x_micro(&cfg), -724_000_000);
}

#[test]
fn five_buckets_over_five_point_six_seconds() {
    let cfg = SimConfig::standard();
    let mut round = Round::enter(&cfg);
    // 10 ms frames: after exactly 1.12 s nothing has spawned yet, the
    // first bucket arrives on the frame that passes the cadence, and
    // the fifth on the frame that passes 5.6 s; afterwards the cap holds.
    let mut spawn_frames: Vec<u32> = Vec::new();
    for frame in 1..=1000u32 {
        if round.spawner_frame(&cfg, 10_000, label()) {
            spawn_frames.push(frame);
        }
    }
    assert_eq!(spawn_frames, vec![113, 225, 337, 449, 561]);
    assert_eq!(round.state.buckets_spawned, 5);
    assert_eq!(round.buckets.len(), 5);
    // more time changes nothing once the cap is reached
    assert!(!round.spawner_frame(&cfg, 100_000_000, label()));
    assert_eq!(round.state.buckets_spawned, 5);
}

#[test]
fn one_bucket_just_after_one_cadence() {
    let cfg = SimConfig::standard();
    let mut round = Round::enter(&cfg);
    // exactly one cadence of time: the strict comparison holds nothing back yet
    assert!(!round.spawner_frame(&cfg, 1_120_000, label()));
    assert_eq!(round.state.buckets_spawned, 0);
    // one microsecond later the first bucket appears
    assert!(round.spawner_frame(&cfg, 1, label()));
    assert_eq!(round.state.buckets_spawned, 1);
    assert_eq!(round.state.time_since_last_spawn_micros, 1);
}

#[test]
fn overshoot_is_kept_not_reset() {
    let cfg = SimConfig::standard();
    let mut round = Round::enter(&cfg);
    // a long frame: the timer keeps the overshoot past one cadence
    assert!(round.spawner_frame(&cfg, 2_000_000, label()));
    assert_eq!(round.state.time_since_last_spawn_micros, 880_000);
}

#[test]
fn fresh_bucket_carries_white_paint_and_the_label() {
    let cfg = SimConfig::standard();
    let mut round = Round::enter(&cfg);
    assert!(round.spawner_frame(&cfg, 1_200_000, label()));
    let bucket = &round.buckets[0];
    assert_eq!(bucket.x_micro, -724_000_000);
    assert_eq!(bucket.speed_px_per_s, 300);
    assert_eq!(bucket.paint, Some(ColorMillis::new(1000, 1000, 1000, 1000)));
    assert_eq!(bucket.label, Some(label()));
}

#[test]
fn paused_time_does_not_feed_the_spawner() {
    let cfg = SimConfig::standard();
    let mut round = Round::enter(&cfg);
    round.state.is_paused = true;
    for _ in 0..100 {
        assert!(!round.spawner_frame(&cfg, 1_000_000, label()));
    }
    assert_eq!(round.state.time_since_last_spawn_micros, 0);
    assert_eq!(round.state.buckets_spawned, 0);
    // unpausing lets time accumulate again
    round.state.is_paused = false;
    assert!(!round.spawner_frame(&cfg, 1_000_000, label()));
    assert_eq!(round.state.time_since_last_spawn_micros, 1_000_000);
}
