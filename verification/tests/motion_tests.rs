use paints::color::ColorMillis;
use paints::motion::step_position;
use paints::motion::TickAccumulator;
use paints::motion::TIME_STEP_MICROS;
use paints::round::Bucket;
use paints::round::GameState;
use paints::round::Round;
use paints::round::SimConfig;

fn one_bucket_round(x_micro: i64, speed: u32) -> Round {
    Round {
        state: GameState {
            is_paused: false,
            time_since_last_spawn_micros: 0,
            buckets_spawned: 1,
            buckets_scored: 0,
            score_millis: 0,
            show_score: false,
        },
        buckets: vec![Bucket {
            x_micro,
            speed_px_per_s: speed,
            paint: Some(ColorMillis::new(1000, 1000, 1000, 1000)),
            label: Some(ColorMillis::new(0, 0, 0, 1000)),
        }],
        nozzles: Vec::new(),
    }
}

#[test]
fn one_step_is_speed_times_step() {
    // 300 px/s for 16666 µs: 4_999_800 micropixels
    assert_eq!(step_position(0, 300, 16_666), 4_999_800);
    assert_eq!(step_position(-724_000_000, 300, 16_666), -719_000_200);
}

#[test]
fn ticks_are_linear_in_their_count() {
    let cfg = SimConfig::standard();
    let mut round = one_bucket_round(-724_000_000, 300);
    for _ in 0..10 {
        round.fixed_tick(&cfg, TIME_STEP_MICROS);
    }
    assert_eq!(round.buckets[0].x_micro, -724_000_000 + 10 * 4_999_800);
}

#[test]
fn paused_ticks_move_nothing() {
    let cfg = SimConfig::standard();
    let mut round = one_bucket_round(-100, 300);
    round.state.is_paused = true;
    for _ in 0..1000 {
        round.fixed_tick(&cfg, TIME_STEP_MICROS);
    }
    assert_eq!(round.buckets[0].x_micro, -100);
}

#[test]
fn accumulator_hands_out_whole_ticks_only() {
    let mut acc = TickAccumulator::new(16_666);
    assert_eq!(acc.advance(10_000), 0);
    assert_eq!(acc.acc_micros, 10_000);
    assert_eq!(acc.advance(10_000), 1);
    assert_eq!(acc.acc_micros, 3_334);
    assert_eq!(acc.advance(0), 0);
    // a long stall is caught up in full
    assert_eq!(acc.advance(166_660), (3_334 + 166_660) / 16_666);
    assert_eq!(acc.acc_micros, (3_334 + 166_660) % 16_666);
}

#[test]
fn accumulator_accounts_for_every_microsecond() {
    let mut acc = TickAccumulator::new(16_666);
    let mut ticks: u64 = 0;
    let mut fed: u64 = 0;
    for elapsed in [0u64, 1, 16_665, 16_666, 16_667, 50_000, 123_456] {
        ticks += acc.advance(elapsed);
        fed += elapsed;
    }
    assert_eq!(ticks * 16_666 + acc.acc_micros, fed);
}

#[test]
fn the_catch_up_loop_matches_single_ticks() {
    let cfg = SimConfig::standard();
    let mut one_by_one = one_bucket_round(-724_000_000, 300);
    let mut caught_up = one_bucket_round(-724_000_000, 300);
    for _ in 0..7 {
        one_by_one.fixed_tick(&cfg, TIME_STEP_MICROS);
    }
    caught_up.run_fixed_ticks(&cfg, TIME_STEP_MICROS, 7);
    assert_eq!(one_by_one.buckets[0].x_micro, caught_up.buckets[0].x_micro);
    assert_eq!(caught_up.buckets[0].x_micro, -724_000_000 + 7 * 4_999_800);
    // a paused round ignores the whole catch-up
    caught_up.state.is_paused = true;
    caught_up.run_fixed_ticks(&cfg, TIME_STEP_MICROS, 1000);
    assert_eq!(caught_up.buckets[0].x_micro, -724_000_000 + 7 * 4_999_800);
}

#[test]
fn tick_fits_spots_the_machine_limit() {
    let cfg = SimConfig::standard();
    let round = one_bucket_round(i64::MAX - 1_000, 300);
    assert!(!round.tick_fits(TIME_STEP_MICROS));
    let safe = one_bucket_round(724_000_000, 300);
    assert!(safe.tick_fits(TIME_STEP_MICROS));
    // a paused round never needs the check, but it holds anyway
    assert!(Round::enter(&cfg).tick_fits(TIME_STEP_MICROS));
}
