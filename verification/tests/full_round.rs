//! One whole round played through the public surface, frame by frame,
//! the way a driver around the library would run it.

use paints::color::ColorMillis;
use paints::machine::AppState;
use paints::machine::Game;
use paints::machine::GameKey;
use paints::motion::TickAccumulator;
use paints::motion::TIME_STEP_MICROS;
use paints::round::SimConfig;
use paints::text::score_digits;

#[test]
fn a_round_played_to_the_score_display() {
    let cfg = SimConfig::standard();
    let mut game = Game::new(&cfg);
    game.key_press(&cfg, GameKey::Space);
    let mut acc = TickAccumulator::new(TIME_STEP_MICROS);

    // every bucket keeps its white paint and gets a black label, so
    // each exit is worth exactly 1.0, i.e. 1000 thousandths
    let label = ColorMillis::new(0, 0, 0, 1000);

    let frame = 16_667u64; // ~60 fps
    let mut frames: u32 = 0;
    let mut spawned_frames: Vec<u32> = Vec::new();
    while !game.round.state.show_score {
        frames += 1;
        assert!(frames < 10_000, "the round must end");
        if game.round.spawner_frame(&cfg, frame, label) {
            spawned_frames.push(frames);
        }
        let ticks = acc.advance(frame);
        for _ in 0..ticks {
            assert!(game.round.tick_fits(TIME_STEP_MICROS));
            game.round.fixed_tick(&cfg, TIME_STEP_MICROS);
        }
        game.round.scorer_frame(&cfg);
    }

    assert_eq!(spawned_frames.len(), 5);
    assert_eq!(game.round.state.buckets_spawned, 5);
    assert_eq!(game.round.state.buckets_scored, 5);
    assert!(game.round.buckets.is_empty());
    assert_eq!(game.round.state.score_millis, 5000);
    assert_eq!(String::from_utf8(score_digits(game.round.state.score_millis)).unwrap(), "5000");

    // the fifth bucket spawns just past 5.6 s and then travels
    // 1448 px at 300 px/s before it exits: the round ends near 10.4 s
    assert!((610..=640).contains(&frames), "unexpected round length: {frames}");

    // Return leaves to the menu; Escape there ends the game
    game.key_press(&cfg, GameKey::Return);
    assert_eq!(game.app_state, AppState::MainMenu);
    assert!(game.key_press(&cfg, GameKey::Escape));
}
