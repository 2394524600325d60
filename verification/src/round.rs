//! One round of play: the per-round game state, the timed bucket
//! spawner, the fixed-tick mover and the exit scorer.
//!
//! A round owns its entities outright: each bucket carries its own paint
//! and label swatch, so the score-time lookup that a scene graph would
//! need is a plain field access here.

use vstd::prelude::*;

use crate::color::ColorMillis;
use crate::color::color_distance_millis;
use crate::color::score_contribution;
use crate::motion::stepped_position;
use crate::motion::step_position;

verus! {

/// The width of a paint bucket sprite in pixels.
pub const PAINT_BUCKET_WIDTH_PX: u32 = 168;

/// How fast a bucket scrolls, in pixels per second.
pub const PAINT_BUCKET_SPEED_PX_PER_S: u32 = 300;

/// How many buckets one round releases.
pub const PAINT_BUCKET_SPAWN_MAX: u32 = 5;

/// The default window width in pixels.
pub const DEFAULT_SCREEN_WIDTH_PX: u32 = 1280;

/// The fixed geometry and pacing of a round. The bounds in `wf` keep
/// every derived quantity comfortably inside the machine integers.
#[derive(Clone, Copy, Debug, PartialEq, Eq, Structural)]
pub struct SimConfig {
    pub screen_width_px: u32,
    pub bucket_width_px: u32,
    pub bucket_speed_px_per_s: u32,
    pub spawn_max: u32,
}

impl SimConfig {
    pub open spec fn wf(self) -> bool {
        &&& 1 <= self.bucket_width_px <= 1_000_000
        &&& 1 <= self.bucket_speed_px_per_s <= 1_000_000
        &&& 1 <= self.screen_width_px <= 1_000_000
        &&& 1 <= self.spawn_max <= 1_000_000
    }

    /// The configuration of the shipped game.
    pub open spec fn standard_spec() -> SimConfig {
        SimConfig {
            screen_width_px: 1280,
            bucket_width_px: 168,
            bucket_speed_px_per_s: 300,
            spawn_max: 5,
        }
    }

    pub fn standard() -> (c: SimConfig)
        ensures
            c == SimConfig::standard_spec(),
            c.wf(),
    {
        SimConfig {
            screen_width_px: DEFAULT_SCREEN_WIDTH_PX,
            bucket_width_px: PAINT_BUCKET_WIDTH_PX,
            bucket_speed_px_per_s: PAINT_BUCKET_SPEED_PX_PER_S,
            spawn_max: PAINT_BUCKET_SPAWN_MAX,
        }
    }
}

/// Seconds between two spawns, in microseconds: the time it takes a
/// bucket to travel two bucket widths, which guarantees visual spacing.
pub open spec fn spec_spawn_cadence_micros(cfg: SimConfig) -> int {
    2 * (cfg.bucket_width_px as int) * 1_000_000 / (cfg.bucket_speed_px_per_s as int)
}

pub fn spawn_cadence_micros(cfg: &SimConfig) -> (c: u64)
    requires
        cfg.wf(),
    ensures
        c == spec_spawn_cadence_micros(*cfg),
{
    2 * (cfg.bucket_width_px as u64) * 1_000_000 / (cfg.bucket_speed_px_per_s as u64)
}

/// Where a fresh bucket's centre stands: half a bucket width left of the
/// left screen edge, in micropixels.
pub open spec fn spec_spawn_x_micro(cfg: SimConfig) -> int {
    -(((cfg.screen_width_px + cfg.bucket_width_px) as int) * 500_000)
}

pub fn spawn_x_micro(cfg: &SimConfig) -> (x: i64)
    requires
        cfg.wf(),
    ensures
        x == spec_spawn_x_micro(*cfg),
{
    -(((cfg.screen_width_px as i64) + (cfg.bucket_width_px as i64)) * 500_000)
}

/// A bucket has fully exited once its centre passes half a screen plus
/// half a bucket width to the right, in micropixels.
pub open spec fn spec_exit_threshold_micro(cfg: SimConfig) -> int {
    ((cfg.screen_width_px + cfg.bucket_width_px) as int) * 500_000
}

pub fn exit_threshold_micro(cfg: &SimConfig) -> (t: i64)
    requires
        cfg.wf(),
    ensures
        t == spec_exit_threshold_micro(*cfg),
{
    ((cfg.screen_width_px as i64) + (cfg.bucket_width_px as i64)) * 500_000
}

/// A scrolling paint bucket with its two owned swatches: the paint it
/// currently carries and the label color it should approach. The
/// swatches are optional only to mirror a damaged scene: the spawner
/// always attaches both.
#[derive(Clone, Copy, Debug, PartialEq)]
pub struct Bucket {
    pub x_micro: i64,
    pub speed_px_per_s: u32,
    pub paint: Option<ColorMillis>,
    pub label: Option<ColorMillis>,
}

impl Bucket {
    pub open spec fn wf(self) -> bool {
        &&& self.speed_px_per_s <= 1_000_000
        &&& match self.paint {
            Some(p) => p.wf(),
            None => true,
        }
        &&& match self.label {
            Some(l) => l.wf(),
            None => true,
        }
    }

    /// The bucket the spawner releases: just off the left edge, moving
    /// at the configured speed, neutral white paint, the given label.
    pub open spec fn fresh_spec(cfg: SimConfig, label: ColorMillis) -> Bucket {
        Bucket {
            x_micro: spec_spawn_x_micro(cfg) as i64,
            speed_px_per_s: cfg.bucket_speed_px_per_s,
            paint: Some(ColorMillis::white_spec()),
            label: Some(label),
        }
    }
}

/// A fixed paint nozzle with its assigned color.
#[derive(Clone, Copy, Debug, PartialEq)]
pub struct Nozzle {
    pub x_px: i32,
    pub color: ColorMillis,
}

/// The three nozzles a round starts with: red, green and blue, evenly
/// spaced across the middle of the screen.
pub open spec fn initial_nozzles() -> Seq<Nozzle> {
    seq![
        Nozzle { x_px: -200i32, color: ColorMillis { r: 1000, g: 0, b: 0, a: 1000 } },
        Nozzle { x_px: 0i32, color: ColorMillis { r: 0, g: 1000, b: 0, a: 1000 } },
        Nozzle { x_px: 200i32, color: ColorMillis { r: 0, g: 0, b: 1000, a: 1000 } },
    ]
}

/// The per-round bookkeeping. Times are microseconds and the score is
/// in thousandths, one unit per thousandth of normalized color distance.
#[derive(Clone, Copy, Debug, PartialEq, Eq, Structural)]
pub struct GameState {
    pub is_paused: bool,
    pub time_since_last_spawn_micros: u64,
    pub buckets_spawned: u32,
    pub buckets_scored: u32,
    pub score_millis: u64,
    pub show_score: bool,
}

impl GameState {
    /// The state a round starts from.
    pub open spec fn initial() -> GameState {
        GameState {
            is_paused: false,
            time_since_last_spawn_micros: 0,
            buckets_spawned: 0,
            buckets_scored: 0,
            score_millis: 0,
            show_score: false,
        }
    }

    /// Every count in range, the score bounded by the buckets scored,
    /// and the score display shown exactly once all buckets are in.
    pub open spec fn wf(self, cfg: SimConfig) -> bool {
        &&& self.buckets_spawned <= cfg.spawn_max
        &&& self.buckets_scored <= self.buckets_spawned
        &&& self.score_millis <= 1000 * self.buckets_scored
        &&& (self.show_score <==> self.buckets_scored == cfg.spawn_max)
    }

    pub fn new() -> (s: GameState)
        ensures
            s == GameState::initial(),
    {
        GameState {
            is_paused: false,
            time_since_last_spawn_micros: 0,
            buckets_spawned: 0,
            buckets_scored: 0,
            score_millis: 0,
            show_score: false,
        }
    }

    /// Entering the game resets every field; no value of a previous
    /// round survives.
    pub fn reset(&mut self)
        ensures
            *final(self) == GameState::initial(),
    {
        *self = GameState::new();
    }

    /// Books one exited bucket: its color distance joins the score, the
    /// scored count rises by exactly one, and the score display comes on
    /// at the instant the last bucket is in.
    pub fn record_bucket_score(&mut self, cfg: &SimConfig, distance_millis: u32)
        requires
            cfg.wf(),
            old(self).wf(*cfg),
            old(self).buckets_scored < old(self).buckets_spawned,
            distance_millis <= 1000,
        ensures
            final(self).wf(*cfg),
            final(self).buckets_scored == old(self).buckets_scored + 1,
            final(self).score_millis == old(self).score_millis + distance_millis,
            (final(self).show_score <==> old(self).buckets_scored + 1 == cfg.spawn_max),
            old(self).show_score ==> final(self).show_score,
            final(self).is_paused == old(self).is_paused,
            final(self).time_since_last_spawn_micros == old(self).time_since_last_spawn_micros,
            final(self).buckets_spawned == old(self).buckets_spawned,
    {
        self.score_millis = self.score_millis + distance_millis as u64;
        self.buckets_scored = self.buckets_scored + 1;
        self.show_score = self.buckets_scored == cfg.spawn_max;
    }
}

/// Law: in every well-formed round state the counters nest — the scored
/// count never exceeds the spawned count, which never exceeds the cap —
/// and the score never exceeds the scored buckets' largest possible
/// worth of one full unit each.
pub proof fn lemma_counters_nested(s: GameState, cfg: SimConfig)
    requires
        cfg.wf(),
        s.wf(cfg),
    ensures
        s.buckets_scored <= s.buckets_spawned <= cfg.spawn_max,
        s.score_millis <= 1000 * s.buckets_scored,
{
}

/// One spawner frame over the unpaused timeline: the elapsed time joins
/// the timer, and while the cap is not reached and more than one cadence
/// has accumulated, one bucket leaves and one cadence is deducted — the
/// overshoot is kept for the next cycle. Returns (timer, spawned).
pub open spec fn spawner_step(cfg: SimConfig, timer: int, spawned: int, elapsed: int) -> (
    int,
    int,
) {
    let t2 = timer + elapsed;
    if spawned < cfg.spawn_max && t2 > spec_spawn_cadence_micros(cfg) {
        (t2 - spec_spawn_cadence_micros(cfg), spawned + 1)
    } else {
        (t2, spawned)
    }
}

/// The spawner state after a whole round of frames, starting from the
/// initial state. Each entry of `frames` is one frame's unpaused
/// elapsed time.
pub open spec fn spawner_run(cfg: SimConfig, frames: Seq<int>) -> (int, int)
    decreases frames.len(),
{
    if frames.len() == 0 {
        (0, 0)
    } else {
        let prev = spawner_run(cfg, frames.drop_last());
        spawner_step(cfg, prev.0, prev.1, frames.last())
    }
}

pub open spec fn sum_seq(s: Seq<int>) -> int
    decreases s.len(),
{
    if s.len() == 0 {
        0
    } else {
        sum_seq(s.drop_last()) + s.last()
    }
}

/// Law: over any sequence of frames, the spawner never exceeds the cap,
/// and `k` spawns need strictly more than `k` cadences of unpaused
/// time — so no two spawns ever fall within one cadence interval.
pub proof fn lemma_spawner_cap_and_rate(cfg: SimConfig, frames: Seq<int>)
    requires
        cfg.wf(),
        forall|i: int| 0 <= i < frames.len() ==> frames[i] >= 0,
    ensures
        ({
            let (timer, spawned) = spawner_run(cfg, frames);
            &&& 0 <= spawned <= cfg.spawn_max
            &&& timer == sum_seq(frames) - spawned * spec_spawn_cadence_micros(cfg)
            &&& (spawned > 0 ==> spawned * spec_spawn_cadence_micros(cfg) < sum_seq(frames))
        }),
    decreases frames.len(),
{
    let c = spec_spawn_cadence_micros(cfg);
    if frames.len() == 0 {
        assert(0 * c == 0) by (nonlinear_arith);
    } else {
        let head = frames.drop_last();
        lemma_spawner_cap_and_rate(cfg, head);
        let (timer, spawned) = spawner_run(cfg, head);
        let e = frames.last();
        assert(e >= 0);
        if spawned < cfg.spawn_max && timer + e > c {
            assert((spawned + 1) * c == spawned * c + c) by (nonlinear_arith);
        }
    }
}

/// A bucket has fully left the play area on the right.
pub open spec fn bucket_exited(b: Bucket, cfg: SimConfig) -> bool {
    b.x_micro > spec_exit_threshold_micro(cfg)
}

/// An exited bucket is scored only if both of its swatches are present;
/// a bucket missing one is skipped defensively and left alone.
pub open spec fn bucket_scoreable(b: Bucket, cfg: SimConfig) -> bool {
    bucket_exited(b, cfg) && b.paint.is_some() && b.label.is_some()
}

/// What a scoreable bucket adds to the score, in thousandths.
pub open spec fn spec_bucket_score(b: Bucket) -> int {
    score_contribution(b.paint.unwrap(), b.label.unwrap()) as int
}

/// The buckets one scorer pass leaves alive, in their original order.
pub open spec fn kept_after_scoring(s: Seq<Bucket>, cfg: SimConfig) -> Seq<Bucket>
    decreases s.len(),
{
    if s.len() == 0 {
        s
    } else {
        let rest = kept_after_scoring(s.drop_last(), cfg);
        if bucket_scoreable(s.last(), cfg) {
            rest
        } else {
            rest.push(s.last())
        }
    }
}

/// How many buckets one scorer pass scores.
pub open spec fn scored_count(s: Seq<Bucket>, cfg: SimConfig) -> int
    decreases s.len(),
{
    if s.len() == 0 {
        0
    } else {
        scored_count(s.drop_last(), cfg) + if bucket_scoreable(s.last(), cfg) {
            1int
        } else {
            0int
        }
    }
}

/// What one scorer pass adds to the score, in thousandths.
pub open spec fn scored_sum_millis(s: Seq<Bucket>, cfg: SimConfig) -> int
    decreases s.len(),
{
    if s.len() == 0 {
        0
    } else {
        scored_sum_millis(s.drop_last(), cfg) + if bucket_scoreable(s.last(), cfg) {
            spec_bucket_score(s.last())
        } else {
            0int
        }
    }
}

proof fn lemma_scoring_bounds(s: Seq<Bucket>, cfg: SimConfig)
    requires
        forall|i: int| 0 <= i < s.len() ==> s[i].wf(),
    ensures
        0 <= scored_count(s, cfg) <= s.len(),
        kept_after_scoring(s, cfg).len() == s.len() - scored_count(s, cfg),
        0 <= scored_sum_millis(s, cfg) <= 1000 * scored_count(s, cfg),
        forall|j: int|
            0 <= j < kept_after_scoring(s, cfg).len() ==> kept_after_scoring(s, cfg)[j].wf(),
    decreases s.len(),
{
    if s.len() > 0 {
        let head = s.drop_last();
        assert(forall|i: int| 0 <= i < head.len() ==> head[i] == s[i]);
        lemma_scoring_bounds(head, cfg);
        let last = s.last();
        assert(last.wf());
        if bucket_scoreable(last, cfg) {
            crate::color::lemma_score_contribution_le_max(last.paint.unwrap(), last.label.unwrap());
        }
    }
}

proof fn lemma_tick_travel_bounds(x: int, s: int, st: int, k: int, t: int)
    requires
        0 <= s,
        0 <= st,
        0 <= k < t,
    ensures
        0 <= s * st,
        0 <= s * st * k,
        s * st * k + s * st == s * st * (k + 1),
        s * st * k <= s * st * t,
        s * st * (k + 1) <= s * st * t,
{
    assert(0 <= s * st && 0 <= s * st * k && s * st * k + s * st == s * st * (k + 1) && s * st * k
        <= s * st * t && s * st * (k + 1) <= s * st * t) by (nonlinear_arith)
        requires
            0 <= s,
            0 <= st,
            0 <= k,
            k + 1 <= t,
    ;
}

/// One round of play: the bookkeeping plus the live entities.
#[derive(Debug)]
pub struct Round {
    pub state: GameState,
    pub buckets: Vec<Bucket>,
    pub nozzles: Vec<Nozzle>,
}

/// A round exactly as the enter hook leaves it: initial bookkeeping, no
/// buckets yet, and the three standard nozzles.
pub open spec fn is_entered(r: Round) -> bool {
    &&& r.state == GameState::initial()
    &&& r.buckets@ == Seq::<Bucket>::empty()
    &&& r.nozzles@ == initial_nozzles()
}

impl Round {
    pub open spec fn wf(self, cfg: SimConfig) -> bool {
        &&& self.state.wf(cfg)
        &&& self.buckets@.len() == self.state.buckets_spawned - self.state.buckets_scored
        &&& forall|i: int| 0 <= i < self.buckets@.len() ==> self.buckets@[i].wf()
    }

    /// The enter hook of the in-game phase: resets the bookkeeping and
    /// places the three nozzles. Nothing of an earlier round survives.
    pub fn enter(cfg: &SimConfig) -> (r: Round)
        requires
            cfg.wf(),
        ensures
            is_entered(r),
            r.wf(*cfg),
    {
        let mut nozzles: Vec<Nozzle> = Vec::new();
        nozzles.push(Nozzle { x_px: -200, color: ColorMillis::new(1000, 0, 0, 1000) });
        nozzles.push(Nozzle { x_px: 0, color: ColorMillis::new(0, 1000, 0, 1000) });
        nozzles.push(Nozzle { x_px: 200, color: ColorMillis::new(0, 0, 1000, 1000) });
        proof {
            assert(nozzles@ =~= initial_nozzles());
        }
        let buckets: Vec<Bucket> = Vec::new();
        proof {
            assert(buckets@ =~= Seq::<Bucket>::empty());
        }
        Round { state: GameState::new(), buckets, nozzles }
    }

    /// The exit hook: despawns every per-round entity. The bookkeeping
    /// is left as it stands; the next enter resets it.
    pub fn clear(&mut self)
        ensures
            final(self).state == old(self).state,
            final(self).buckets@ == Seq::<Bucket>::empty(),
            final(self).nozzles@ == Seq::<Nozzle>::empty(),
    {
        self.buckets = Vec::new();
        self.nozzles = Vec::new();
        proof {
            assert(self.buckets@ =~= Seq::<Bucket>::empty());
            assert(self.nozzles@ =~= Seq::<Nozzle>::empty());
        }
    }

    /// Whether one fixed tick would keep every bucket position inside
    /// the machine range; callers guard `fixed_tick` with this.
    pub fn tick_fits(&self, step_micros: u64) -> (r: bool)
        ensures
            r == (forall|i: int|
                0 <= i < self.buckets@.len() ==> stepped_position(
                    self.buckets@[i].x_micro as int,
                    self.buckets@[i].speed_px_per_s as int,
                    step_micros as int,
                ) <= i64::MAX),
    {
        let n = self.buckets.len();
        let mut i: usize = 0;
        while i < n
            invariant
                i <= n,
                n == self.buckets@.len(),
                forall|j: int|
                    0 <= j < i ==> stepped_position(
                        self.buckets@[j].x_micro as int,
                        self.buckets@[j].speed_px_per_s as int,
                        step_micros as int,
                    ) <= i64::MAX,
            decreases n - i,
        {
            let b = self.buckets[i];
            proof {
                assert(0 <= b.speed_px_per_s as int * step_micros as int
                    <= 0x1_0000_0000_0000_0000_0000_0000) by (nonlinear_arith)
                    requires
                        0 <= b.speed_px_per_s <= 0xffff_ffff,
                        0 <= step_micros <= 0xffff_ffff_ffff_ffff,
                ;
            }
            let nx: i128 = (b.x_micro as i128) + (b.speed_px_per_s as i128) * (step_micros
                as i128);
            if nx > i64::MAX as i128 {
                return false;
            }
            i = i + 1;
        }
        true
    }

    /// The fixed-update hook: one simulation tick. While paused, nothing
    /// moves and no time accumulates into positions; while unpaused,
    /// every bucket advances by exactly its speed times the step.
    pub fn fixed_tick(&mut self, cfg: &SimConfig, step_micros: u64)
        requires
            cfg.wf(),
            old(self).wf(*cfg),
            step_micros <= 1_000_000_000,
            !old(self).state.is_paused ==> forall|i: int|
                0 <= i < old(self).buckets@.len() ==> stepped_position(
                    old(self).buckets@[i].x_micro as int,
                    old(self).buckets@[i].speed_px_per_s as int,
                    step_micros as int,
                ) <= i64::MAX,
        ensures
            final(self).wf(*cfg),
            old(self).state.is_paused ==> *final(self) == *old(self),
            !old(self).state.is_paused ==> {
                &&& final(self).state == old(self).state
                &&& final(self).nozzles@ == old(self).nozzles@
                &&& final(self).buckets@.len() == old(self).buckets@.len()
                &&& forall|i: int|
                    0 <= i < old(self).buckets@.len() ==> final(self).buckets@[i] == (Bucket {
                        x_micro: stepped_position(
                            old(self).buckets@[i].x_micro as int,
                            old(self).buckets@[i].speed_px_per_s as int,
                            step_micros as int,
                        ) as i64,
                        ..old(self).buckets@[i]
                    })
            },
    {
        if self.state.is_paused {
            return ;
        }
        let ghost orig = self.buckets@;
        let n = self.buckets.len();
        let mut moved: Vec<Bucket> = Vec::new();
        let mut i: usize = 0;
        while i < n
            invariant
                i <= n,
                n == self.buckets@.len(),
                self.buckets@ == orig,
                step_micros <= 1_000_000_000,
                forall|j: int| 0 <= j < n ==> orig[j].wf(),
                forall|j: int|
                    0 <= j < n ==> stepped_position(
                        orig[j].x_micro as int,
                        orig[j].speed_px_per_s as int,
                        step_micros as int,
                    ) <= i64::MAX,
                moved@.len() == i,
                forall|j: int|
                    0 <= j < i ==> moved@[j] == (Bucket {
                        x_micro: stepped_position(
                            orig[j].x_micro as int,
                            orig[j].speed_px_per_s as int,
                            step_micros as int,
                        ) as i64,
                        ..orig[j]
                    }),
                forall|j: int| 0 <= j < i ==> moved@[j].wf(),
            decreases n - i,
        {
            let b = self.buckets[i];
            let nx = step_position(b.x_micro, b.speed_px_per_s, step_micros);
            moved.push(
                Bucket {
                    x_micro: nx,
                    speed_px_per_s: b.speed_px_per_s,
                    paint: b.paint,
                    label: b.label,
                },
            );
            i = i + 1;
        }
        self.buckets = moved;
    }

    /// The catch-up loop: runs `ticks` fixed ticks back to back, as a
    /// frame that fell behind must. While unpaused, every bucket ends
    /// up exactly `speed * step * ticks` further right — the motion is
    /// linear in the tick count, however the ticks were grouped.
    pub fn run_fixed_ticks(&mut self, cfg: &SimConfig, step_micros: u64, ticks: u64)
        requires
            cfg.wf(),
            old(self).wf(*cfg),
            step_micros <= 1_000_000_000,
            ticks <= 1_000_000_000,
            !old(self).state.is_paused ==> forall|i: int|
                0 <= i < old(self).buckets@.len() ==> old(self).buckets@[i].x_micro + old(
                    self,
                ).buckets@[i].speed_px_per_s * step_micros * ticks <= i64::MAX,
        ensures
            final(self).wf(*cfg),
            old(self).state.is_paused ==> *final(self) == *old(self),
            !old(self).state.is_paused ==> {
                &&& final(self).state == old(self).state
                &&& final(self).nozzles@ == old(self).nozzles@
                &&& final(self).buckets@.len() == old(self).buckets@.len()
                &&& forall|i: int|
                    0 <= i < old(self).buckets@.len() ==> final(self).buckets@[i] == (Bucket {
                        x_micro: (old(self).buckets@[i].x_micro + old(
                            self,
                        ).buckets@[i].speed_px_per_s * step_micros * ticks) as i64,
                        ..old(self).buckets@[i]
                    })
            },
    {
        if self.state.is_paused {
            return ;
        }
        let ghost orig = self.buckets@;
        let mut k: u64 = 0;
        proof {
            assert forall|i: int| 0 <= i < orig.len() implies orig[i] == (Bucket {
                x_micro: (orig[i].x_micro + orig[i].speed_px_per_s * step_micros * 0) as i64,
                ..orig[i]
            }) by {
                assert(orig[i].speed_px_per_s * step_micros * 0 == 0) by (nonlinear_arith);
            }
        }
        while k < ticks
            invariant
                k <= ticks,
                ticks <= 1_000_000_000,
                step_micros <= 1_000_000_000,
                cfg.wf(),
                orig == old(self).buckets@,
                !self.state.is_paused,
                self.state == old(self).state,
                self.nozzles@ == old(self).nozzles@,
                self.buckets@.len() == orig.len(),
                self.wf(*cfg),
                forall|i: int| 0 <= i < orig.len() ==> orig[i].wf(),
                forall|i: int|
                    0 <= i < orig.len() ==> orig[i].x_micro + orig[i].speed_px_per_s * step_micros
                        * ticks <= i64::MAX,
                forall|i: int|
                    0 <= i < orig.len() ==> self.buckets@[i] == (Bucket {
                        x_micro: (orig[i].x_micro + orig[i].speed_px_per_s * step_micros
                            * k) as i64,
                        ..orig[i]
                    }),
            decreases ticks - k,
        {
            proof {
                assert forall|i: int| 0 <= i < self.buckets@.len() implies stepped_position(
                    self.buckets@[i].x_micro as int,
                    self.buckets@[i].speed_px_per_s as int,
                    step_micros as int,
                ) <= i64::MAX by {
                    lemma_tick_travel_bounds(
                        orig[i].x_micro as int,
                        orig[i].speed_px_per_s as int,
                        step_micros as int,
                        k as int,
                        ticks as int,
                    );
                }
            }
            self.fixed_tick(cfg, step_micros);
            proof {
                assert forall|i: int| 0 <= i < orig.len() implies self.buckets@[i] == (Bucket {
                    x_micro: (orig[i].x_micro + orig[i].speed_px_per_s * step_micros * (k
                        + 1)) as i64,
                    ..orig[i]
                }) by {
                    lemma_tick_travel_bounds(
                        orig[i].x_micro as int,
                        orig[i].speed_px_per_s as int,
                        step_micros as int,
                        k as int,
                        ticks as int,
                    );
                }
            }
            k = k + 1;
        }
    }

    /// The spawner, run once per frame: accumulates unpaused time and
    /// releases at most one bucket, white paint and the given label
    /// color attached, following `spawner_step` on the unpaused
    /// timeline.
    pub fn spawner_frame(&mut self, cfg: &SimConfig, elapsed_micros: u64, label: ColorMillis) -> (
        spawned_now: bool)
        requires
            cfg.wf(),
            old(self).wf(*cfg),
            label.wf(),
            old(self).state.time_since_last_spawn_micros + elapsed_micros <= u64::MAX,
        ensures
            final(self).wf(*cfg),
            ({
                let eff: int = if old(self).state.is_paused {
                    0
                } else {
                    elapsed_micros as int
                };
                let next = spawner_step(
                    *cfg,
                    old(self).state.time_since_last_spawn_micros as int,
                    old(self).state.buckets_spawned as int,
                    eff,
                );
                &&& final(self).state.time_since_last_spawn_micros == next.0
                &&& final(self).state.buckets_spawned == next.1
                &&& spawned_now == (next.1 != old(self).state.buckets_spawned)
            }),
            spawned_now ==> final(self).buckets@ == old(self).buckets@.push(
                Bucket::fresh_spec(*cfg, label),
            ),
            !spawned_now ==> final(self).buckets@ == old(self).buckets@,
            final(self).state.is_paused == old(self).state.is_paused,
            final(self).state.buckets_scored == old(self).state.buckets_scored,
            final(self).state.score_millis == old(self).state.score_millis,
            final(self).state.show_score == old(self).state.show_score,
            final(self).nozzles@ == old(self).nozzles@,
    {
        if !self.state.is_paused {
            self.state.time_since_last_spawn_micros = self.state.time_since_last_spawn_micros
                + elapsed_micros;
        }
        let cadence = spawn_cadence_micros(cfg);
        if self.state.buckets_spawned < cfg.spawn_max && self.state.time_since_last_spawn_micros
            > cadence {
            let bucket = Bucket {
                x_micro: spawn_x_micro(cfg),
                speed_px_per_s: cfg.bucket_speed_px_per_s,
                paint: Some(ColorMillis::white()),
                label: Some(label),
            };
            self.buckets.push(bucket);
            self.state.time_since_last_spawn_micros = self.state.time_since_last_spawn_micros
                - cadence;
            self.state.buckets_spawned = self.state.buckets_spawned + 1;
            true
        } else {
            false
        }
    }

    /// The scorer, run once per frame: every bucket that has fully
    /// exited on the right and still carries both swatches is scored —
    /// its color distance joins the score, the scored count rises by
    /// one each, and the bucket is despawned. A bucket missing a swatch
    /// is skipped. The score display comes on at the instant the scored
    /// count reaches the spawn cap.
    pub fn scorer_frame(&mut self, cfg: &SimConfig)
        requires
            cfg.wf(),
            old(self).wf(*cfg),
        ensures
            final(self).wf(*cfg),
            final(self).buckets@ == kept_after_scoring(old(self).buckets@, *cfg),
            final(self).state.buckets_scored == old(self).state.buckets_scored + scored_count(
                old(self).buckets@,
                *cfg,
            ),
            final(self).state.score_millis == old(self).state.score_millis + scored_sum_millis(
                old(self).buckets@,
                *cfg,
            ),
            final(self).state.score_millis >= old(self).state.score_millis,
            old(self).state.show_score ==> final(self).state.show_score,
            (final(self).state.show_score <==> final(self).state.buckets_scored
                == cfg.spawn_max),
            final(self).state.is_paused == old(self).state.is_paused,
            final(self).state.time_since_last_spawn_micros == old(
                self,
            ).state.time_since_last_spawn_micros,
            final(self).state.buckets_spawned == old(self).state.buckets_spawned,
            final(self).nozzles@ == old(self).nozzles@,
    {
        let ghost orig = self.buckets@;
        let n = self.buckets.len();
        let mut kept: Vec<Bucket> = Vec::new();
        let mut i: usize = 0;
        proof {
            lemma_scoring_bounds(orig, *cfg);
        }
        while i < n
            invariant
                i <= n,
                n == self.buckets@.len(),
                self.buckets@ == orig,
                orig == old(self).buckets@,
                cfg.wf(),
                forall|j: int| 0 <= j < n ==> orig[j].wf(),
                kept@ == kept_after_scoring(orig.take(i as int), *cfg),
                self.state.buckets_scored == old(self).state.buckets_scored + scored_count(
                    orig.take(i as int),
                    *cfg,
                ),
                self.state.score_millis == old(self).state.score_millis + scored_sum_millis(
                    orig.take(i as int),
                    *cfg,
                ),
                old(self).state.show_score ==> self.state.show_score,
                self.state.is_paused == old(self).state.is_paused,
                self.state.time_since_last_spawn_micros == old(
                    self,
                ).state.time_since_last_spawn_micros,
                self.state.buckets_spawned == old(self).state.buckets_spawned,
                self.nozzles@ == old(self).nozzles@,
                self.state.wf(*cfg),
                old(self).wf(*cfg),
            decreases n - i,
        {
            let b = self.buckets[i];
            proof {
                assert(orig.take(i + 1 as int).drop_last() =~= orig.take(i as int));
                assert(orig.take(i + 1 as int).last() == orig[i as int]);
                lemma_scoring_bounds(orig.take(i as int), *cfg);
            }
            let exited = paint_bucket_went_off_screen(&b, cfg);
            let mut scored = false;
            if exited {
                if let Some((paint, paint_label)) = get_paint_and_paint_label(&b) {
                    let d = color_distance_millis(&paint, &paint_label);
                    proof {
                        assert(scored_count(orig.take(i as int), *cfg) <= i);
                    }
                    self.state.record_bucket_score(cfg, d);
                    scored = true;
                }
            }
            if !scored {
                kept.push(b);
            }
            i = i + 1;
        }
        proof {
            assert(orig.take(n as int) =~= orig);
            lemma_scoring_bounds(orig, *cfg);
        }
        self.buckets = kept;
    }
}

/// Whether a bucket's centre has passed half a screen plus half a
/// bucket width to the right.
pub fn paint_bucket_went_off_screen(b: &Bucket, cfg: &SimConfig) -> (r: bool)
    requires
        cfg.wf(),
    ensures
        r == bucket_exited(*b, *cfg),
{
    b.x_micro > exit_threshold_micro(cfg)
}

/// Looks a bucket's two swatches up; `None` as soon as either is
/// missing, in which case the scorer skips the bucket.
pub fn get_paint_and_paint_label(b: &Bucket) -> (r: Option<(ColorMillis, ColorMillis)>)
    ensures
        r == if b.paint.is_some() && b.label.is_some() {
            Some((b.paint.unwrap(), b.label.unwrap()))
        } else {
            None::<(ColorMillis, ColorMillis)>
        },
{
    match (b.paint, b.label) {
        (Some(paint), Some(label)) => Some((paint, label)),
        _ => None,
    }
}

} // verus!
