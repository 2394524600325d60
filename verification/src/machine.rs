//! The top-level phase machine: main menu and in-game, with the pause
//! and score-display gates on its transitions.
//!
//! Key presses are handed in as plain edge events, one per press; the
//! machine answers with its new phase and whether the process should
//! exit. Entering the game runs the enter hook (a fully reset round);
//! leaving it runs the exit hook (every per-round entity despawned).

use vstd::prelude::*;

use crate::round::GameState;
use crate::round::Round;
use crate::round::SimConfig;
use crate::round::initial_nozzles;
use crate::round::is_entered;

verus! {

/// The top-level phases. The score display is not a phase of its own:
/// it is the in-game phase with `show_score` set.
#[derive(Clone, Copy, Debug, PartialEq, Eq, Structural)]
pub enum AppState {
    MainMenu,
    InGame,
}

/// The keys the game reacts to, delivered as just-pressed edge events.
#[derive(Clone, Copy, Debug, PartialEq, Eq, Structural)]
pub enum GameKey {
    Space,
    Escape,
    Return,
}

/// The whole game: the current phase and the round the in-game phase
/// plays. While in the menu the round only holds whatever the exit hook
/// left behind; entering the game replaces it wholesale.
#[derive(Debug)]
pub struct Game {
    pub app_state: AppState,
    pub round: Round,
}

impl Game {
    /// The round's invariant is owed only while the game is being
    /// played; the exit hook deliberately leaves a cleared round whose
    /// bookkeeping still shows the finished round.
    pub open spec fn wf(self, cfg: SimConfig) -> bool {
        self.app_state == AppState::InGame ==> self.round.wf(cfg)
    }

    pub fn new(cfg: &SimConfig) -> (g: Game)
        requires
            cfg.wf(),
        ensures
            g.app_state == AppState::MainMenu,
            is_entered(g.round),
            g.wf(*cfg),
    {
        Game { app_state: AppState::MainMenu, round: Round::enter(cfg) }
    }

    /// One key press. The full transition table:
    ///
    /// - menu, Space: enter the game with a fully reset round;
    /// - menu, Escape: ask the process to exit;
    /// - in game showing the score, Return: back to the menu, entities
    ///   despawned;
    /// - in game not showing the score, Escape: toggle the pause;
    /// - in game paused, Return: back to the menu, entities despawned;
    /// - anything else: no change.
    pub fn key_press(&mut self, cfg: &SimConfig, key: GameKey) -> (exit_app: bool)
        requires
            cfg.wf(),
            old(self).wf(*cfg),
        ensures
            final(self).wf(*cfg),
            exit_app == (old(self).app_state == AppState::MainMenu && key == GameKey::Escape),
            old(self).app_state == AppState::MainMenu && key == GameKey::Space ==> {
                &&& final(self).app_state == AppState::InGame
                &&& is_entered(final(self).round)
            },
            old(self).app_state == AppState::MainMenu && key != GameKey::Space ==> {
                &&& final(self).app_state == old(self).app_state
                &&& final(self).round.state == old(self).round.state
                &&& final(self).round.buckets@ == old(self).round.buckets@
                &&& final(self).round.nozzles@ == old(self).round.nozzles@
            },
            old(self).app_state == AppState::InGame ==> {
                let leaves = if old(self).round.state.show_score {
                    key == GameKey::Return
                } else {
                    old(self).round.state.is_paused && key == GameKey::Return
                };
                let toggles = !old(self).round.state.show_score && key == GameKey::Escape;
                &&& leaves ==> {
                    &&& final(self).app_state == AppState::MainMenu
                    &&& final(self).round.state == old(self).round.state
                    &&& final(self).round.buckets@ == Seq::<crate::round::Bucket>::empty()
                    &&& final(self).round.nozzles@ == Seq::<crate::round::Nozzle>::empty()
                }
                &&& toggles ==> {
                    &&& final(self).app_state == AppState::InGame
                    &&& final(self).round.state == (GameState {
                        is_paused: !old(self).round.state.is_paused,
                        ..old(self).round.state
                    })
                    &&& final(self).round.buckets@ == old(self).round.buckets@
                    &&& final(self).round.nozzles@ == old(self).round.nozzles@
                }
                &&& !leaves && !toggles ==> {
                    &&& final(self).app_state == old(self).app_state
                    &&& final(self).round.state == old(self).round.state
                    &&& final(self).round.buckets@ == old(self).round.buckets@
                    &&& final(self).round.nozzles@ == old(self).round.nozzles@
                }
            },
    {
        match self.app_state {
            AppState::MainMenu => {
                match key {
                    GameKey::Space => {
                        self.round = Round::enter(cfg);
                        self.app_state = AppState::InGame;
                        false
                    },
                    GameKey::Escape => true,
                    GameKey::Return => false,
                }
            },
            AppState::InGame => {
                if self.round.state.show_score {
                    if key == GameKey::Return {
                        self.round.clear();
                        self.app_state = AppState::MainMenu;
                    }
                } else {
                    if key == GameKey::Escape {
                        self.round.state.is_paused = !self.round.state.is_paused;
                    } else if self.round.state.is_paused && key == GameKey::Return {
                        self.round.clear();
                        self.app_state = AppState::MainMenu;
                    }
                }
                false
            },
        }
    }
}

/// Law: re-entering the game resets everything. Any two rounds as the
/// enter hook leaves them agree completely — initial bookkeeping, no
/// buckets, the standard nozzles — so nothing of an earlier round can
/// leak into a new one.
pub proof fn lemma_reenter_resets(r1: Round, r2: Round)
    requires
        is_entered(r1),
        is_entered(r2),
    ensures
        r1.state == r2.state,
        r1.state == GameState::initial(),
        r1.buckets@ == r2.buckets@,
        r1.buckets@.len() == 0,
        r1.nozzles@ == r2.nozzles@,
        r1.nozzles@ == initial_nozzles(),
{
}

/// Law: within a round the score display switches on exactly once. In
/// every well-formed state it is shown exactly when the scored count has
/// reached the spawn cap, and since the scored count never decreases,
/// a state that shows it can never be followed by one that does not.
pub proof fn lemma_show_score_once(earlier: GameState, later: GameState, cfg: SimConfig)
    requires
        cfg.wf(),
        earlier.wf(cfg),
        later.wf(cfg),
        earlier.buckets_scored <= later.buckets_scored,
    ensures
        earlier.show_score <==> earlier.buckets_scored == cfg.spawn_max,
        later.show_score <==> later.buckets_scored == cfg.spawn_max,
        earlier.show_score ==> later.show_score,
{
}

} // verus!
