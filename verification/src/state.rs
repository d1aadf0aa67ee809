//! Global run state and telemetry counters, passed explicitly through each
//! tick's calls: the current game state gates the combat pipeline, and the
//! run statistics record kills, damage and deaths.

use vstd::prelude::*;
use crate::units::DURATION_LIMIT_MS;

verus! {

#[derive(Clone, Copy, Debug, PartialEq, Eq, Structural)]
pub enum CurrentGameState {
    MainMenu,
    InRun,
    RoomTransition,
    BoonSelection,
    Shop,
    BossFight,
    Death,
    Victory,
    Paused,
}

#[derive(Clone, Copy, Debug, PartialEq, Eq, Structural)]
pub enum BiomeType {
    Tutorial,
    Biome1,
    Biome2,
    Biome3,
    Biome4,
    Biome5,
}

#[derive(Clone, Copy, Debug, PartialEq, Eq, Structural)]
pub enum DifficultyLevel {
    Easy,
    Normal,
    Hard,
    Nightmare,
    Ascension(u8),
}

/// Telemetry counters for the current run. Amounts are in thousandths, the
/// run time in milliseconds; every counter saturates rather than wraps.
#[derive(Clone, Copy, Debug, PartialEq, Eq, Structural)]
pub struct RunStats {
    pub enemies_killed: u64,
    pub damage_dealt: u64,
    pub damage_taken: u64,
    pub rooms_cleared: u64,
    pub gold_collected: u64,
    pub boons_collected: u64,
    pub run_time_ms: u64,
    pub deaths: u64,
}

impl Default for RunStats {
    fn default() -> (s: Self)
        ensures
            s == (RunStats {
                enemies_killed: 0,
                damage_dealt: 0,
                damage_taken: 0,
                rooms_cleared: 0,
                gold_collected: 0,
                boons_collected: 0,
                run_time_ms: 0,
                deaths: 0,
            }),
    {
        RunStats {
            enemies_killed: 0,
            damage_dealt: 0,
            damage_taken: 0,
            rooms_cleared: 0,
            gold_collected: 0,
            boons_collected: 0,
            run_time_ms: 0,
            deaths: 0,
        }
    }
}

/// Saturating counter addition.
pub open spec fn spec_sat_add(a: u64, b: u64) -> u64 {
    if a + b <= u64::MAX {
        (a + b) as u64
    } else {
        u64::MAX
    }
}

pub fn sat_add(a: u64, b: u64) -> (r: u64)
    ensures
        r == spec_sat_add(a, b),
{
    if a <= u64::MAX - b {
        a + b
    } else {
        u64::MAX
    }
}

/// The global game state threaded through each tick.
#[derive(Clone, Copy, Debug, PartialEq, Eq, Structural)]
pub struct GameState {
    pub current_state: CurrentGameState,
    pub room_number: u32,
    pub biome: BiomeType,
    pub difficulty: DifficultyLevel,
    pub paused: bool,
}

impl Default for GameState {
    /// A fresh session: the main menu, first room, tutorial biome, normal
    /// difficulty, unpaused.
    fn default() -> (s: Self)
        ensures
            s.current_state is MainMenu,
            s.room_number == 1,
            s.biome is Tutorial,
            s.difficulty is Normal,
            !s.paused,
    {
        GameState {
            current_state: CurrentGameState::MainMenu,
            room_number: 1,
            biome: BiomeType::Tutorial,
            difficulty: DifficultyLevel::Normal,
            paused: false,
        }
    }
}

/// Combat systems run during a run or a boss fight, and never while paused.
pub open spec fn spec_in_combat(gs: GameState) -> bool {
    (gs.current_state is InRun || gs.current_state is BossFight) && !gs.paused
}

pub fn in_combat(gs: &GameState) -> (r: bool)
    ensures
        r == spec_in_combat(*gs),
{
    matches!(gs.current_state, CurrentGameState::InRun | CurrentGameState::BossFight)
        && !gs.paused
}

/// Movement systems run only inside a run, and never while paused.
pub open spec fn spec_in_game(gs: GameState) -> bool {
    gs.current_state is InRun && !gs.paused
}

pub fn in_game(gs: &GameState) -> (r: bool)
    ensures
        r == spec_in_game(*gs),
{
    matches!(gs.current_state, CurrentGameState::InRun) && !gs.paused
}

/// Advance the run clock while a run is under way.
pub fn update_run_timer(stats: &mut RunStats, gs: &GameState, delta_ms: u64)
    requires
        delta_ms <= DURATION_LIMIT_MS,
    ensures
        *final(stats) == (RunStats {
            run_time_ms: if gs.current_state is InRun {
                spec_sat_add(old(stats).run_time_ms, delta_ms)
            } else {
                old(stats).run_time_ms
            },
            ..*old(stats)
        }),
{
    if matches!(gs.current_state, CurrentGameState::InRun) {
        stats.run_time_ms = sat_add(stats.run_time_ms, delta_ms);
    }
}

} // verus!
