//! Core simulation of a grid-based, tick-driven snake game: a fixed-interval
//! tick clock, a bounded input buffer with reversal rejection, a linked chain
//! of segments moved by a compute-then-apply two-phase step with border wrap,
//! growth that propagates tick by tick after food is eaten, collision
//! detection against a spatial index, a capped food spawner, and score
//! tracking.

use vstd::prelude::*;

pub mod chain;
pub mod geometry;
pub mod input;
pub mod rng;
pub mod spatial;
pub mod tick;
pub mod world;

verus! {

/// Width of the play field in cells.
pub const MAP_WIDTH: i32 = 80;

/// Height of the play field in cells.
pub const MAP_HEIGHT: i32 = 50;

/// Half of the map width; committed x coordinates lie in
/// `-HALF_MAP_WIDTH .. HALF_MAP_WIDTH - 1`.
pub const HALF_MAP_WIDTH: i32 = 40;

/// Half of the map height; committed y coordinates lie in
/// `-HALF_MAP_HEIGHT .. HALF_MAP_HEIGHT - 1`.
pub const HALF_MAP_HEIGHT: i32 = 25;

/// Step budget of the growth animator attached to the head when food is
/// eaten.
pub const SNAKE_FAT_STEPS: i32 = 5;

/// Population cap of concurrently live food items.
pub const MEAT_CAP: usize = 9;

/// Score reward for one eaten food item.
pub const MEAT_SCORE: u32 = 50;

/// Capacity of the buffered-direction queue.
pub const INPUT_BUFFER_CAP: usize = 2;

/// Fixed game tick interval, in milliseconds.
pub const TICK_INTERVAL_MS: u32 = 200;

/// Fixed food spawn interval, in milliseconds.
pub const MEAT_SPAWN_INTERVAL_MS: u32 = 3000;

/// Top-level application state; the simulation runs while `InGame`.
#[derive(Clone, Copy, Debug, PartialEq, Eq, Structural)]
pub enum GameState {
    MainMenu,
    InGame,
    GameOver,
}

/// Round-over transition: any catastrophe this tick ends the round.
pub fn test_game_over(state: GameState, catastrophe_count: usize) -> (next: GameState)
    ensures
        next == if catastrophe_count > 0 {
            GameState::GameOver
        } else {
            state
        },
{
    if catastrophe_count > 0 {
        GameState::GameOver
    } else {
        state
    }
}

} // verus!
