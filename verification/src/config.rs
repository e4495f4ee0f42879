//! Dimensions, speeds and tuning constants of the game.
//!
//! Every quantity is a whole number. Lengths are counted in units of a fifth
//! of a pixel and the difficulty multiplier in fifths, so that each speed the
//! difficulty curve can produce is a whole number of units. The spawn meter has
//! a finer unit of its own, [`METER_ONE`].

use vstd::prelude::*;

verus! {

/// Length units per pixel.
pub const UNITS_PER_PIXEL: i32 = 5;

/// Width of the playfield.
pub const FIELD_WIDTH: i32 = 1650;

/// Height of the playfield.
pub const FIELD_HEIGHT: i32 = 1250;

/// Width of a player's box.
pub const PLAYER_WIDTH: i32 = 150;

/// Height of a player's box.
pub const PLAYER_HEIGHT: i32 = 150;

/// Gap between the bottom of a player's box and the bottom of the field.
pub const PLAYER_MARGIN: i32 = 100;

/// Distance a player moves in one tick while a direction is held.
pub const PLAYER_SPEED: i32 = 15;

/// Width of a falling object.
pub const OBJECT_WIDTH: i32 = 100;

/// Height of a falling object.
pub const OBJECT_HEIGHT: i32 = 100;

/// Distance an object falls in one tick at difficulty 1.0.
pub const OBJECT_SPEED: i32 = 15;

/// Largest number of players in a round.
pub const MAX_PLAYERS: usize = 2;

/// Health of a player at the start of a round.
pub const INITIAL_HEALTH: u32 = 3;

/// Points for catching a good deal.
pub const GOOD_DEAL_SCORE: u64 = 10;

/// The difficulty multiplier 1.0.
pub const DIFFICULTY_ONE: u32 = 5;

/// What the difficulty multiplier gains at the end of each period (0.2).
pub const DIFFICULTY_STEP: u32 = 1;

/// Ticks between two increases of the difficulty.
pub const DIFFICULTY_PERIOD: u32 = 600;

/// Difficulty from which a spawn may bring a second object (2.0).
pub const EXTRA_SPAWN_DIFFICULTY: u32 = 10;

/// A second object comes with odds of one in this many.
pub const EXTRA_SPAWN_ODDS: u32 = 4;

/// One whole unit of the spawn meter.
///
/// The meter fills by fifths and empties by the spawn interval, which is
/// 45 divided by a multiplier between 1.0 and 4.4. This is the smallest unit
/// in which all of those amounts are whole numbers.
pub const METER_ONE: u64 = 25_865_840;

/// Spawn interval at difficulty 1.0, in whole meter units.
pub const BASE_SPAWN_INTERVAL: u64 = 45;

/// The spawn interval never falls below this many whole meter units.
pub const MIN_SPAWN_INTERVAL: u64 = 10;

/// Chances are counted in parts of this.
pub const PERCENT: u32 = 100;

/// Chance of a good deal at difficulty 1.0, in percent.
pub const BASE_GOOD_CHANCE: u32 = 60;

/// What the chance of a good deal loses per fifth of difficulty, in percent.
pub const GOOD_CHANCE_DROP: u32 = 3;

/// The chance of a good deal never falls below this, in percent.
pub const MIN_GOOD_CHANCE: u32 = 25;

/// No tick releases more objects than this.
pub const MAX_SPAWNS_PER_TICK: u64 = 300_000;

/// Number of entries the leaderboard keeps.
pub const LEADERBOARD_CAPACITY: usize = 10;

/// Number of letters in a name.
pub const NAME_LENGTH: usize = 3;

} // verus!
