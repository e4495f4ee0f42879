//! Simulation core of a falling-objects arcade game for one or two players.

pub mod config;
pub mod actors;
pub mod random;
pub mod schedule;
pub mod collision;
pub mod round;
pub mod input;
pub mod leaderboard;
pub mod name_entry;
pub mod game;
