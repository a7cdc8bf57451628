//! Verified core of the oppai points-game engine: engine configuration,
//! field images, player registration and game lobby bookkeeping.

pub mod cli;
pub mod config;
pub mod construct_field;
pub mod db;
pub mod player;
pub mod server;
pub mod text;

