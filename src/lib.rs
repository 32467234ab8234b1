//! Decision core of a bot that plays a real-time strategy match.
pub mod bot;
pub mod card_data;
pub mod command_scheduler;
pub mod controller;
pub mod game_info;
pub mod geometry;
pub mod location;
pub mod macro_behavior;
pub mod utils;
