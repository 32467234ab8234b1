//! The controllers: one per squad, one for the owned squads' fights, one for
//! production, and the root strategy state machine.
pub mod combat_controller;
pub mod macro_controller;
pub mod spawn_controller;
pub mod squad_controller;
