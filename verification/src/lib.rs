//! Rules engine of a cooperative, card-driven disease-containment board game.
//!
//! The crate owns every mutation of the game state, the legality checks of
//! the actions, and the detection of the ways a game can end. Decisions (a
//! city, a discard, an event) are handed in as plain values; rendering and
//! prompting are left to the caller.
pub mod actions;
pub mod agent;
pub mod board;
pub mod chance;
pub mod city_graph;
pub mod decks;
pub mod dispatch;
pub mod events;
pub mod game_enums;
pub mod hands;
pub mod infection;
pub mod pandemic_game;
pub mod setup;
pub mod text;
pub mod turn;
pub mod validity;
