//! A verified rule engine for the card game Big Two.
//!
//! The engine models cards and the legal card combinations ("hands"),
//! imposes the game's precedence order over hands, and drives a
//! turn-based trick state machine that collects each player's play,
//! enforces legality, and detects when a trick or the whole game ends.

pub mod card;
pub mod deck;
pub mod game;
pub mod hand;
pub mod player;
pub mod trick;
mod text;
