//! A turn-based auction card game for a handful of players.
//!
//! The library holds the cards of the game and their dealer, the state of a
//! game with its stages and auctions, the rules by which an action of a
//! player changes that state, the view of a game that one player is allowed
//! to see, and the decisions of the room that serves a game to the clients of
//! its players. What runs the room, and what speaks to the clients, is left
//! to the program that uses the library.
//!
//! The rules are written down once, as the function `SpecGame::step` of
//! `rules`; `GameState::process_input_at` of `engine` is proved to do what
//! they say. What follows from the rules for every game is proved in `laws`
//! and `partition`.

pub mod card;
pub mod clock;
pub mod deck;
pub mod engine;
pub mod game_state;
pub mod input;
pub mod laws;
pub mod mask;
pub mod partition;
pub mod placeholder;
pub mod player;
pub mod purse;
pub mod rejection;
pub mod room;
pub mod rules;
pub mod server_message;
pub mod setup;
pub mod turn;
pub mod validate;
