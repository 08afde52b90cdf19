//! Rules engine of a hidden-role party game aboard a ship: the player and game
//! model, the vote tally, and the night phases that resolve the players' choices.

pub mod role;
pub mod text;
pub mod message;
pub mod action;
pub mod player;
pub mod game;
pub mod votes;
pub mod phases;
pub mod psychologist;
pub mod mail;
pub mod night;
pub mod mutants;
pub mod mutant_votes;
pub mod mutant_night;
pub mod physicians;
pub mod elimination;
pub mod turn;
pub mod setup;
pub mod resolve;
pub mod menu;
pub mod view;
