//! Room and round lifecycle engine for a hidden-role party game.
//!
//! One player per round is secretly the impostor; everybody else shares a
//! secret location. This crate holds the state machine of a room: roster,
//! rules, phases, role assignment, question cycling, guess resolution, idle
//! expiry, and the decisions of a subscriber connection. Transport, clocks
//! and serialisation live with the caller, who passes plain values in.

pub mod text;
pub mod errors;
pub mod chance;
pub mod ids;
pub mod perm;
pub mod content;
pub mod rules;
pub mod player;
pub mod room_code;
pub mod outcome;
pub mod round;
pub mod turns;
pub mod dealing;
pub mod game;
pub mod lobby;
pub mod play;
pub mod registry;
pub mod service;
pub mod socket;
pub mod config;
