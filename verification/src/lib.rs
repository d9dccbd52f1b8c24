//! Decision logic and text rendering of a Discord mafia-game bot, verified with Verus.

pub mod role;
pub mod text;
pub mod role_map;
pub mod slots;
pub mod config;
pub mod random;
pub mod selection;
pub mod counts;
pub mod sort;
pub mod game;
pub mod running;
pub mod access;
pub mod status;
pub mod summary;
pub mod settings;
pub mod casino;
pub mod contractor;
pub mod votes;
pub mod recruitment;
pub mod permissions;
pub mod boards;
pub mod choices;
pub mod input;
pub mod start;
pub mod admin;
pub mod lobby;
pub mod forms;
pub mod channels;
pub mod night;
