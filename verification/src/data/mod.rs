//! The bot's data: the catalogue of shows, the saved pictures and the
//! database rows.

pub mod config;
pub mod cpu;
pub mod database;
pub mod user;
