//! A Discord bot that shows anime character pictures and records the
//! ratings users give them.
//!
//! The library holds the bot's decisions and data handling; the program
//! around it performs the network, database and file work.

pub mod data;
pub mod discord;
pub mod error;
pub mod seq_facts;
pub mod text;
