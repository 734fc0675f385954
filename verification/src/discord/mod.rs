//! The Discord side of the bot.

pub mod bot;
