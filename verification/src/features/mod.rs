//! Message-driven features of the bot.
pub mod dad;
pub mod hidden;
pub mod quote;
pub mod web;
