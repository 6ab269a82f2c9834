//! Handlers of the bot's commands.

pub mod epoch;
pub mod help;
