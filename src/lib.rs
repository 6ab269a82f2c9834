//! Interaction processing for a timezone and timestamp utility bot: request
//! authentication, command argument resolution, timestamp resolution with
//! gap and overlap detection, and top-k ranking of timezone suggestions.

pub mod auth;
pub mod civil;
pub mod command;
pub mod dispatch;
pub mod error;
pub mod options;
mod foreign;
pub mod rank;
pub mod select;
mod text;
