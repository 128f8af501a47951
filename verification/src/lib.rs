//! Verified core of the Pollus poll service: request validation, the
//! assembly of a poll's week of configurations, session claims, and the
//! decisions of the Telegram bot.

pub mod error;
pub mod auth;
pub mod text;
pub mod bot;
pub mod submission;
pub mod poll;
