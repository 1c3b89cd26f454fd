//! Verified core of a chat-relay bot.
//!
//! The library owns the logic that is worth proving: a continuously accruing,
//! saturating spend quota derived from a single stored timestamp; a persisted
//! conversation graph that reconstructs bounded-depth, chronologically ordered
//! histories; resolution of personalities and models from layered overrides;
//! and resolution of inbound message references (replies, deep links,
//! mentions) into a parent and a prompt. Platform delivery, HTTP, and file
//! I/O stay outside, behind plain values.

pub mod allowances;
pub mod clock;
pub mod conversations;
pub mod gpt;
pub mod one_off_response;
pub mod queries;
pub mod references;
pub mod response_styles;
pub mod text;
pub mod user_settings;
pub mod util;
