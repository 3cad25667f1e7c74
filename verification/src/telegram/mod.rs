//! Telegram frontend logic: message formatting, authorization and parsing.
pub mod api_types;
pub mod auth;
pub mod formatting;
pub mod markdown;
pub mod render;
pub mod send_file;
pub mod events;
pub mod session;
pub mod safety;
pub mod runtime;
pub mod attachments;
pub mod bot;
