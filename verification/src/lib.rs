//! Telegram forum topics and inline-button quizzes, as verified logic.

pub mod choices;
pub mod commands;
pub mod decimal;
pub mod events;
pub mod forum_api;
pub mod json;
pub mod laws;
pub mod memorizer_bridge;
pub mod registry;
pub mod seed;
pub mod str_map;
pub mod text;
pub mod tools;
pub mod topics;
