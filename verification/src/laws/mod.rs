//! Laws of the library: what holds of every input, of several calls together, and of
//! every state.

pub mod bridge;
pub mod commands;
pub mod forum;
pub mod json;
pub mod numerals;
pub mod registry;
pub mod text;
pub mod tools;
pub mod views;
