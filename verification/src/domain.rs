//! The rules of the tool, free of any input or output.

pub mod adapters;
pub mod brackets;
pub mod commands;
pub mod errors;
pub mod keyed;
pub mod models;
pub mod template;
