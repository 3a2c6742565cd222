//! The commands as they are typed, and what they mean.

pub mod checkout;
pub mod commands;
pub mod commit;
pub mod config;
pub mod context;

pub use commands::Command;
