//! The command `commit`.

pub mod args;
pub mod handler;

pub use args::Arguments;
pub use handler::handler;
