//! The command `config`.

pub mod args;
pub mod handler;

pub use args::{Arguments, ConfigAdd, ConfigSet};
pub use handler::handler;
