//! What stands between the rules and the outside world.

pub mod git;
pub mod sqlite;
pub mod tables;
