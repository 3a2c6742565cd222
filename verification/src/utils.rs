//! Small helpers on strings and optional values.

pub mod or_else_try;
pub mod string;
