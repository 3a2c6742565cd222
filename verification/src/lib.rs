//! The rules of `git-kit`, a helper for git workflows.
//!
//! The helper checks out a branch and remembers what it is for (a ticket,
//! a scope, a link), and it writes commit messages from named templates in
//! which those values are filled in, or left out with the brackets around
//! them. What it remembers is kept in two tables, one of branches and one
//! of registered configuration files, of which one at most is active.
//!
//! - [`domain::template`] replaces or removes the tokens of a template,
//!   and [`domain::brackets`] counts the brackets that this leaves.
//! - [`domain::commands`] holds the three commands, written against the
//!   collaborators of [`domain::adapters`]: git, the store, the prompt.
//! - [`domain::keyed`] describes tables of keyed rows, and
//!   [`adapters::tables`] holds the two tables in memory.
//! - [`adapters::sqlite`] reads and writes the rows of a database, and
//!   [`adapters::git`] words the calls of git; running either is left to
//!   the program around this library.
//! - [`cli`] turns the arguments of the command line into commands, and
//!   [`config`] chooses and searches the configuration file.

pub mod adapters;
pub mod app_context;
pub mod cli;
pub mod config;
pub mod domain;
pub mod entry;
pub mod utils;
