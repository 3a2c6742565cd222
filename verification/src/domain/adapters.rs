//! The collaborators that the commands work with.

pub mod git;
pub mod prompt;
pub mod store;

pub use git::{CheckoutStatus, CommitMsgStatus, Git};
pub use prompt::{Prompter, SelectItem};
pub use store::Store;
