//! What the commands do, given their collaborators.

pub mod actions;
pub mod actor;
pub mod args;
pub mod checkout;
pub mod commit;
pub mod context;

pub use actions::Actions;
pub use actor::Actor;
pub use args::CommitArgs;
pub use checkout::Checkout;
pub use context::Context;
