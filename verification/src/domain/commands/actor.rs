//! The three commands behind one face.

use vstd::prelude::*;

use crate::domain::commands::{Checkout, CommitArgs, Context};
use crate::domain::errors::Errors;
use crate::domain::models::Branch;

verus! {

/// Something that carries out the commands.
pub trait Actor {
    /// Stores what the current branch is for.
    fn context(&mut self, args: Context) -> Result<Branch, Errors>;

    /// Checks out a new or existing branch and stores what it is for.
    fn checkout(&mut self, args: Checkout) -> Result<Branch, Errors>;

    /// Commits with a message made from a template.
    fn commit(&mut self, args: CommitArgs) -> Result<String, Errors>;
}

} // verus!
