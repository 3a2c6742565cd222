//! How the tool was started.

use vstd::prelude::*;

verus! {

/// Whether the user may be asked for what is missing.
#[derive(Debug, Clone, Copy, PartialEq, Eq, Structural)]
pub enum Interactive {
    Enable,
    Disable,
}

} // verus!
