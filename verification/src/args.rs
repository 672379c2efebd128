//! The command line.

use vstd::prelude::*;

verus! {

/// What the program was asked to do. Without a flag it runs as a client.
#[derive(Clone, Copy, Debug, PartialEq, Eq, Structural)]
pub struct Args {
    /// Start server
    pub server: bool,
    /// Kill server
    pub kill: bool,
}

} // verus!
