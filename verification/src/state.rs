//! The server's start-up state: the workspace the client opened, if any.

use vstd::prelude::*;

use crate::workspace::Workspace;

verus! {

/// The state handed to request handlers at start-up.
#[derive(Debug)]
pub struct State {
    pub workspace: Option<Workspace>,
}

impl State {
    pub fn new(workspace: Option<Workspace>) -> (r: Self)
        ensures
            r.workspace == workspace,
    {
        Self { workspace }
    }
}

} // verus!
