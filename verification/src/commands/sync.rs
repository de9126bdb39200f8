//! `monosplice sync`: its arguments. The command itself is not implemented yet and says so.

use vstd::prelude::*;

use crate::report::Failure;

verus! {

/// The arguments of `sync`.
#[derive(Debug)]
pub struct SyncArgs {
    /// Only sync this subrepo (defaults to all).
    pub subrepo: Option<String>,
    /// Finish a sync that stopped on a conflict (`--continue`).
    pub continue_sync: bool,
}

/// Refuse: this command is not implemented yet.
pub fn run(_args: &SyncArgs) -> (r: Result<(), Failure>)
    ensures
        r matches Err(f) && f.message@ == "monosplice sync: not implemented yet"@ && f.exit_code == 2,
{
    Err(Failure::error("monosplice sync: not implemented yet"))
}

} // verus!
