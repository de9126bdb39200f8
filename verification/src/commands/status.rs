//! `monosplice status`: its arguments. The command itself is not implemented yet and says so.

use vstd::prelude::*;

use crate::report::Failure;

verus! {

/// The arguments of `status`.
#[derive(Debug)]
pub struct StatusArgs {
    /// Only report this subrepo (defaults to all).
    pub subrepo: Option<String>,
    /// Print machine-readable JSON and nothing else.
    pub json: bool,
    /// Exit 1 unless every subrepo is fully in sync.
    pub check: bool,
    /// Fetch nothing: measure against the remote-tracking refs the last run left behind.
    pub offline: bool,
}

/// Refuse: this command is not implemented yet.
pub fn run(_args: &StatusArgs) -> (r: Result<(), Failure>)
    ensures
        r matches Err(f) && f.message@ == "monosplice status: not implemented yet"@ && f.exit_code == 2,
{
    Err(Failure::error("monosplice status: not implemented yet"))
}

} // verus!
