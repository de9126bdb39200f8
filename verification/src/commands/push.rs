//! `monosplice push`: its arguments. The command itself is not implemented yet and says so.

use vstd::prelude::*;

use crate::report::Failure;

verus! {

/// The arguments of `push`.
#[derive(Debug)]
pub struct PushArgs {
    /// Only push this subrepo (defaults to all).
    pub subrepo: Option<String>,
    /// Answer the first-publish confirmation with yes.
    pub yes: bool,
    /// First publish only: replay every monorepo commit that touched the subrepo.
    pub export_history: bool,
    /// List the commits a push would export and write nothing.
    pub dry_run: bool,
}

/// Refuse: this command is not implemented yet.
pub fn run(_args: &PushArgs) -> (r: Result<(), Failure>)
    ensures
        r matches Err(f) && f.message@ == "monosplice push: not implemented yet"@ && f.exit_code == 2,
{
    Err(Failure::error("monosplice push: not implemented yet"))
}

} // verus!
