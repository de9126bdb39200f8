//! `monosplice doctor`: its arguments. The command itself is not implemented yet and says so.

use vstd::prelude::*;

use crate::report::Failure;

verus! {

/// The arguments of `doctor`.
#[derive(Debug)]
pub struct DoctorArgs {
    /// Only check this subrepo (defaults to all).
    pub subrepo: Option<String>,
    /// Print machine-readable JSON and nothing else.
    pub json: bool,
}

/// Refuse: this command is not implemented yet.
pub fn run(_args: &DoctorArgs) -> (r: Result<(), Failure>)
    ensures
        r matches Err(f) && f.message@ == "monosplice doctor: not implemented yet"@ && f.exit_code == 2,
{
    Err(Failure::error("monosplice doctor: not implemented yet"))
}

} // verus!
