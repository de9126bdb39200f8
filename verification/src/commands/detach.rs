//! `monosplice detach`: its arguments. The command itself is not implemented yet and says so.

use vstd::prelude::*;

use crate::report::Failure;

verus! {

/// The arguments of `detach`.
#[derive(Debug)]
pub struct DetachArgs {
    /// Subrepo to stop tracking (its name, or its folder).
    pub subrepo: String,
}

/// Refuse: this command is not implemented yet.
pub fn run(_args: &DetachArgs) -> (r: Result<(), Failure>)
    ensures
        r matches Err(f) && f.message@ == "monosplice detach: not implemented yet"@ && f.exit_code == 2,
{
    Err(Failure::error("monosplice detach: not implemented yet"))
}

} // verus!
