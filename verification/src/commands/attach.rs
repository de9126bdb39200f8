//! `monosplice attach`: its arguments. The command itself is not implemented yet and says so.

use vstd::prelude::*;

use crate::report::Failure;

verus! {

/// The arguments of `attach`.
#[derive(Debug)]
pub struct AttachArgs {
    /// Directory in this monorepo to connect (or the name of a configured subrepo).
    pub folder: String,
    /// Git URL of the standalone repository; optional when the folder is already configured.
    pub url: Option<String>,
    /// Subrepo name (default: the last segment of the folder).
    pub name: Option<String>,
    /// Branch to sync on both sides (default: main).
    pub branch: Option<String>,
    /// Answer the first-publish confirmation with yes.
    pub yes: bool,
    /// First publish only: replay every monorepo commit that touched the folder.
    pub export_history: bool,
    /// Replay every commit from the standalone repo into the folder.
    pub import_history: bool,
    /// When both sides have content, replace the folder with the standalone tree.
    pub theirs: bool,
    /// Your fork of the repository: pull from the URL, push patches to this remote.
    pub fork: Option<String>,
}

/// Refuse: this command is not implemented yet.
pub fn run(_args: &AttachArgs) -> (r: Result<(), Failure>)
    ensures
        r matches Err(f) && f.message@ == "monosplice attach: not implemented yet"@ && f.exit_code == 2,
{
    Err(Failure::error("monosplice attach: not implemented yet"))
}

} // verus!
