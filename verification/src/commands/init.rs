//! `monosplice init` scaffolds the config. The template is entirely commented out on
//! purpose: an array of tables cannot be appended to a `subrepos = []` that is already
//! there, so the example block has to be a comment for `attach` to have somewhere to write.

use vstd::prelude::*;

use crate::report::Failure;

verus! {

/// The scaffold `init` writes.
pub const TEMPLATE: &'static str = "# Monosplice configuration.\n# Docs: https://github.com/jakequist/monosplice\n#\n# Each subrepo is one [[subrepos]] block:\n#\n# [[subrepos]]\n# path = \"packages/my-lib\"\n# remote = \"git@github.com:me/my-lib.git\"\n# branch = \"main\"\n# exclude = []\n";

/// `init` takes no arguments.
#[derive(Debug)]
pub struct InitArgs {}

/// What `init` does in a directory.
#[derive(Debug)]
pub enum InitPlan {
    /// A config is already there (this one): say so and change nothing.
    AlreadyInitialized(String),
    /// Write `TEMPLATE` to this file.
    Write(String),
}

/// Decide what `init` does, given the config found from the working directory (if any),
/// whether that directory is inside a git work tree, and the file a new config would be.
pub fn run(_args: &InitArgs, existing: Option<&str>, inside_work_tree: bool, target: &str) -> (r:
    Result<InitPlan, Failure>)
    ensures
        match existing {
            Some(p) => r matches Ok(InitPlan::AlreadyInitialized(q)) && q@ == p@,
            None => if inside_work_tree {
                r matches Ok(InitPlan::Write(t)) && t@ == target@
            } else {
                r matches Err(f) && f.exit_code == 2 && f.message@
                    == "Not inside a git repository. Run `git init` first — monosplice manages subdirectories of a git repo."@
            },
        },
{
    if let Some(p) = existing {
        return Ok(InitPlan::AlreadyInitialized(p.to_owned()));
    }
    if !inside_work_tree {
        return Err(
            Failure::error(
                "Not inside a git repository. Run `git init` first — monosplice manages subdirectories of a git repo.",
            ),
        );
    }
    Ok(InitPlan::Write(target.to_owned()))
}

/// What `init` prints once the config is written.
pub fn created_lines(target: &str) -> (r: Vec<String>)
    ensures
        r.deep_view() == seq![
            "Created "@ + target@,
            "Add your subrepos to the config, then run `monosplice push <name>` to publish one"@,
            "(or skip the hand-editing: `monosplice attach <folder> <git-url>` writes the entry and"@,
            "makes first contact for you, whichever side already has content)."@,
        ],
{
    let mut first = String::new();
    first.push_str("Created ");
    first.push_str(target);
    let mut lines: Vec<String> = Vec::new();
    lines.push(first);
    lines.push(
        "Add your subrepos to the config, then run `monosplice push <name>` to publish one".to_owned(),
    );
    lines.push(
        "(or skip the hand-editing: `monosplice attach <folder> <git-url>` writes the entry and".to_owned(),
    );
    lines.push("makes first contact for you, whichever side already has content).".to_owned());
    assert(lines.deep_view() =~= seq![
        "Created "@ + target@,
        "Add your subrepos to the config, then run `monosplice push <name>` to publish one"@,
        "(or skip the hand-editing: `monosplice attach <folder> <git-url>` writes the entry and"@,
        "makes first contact for you, whichever side already has content)."@,
    ]);
    lines
}

/// Writing the config failed.
pub fn write_failed(target: &str, err: &str) -> (f: Failure)
    ensures
        f.message@ == "Could not write "@ + target@ + ": "@ + err@ + "\nNothing was changed."@,
        f.exit_code == 2,
{
    let mut m = String::new();
    m.push_str("Could not write ");
    m.push_str(target);
    m.push_str(": ");
    m.push_str(err);
    m.push_str("\nNothing was changed.");
    Failure::error(m.as_str())
}

} // verus!
