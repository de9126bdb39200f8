//! The configured shell hooks (`rewrite-message`, `scan`, `transform`): what they are told,
//! what their failure reads as, and how an outgoing tree is laid out for them. Running them
//! and touching the disk is the caller's.

use vstd::prelude::*;

use crate::git::{signed_decimal, TreeEntry, TreeEntryView, tree_views};
use crate::text::{chars_of, decimal_of, extend, string_of, str_eq, trim, trim_chars, Space};

verus! {

/// A configured hook rejected (scan) or failed while processing one monorepo commit.
///
/// `hook` is the config key as the user spells it: `scan`, `transform`, `rewrite-message`.
#[derive(Debug)]
pub struct HookError {
    pub hook: &'static str,
    pub mono_sha: String,
    pub subrepo: String,
    pub detail: String,
}

impl HookError {
    /// `<hook> hook rejected <subrepo> commit <sha>: <detail>`.
    pub fn to_string(&self) -> (r: String)
        ensures
            r@ == self.hook@ + " hook rejected "@ + self.subrepo@ + " commit "@ + self.mono_sha@
                + ": "@ + self.detail@,
    {
        let mut r = String::new();
        r.push_str(self.hook);
        r.push_str(" hook rejected ");
        r.push_str(self.subrepo.as_str());
        r.push_str(" commit ");
        r.push_str(self.mono_sha.as_str());
        r.push_str(": ");
        r.push_str(self.detail.as_str());
        r
    }
}

pub open spec fn status_text(code: Option<i32>) -> Seq<char> {
    "exited with status "@ + match code {
        Some(c) => signed_decimal(c as int),
        None => "unknown"@,
    }
}

/// What a hook's non-zero exit says when it printed nothing on stderr.
pub fn status_detail(code: Option<i32>) -> (r: String)
    ensures
        r@ == status_text(code),
{
    let mut out = chars_of("exited with status ");
    match code {
        Some(c) => {
            if c < 0 {
                out.push('-');
                let digits = decimal_of((-(c as i64)) as usize);
                extend(&mut out, digits.as_slice());
            } else {
                let digits = decimal_of(c as usize);
                extend(&mut out, digits.as_slice());
            }
        },
        None => {
            crate::text::extend_str(&mut out, "unknown");
        },
    }
    let r = string_of(out.as_slice());
    assert(r@ =~= status_text(code));
    r
}

/// Why a hook failed: its stderr, trimmed, or its exit status when it said nothing.
pub open spec fn failure_detail_of(stderr: Seq<char>, code: Option<i32>) -> Seq<char> {
    if trim(Space::Unicode, stderr).len() == 0 {
        status_text(code)
    } else {
        trim(Space::Unicode, stderr)
    }
}

pub fn failure_detail(stderr: &str, code: Option<i32>) -> (r: String)
    ensures
        r@ == failure_detail_of(stderr@, code),
{
    let cs = chars_of(stderr);
    let t = trim_chars(Space::Unicode, cs.as_slice());
    if t.len() == 0 {
        status_detail(code)
    } else {
        string_of(t.as_slice())
    }
}

/// The failure of `hook` on one commit.
pub fn hook_failure(hook: &'static str, subrepo: &str, mono_sha: &str, detail: String) -> (e: HookError)
    ensures
        e.hook == hook,
        e.subrepo@ == subrepo@,
        e.mono_sha@ == mono_sha@,
        e.detail@ == detail@,
{
    HookError { hook, mono_sha: mono_sha.to_owned(), subrepo: subrepo.to_owned(), detail }
}

pub open spec fn hook_env_of(subrepo: Seq<char>, mono_sha: Seq<char>, message_file: Seq<char>) -> Seq<
    (Seq<char>, Seq<char>),
> {
    seq![
        ("MONOSPLICE_SUBREPO"@, subrepo),
        ("MONOSPLICE_MONO_SHA"@, mono_sha),
        ("MONOSPLICE_MESSAGE_FILE"@, message_file),
    ]
}

/// The variables every hook sees: which subrepo, which monorepo commit, and where the
/// original message is on disk.
pub fn hook_env(subrepo: &str, mono_sha: &str, message_file: &str) -> (r: Vec<(String, String)>)
    ensures
        r.deep_view() == hook_env_of(subrepo@, mono_sha@, message_file@),
{
    let mut env: Vec<(String, String)> = Vec::new();
    env.push(("MONOSPLICE_SUBREPO".to_owned(), subrepo.to_owned()));
    env.push(("MONOSPLICE_MONO_SHA".to_owned(), mono_sha.to_owned()));
    env.push(("MONOSPLICE_MESSAGE_FILE".to_owned(), message_file.to_owned()));
    assert(env.deep_view() =~= hook_env_of(subrepo@, mono_sha@, message_file@));
    env
}

/// How one tree entry lands in the directory a hook works in.
#[derive(Debug)]
pub enum Placement {
    /// A file with this content blob, executable or not.
    File { path: String, sha: String, executable: bool },
    /// A symbolic link whose target is this blob's content.
    Symlink { path: String, sha: String },
}

pub enum PlacementView {
    File { path: Seq<char>, sha: Seq<char>, executable: bool },
    Symlink { path: Seq<char>, sha: Seq<char> },
}

impl View for Placement {
    type V = PlacementView;

    open spec fn view(&self) -> PlacementView {
        match self {
            Placement::File { path, sha, executable } => PlacementView::File {
                path: path@,
                sha: sha@,
                executable: *executable,
            },
            Placement::Symlink { path, sha } => PlacementView::Symlink { path: path@, sha: sha@ },
        }
    }
}

/// Where an entry goes: nowhere for anything without blob content (a gitlink is carried
/// through untouched), a symlink for mode 120000, else a file, executable for 100755.
pub open spec fn placement_of(e: TreeEntryView) -> Option<PlacementView> {
    if e.kind != "blob"@ {
        None
    } else if e.mode == "120000"@ {
        Some(PlacementView::Symlink { path: e.path, sha: e.sha })
    } else {
        Some(PlacementView::File { path: e.path, sha: e.sha, executable: e.mode == "100755"@ })
    }
}

/// Entries `0..n` split into what is written to disk and what passes through.
pub open spec fn layout_upto(entries: Seq<TreeEntryView>, n: int) -> (
    Seq<PlacementView>,
    Seq<TreeEntryView>,
)
    decreases n,
{
    if n <= 0 || n > entries.len() {
        (seq![], seq![])
    } else {
        let (placed, kept) = layout_upto(entries, n - 1);
        match placement_of(entries[n - 1]) {
            Some(p) => (placed.push(p), kept),
            None => (placed, kept.push(entries[n - 1])),
        }
    }
}

pub open spec fn placement_views(ps: Seq<Placement>) -> Seq<PlacementView> {
    ps.map_values(|p: Placement| p@)
}

/// How the outgoing tree is laid out for a `scan` or `transform` hook, in entry order: the
/// placements to write, and the entries that are not written but spliced back afterwards.
pub fn tree_layout(entries: &[TreeEntry]) -> (r: (Vec<Placement>, Vec<TreeEntry>))
    ensures
        (placement_views(r.0@), tree_views(r.1@)) == layout_upto(
            tree_views(entries@),
            entries@.len() as int,
        ),
{
    let ghost ev = tree_views(entries@);
    let mut placed: Vec<Placement> = Vec::new();
    let mut kept: Vec<TreeEntry> = Vec::new();
    let mut n: usize = 0;
    while n < entries.len()
        invariant
            n <= entries@.len(),
            ev == tree_views(entries@),
            (placement_views(placed@), tree_views(kept@)) == layout_upto(ev, n as int),
        decreases entries@.len() - n,
    {
        let e = &entries[n];
        assert(ev[n as int] == e@);
        if !str_eq(e.kind.as_str(), "blob") {
            let ghost before = tree_views(kept@);
            kept.push(
                TreeEntry {
                    mode: e.mode.clone(),
                    kind: e.kind.clone(),
                    sha: e.sha.clone(),
                    path: e.path.clone(),
                },
            );
            assert(tree_views(kept@) =~= before.push(e@));
        } else {
            let ghost before = placement_views(placed@);
            let p = if str_eq(e.mode.as_str(), "120000") {
                Placement::Symlink { path: e.path.clone(), sha: e.sha.clone() }
            } else {
                Placement::File {
                    path: e.path.clone(),
                    sha: e.sha.clone(),
                    executable: str_eq(e.mode.as_str(), "100755"),
                }
            };
            let ghost pv = p@;
            assert(Some(pv) == placement_of(e@));
            placed.push(p);
            assert(placement_views(placed@) =~= before.push(pv));
        }
        n = n + 1;
    }
    (placed, kept)
}

/// The git mode of a regular file read back from disk: executable by anyone is 100755.
pub fn file_mode(permission_bits: u32) -> (r: &'static str)
    ensures
        r@ == (if permission_bits & 0o111u32 != 0 {
            "100755"@
        } else {
            "100644"@
        }),
{
    if permission_bits & 0o111u32 != 0 {
        "100755"
    } else {
        "100644"
    }
}

/// A path inside the walked tree: the name alone at the top, else under its directory.
pub fn child_path(rel: &str, name: &str) -> (r: String)
    ensures
        r@ == (if rel@.len() == 0 {
            name@
        } else {
            rel@ + "/"@ + name@
        }),
{
    let mut r = String::new();
    if !rel.is_empty() {
        r.push_str(rel);
        r.push_str("/");
    }
    r.push_str(name);
    r
}

} // verus!
