//! Replaying standalone-repo commits into the monorepo.
//!
//! Import is the only operation allowed to write the working tree and index: a replay is a
//! merge the user may have to resolve, so it happens where the user can see it. Everything
//! interrupted lives in a sequencer under the git dir. The replay is a machine: it names the
//! next thing to do (a git call, writing the sequencer, a warning), the caller does it and
//! hands back what happened.

use vstd::prelude::*;

use crate::config::{clone_strings, ResolvedSubrepo};
use crate::git::{
    lemma_show_output_split, no_nul, output_lines, read_commit_args, show_output, split_lines,
    CommitMeta, GitCall, GitError, GitOpts, EMPTY_TREE,
};
use crate::paths::{first_glob_error, glob_set_error, glob_set_match, make_excluder};
use crate::text::{chars_of, split, str_eq, string_of, trim, trim_end, Space};
use crate::trailers::{
    append_trailer, key_char, lemma_get_trailer_reads_what_append_trailer_wrote,
    line_terminator, normalize_newlines, trailer_value, with_trailer, ORIGIN_TRAILER,
};

verus! {

/// The standalone-repo commit currently being replayed, captured so `--continue` can
/// finish it.
#[derive(Debug, Clone)]
pub struct PullSequencerCommit {
    pub sha: String,
    pub message: String,
    pub author_name: String,
    pub author_email: String,
    /// raw format: "<unix-ts> <tz>"
    pub author_date: String,
}

/// Transient state for an interrupted import. It lives under the git dir, never in the work
/// tree and never committed: a sequencer like `.git/rebase-merge`.
///
/// `path`, `start_head` and `created` let `--abort` put the monorepo back exactly as it
/// was: the subrepo directory bounds what abort may touch, `start_head` is where the run
/// began, and `created` is the proof that everything between the two is monosplice's own
/// work. They stay optional so a sequencer that predates them still loads; every sequencer
/// written here carries all three.
#[derive(Debug, Clone)]
pub struct PullSequencer {
    pub subrepo: String,
    /// Subrepo directory, so `--abort` still works if the config entry was removed meanwhile.
    pub path: Option<String>,
    pub current: PullSequencerCommit,
    pub remaining: Vec<String>,
    /// Monorepo HEAD before this pull run committed anything.
    pub start_head: Option<String>,
    /// Monorepo commits this run created before the conflict, oldest first.
    pub created: Option<Vec<String>>,
}

/// Where a pull run started and what it has committed so far, carried across `--continue`.
#[derive(Debug)]
pub struct RunProvenance {
    pub start_head: String,
    pub created: Vec<String>,
}

/// A replay that stopped on a three-way merge the user has to finish.
#[derive(Debug)]
pub struct ImportConflict {
    pub subrepo_name: String,
    pub pub_sha: String,
    pub conflicts: Vec<String>,
    pub state_path: String,
}

/// Why an import stopped.
#[derive(Debug)]
pub enum ImportError {
    Conflict(ImportConflict),
    Git(GitError),
    /// Writing the sequencer failed; the error's text.
    Io(String),
}

/// The message an import failure is reported with.
pub open spec fn import_error_message(e: ImportErrorView) -> Seq<char> {
    match e {
        ImportErrorView::Conflict { subrepo_name, pub_sha, .. } => "import of "@ + pub_sha
            + " into "@ + subrepo_name + " conflicted"@,
        ImportErrorView::Git(g) => crate::git::git_error_text(g.args, g.code, g.stderr),
        ImportErrorView::Io(m) => m,
    }
}

impl ImportError {
    /// The message an import failure is reported with.
    pub fn to_string(&self) -> (r: String)
        ensures
            r@ == import_error_message(self@),
    {
        match self {
            ImportError::Conflict(c) => {
                let mut r = String::new();
                r.push_str("import of ");
                r.push_str(c.pub_sha.as_str());
                r.push_str(" into ");
                r.push_str(c.subrepo_name.as_str());
                r.push_str(" conflicted");
                r
            },
            ImportError::Git(e) => e.to_string(),
            ImportError::Io(m) => m.clone(),
        }
    }
}

/// The standalone-repo commits an import replayed, oldest first.
#[derive(Debug)]
pub struct ImportOutcome {
    pub imported: Vec<String>,
}

/// The sequencer's file name inside the state directory.
pub const STATE_FILE: &'static str = "pull-state.json";

/// `Path::join` on text: an absolute `b` replaces `a`; otherwise one `/` between them.
pub open spec fn path_join(a: Seq<char>, b: Seq<char>) -> Seq<char> {
    if b.len() > 0 && b[0] == '/' {
        b
    } else if a.len() == 0 {
        b
    } else if a.last() == '/' {
        a + b
    } else {
        a + seq!['/'] + b
    }
}

pub fn join_path(a: &str, b: &str) -> (r: String)
    ensures
        r@ == path_join(a@, b@),
{
    let ac = chars_of(a);
    let bc = chars_of(b);
    if bc.len() > 0 && bc[0] == '/' {
        return b.to_owned();
    }
    if ac.len() == 0 {
        return b.to_owned();
    }
    let mut r = String::new();
    r.push_str(a);
    if ac[ac.len() - 1] != '/' {
        r.push('/');
    }
    r.push_str(b);
    r
}

/// Asking git where its directory is: relative to the root for a normal checkout, absolute
/// for a linked worktree.
pub fn git_dir_args() -> (r: Vec<String>)
    ensures
        r.deep_view() == seq!["rev-parse"@, "--git-dir"@],
{
    let mut a: Vec<String> = Vec::new();
    a.push("rev-parse".to_owned());
    a.push("--git-dir".to_owned());
    assert(a.deep_view() =~= seq!["rev-parse"@, "--git-dir"@]);
    a
}

pub open spec fn state_dir_of(root: Seq<char>, git_dir: Seq<char>) -> Seq<char> {
    path_join(path_join(root, git_dir), "monosplice"@)
}

/// The directory monosplice keeps its state in, given what `rev-parse --git-dir` printed.
pub fn state_dir(root: &str, git_dir: &str) -> (r: String)
    ensures
        r@ == state_dir_of(root@, git_dir@),
{
    let d = join_path(root, git_dir);
    join_path(d.as_str(), "monosplice")
}

/// Where the sequencer of an interrupted import lives.
pub fn sequencer_path(root: &str, git_dir: &str) -> (r: String)
    ensures
        r@ == path_join(state_dir_of(root@, git_dir@), STATE_FILE@),
{
    let d = state_dir(root, git_dir);
    join_path(d.as_str(), STATE_FILE)
}

/// The paths git reports as unmerged in the index.
pub fn unmerged_paths_args() -> (r: Vec<String>)
    ensures
        r.deep_view() == seq!["diff"@, "--name-only"@, "--diff-filter=U"@],
{
    let mut a: Vec<String> = Vec::new();
    a.push("diff".to_owned());
    a.push("--name-only".to_owned());
    a.push("--diff-filter=U".to_owned());
    assert(a.deep_view() =~= seq!["diff"@, "--name-only"@, "--diff-filter=U"@]);
    a
}

/// Paths git reports as unmerged, from its output: none when the merge is resolved.
pub fn unmerged_paths(out: &str) -> (r: Vec<String>)
    ensures
        r.deep_view() == output_lines(out@),
{
    split_lines(out)
}

/// Why the monorepo is not ready to import into.
pub open spec fn import_problem(
    root: Seq<char>,
    has_head: bool,
    subrepo: crate::config::SubrepoView,
    dirty: Seq<char>,
    index_clean: bool,
    staged: Seq<char>,
    retry: Seq<char>,
) -> Option<Seq<char>> {
    if !has_head {
        Some(
            root + " has no commits yet — commit something before importing from "@
                + subrepo.remote + "."@,
        )
    } else if dirty.len() > 0 {
        Some(
            subrepo.name + ": "@ + subrepo.path + "/ has uncommitted changes:\n"@ + dirty
                + "\nCommit or stash them, then run `"@ + retry
                + "` again. Nothing was imported."@,
        )
    } else if !index_clean {
        Some(
            subrepo.name + ": you have staged changes:\n"@ + staged
                + "\nAn import commits the index, so it would sweep them in. Commit or unstage them, then run `"@
                + retry + "` again. Nothing was imported."@,
        )
    } else {
        None
    }
}

/// Import is the only operation that writes to the work tree and index, so it insists on
/// finding both pristine: anything staged would be swept into the import commit, and
/// anything modified under the subrepo would make `git apply --index` fail halfway. Given
/// whether `HEAD` resolves, `status --porcelain -- <path>`, whether the index matches
/// `HEAD` and the staged names; `retry` is the command to retry.
pub fn check_import_preconditions(
    root: &str,
    has_head: bool,
    subrepo: &ResolvedSubrepo,
    dirty: &str,
    index_clean: bool,
    staged: &str,
    retry: &str,
) -> (r: Option<String>)
    ensures
        r.deep_view() == import_problem(
            root@,
            has_head,
            subrepo@,
            dirty@,
            index_clean,
            staged@,
            retry@,
        ),
{
    if !has_head {
        let mut m = String::new();
        m.push_str(root);
        m.push_str(" has no commits yet — commit something before importing from ");
        m.push_str(subrepo.remote.as_str());
        m.push_str(".");
        return Some(m);
    }
    if !dirty.is_empty() {
        let mut m = String::new();
        m.push_str(subrepo.name.as_str());
        m.push_str(": ");
        m.push_str(subrepo.path.as_str());
        m.push_str("/ has uncommitted changes:\n");
        m.push_str(dirty);
        m.push_str("\nCommit or stash them, then run `");
        m.push_str(retry);
        m.push_str("` again. Nothing was imported.");
        return Some(m);
    }
    if !index_clean {
        let mut m = String::new();
        m.push_str(subrepo.name.as_str());
        m.push_str(": you have staged changes:\n");
        m.push_str(staged);
        m.push_str(
            "\nAn import commits the index, so it would sweep them in. Commit or unstage them, then run `",
        );
        m.push_str(retry);
        m.push_str("` again. Nothing was imported.");
        return Some(m);
    }
    None
}

/// `status --porcelain` limited to the subrepo directory.
pub fn subrepo_status_args(path: &str) -> (r: Vec<String>)
    ensures
        r.deep_view() == seq!["status"@, "--porcelain"@, "--"@, path@],
{
    let mut a: Vec<String> = Vec::new();
    a.push("status".to_owned());
    a.push("--porcelain".to_owned());
    a.push("--".to_owned());
    a.push(path.to_owned());
    assert(a.deep_view() =~= seq!["status"@, "--porcelain"@, "--"@, path@]);
    a
}

/// First parent of a commit, from `rev-list --parents -n 1`: the empty tree for a root commit.
pub open spec fn diff_base_of(line: Seq<char>) -> Seq<char> {
    let fields = split(line, ' ');
    if fields.len() > 1 && fields[1].len() > 0 {
        fields[1]
    } else {
        EMPTY_TREE@
    }
}

pub fn parents_args(sha: &str) -> (r: Vec<String>)
    ensures
        r.deep_view() == seq!["rev-list"@, "--parents"@, "-n"@, "1"@, sha@],
{
    let mut a: Vec<String> = Vec::new();
    a.push("rev-list".to_owned());
    a.push("--parents".to_owned());
    a.push("-n".to_owned());
    a.push("1".to_owned());
    a.push(sha.to_owned());
    assert(a.deep_view() =~= seq!["rev-list"@, "--parents"@, "-n"@, "1"@, sha@]);
    a
}

pub fn diff_base(line: &str) -> (r: String)
    ensures
        r@ == diff_base_of(line@),
{
    let cs = chars_of(line);
    let fields = crate::text::split_chars(cs.as_slice(), ' ');
    if fields.len() > 1 && fields[1].len() > 0 {
        assert(fields@[1].deep_view() =~= fields@[1]@);
        string_of(fields[1].as_slice())
    } else {
        EMPTY_TREE.to_owned()
    }
}

pub open spec fn import_message(c: PullSequencerCommit) -> Seq<char> {
    with_trailer(c.message@, ORIGIN_TRAILER@, c.sha@)
}

/// Commit the replayed change: the public commit's message with an Origin trailer naming it,
/// and its author (the committer is whoever runs monosplice, left to the environment).
/// `--allow-empty` because a patch the monorepo already made independently is a no-op, yet
/// the commit and its trailer are what mark the public commit reflected.
pub fn commit_import(c: &PullSequencerCommit) -> (call: GitCall)
    ensures
        call.args.deep_view() == seq![
            "commit"@,
            "--allow-empty"@,
            "--no-verify"@,
            "-m"@,
            import_message(*c),
        ],
        call.opts.env.deep_view() == seq![
            ("GIT_AUTHOR_NAME"@, c.author_name@),
            ("GIT_AUTHOR_EMAIL"@, c.author_email@),
            ("GIT_AUTHOR_DATE"@, c.author_date@),
        ],
        call.opts.input is None,
{
    let message = append_trailer(c.message.as_str(), ORIGIN_TRAILER, c.sha.as_str());
    let mut a: Vec<String> = Vec::new();
    a.push("commit".to_owned());
    a.push("--allow-empty".to_owned());
    a.push("--no-verify".to_owned());
    a.push("-m".to_owned());
    a.push(message);
    let mut env: Vec<(String, String)> = Vec::new();
    env.push(("GIT_AUTHOR_NAME".to_owned(), c.author_name.clone()));
    env.push(("GIT_AUTHOR_EMAIL".to_owned(), c.author_email.clone()));
    env.push(("GIT_AUTHOR_DATE".to_owned(), c.author_date.clone()));
    let call = GitCall { args: a, opts: GitOpts { env, input: None } };
    assert(call.args.deep_view() =~= seq![
        "commit"@,
        "--allow-empty"@,
        "--no-verify"@,
        "-m"@,
        import_message(*c),
    ]);
    assert(call.opts.env.deep_view() =~= seq![
        ("GIT_AUTHOR_NAME"@, c.author_name@),
        ("GIT_AUTHOR_EMAIL"@, c.author_email@),
        ("GIT_AUTHOR_DATE"@, c.author_date@),
    ]);
    call
}

/// **An imported commit names the public commit it replays.** When the public commit's
/// message has some text and carries no Origin trailer of its own, and its sha is one line
/// with something in it, the Origin trailer read back from the message `commit_import`
/// commits is that sha, white space trimmed. As with every appended trailer, a message whose
/// once-normalized text carries an Origin trailer with another value is left out.
pub proof fn lemma_an_import_names_its_public_commit(c: PullSequencerCommit)
    requires
        trim_end(Space::Js, normalize_newlines(c.message@)).len() > 0,
        forall|i: int| 0 <= i < c.sha@.len() ==> !line_terminator(#[trigger] c.sha@[i]),
        trim_end(Space::Js, c.sha@).len() > 0,
        trailer_value(c.message@, ORIGIN_TRAILER@) is None,
        trailer_value(normalize_newlines(c.message@), ORIGIN_TRAILER@) is None || trailer_value(
            normalize_newlines(c.message@),
            ORIGIN_TRAILER@,
        ) == Some(trim(Space::Js, c.sha@)),
    ensures
        trailer_value(import_message(c), ORIGIN_TRAILER@) == Some(trim(Space::Js, c.sha@)),
{
    reveal_strlit("Monosplice-Origin");
    assert forall|i: int| 0 <= i < ORIGIN_TRAILER@.len() implies key_char(
        #[trigger] ORIGIN_TRAILER@[i],
    ) by {
        assert(ORIGIN_TRAILER@ == "Monosplice-Origin"@);
    }
    lemma_get_trailer_reads_what_append_trailer_wrote(c.message@, ORIGIN_TRAILER@, c.sha@);
}

pub open spec fn exclude_warning_of(name: Seq<char>, path: Seq<char>, remote: Seq<char>, rel: Seq<
    char,
>) -> Seq<char> {
    "warning: "@ + name + ": imported "@ + path + "/"@ + rel
        + ", but it matches an exclude pattern in your config.\nThe next `monosplice push "@
        + name + "` will DELETE it from "@ + remote
        + ".\nRename the file or drop the pattern from `exclude` if you want to keep it in the standalone repo."@
}

/// An imported file the next push would delete, because the config excludes it.
pub fn exclude_warning(subrepo: &ResolvedSubrepo, rel_path: &str) -> (r: String)
    ensures
        r@ == exclude_warning_of(subrepo.name@, subrepo.path@, subrepo.remote@, rel_path@),
{
    let mut m = String::new();
    m.push_str("warning: ");
    m.push_str(subrepo.name.as_str());
    m.push_str(": imported ");
    m.push_str(subrepo.path.as_str());
    m.push_str("/");
    m.push_str(rel_path);
    m.push_str(", but it matches an exclude pattern in your config.\nThe next `monosplice push ");
    m.push_str(subrepo.name.as_str());
    m.push_str("` will DELETE it from ");
    m.push_str(subrepo.remote.as_str());
    m.push_str(
        ".\nRename the file or drop the pattern from `exclude` if you want to keep it in the standalone repo.",
    );
    m
}

/// The commit fields the sequencer keeps.
pub fn read_sequencer_commit(meta: CommitMeta) -> (c: PullSequencerCommit)
    ensures
        c.sha@ == meta.sha@,
        c.message@ == meta.message@,
        c.author_name@ == meta.author_name@,
        c.author_email@ == meta.author_email@,
        c.author_date@ == meta.author_date@,
{
    PullSequencerCommit {
        sha: meta.sha,
        message: meta.message,
        author_name: meta.author_name,
        author_email: meta.author_email,
        author_date: meta.author_date,
    }
}


// ---------------------------------------------------------------------------------------
// Abandoning an interrupted import.

/// Is `start_head` an ancestor of HEAD?
pub fn is_ancestor_args(start_head: &str) -> (r: Vec<String>)
    ensures
        r.deep_view() == seq!["merge-base"@, "--is-ancestor"@, start_head@, "HEAD"@],
{
    let mut a: Vec<String> = Vec::new();
    a.push("merge-base".to_owned());
    a.push("--is-ancestor".to_owned());
    a.push(start_head.to_owned());
    a.push("HEAD".to_owned());
    assert(a.deep_view() =~= seq!["merge-base"@, "--is-ancestor"@, start_head@, "HEAD"@]);
    a
}

/// The commits since the run started, for `rev-list`.
pub fn since_start_range(start_head: &str) -> (r: String)
    ensures
        r@ == start_head@ + "..HEAD"@,
{
    let mut r = String::new();
    r.push_str(start_head);
    r.push_str("..HEAD");
    r
}

/// The proof that rewinding is safe: `start_head` is an ancestor of HEAD and the walk
/// from it (newest first) is exactly the commits this run created (oldest first).
pub open spec fn owns_history(
    is_ancestor: bool,
    walk: Option<Seq<Seq<char>>>,
    created: Seq<Seq<char>>,
) -> bool {
    is_ancestor && match walk {
        Some(w) => w == created.reverse(),
        None => false,
    }
}

/// Are the commits between `start_head` and HEAD exactly the ones this pull run created?
/// Anything else on the walk is somebody's work monosplice did not make, and rewinding
/// past it would destroy it. `walk` is `None` when the walk could not be listed.
pub fn run_owns_history(is_ancestor: bool, walk: Option<&Vec<String>>, created: &[String]) -> (r:
    bool)
    ensures
        r == owns_history(
            is_ancestor,
            match walk {
                Some(w) => Some(w.deep_view()),
                None => None,
            },
            created@.map_values(|s: String| s@),
        ),
{
    let ghost cv = created@.map_values(|s: String| s@);
    if !is_ancestor {
        return false;
    }
    let w = match walk {
        Some(w) => w,
        None => {
            return false;
        },
    };
    if w.len() != created.len() {
        assert(w.deep_view().len() != cv.reverse().len());
        return false;
    }
    let n = w.len();
    let mut i: usize = 0;
    while i < n
        invariant
            n == w@.len(),
            n == created@.len(),
            walk == Some(w),
            is_ancestor,
            cv == created@.map_values(|s: String| s@),
            i <= n,
            forall|j: int| 0 <= j < i ==> w.deep_view()[j] == cv.reverse()[j],
        decreases n - i,
    {
        assert(cv.reverse()[i as int] == created@[n - 1 - i]@);
        assert(w.deep_view()[i as int] == w@[i as int]@);
        if !str_eq(w[i].as_str(), created[n - 1 - i].as_str()) {
            assert(w.deep_view()[i as int] != cv.reverse()[i as int]);
            return false;
        }
        i = i + 1;
    }
    assert(w.deep_view() =~= cv.reverse());
    true
}

/// What an abort did.
#[derive(Debug)]
pub struct AbortOutcome {
    /// True when the monorepo was rewound all the way to the pre-pull HEAD.
    pub rewound: bool,
    /// Monorepo commits this pull created and abort discarded (oldest first).
    pub discarded: Vec<String>,
    /// Commits this pull created that abort kept, because history moved after they landed.
    pub kept: Vec<String>,
    /// HEAD before the pull started, when the sequencer recorded it.
    pub start_head: Option<String>,
}

pub open spec fn created_of(state: PullSequencer) -> Seq<Seq<char>> {
    match state.created {
        Some(c) => c.deep_view(),
        None => seq![],
    }
}

/// Where an abort resets the subrepo path to, and what it reports. `head` is the current
/// HEAD; `owns` is `run_owns_history`'s answer, asked only when the sequencer recorded where
/// the run started. The run is rewound to that start only when it provably owns every
/// commit since; otherwise only the conflicted step is undone and the run's commits are
/// reported as kept. Either way each commit the run created is either discarded or kept.
pub fn abort_import(head: &str, state: &PullSequencer, owns: bool) -> (r: (String, AbortOutcome))
    ensures
        ({
            let provable = state.start_head is Some && owns;
            &&& r.1.rewound == provable
            &&& r.0@ == (if provable {
                state.start_head.unwrap()@
            } else {
                head@
            })
            &&& r.1.discarded.deep_view() == (if provable {
                created_of(*state)
            } else {
                seq![]
            })
            &&& r.1.kept.deep_view() == (if provable {
                seq![]
            } else {
                created_of(*state)
            })
            &&& r.1.discarded.deep_view() + r.1.kept.deep_view() == created_of(*state)
            &&& r.1.start_head.deep_view() == state.start_head.deep_view()
        }),
{
    let created = match &state.created {
        Some(c) => clone_strings(c),
        None => Vec::new(),
    };
    assert(created.deep_view() =~= created_of(*state));
    let start_head = match &state.start_head {
        Some(s) => Some(s.clone()),
        None => None,
    };
    let provable = state.start_head.is_some() && owns;
    if provable {
        let target = match &state.start_head {
            Some(s) => s.clone(),
            None => head.to_owned(),
        };
        let outcome = AbortOutcome {
            rewound: true,
            discarded: created,
            kept: Vec::new(),
            start_head,
        };
        assert(outcome.discarded.deep_view() + outcome.kept.deep_view() =~= created_of(*state));
        (target, outcome)
    } else {
        let outcome = AbortOutcome {
            rewound: false,
            discarded: Vec::new(),
            kept: created,
            start_head,
        };
        assert(outcome.discarded.deep_view() + outcome.kept.deep_view() =~= created_of(*state));
        (head.to_owned(), outcome)
    }
}

/// Putting the subrepo directory, and nothing else, back to how `target` has it: the index
/// first (which also drops the conflict stages), then the work tree, then the files the
/// aborted import created, which are untracked by now, then HEAD itself. The second call
/// may fail (nothing to check out) and that is not an error.
pub fn restore_subrepo_path(sub_path: &str, target: &str) -> (r: Vec<Vec<String>>)
    ensures
        r.deep_view() == seq![
            seq!["reset"@, "--quiet"@, target@, "--"@, sub_path@],
            seq!["checkout"@, "--quiet"@, "--"@, sub_path@],
            seq!["clean"@, "-fdq"@, "--"@, sub_path@],
            seq!["reset"@, "--quiet"@, "--soft"@, target@],
        ],
{
    let mut reset: Vec<String> = Vec::new();
    reset.push("reset".to_owned());
    reset.push("--quiet".to_owned());
    reset.push(target.to_owned());
    reset.push("--".to_owned());
    reset.push(sub_path.to_owned());
    let mut checkout: Vec<String> = Vec::new();
    checkout.push("checkout".to_owned());
    checkout.push("--quiet".to_owned());
    checkout.push("--".to_owned());
    checkout.push(sub_path.to_owned());
    let mut clean: Vec<String> = Vec::new();
    clean.push("clean".to_owned());
    clean.push("-fdq".to_owned());
    clean.push("--".to_owned());
    clean.push(sub_path.to_owned());
    let mut soft: Vec<String> = Vec::new();
    soft.push("reset".to_owned());
    soft.push("--quiet".to_owned());
    soft.push("--soft".to_owned());
    soft.push(target.to_owned());
    let ghost a = reset.deep_view();
    let ghost b = checkout.deep_view();
    let ghost c = clean.deep_view();
    let ghost d = soft.deep_view();
    let mut calls: Vec<Vec<String>> = Vec::new();
    calls.push(reset);
    calls.push(checkout);
    calls.push(clean);
    calls.push(soft);
    assert(calls.deep_view() =~= seq![a, b, c, d]);
    assert(a =~= seq!["reset"@, "--quiet"@, target@, "--"@, sub_path@]);
    assert(b =~= seq!["checkout"@, "--quiet"@, "--"@, sub_path@]);
    assert(c =~= seq!["clean"@, "-fdq"@, "--"@, sub_path@]);
    assert(d =~= seq!["reset"@, "--quiet"@, "--soft"@, target@]);
    calls
}


// ---------------------------------------------------------------------------------------
// The replay, one step at a time.

/// A sequencer commit as text.
pub struct CommitView {
    pub sha: Seq<char>,
    pub message: Seq<char>,
    pub author_name: Seq<char>,
    pub author_email: Seq<char>,
    pub author_date: Seq<char>,
}

impl View for PullSequencerCommit {
    type V = CommitView;

    open spec fn view(&self) -> CommitView {
        CommitView {
            sha: self.sha@,
            message: self.message@,
            author_name: self.author_name@,
            author_email: self.author_email@,
            author_date: self.author_date@,
        }
    }
}

/// An import failure as text.
pub enum ImportErrorView {
    Conflict {
        subrepo_name: Seq<char>,
        pub_sha: Seq<char>,
        conflicts: Seq<Seq<char>>,
        state_path: Seq<char>,
    },
    Git(crate::git::GitErrorView),
    Io(Seq<char>),
}

impl View for ImportError {
    type V = ImportErrorView;

    open spec fn view(&self) -> ImportErrorView {
        match self {
            ImportError::Conflict(c) => ImportErrorView::Conflict {
                subrepo_name: c.subrepo_name@,
                pub_sha: c.pub_sha@,
                conflicts: c.conflicts.deep_view(),
                state_path: c.state_path@,
            },
            ImportError::Git(e) => ImportErrorView::Git(e@),
            ImportError::Io(m) => ImportErrorView::Io(m@),
        }
    }
}

/// Where a replay stands: what it will ask for next.
#[derive(Debug, Clone, Copy, PartialEq, Eq, Structural)]
pub enum ImportStep {
    /// `git show` of the next candidate.
    ReadCommit,
    /// Its first parent, the base of its patch.
    FindBase,
    /// The binary patch from the base to the candidate.
    ReadPatch,
    /// A three-way apply of that patch into the subrepo directory.
    Apply,
    /// The paths a failed apply left unmerged.
    ListUnmerged,
    /// The sequencer, for `--continue` and `--abort`.
    WriteState,
    /// The paths the candidate touched, for the exclude warnings.
    ListNames,
    /// The warnings about imported paths the config excludes.
    Warn,
    /// The import commit.
    Commit,
    /// The sha of the commit just made.
    ResolveHead,
    /// Removing the sequencer once the resolved commit is in.
    ClearState,
    /// Nothing more: the outcome is settled.
    Finished,
}

/// A replay as text.
pub struct RunView {
    pub name: Seq<char>,
    pub path: Seq<char>,
    pub remote: Seq<char>,
    pub exclude: Seq<Seq<char>>,
    pub candidates: Seq<Seq<char>>,
    pub next: int,
    pub start_head: Seq<char>,
    /// The run's start is the first commit it makes (a sequencer that predates the record).
    pub adopt_start: bool,
    /// Finishing the commit the user resolved, before the remaining candidates.
    pub resuming: bool,
    pub created: Seq<Seq<char>>,
    pub imported: Seq<Seq<char>>,
    pub step: ImportStep,
    pub current: Option<CommitView>,
    pub base: Seq<char>,
    pub apply_error: Option<crate::git::GitErrorView>,
    pub conflicts: Seq<Seq<char>>,
    pub warnings: Seq<Seq<char>>,
    pub outcome: Option<Result<Seq<Seq<char>>, ImportErrorView>>,
}

/// Replaying standalone-repo commits (oldest first) into the monorepo, stopping at the
/// first conflict.
#[derive(Debug)]
pub struct ImportRun {
    name: String,
    path: String,
    remote: String,
    exclude: Vec<String>,
    candidates: Vec<String>,
    next: usize,
    start_head: String,
    adopt_start: bool,
    resuming: bool,
    created: Vec<String>,
    imported: Vec<String>,
    step: ImportStep,
    current: Option<PullSequencerCommit>,
    base: String,
    apply_error: Option<GitError>,
    conflicts: Vec<String>,
    warnings: Vec<String>,
    outcome: Option<Result<Vec<String>, ImportError>>,
}

impl View for ImportRun {
    type V = RunView;

    closed spec fn view(&self) -> RunView {
        RunView {
            name: self.name@,
            path: self.path@,
            remote: self.remote@,
            exclude: self.exclude.deep_view(),
            candidates: self.candidates.deep_view(),
            next: self.next as int,
            start_head: self.start_head@,
            adopt_start: self.adopt_start,
            resuming: self.resuming,
            created: self.created.deep_view(),
            imported: self.imported.deep_view(),
            step: self.step,
            current: match self.current {
                Some(c) => Some(c@),
                None => None,
            },
            base: self.base@,
            apply_error: match self.apply_error {
                Some(e) => Some(e@),
                None => None,
            },
            conflicts: self.conflicts.deep_view(),
            warnings: self.warnings.deep_view(),
            outcome: match self.outcome {
                Some(Ok(v)) => Some(Ok(v.deep_view())),
                Some(Err(e)) => Some(Err(e@)),
                None => None,
            },
        }
    }
}

/// The steps that work on one candidate.
pub open spec fn per_candidate(step: ImportStep) -> bool {
    step != ImportStep::ClearState && step != ImportStep::Finished
}

/// What holds of a replay between steps. Among it: the candidates replayed so far are the
/// last ones imported, in order, each once (a resumed run has imported the resolved commit
/// before them), and a successful outcome is exactly what was imported, all candidates done.
pub open spec fn run_ok(v: RunView) -> bool {
    &&& 0 <= v.next <= v.candidates.len()
    &&& v.next <= v.imported.len() <= v.next + 1
    &&& v.imported.skip(v.imported.len() - v.next) == v.candidates.take(v.next)
    &&& (v.outcome matches Some(Ok(list)) ==> list == v.imported && v.next == v.candidates.len())
    &&& (per_candidate(v.step) && !v.resuming ==> v.next < v.candidates.len())
    &&& (v.resuming ==> v.imported.len() == 0 && v.next == 0)
    &&& (v.resuming ==> v.step == ImportStep::Commit || v.step == ImportStep::ResolveHead
        || v.step == ImportStep::Finished)
    &&& (v.step != ImportStep::ReadCommit && per_candidate(v.step) ==> v.current is Some)
    &&& (v.step == ImportStep::ListUnmerged ==> v.apply_error is Some)
    &&& (v.step == ImportStep::Finished <==> v.outcome is Some)
}

/// The candidate being replayed.
pub open spec fn candidate(v: RunView) -> Seq<char> {
    v.candidates[v.next]
}

pub open spec fn finish(v: RunView, o: Result<Seq<Seq<char>>, ImportErrorView>) -> RunView {
    RunView { step: ImportStep::Finished, outcome: Some(o), ..v }
}

pub open spec fn fail_git(v: RunView, g: crate::git::GitErrorView) -> RunView {
    finish(v, Err(ImportErrorView::Git(g)))
}

/// On to the next candidate, or done with all of them.
pub open spec fn begin(v: RunView) -> RunView {
    if v.next >= v.candidates.len() {
        finish(v, Ok(v.imported))
    } else {
        RunView { step: ImportStep::ReadCommit, ..v }
    }
}

/// The commit fields `git show` output holds.
pub open spec fn commit_view_of(out: Seq<char>) -> CommitView {
    let parts = split(out, '\0');
    CommitView {
        sha: parts[0],
        message: crate::text::join(parts.skip(7), "\0"@),
        author_name: parts[1],
        author_email: parts[2],
        author_date: parts[3],
    }
}

/// After the import commit landed as `head`.
pub open spec fn after_commit(v: RunView, head: Seq<char>) -> RunView {
    let v1 = RunView {
        created: v.created.push(head),
        start_head: if v.adopt_start {
            head
        } else {
            v.start_head
        },
        adopt_start: false,
        current: None,
        ..v
    };
    if v.resuming {
        RunView {
            imported: v.imported.push(v.current.unwrap().sha),
            step: ImportStep::ClearState,
            resuming: false,
            ..v1
        }
    } else {
        begin(RunView { imported: v.imported.push(candidate(v)), next: v.next + 1, ..v1 })
    }
}

/// The warnings for paths the config excludes, among those a candidate touched.
pub open spec fn matched_warnings(v: RunView, names: Seq<char>) -> Seq<Seq<char>> {
    split(names, '\n').filter(|rel: Seq<char>| glob_set_match(v.exclude, rel)).map_values(
        |rel: Seq<char>| exclude_warning_of(v.name, v.path, v.remote, rel),
    )
}

/// What may be said about the touched paths `names`: nothing without exclude patterns; a
/// warning naming a pattern that does not compile, or why the compiled patterns make no set
/// (a broken pattern costs a warning, never the import); else one warning per excluded path.
pub open spec fn warnings_ok(v: RunView, names: Seq<char>, w: Seq<Seq<char>>) -> bool {
    if names.len() == 0 || v.exclude.len() == 0 {
        w == Seq::<Seq<char>>::empty()
    } else {
        match first_glob_error(v.exclude, 0) {
            Some(m) => w == seq!["warning: "@ + v.name + ": "@ + m],
            None => match glob_set_error(v.exclude) {
                None => w == matched_warnings(v, names),
                Some(d) => w == seq![
                    "warning: "@ + v.name + ": "@ + ("invalid exclude patterns: "@ + d),
                ],
            },
        }
    }
}

/// What the caller hands back after doing what the replay asked.
#[derive(Debug)]
pub enum ImportEvent {
    /// git's output (final newline stripped), or its failure.
    Output(Result<String, GitError>),
    /// Whether the patch read was empty, or the failure reading it.
    Patch(Result<bool, GitError>),
    /// Where the sequencer was written, or why it could not be.
    Written(Result<String, String>),
    /// Done: the warnings printed, the sequencer removed.
    Noted,
}

/// One step: from `v`, on event `e`, to `w`. An event other than the one asked for changes
/// nothing: the replay asks again.
pub open spec fn stepped(v: RunView, e: ImportEvent, w: RunView) -> bool {
    match v.step {
        ImportStep::ReadCommit => match e {
            ImportEvent::Output(Ok(out)) => if split(out@, '\0').len() >= 8 {
                w == RunView {
                    step: ImportStep::FindBase,
                    current: Some(commit_view_of(out@)),
                    ..v
                }
            } else {
                w == fail_git(
                    v,
                    crate::git::GitErrorView {
                        args: crate::git::read_commit_args_of(candidate(v)),
                        code: None,
                        stderr: "unexpected git show output for "@ + candidate(v),
                    },
                )
            },
            ImportEvent::Output(Err(g)) => w == fail_git(v, g@),
            _ => w == v,
        },
        ImportStep::FindBase => match e {
            ImportEvent::Output(Ok(line)) => w == RunView {
                step: ImportStep::ReadPatch,
                base: diff_base_of(line@),
                ..v
            },
            ImportEvent::Output(Err(g)) => w == fail_git(v, g@),
            _ => w == v,
        },
        ImportStep::ReadPatch => match e {
            ImportEvent::Patch(Ok(empty)) => w == RunView {
                step: if empty {
                    ImportStep::ListNames
                } else {
                    ImportStep::Apply
                },
                ..v
            },
            ImportEvent::Patch(Err(g)) => w == fail_git(v, g@),
            _ => w == v,
        },
        ImportStep::Apply => match e {
            ImportEvent::Output(Ok(_)) => w == RunView { step: ImportStep::ListNames, ..v },
            ImportEvent::Output(Err(g)) => w == RunView {
                step: ImportStep::ListUnmerged,
                apply_error: Some(g@),
                ..v
            },
            _ => w == v,
        },
        ImportStep::ListUnmerged => match e {
            ImportEvent::Output(Ok(out)) => if output_lines(out@).len() == 0 {
                w == fail_git(v, v.apply_error.unwrap())
            } else {
                w == RunView { step: ImportStep::WriteState, conflicts: output_lines(out@), ..v }
            },
            ImportEvent::Output(Err(g)) => w == fail_git(v, g@),
            _ => w == v,
        },
        ImportStep::WriteState => match e {
            ImportEvent::Written(Ok(p)) => w == finish(
                v,
                Err(
                    ImportErrorView::Conflict {
                        subrepo_name: v.name,
                        pub_sha: candidate(v),
                        conflicts: v.conflicts,
                        state_path: p@,
                    },
                ),
            ),
            ImportEvent::Written(Err(m)) => w == finish(v, Err(ImportErrorView::Io(m@))),
            _ => w == v,
        },
        ImportStep::ListNames => match e {
            ImportEvent::Output(Ok(names)) => warnings_ok(v, names@, w.warnings) && w == RunView {
                step: if w.warnings.len() > 0 {
                    ImportStep::Warn
                } else {
                    ImportStep::Commit
                },
                warnings: w.warnings,
                ..v
            },
            ImportEvent::Output(Err(g)) => w == fail_git(v, g@),
            _ => w == v,
        },
        ImportStep::Warn => match e {
            ImportEvent::Noted => w == RunView {
                step: ImportStep::Commit,
                warnings: Seq::<Seq<char>>::empty(),
                ..v
            },
            _ => w == v,
        },
        ImportStep::Commit => match e {
            ImportEvent::Output(Ok(_)) => w == RunView { step: ImportStep::ResolveHead, ..v },
            ImportEvent::Output(Err(g)) => w == fail_git(v, g@),
            _ => w == v,
        },
        ImportStep::ResolveHead => match e {
            ImportEvent::Output(Ok(head)) => w == after_commit(v, head@),
            ImportEvent::Output(Err(g)) => w == fail_git(v, g@),
            _ => w == v,
        },
        ImportStep::ClearState => match e {
            ImportEvent::Noted => w == begin(v),
            _ => w == v,
        },
        ImportStep::Finished => w == v,
    }
}

/// What the replay asks the caller to do next.
#[derive(Debug)]
pub enum ImportAction {
    /// Run git; hand back `Output`.
    Git(GitCall),
    /// Run git for a binary patch and keep its bytes; hand back `Patch`.
    ReadPatch(Vec<String>),
    /// Run git with the kept patch on stdin; hand back `Output`.
    ApplyPatch(Vec<String>),
    /// Write the sequencer; hand back `Written`.
    WriteSequencer(PullSequencer),
    /// Print each warning; hand back `Noted`.
    Warn(Vec<String>),
    /// Remove the sequencer; hand back `Noted`.
    ClearSequencer,
    /// Nothing more to do: take the outcome.
    Finished,
}

fn copy_strings(items: &[String]) -> (r: Vec<String>)
    ensures
        r.deep_view() == items@.map_values(|s: String| s@),
{
    let ghost want = items@.map_values(|s: String| s@);
    let mut out: Vec<String> = Vec::new();
    let mut i: usize = 0;
    while i < items.len()
        invariant
            i <= items@.len(),
            want == items@.map_values(|s: String| s@),
            out.deep_view() == want.take(i as int),
        decreases items@.len() - i,
    {
        let ghost before = out.deep_view();
        out.push(items[i].clone());
        assert(out.deep_view() =~= before.push(want[i as int]));
        assert(want.take(i + 1) =~= want.take(i as int).push(want[i as int]));
        i = i + 1;
    }
    assert(want.take(items@.len() as int) =~= want);
    out
}

fn clone_git_error(e: &GitError) -> (r: GitError)
    ensures
        r@ == e@,
{
    GitError {
        git_args: clone_strings(&e.git_args),
        exit_code: e.exit_code,
        stderr: e.stderr.clone(),
    }
}

fn copy_commit(c: &PullSequencerCommit) -> (r: PullSequencerCommit)
    ensures
        r@ == c@,
{
    PullSequencerCommit {
        sha: c.sha.clone(),
        message: c.message.clone(),
        author_name: c.author_name.clone(),
        author_email: c.author_email.clone(),
        author_date: c.author_date.clone(),
    }
}

fn excluded_warning(name: &str, path: &str, remote: &str, rel_path: &str) -> (r: String)
    ensures
        r@ == exclude_warning_of(name@, path@, remote@, rel_path@),
{
    let mut m = String::new();
    m.push_str("warning: ");
    m.push_str(name);
    m.push_str(": imported ");
    m.push_str(path);
    m.push_str("/");
    m.push_str(rel_path);
    m.push_str(", but it matches an exclude pattern in your config.\nThe next `monosplice push ");
    m.push_str(name);
    m.push_str("` will DELETE it from ");
    m.push_str(remote);
    m.push_str(
        ".\nRename the file or drop the pattern from `exclude` if you want to keep it in the standalone repo.",
    );
    m
}

fn args_of(pieces: &[&str]) -> (r: Vec<String>)
    ensures
        r.deep_view() == pieces@.map_values(|a: &str| a@),
{
    crate::git::owned_args(pieces)
}

/// A replay of `candidates`, oldest first. `run` carries the provenance of a pull that
/// already started (across `--continue`); without it this replay is the start of the
/// run, which began at `head` (the current HEAD, when there is one).
pub fn run_import(
    subrepo: &ResolvedSubrepo,
    candidates: &[String],
    run: Option<RunProvenance>,
    head: Option<String>,
) -> (r: ImportRun)
    ensures
        run_ok(r@),
        r@ == begin(
            RunView {
                name: subrepo.name@,
                path: subrepo.path@,
                remote: subrepo.remote@,
                exclude: subrepo.exclude.deep_view(),
                candidates: candidates@.map_values(|s: String| s@),
                next: 0,
                start_head: match run {
                    Some(p) => p.start_head@,
                    None => match head {
                        Some(h) => h@,
                        None => Seq::<char>::empty(),
                    },
                },
                adopt_start: false,
                resuming: false,
                created: match run {
                    Some(p) => p.created.deep_view(),
                    None => Seq::<Seq<char>>::empty(),
                },
                imported: Seq::<Seq<char>>::empty(),
                step: ImportStep::ReadCommit,
                current: None,
                base: Seq::<char>::empty(),
                apply_error: None,
                conflicts: Seq::<Seq<char>>::empty(),
                warnings: Seq::<Seq<char>>::empty(),
                outcome: None,
            },
        ),
{
    let ghost run0 = run;
    let (start_head, created) = match run {
        Some(p) => (p.start_head, p.created),
        None => (
            match head {
                Some(h) => h,
                None => String::new(),
            },
            Vec::new(),
        ),
    };
    assert(created.deep_view() =~= match run0 {
        Some(p) => p.created.deep_view(),
        None => Seq::<Seq<char>>::empty(),
    });
    let mut r = ImportRun {
        name: subrepo.name.clone(),
        path: subrepo.path.clone(),
        remote: subrepo.remote.clone(),
        exclude: clone_strings(&subrepo.exclude),
        candidates: copy_strings(candidates),
        next: 0,
        start_head,
        adopt_start: false,
        resuming: false,
        created,
        imported: Vec::new(),
        step: ImportStep::ReadCommit,
        current: None,
        base: String::new(),
        apply_error: None,
        conflicts: Vec::new(),
        warnings: Vec::new(),
        outcome: None,
    };
    assert(r.imported.deep_view() =~= Seq::<Seq<char>>::empty());
    assert(r.conflicts.deep_view() =~= Seq::<Seq<char>>::empty());
    assert(r.warnings.deep_view() =~= Seq::<Seq<char>>::empty());
    assert(r@.imported.skip(0) =~= r@.candidates.take(0));
    if r.candidates.len() == 0 {
        r.step = ImportStep::Finished;
        r.outcome = Some(Ok(Vec::new()));
        assert(r@.outcome == Some(Ok::<Seq<Seq<char>>, ImportErrorView>(Seq::<Seq<char>>::empty())));
    }
    r
}

/// Finish the commit the user just resolved, then carry on with what was left: the
/// resolved commit counts as imported first, and the run keeps the provenance the
/// sequencer recorded, so an abort after a later conflict still rewinds the whole pull.
pub fn continue_import(subrepo: &ResolvedSubrepo, state: &PullSequencer) -> (r: ImportRun)
    ensures
        run_ok(r@),
        r@ == (RunView {
            name: subrepo.name@,
            path: subrepo.path@,
            remote: subrepo.remote@,
            exclude: subrepo.exclude.deep_view(),
            candidates: state.remaining.deep_view(),
            next: 0,
            start_head: match state.start_head {
                Some(h) => h@,
                None => Seq::<char>::empty(),
            },
            adopt_start: state.start_head is None,
            resuming: true,
            created: created_of(*state),
            imported: Seq::<Seq<char>>::empty(),
            step: ImportStep::Commit,
            current: Some(state.current@),
            base: Seq::<char>::empty(),
            apply_error: None,
            conflicts: Seq::<Seq<char>>::empty(),
            warnings: Seq::<Seq<char>>::empty(),
            outcome: None,
        }),
{
    let created = match &state.created {
        Some(c) => clone_strings(c),
        None => Vec::new(),
    };
    assert(created.deep_view() =~= created_of(*state));
    let r = ImportRun {
        name: subrepo.name.clone(),
        path: subrepo.path.clone(),
        remote: subrepo.remote.clone(),
        exclude: clone_strings(&subrepo.exclude),
        candidates: clone_strings(&state.remaining),
        next: 0,
        start_head: match &state.start_head {
            Some(h) => h.clone(),
            None => String::new(),
        },
        adopt_start: state.start_head.is_none(),
        resuming: true,
        created,
        imported: Vec::new(),
        step: ImportStep::Commit,
        current: Some(copy_commit(&state.current)),
        base: String::new(),
        apply_error: None,
        conflicts: Vec::new(),
        warnings: Vec::new(),
        outcome: None,
    };
    assert(r.imported.deep_view() =~= Seq::<Seq<char>>::empty());
    assert(r.conflicts.deep_view() =~= Seq::<Seq<char>>::empty());
    assert(r.warnings.deep_view() =~= Seq::<Seq<char>>::empty());
    assert(r@.imported.skip(0) =~= r@.candidates.take(0));
    r
}

impl ImportRun {
    /// Where the replay stands.
    pub fn step(&self) -> (s: ImportStep)
        ensures
            s == self@.step,
    {
        self.step
    }

    /// What the replay asks for next.
    pub fn action(&self) -> (a: ImportAction)
        requires
            run_ok(self@),
        ensures
            ({
                let v = self@;
                match v.step {
                    ImportStep::ReadCommit => a matches ImportAction::Git(c) && c.args.deep_view()
                        == crate::git::read_commit_args_of(candidate(v)) && c.opts.env@.len() == 0
                        && c.opts.input is None,
                    ImportStep::FindBase => a matches ImportAction::Git(c) && c.args.deep_view()
                        == seq!["rev-list"@, "--parents"@, "-n"@, "1"@, v.current.unwrap().sha]
                        && c.opts.env@.len() == 0 && c.opts.input is None,
                    ImportStep::ReadPatch => a matches ImportAction::ReadPatch(args)
                        && args.deep_view() == seq![
                        "diff-tree"@,
                        "--binary"@,
                        "-M"@,
                        "-p"@,
                        v.base,
                        v.current.unwrap().sha,
                    ],
                    ImportStep::Apply => a matches ImportAction::ApplyPatch(args)
                        && args.deep_view() == seq![
                        "apply"@,
                        "--3way"@,
                        "--index"@,
                        "--directory="@ + v.path,
                    ],
                    ImportStep::ListUnmerged => a matches ImportAction::Git(c)
                        && c.args.deep_view() == seq!["diff"@, "--name-only"@, "--diff-filter=U"@]
                        && c.opts.env@.len() == 0 && c.opts.input is None,
                    ImportStep::WriteState => a matches ImportAction::WriteSequencer(s)
                        && s.subrepo@ == v.name && s.path.deep_view() == Some(v.path)
                        && s.current@ == v.current.unwrap() && s.remaining.deep_view()
                        == v.candidates.skip(v.next + 1) && s.start_head.deep_view() == Some(
                        v.start_head,
                    ) && s.created.deep_view() == Some(v.created),
                    ImportStep::ListNames => a matches ImportAction::Git(c) && c.args.deep_view()
                        == seq!["diff-tree"@, "--name-only"@, "-r"@, v.base, v.current.unwrap().sha]
                        && c.opts.env@.len() == 0 && c.opts.input is None,
                    ImportStep::Warn => a matches ImportAction::Warn(w) && w.deep_view()
                        == v.warnings,
                    ImportStep::Commit => a matches ImportAction::Git(c) && c.args.deep_view()
                        == seq![
                        "commit"@,
                        "--allow-empty"@,
                        "--no-verify"@,
                        "-m"@,
                        with_trailer(
                            v.current.unwrap().message,
                            ORIGIN_TRAILER@,
                            v.current.unwrap().sha,
                        ),
                    ] && c.opts.env.deep_view() == seq![
                        ("GIT_AUTHOR_NAME"@, v.current.unwrap().author_name),
                        ("GIT_AUTHOR_EMAIL"@, v.current.unwrap().author_email),
                        ("GIT_AUTHOR_DATE"@, v.current.unwrap().author_date),
                    ] && c.opts.input is None,
                    ImportStep::ResolveHead => a matches ImportAction::Git(c)
                        && c.args.deep_view() == seq!["rev-parse"@, "HEAD"@] && c.opts.env@.len() == 0
                        && c.opts.input is None,
                    ImportStep::ClearState => a is ClearSequencer,
                    ImportStep::Finished => a is Finished,
                }
            }),
    {
        match self.step {
            ImportStep::ReadCommit => {
                let sha = &self.candidates[self.next];
                ImportAction::Git(
                    GitCall { args: read_commit_args(sha.as_str()), opts: GitOpts::default() },
                )
            },
            ImportStep::FindBase => {
                let cur = self.current.as_ref().unwrap();
                ImportAction::Git(
                    GitCall { args: parents_args(cur.sha.as_str()), opts: GitOpts::default() },
                )
            },
            ImportStep::ReadPatch => {
                let cur = self.current.as_ref().unwrap();
                ImportAction::ReadPatch(
                    crate::adopt::tree_patch_args(self.base.as_str(), cur.sha.as_str()),
                )
            },
            ImportStep::Apply => {
                let mut dir = String::new();
                dir.push_str("--directory=");
                dir.push_str(self.path.as_str());
                let mut a: Vec<String> = Vec::new();
                a.push("apply".to_owned());
                a.push("--3way".to_owned());
                a.push("--index".to_owned());
                a.push(dir);
                assert(a.deep_view() =~= seq![
                    "apply"@,
                    "--3way"@,
                    "--index"@,
                    "--directory="@ + self.path@,
                ]);
                ImportAction::ApplyPatch(a)
            },
            ImportStep::ListUnmerged => ImportAction::Git(
                GitCall { args: unmerged_paths_args(), opts: GitOpts::default() },
            ),
            ImportStep::WriteState => {
                let cur = self.current.as_ref().unwrap();
                let mut remaining: Vec<String> = Vec::new();
                let n = self.candidates.len();
                assert(self.next < n);
                let mut i = self.next + 1;
                let ghost cv = self.candidates.deep_view();
                while i < self.candidates.len()
                    invariant
                        self.next + 1 <= i <= self.candidates@.len(),
                        cv == self.candidates.deep_view(),
                        remaining.deep_view() == cv.subrange(self.next + 1, i as int),
                    decreases self.candidates@.len() - i,
                {
                    let ghost before = remaining.deep_view();
                    remaining.push(self.candidates[i].clone());
                    assert(cv[i as int] == self.candidates@[i as int]@);
                    assert(remaining.deep_view() =~= before.push(cv[i as int]));
                    assert(remaining.deep_view() =~= cv.subrange(self.next + 1, i + 1));
                    i = i + 1;
                }
                assert(cv.subrange(self.next + 1, cv.len() as int) =~= cv.skip(self.next + 1));
                ImportAction::WriteSequencer(
                    PullSequencer {
                        subrepo: self.name.clone(),
                        path: Some(self.path.clone()),
                        current: copy_commit(cur),
                        remaining,
                        start_head: Some(self.start_head.clone()),
                        created: Some(clone_strings(&self.created)),
                    },
                )
            },
            ImportStep::ListNames => {
                let cur = self.current.as_ref().unwrap();
                let mut a: Vec<String> = Vec::new();
                a.push("diff-tree".to_owned());
                a.push("--name-only".to_owned());
                a.push("-r".to_owned());
                a.push(self.base.clone());
                a.push(cur.sha.clone());
                assert(a.deep_view() =~= seq![
                    "diff-tree"@,
                    "--name-only"@,
                    "-r"@,
                    self.base@,
                    cur.sha@,
                ]);
                ImportAction::Git(GitCall { args: a, opts: GitOpts::default() })
            },
            ImportStep::Warn => ImportAction::Warn(clone_strings(&self.warnings)),
            ImportStep::Commit => {
                let cur = self.current.as_ref().unwrap();
                ImportAction::Git(commit_import(cur))
            },
            ImportStep::ResolveHead => {
                let mut a: Vec<String> = Vec::new();
                a.push("rev-parse".to_owned());
                a.push("HEAD".to_owned());
                assert(a.deep_view() =~= seq!["rev-parse"@, "HEAD"@]);
                ImportAction::Git(GitCall { args: a, opts: GitOpts::default() })
            },
            ImportStep::ClearState => ImportAction::ClearSequencer,
            ImportStep::Finished => ImportAction::Finished,
        }
    }
}

impl ImportRun {
    fn fail_with(&mut self, g: GitError)
        ensures
            final(self)@ == fail_git(old(self)@, g@),
    {
        self.step = ImportStep::Finished;
        self.outcome = Some(Err(ImportError::Git(g)));
    }

    fn proceed(&mut self)
        ensures
            final(self)@ == begin(old(self)@),
    {
        if self.next >= self.candidates.len() {
            self.step = ImportStep::Finished;
            self.outcome = Some(Ok(clone_strings(&self.imported)));
        } else {
            self.step = ImportStep::ReadCommit;
        }
    }

    /// The warnings about the touched paths `names`.
    fn warnings_for(&self, names: &str) -> (w: Vec<String>)
        ensures
            warnings_ok(self@, names@, w.deep_view()),
    {
        let mut w: Vec<String> = Vec::new();
        if names.is_empty() || self.exclude.len() == 0 {
            assert(w.deep_view() =~= Seq::<Seq<char>>::empty());
            return w;
        }
        let ghost pats = self.exclude.deep_view();
        let patterns = self.exclude.as_slice();
        assert(patterns@.map_values(|p: String| p@) =~= pats);
        match make_excluder(patterns) {
            Err(detail) => {
                let mut m = String::new();
                m.push_str("warning: ");
                m.push_str(self.name.as_str());
                m.push_str(": ");
                m.push_str(detail.as_str());
                w.push(m);
                assert(w.deep_view() =~= seq!["warning: "@ + self.name@ + ": "@ + detail@]);
                w
            },
            Ok(ex) => {
                let lines = crate::text::split_strings(names, '\n');
                let ghost lv = lines.deep_view();
                let ghost keep = |rel: Seq<char>| glob_set_match(pats, rel);
                let ghost say = |rel: Seq<char>|
                    exclude_warning_of(self.name@, self.path@, self.remote@, rel);
                let mut i: usize = 0;
                while i < lines.len()
                    invariant
                        i <= lines@.len(),
                        lv == lines.deep_view(),
                        ex@ == pats,
                        pats.len() > 0,
                        keep == (|rel: Seq<char>| glob_set_match(pats, rel)),
                        say == (|rel: Seq<char>|
                            exclude_warning_of(self.name@, self.path@, self.remote@, rel)),
                        w.deep_view() == lv.take(i as int).filter(keep).map_values(say),
                    decreases lines@.len() - i,
                {
                    let rel = &lines[i];
                    assert(lv[i as int] == rel@);
                    assert(lv.take(i + 1) =~= lv.take(i as int).push(rel@));
                    proof {
                        lv.take(i as int).lemma_filter_push(rel@, keep);
                    }
                    if ex.matches(rel.as_str()) {
                        let ghost before = w.deep_view();
                        w.push(
                            excluded_warning(
                                self.name.as_str(),
                                self.path.as_str(),
                                self.remote.as_str(),
                                rel.as_str(),
                            ),
                        );
                        assert(w.deep_view() =~= before.push(say(rel@)));
                        assert(lv.take(i as int).filter(keep).push(rel@).map_values(say)
                            =~= lv.take(i as int).filter(keep).map_values(say).push(say(rel@)));
                    }
                    i = i + 1;
                }
                assert(lv.take(lines@.len() as int) =~= lv);
                assert(w.deep_view() == matched_warnings(self@, names@));
                w
            },
        }
    }

    fn on_read_commit(&mut self, event: ImportEvent)
        requires
            run_ok(old(self)@),
            old(self)@.step == ImportStep::ReadCommit,
        ensures
            run_ok(final(self)@),
            stepped(old(self)@, event, final(self)@),
    {
        match event {
            ImportEvent::Output(Ok(out)) => {
                let sha = self.candidates[self.next].clone();
                assert(self.candidates.deep_view()[self.next as int] == sha@);
                match crate::git::read_commit(sha.as_str(), out.as_str()) {
                    Ok(m) => {
                        let c = read_sequencer_commit(m);
                        assert(c@ == commit_view_of(out@));
                        self.current = Some(c);
                        self.step = ImportStep::FindBase;
                    },
                    Err(g) => {
                        assert(g.git_args.deep_view() =~= crate::git::read_commit_args_of(
                            sha@,
                        ));
                        self.fail_with(g);
                    },
                }
            },
            ImportEvent::Output(Err(g)) => self.fail_with(g),
            _ => {},
        }
    }

    fn on_find_base(&mut self, event: ImportEvent)
        requires
            run_ok(old(self)@),
            old(self)@.step == ImportStep::FindBase,
        ensures
            run_ok(final(self)@),
            stepped(old(self)@, event, final(self)@),
    {
        match event {
            ImportEvent::Output(Ok(line)) => {
                self.base = diff_base(line.as_str());
                self.step = ImportStep::ReadPatch;
            },
            ImportEvent::Output(Err(g)) => self.fail_with(g),
            _ => {},
        }
    }

    fn on_read_patch(&mut self, event: ImportEvent)
        requires
            run_ok(old(self)@),
            old(self)@.step == ImportStep::ReadPatch,
        ensures
            run_ok(final(self)@),
            stepped(old(self)@, event, final(self)@),
    {
        match event {
            ImportEvent::Patch(Ok(empty)) => {
                if empty {
                    self.step = ImportStep::ListNames;
                } else {
                    self.step = ImportStep::Apply;
                }
            },
            ImportEvent::Patch(Err(g)) => self.fail_with(g),
            _ => {},
        }
    }

    fn on_apply(&mut self, event: ImportEvent)
        requires
            run_ok(old(self)@),
            old(self)@.step == ImportStep::Apply,
        ensures
            run_ok(final(self)@),
            stepped(old(self)@, event, final(self)@),
    {
        match event {
            ImportEvent::Output(Ok(_)) => {
                self.step = ImportStep::ListNames;
            },
            ImportEvent::Output(Err(g)) => {
                self.apply_error = Some(g);
                self.step = ImportStep::ListUnmerged;
            },
            _ => {},
        }
    }

    fn on_list_unmerged(&mut self, event: ImportEvent)
        requires
            run_ok(old(self)@),
            old(self)@.step == ImportStep::ListUnmerged,
        ensures
            run_ok(final(self)@),
            stepped(old(self)@, event, final(self)@),
    {
        match event {
            ImportEvent::Output(Ok(out)) => {
                let conflicts = unmerged_paths(out.as_str());
                if conflicts.len() == 0 {
                    let g = match &self.apply_error {
                        Some(e) => clone_git_error(e),
                        None => GitError {
                            git_args: Vec::new(),
                            exit_code: None,
                            stderr: String::new(),
                        },
                    };
                    self.fail_with(g);
                } else {
                    self.conflicts = conflicts;
                    self.step = ImportStep::WriteState;
                }
            },
            ImportEvent::Output(Err(g)) => self.fail_with(g),
            _ => {},
        }
    }

    fn on_write_state(&mut self, event: ImportEvent)
        requires
            run_ok(old(self)@),
            old(self)@.step == ImportStep::WriteState,
        ensures
            run_ok(final(self)@),
            stepped(old(self)@, event, final(self)@),
    {
        match event {
            ImportEvent::Written(Ok(p)) => {
                let sha = self.candidates[self.next].clone();
                assert(self.candidates.deep_view()[self.next as int] == sha@);
                let conflict = ImportConflict {
                    subrepo_name: self.name.clone(),
                    pub_sha: sha,
                    conflicts: clone_strings(&self.conflicts),
                    state_path: p,
                };
                self.step = ImportStep::Finished;
                self.outcome = Some(Err(ImportError::Conflict(conflict)));
            },
            ImportEvent::Written(Err(m)) => {
                self.step = ImportStep::Finished;
                self.outcome = Some(Err(ImportError::Io(m)));
            },
            _ => {},
        }
    }

    fn on_list_names(&mut self, event: ImportEvent)
        requires
            run_ok(old(self)@),
            old(self)@.step == ImportStep::ListNames,
        ensures
            run_ok(final(self)@),
            stepped(old(self)@, event, final(self)@),
    {
        match event {
            ImportEvent::Output(Ok(names)) => {
                let w = self.warnings_for(names.as_str());
                if w.len() > 0 {
                    self.step = ImportStep::Warn;
                } else {
                    self.step = ImportStep::Commit;
                }
                self.warnings = w;
            },
            ImportEvent::Output(Err(g)) => self.fail_with(g),
            _ => {},
        }
    }

    fn on_warn(&mut self, event: ImportEvent)
        requires
            run_ok(old(self)@),
            old(self)@.step == ImportStep::Warn,
        ensures
            run_ok(final(self)@),
            stepped(old(self)@, event, final(self)@),
    {
        match event {
            ImportEvent::Noted => {
                self.warnings = Vec::new();
                self.step = ImportStep::Commit;
                assert(self.warnings.deep_view() =~= Seq::<Seq<char>>::empty());
            },
            _ => {},
        }
    }

    fn on_commit(&mut self, event: ImportEvent)
        requires
            run_ok(old(self)@),
            old(self)@.step == ImportStep::Commit,
        ensures
            run_ok(final(self)@),
            stepped(old(self)@, event, final(self)@),
    {
        match event {
            ImportEvent::Output(Ok(_)) => {
                self.step = ImportStep::ResolveHead;
            },
            ImportEvent::Output(Err(g)) => self.fail_with(g),
            _ => {},
        }
    }

    fn on_resolve_head(&mut self, event: ImportEvent)
        requires
            run_ok(old(self)@),
            old(self)@.step == ImportStep::ResolveHead,
        ensures
            run_ok(final(self)@),
            stepped(old(self)@, event, final(self)@),
    {
        match event {
            ImportEvent::Output(Ok(head)) => {
                let ghost v = self@;
                let ghost hv = head@;
                if self.adopt_start {
                    self.start_head = head.clone();
                }
                self.adopt_start = false;
                let ghost created0 = self.created.deep_view();
                self.created.push(head);
                assert(self.created.deep_view() =~= created0.push(hv));
                let cur = self.current.take().unwrap();
                let ghost imported0 = self.imported.deep_view();
                if self.resuming {
                    let ghost sv = cur.sha@;
                    self.imported.push(cur.sha);
                    assert(self.imported.deep_view() =~= imported0.push(sv));
                    assert(self@.imported.skip(self@.imported.len() - self@.next)
                        =~= self@.candidates.take(self@.next));
                    self.step = ImportStep::ClearState;
                    self.resuming = false;
                    assert(self@ == after_commit(v, hv));
                } else {
                    let n = self.candidates.len();
                    assert(self.next < n);
                    let sha = self.candidates[self.next].clone();
                    assert(self.candidates.deep_view()[self.next as int] == sha@);
                    let ghost sv = sha@;
                    self.imported.push(sha);
                    assert(self.imported.deep_view() =~= imported0.push(sv));
                    let ghost n0 = v.next;
                    let ghost cv = v.candidates;
                    assert(self.imported.deep_view().skip(self.imported.deep_view().len() - (n0 + 1))
                        =~= imported0.skip(imported0.len() - n0).push(sv));
                    assert(cv.take(n0 + 1) =~= cv.take(n0).push(cv[n0]));
                    self.next = self.next + 1;
                    self.proceed();
                }
            },
            ImportEvent::Output(Err(g)) => self.fail_with(g),
            _ => {},
        }
    }

    fn on_clear_state(&mut self, event: ImportEvent)
        requires
            run_ok(old(self)@),
            old(self)@.step == ImportStep::ClearState,
        ensures
            run_ok(final(self)@),
            stepped(old(self)@, event, final(self)@),
    {
        match event {
            ImportEvent::Noted => self.proceed(),
            _ => {},
        }
    }

    /// Take in what happened to the last request and move on.
    pub fn advance(&mut self, event: ImportEvent)
        requires
            run_ok(old(self)@),
        ensures
            run_ok(final(self)@),
            stepped(old(self)@, event, final(self)@),
    {
        match self.step {
            ImportStep::ReadCommit => self.on_read_commit(event),
            ImportStep::FindBase => self.on_find_base(event),
            ImportStep::ReadPatch => self.on_read_patch(event),
            ImportStep::Apply => self.on_apply(event),
            ImportStep::ListUnmerged => self.on_list_unmerged(event),
            ImportStep::WriteState => self.on_write_state(event),
            ImportStep::ListNames => self.on_list_names(event),
            ImportStep::Warn => self.on_warn(event),
            ImportStep::Commit => self.on_commit(event),
            ImportStep::ResolveHead => self.on_resolve_head(event),
            ImportStep::ClearState => self.on_clear_state(event),
            ImportStep::Finished => {},
        }
    }

    /// The outcome, once the replay is finished: the standalone commits it imported, or why
    /// it stopped.
    pub fn outcome(self) -> (r: Option<Result<ImportOutcome, ImportError>>)
        ensures
            match self@.outcome {
                Some(Ok(imported)) => r matches Some(Ok(o)) && o.imported.deep_view() == imported,
                Some(Err(ev)) => r matches Some(Err(e)) && e@ == ev,
                None => r is None,
            },
    {
        match self.outcome {
            Some(Ok(imported)) => Some(Ok(ImportOutcome { imported })),
            Some(Err(e)) => Some(Err(e)),
            None => None,
        }
    }
}



/// **A replay takes the public commit's author as git shows it.** When the replay reads a
/// commit and git printed it in the shape `read_commit_args` asks for (no NUL inside the
/// header fields), the commit it goes on with has that output's hash, whole message and
/// author name, email and date: the author date is `%ad`, never the committer's `%cd`.
pub proof fn lemma_a_replay_reads_the_public_author(
    v: RunView,
    out: String,
    w: RunView,
    sha: Seq<char>,
    an: Seq<char>,
    ae: Seq<char>,
    ad: Seq<char>,
    cn: Seq<char>,
    ce: Seq<char>,
    cd: Seq<char>,
    message: Seq<char>,
)
    requires
        v.step == ImportStep::ReadCommit,
        no_nul(sha),
        no_nul(an),
        no_nul(ae),
        no_nul(ad),
        no_nul(cn),
        no_nul(ce),
        no_nul(cd),
        out@ == show_output(sha, an, ae, ad, cn, ce, cd, message),
        stepped(v, ImportEvent::Output(Ok(out)), w),
    ensures
        w.step == ImportStep::FindBase,
        w.current == Some(
            CommitView {
                sha: sha,
                message: message,
                author_name: an,
                author_email: ae,
                author_date: ad,
            },
        ),
{
    lemma_show_output_split(sha, an, ae, ad, cn, ce, cd, message);
    let parts = split(out@, '\0');
    crate::text::lemma_split_from_nonempty(message, '\0', seq![]);
    assert(parts.skip(7) =~= split(message, '\0'));
    assert(parts.len() >= 8);
    assert(commit_view_of(out@) == CommitView {
        sha: sha,
        message: message,
        author_name: an,
        author_email: ae,
        author_date: ad,
    });
}

} // verus!
