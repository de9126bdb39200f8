//! `monosplice pull`: import new standalone-repo commits into the monorepo, plus the two
//! ways out of a conflict: `--continue` finishes the import the user just resolved,
//! `--abort` throws it away. Here are the decisions that come before any git call.

use vstd::prelude::*;

use crate::config::ResolvedSubrepo;
use crate::importer::{import_error_message, AbortOutcome, ImportError, ImportErrorView, PullSequencer};
use crate::report::{find_subrepo, json_quote, json_quoted, lemma_find_subrepo, Failure, SubrepoFailure};
use crate::text::{chars_of, decimal, decimal_of, join, join_chars, str_eq, string_of};

verus! {

/// The arguments of `pull`.
#[derive(Debug)]
pub struct PullArgs {
    /// Only pull this subrepo (defaults to all).
    pub subrepo: Option<String>,
    /// Finish an import that stopped on a conflict, after resolving and `git add`
    /// (`--continue`).
    pub continue_pull: bool,
    /// Abandon an import that stopped on a conflict, restoring the pre-pull state.
    pub abort: bool,
    /// List the commits a pull would import and write nothing.
    pub dry_run: bool,
}

/// Which way `pull` goes.
#[derive(Debug, Clone, Copy, PartialEq, Eq, Structural)]
pub enum PullMode {
    /// Preview a fresh pull.
    DryRun,
    /// Throw the interrupted import away.
    Abort,
    /// Finish the interrupted import, then carry on.
    Continue,
    /// A fresh pull.
    Pull,
}

pub open spec fn both_ways_text() -> Seq<char> {
    "--continue and --abort do the opposite things, so monosplice will not guess between them.\nNothing was changed. Run `monosplice pull --continue` to finish the import, or `monosplice pull --abort` to throw it away."@
}

pub open spec fn dry_run_text(other: Seq<char>) -> Seq<char> {
    "--dry-run only previews a fresh pull, so it cannot be combined with "@ + other
        + ".\nNothing was changed. Run `monosplice pull --dry-run` on its own, or `monosplice pull "@
        + other + "` to act on the interrupted import."@
}

/// The mode the flags ask for, or the refusal of a combination that makes no sense.
pub fn run(args: &PullArgs) -> (r: Result<PullMode, Failure>)
    ensures
        args.abort && args.continue_pull ==> (r matches Err(f) && f.message@ == both_ways_text()
            && f.exit_code == 2),
        !(args.abort && args.continue_pull) && args.dry_run && (args.abort || args.continue_pull)
            ==> (r matches Err(f) && f.exit_code == 2 && f.message@ == dry_run_text(
            if args.abort {
                "--abort"@
            } else {
                "--continue"@
            },
        )),
        !args.abort && !args.continue_pull ==> r == Ok::<PullMode, Failure>(
            if args.dry_run {
                PullMode::DryRun
            } else {
                PullMode::Pull
            },
        ),
        !args.dry_run && args.abort && !args.continue_pull ==> r == Ok::<PullMode, Failure>(
            PullMode::Abort,
        ),
        !args.dry_run && !args.abort && args.continue_pull ==> r == Ok::<PullMode, Failure>(
            PullMode::Continue,
        ),
{
    if args.abort && args.continue_pull {
        return Err(
            Failure::error(
                "--continue and --abort do the opposite things, so monosplice will not guess between them.\nNothing was changed. Run `monosplice pull --continue` to finish the import, or `monosplice pull --abort` to throw it away.",
            ),
        );
    }
    if args.dry_run && (args.abort || args.continue_pull) {
        let other = if args.abort {
            "--abort"
        } else {
            "--continue"
        };
        let mut m = String::new();
        m.push_str("--dry-run only previews a fresh pull, so it cannot be combined with ");
        m.push_str(other);
        m.push_str(".\nNothing was changed. Run `monosplice pull --dry-run` on its own, or `monosplice pull ");
        m.push_str(other);
        m.push_str("` to act on the interrupted import.");
        return Err(Failure::error(m.as_str()));
    }
    if args.dry_run {
        Ok(PullMode::DryRun)
    } else if args.abort {
        Ok(PullMode::Abort)
    } else if args.continue_pull {
        Ok(PullMode::Continue)
    } else {
        Ok(PullMode::Pull)
    }
}

/// `--abort` with no pull in progress.
pub const NOTHING_TO_ABORT: &'static str = "No pull is in progress — nothing to abort.\nNothing was changed. Run `monosplice pull` to import new standalone-repo commits.";

/// The interrupted pull names a subrepo the config no longer has.
pub fn missing_entry(state: &PullSequencer) -> (f: Failure)
    ensures
        f.exit_code == 2,
        f.message@ == "The interrupted pull references subrepo "@ + json_quoted(state.subrepo@)
            + ", which is no longer in your config.\nNothing was changed. Restore the entry in your config, or run `monosplice pull --abort` to throw the import away."@,
{
    let mut m = String::new();
    m.push_str("The interrupted pull references subrepo ");
    m.push_str(json_quote(state.subrepo.as_str()).as_str());
    m.push_str(
        ", which is no longer in your config.\nNothing was changed. Restore the entry in your config, or run `monosplice pull --abort` to throw the import away.",
    );
    Failure::error(m.as_str())
}

/// The directory an abort may touch: the one the sequencer recorded, else the configured
/// one of the subrepo it names (so an abort still works when the entry was removed).
pub fn abort_path(subrepos: &Vec<ResolvedSubrepo>, state: &PullSequencer) -> (r: Result<
    String,
    Failure,
>)
    ensures
        match state.path {
            Some(p) => r matches Ok(q) && q@ == p@,
            None => match r {
                Ok(q) => exists|i: int|
                    0 <= i < subrepos@.len() && subrepos@[i].name@ == state.subrepo@
                        && subrepos@[i].path@ == q@ && forall|j: int|
                        0 <= j < i ==> subrepos@[j].name@ != state.subrepo@,
                Err(f) => (forall|i: int|
                    0 <= i < subrepos@.len() ==> subrepos@[i].name@ != state.subrepo@)
                    && f.exit_code == 2 && f.message@ == "The interrupted pull references subrepo "@ + json_quoted(
                    state.subrepo@,
                ) + ", which is no longer in your config.\nNothing was changed. Restore the entry in your config, or run `monosplice pull --abort` to throw the import away."@,
            },
        },
{
    if let Some(p) = &state.path {
        return Ok(p.clone());
    }
    let mut i: usize = 0;
    while i < subrepos.len()
        invariant
            i <= subrepos@.len(),
            state.path is None,
            forall|j: int| 0 <= j < i ==> subrepos@[j].name@ != state.subrepo@,
        decreases subrepos@.len() - i,
    {
        if crate::text::str_eq(subrepos[i].name.as_str(), state.subrepo.as_str()) {
            return Ok(subrepos[i].path.clone());
        }
        i = i + 1;
    }
    Err(missing_entry(state))
}

/// `--continue` with no pull in progress.
pub const NOTHING_TO_CONTINUE: &'static str = "No pull is in progress — nothing to continue.";

/// A fresh pull (or a preview of one) while an interrupted import waits.
pub fn pull_in_progress(state: &PullSequencer) -> (f: Failure)
    ensures
        f.exit_code == 2,
        f.message@ == "A pull of "@ + state.subrepo@
            + " is in progress. Run `monosplice pull --continue` to finish it, or `monosplice pull --abort` to throw it away."@,
{
    let mut m = String::new();
    m.push_str("A pull of ");
    m.push_str(state.subrepo.as_str());
    m.push_str(
        " is in progress. Run `monosplice pull --continue` to finish it, or `monosplice pull --abort` to throw it away.",
    );
    Failure::error(m.as_str())
}

/// The refusal of an interrupted pull whose subrepo is no longer configured.
pub open spec fn missing_entry_text(name: Seq<char>) -> Seq<char> {
    "The interrupted pull references subrepo "@ + json_quoted(name)
        + ", which is no longer in your config.\nNothing was changed. Restore the entry in your config, or run `monosplice pull --abort` to throw the import away."@
}

/// What `pull` goes on to do once the mode and the sequencer are known.
#[derive(Debug)]
pub enum PullPlan {
    /// Throw the interrupted import away, restoring this directory.
    Abort(String),
    /// Finish the interrupted import of the subrepo at this index, then carry on.
    Continue(usize),
    /// A fresh pull, or a preview of one: nothing is in progress.
    Fresh,
}

/// The decisions `pull` makes from its mode, the interrupted import (if any) and the
/// configured subrepos, before any git call: each mode's refusal when a pull is or is not in
/// progress, and where an abort or a continue applies.
pub fn plan_pull(mode: PullMode, state: &Option<PullSequencer>, subrepos: &Vec<ResolvedSubrepo>) -> (r:
    Result<PullPlan, Failure>)
    ensures
        mode is Abort ==> match state {
            None => r matches Err(f) && f.exit_code == 2 && f.message@ == NOTHING_TO_ABORT@,
            Some(st) => match st.path {
                Some(p) => r matches Ok(PullPlan::Abort(q)) && q@ == p@,
                None => match find_subrepo(subrepos@, st.subrepo@) {
                    Some(i) => r matches Ok(PullPlan::Abort(q)) && q@ == subrepos@[i].path@,
                    None => r matches Err(f) && f.exit_code == 2 && f.message@ == missing_entry_text(
                        st.subrepo@,
                    ),
                },
            },
        },
        mode is Continue ==> match state {
            None => r matches Err(f) && f.exit_code == 2 && f.message@ == NOTHING_TO_CONTINUE@,
            Some(st) => match find_subrepo(subrepos@, st.subrepo@) {
                Some(i) => r matches Ok(PullPlan::Continue(k)) && k == i,
                None => r matches Err(f) && f.exit_code == 2 && f.message@ == missing_entry_text(
                    st.subrepo@,
                ),
            },
        },
        (mode is DryRun || mode is Pull) ==> match state {
            Some(st) => r matches Err(f) && f.exit_code == 2 && f.message@ == "A pull of "@
                + st.subrepo@
                + " is in progress. Run `monosplice pull --continue` to finish it, or `monosplice pull --abort` to throw it away."@,
            None => r matches Ok(PullPlan::Fresh),
        },
{
    match mode {
        PullMode::Abort => match state {
            None => Err(Failure::error(NOTHING_TO_ABORT)),
            Some(st) => {
                let r = abort_path(subrepos, st);
                proof {
                    if st.path is None {
                        if r is Ok {
                            let i = choose|i: int|
                                0 <= i < subrepos@.len() && subrepos@[i].name@ == st.subrepo@
                                    && subrepos@[i].path@ == r->Ok_0@ && forall|j: int|
                                    0 <= j < i ==> subrepos@[j].name@ != st.subrepo@;
                            lemma_find_subrepo(subrepos@, st.subrepo@, i);
                        }
                    }
                }
                match r {
                    Ok(q) => Ok(PullPlan::Abort(q)),
                    Err(f) => Err(f),
                }
            },
        },
        PullMode::Continue => match state {
            None => Err(Failure::error(NOTHING_TO_CONTINUE)),
            Some(st) => {
                let mut i: usize = 0;
                while i < subrepos.len()
                    invariant
                        mode is Continue,
                        *state == Some(*st),
                        i <= subrepos@.len(),
                        forall|j: int| 0 <= j < i ==> subrepos@[j].name@ != st.subrepo@,
                    decreases subrepos@.len() - i,
                {
                    if crate::text::str_eq(subrepos[i].name.as_str(), st.subrepo.as_str()) {
                        proof {
                            lemma_find_subrepo(subrepos@, st.subrepo@, i as int);
                        }
                        return Ok(PullPlan::Continue(i));
                    }
                    i = i + 1;
                }
                Err(missing_entry(st))
            },
        },
        PullMode::DryRun | PullMode::Pull => match state {
            Some(st) => Err(pull_in_progress(st)),
            None => Ok(PullPlan::Fresh),
        },
    }
}

/// The walk `--continue` takes: the interrupted subrepo first, then the selected ones other
/// than it, in their order.
pub fn continue_walk<'a>(
    interrupted: &'a ResolvedSubrepo,
    selected: Vec<&'a ResolvedSubrepo>,
) -> (r: Vec<&'a ResolvedSubrepo>)
    ensures
        r@.len() >= 1,
        *r@[0] == *interrupted,
        r@.drop_first() == selected@.filter(|s: &'a ResolvedSubrepo| s.name@ != interrupted.name@),
{
    let mut walk: Vec<&'a ResolvedSubrepo> = Vec::new();
    walk.push(interrupted);
    let ghost keep = |s: &'a ResolvedSubrepo| s.name@ != interrupted.name@;
    let mut i: usize = 0;
    assert(selected@.take(0).filter(keep) =~= Seq::<&'a ResolvedSubrepo>::empty());
    while i < selected.len()
        invariant
            i <= selected@.len(),
            walk@.len() >= 1,
            *walk@[0] == *interrupted,
            keep == (|s: &'a ResolvedSubrepo| s.name@ != interrupted.name@),
            walk@.drop_first() == selected@.take(i as int).filter(keep),
        decreases selected@.len() - i,
    {
        let s = selected[i];
        proof {
            reveal(Seq::filter);
            assert(selected@.take(i + 1).drop_last() =~= selected@.take(i as int));
        }
        let ghost before = walk@;
        if !str_eq(s.name.as_str(), interrupted.name.as_str()) {
            walk.push(s);
            assert(walk@.drop_first() =~= before.drop_first().push(s));
        } else {
            assert(walk@ == before);
        }
        i = i + 1;
    }
    assert(selected@.take(selected@.len() as int) =~= selected@);
    walk
}

/// Each unmerged file on a line of its own, indented.
pub open spec fn unmerged_lines(files: Seq<Seq<char>>) -> Seq<Seq<char>> {
    files.map_values(|f: Seq<char>| "  "@ + f)
}

/// How a still-conflicted import is resolved or thrown away.
pub const RESOLVE_OR_ABORT: &'static str = "  monosplice pull --continue\nor throw the import away with:\n  monosplice pull --abort";

/// What stops `--continue` before it commits anything: files the merge left unmerged. `None`
/// once every one is resolved.
pub fn still_unmerged(subrepo: &ResolvedSubrepo, unmerged: &Vec<String>) -> (r: Option<Failure>)
    ensures
        unmerged@.len() == 0 ==> r is None,
        unmerged@.len() > 0 ==> (r matches Some(f) && f.exit_code == 2 && f.message@
            == subrepo.name@ + ": these files are still unmerged:\n"@ + join(
            unmerged_lines(unmerged.deep_view()),
            "\n"@,
        ) + "\nNothing was changed. Resolve them, `git add` each one, then run:\n"@
            + RESOLVE_OR_ABORT@),
{
    if unmerged.len() == 0 {
        return None;
    }
    let mut lines: Vec<Vec<char>> = Vec::new();
    let mut i: usize = 0;
    while i < unmerged.len()
        invariant
            i <= unmerged@.len(),
            lines.deep_view() == unmerged_lines(unmerged.deep_view().take(i as int)),
        decreases unmerged@.len() - i,
    {
        let mut l = chars_of("  ");
        let f = chars_of(unmerged[i].as_str());
        let ghost before = lines.deep_view();
        let mut k: usize = 0;
        let ghost start = l@;
        while k < f.len()
            invariant
                k <= f@.len(),
                l@ == start + f@.take(k as int),
            decreases f@.len() - k,
        {
            l.push(f[k]);
            assert(f@.take(k + 1) =~= f@.take(k as int).push(f@[k as int]));
            k = k + 1;
        }
        assert(f@.take(f@.len() as int) =~= f@);
        assert(l@ == "  "@ + unmerged.deep_view()[i as int]);
        let ghost lv = l@;
        assert(l.deep_view() =~= l@);
        lines.push(l);
        assert(lines.deep_view() =~= before.push(lv));
        assert(unmerged.deep_view().take(i + 1) =~= unmerged.deep_view().take(i as int).push(
            unmerged@[i as int]@,
        ));
        assert(lines.deep_view() =~= unmerged_lines(unmerged.deep_view().take(i + 1)));
        i = i + 1;
    }
    assert(unmerged.deep_view().take(unmerged@.len() as int) =~= unmerged.deep_view());
    let listed = join_chars(&lines, "\n");
    let mut m = String::new();
    m.push_str(subrepo.name.as_str());
    m.push_str(": these files are still unmerged:\n");
    m.push_str(string_of(listed.as_slice()).as_str());
    m.push_str("\nNothing was changed. Resolve them, `git add` each one, then run:\n");
    m.push_str(RESOLVE_OR_ABORT);
    Some(Failure::error(m.as_str()))
}

/// What `--abort` reports, line by line, once it is done.
pub open spec fn abort_report(state: PullSequencer, sub_path: Seq<char>, result: AbortOutcome) -> Seq<
    Seq<char>,
> {
    let name = state.subrepo@;
    if !result.rewound {
        seq![
            "✓ "@ + name + ": pull aborted — dropped the conflicted import of "@ + state.current.sha@
                + " and restored "@ + sub_path + "/."@,
            "  The "@ + decimal(result.kept@.len())
                + " commit(s) this pull had already imported were KEPT: monorepo history has moved since they landed, and monosplice will not rewind past work it did not create."@
                + match result.start_head {
                None => Seq::<char>::empty(),
                Some(h) => " Pre-pull HEAD was "@ + h@ + " — `git reset --hard "@ + h@
                    + "` would undo the rest."@,
            },
        ]
    } else if result.discarded@.len() == 0 {
        seq![
            "✓ "@ + name + ": pull aborted — nothing had been imported; "@ + sub_path
                + "/ is as it was before the pull."@,
        ]
    } else {
        seq![
            "✓ "@ + name + ": pull aborted — rewound "@ + decimal(result.discarded@.len())
                + " imported commit(s); "@ + sub_path + "/ is as it was before the pull."@,
        ]
    }
}

/// What `--abort` reports once it is done: whether history was rewound, and when it was
/// not, how many imported commits were kept and how to undo them by hand.
pub fn describe_abort(state: &PullSequencer, sub_path: &str, result: &AbortOutcome) -> (r: Vec<
    String,
>)
    ensures
        r.deep_view() == abort_report(*state, sub_path@, *result),
{
    let mut lines: Vec<String> = Vec::new();
    if !result.rewound {
        let mut first = String::new();
        first.push_str("✓ ");
        first.push_str(state.subrepo.as_str());
        first.push_str(": pull aborted — dropped the conflicted import of ");
        first.push_str(state.current.sha.as_str());
        first.push_str(" and restored ");
        first.push_str(sub_path);
        first.push_str("/.");
        let mut second = String::new();
        second.push_str("  The ");
        let kept = decimal_of(result.kept.len());
        second.push_str(string_of(kept.as_slice()).as_str());
        second.push_str(
            " commit(s) this pull had already imported were KEPT: monorepo history has moved since they landed, and monosplice will not rewind past work it did not create.",
        );
        let ghost base = second@;
        match &result.start_head {
            None => {
                assert(base + Seq::<char>::empty() =~= base);
            },
            Some(h) => {
                second.push_str(" Pre-pull HEAD was ");
                second.push_str(h.as_str());
                second.push_str(" — `git reset --hard ");
                second.push_str(h.as_str());
                second.push_str("` would undo the rest.");
            },
        }
        lines.push(first);
        lines.push(second);
        assert(lines.deep_view() =~= seq![first@, second@]);
        assert(first@ =~= abort_report(*state, sub_path@, *result)[0]);
        assert(second@ =~= abort_report(*state, sub_path@, *result)[1]);
    } else if result.discarded.len() == 0 {
        let mut only = String::new();
        only.push_str("✓ ");
        only.push_str(state.subrepo.as_str());
        only.push_str(": pull aborted — nothing had been imported; ");
        only.push_str(sub_path);
        only.push_str("/ is as it was before the pull.");
        lines.push(only);
        assert(lines.deep_view() =~= seq![only@]);
        assert(only@ =~= abort_report(*state, sub_path@, *result)[0]);
    } else {
        let mut only = String::new();
        only.push_str("✓ ");
        only.push_str(state.subrepo.as_str());
        only.push_str(": pull aborted — rewound ");
        let n = decimal_of(result.discarded.len());
        only.push_str(string_of(n.as_slice()).as_str());
        only.push_str(" imported commit(s); ");
        only.push_str(sub_path);
        only.push_str("/ is as it was before the pull.");
        lines.push(only);
        assert(lines.deep_view() =~= seq![only@]);
        assert(only@ =~= abort_report(*state, sub_path@, *result)[0]);
    }
    assert(lines.deep_view() =~= abort_report(*state, sub_path@, *result));
    lines
}

/// How one subrepo's import failure is reported: a conflict halts the walk and lists the
/// files to resolve; anything else is collected with the rest.
pub fn import_failure(subrepo: &ResolvedSubrepo, err: &ImportError) -> (f: SubrepoFailure)
    ensures
        match err@ {
            ImportErrorView::Conflict { conflicts, .. } => if conflicts.len() > 0 {
                f.halt && f.message@ == subrepo.name@ + ": "@ + import_error_message(err@) + ":\n"@
                    + join(conflicts, "\n"@)
                    + "\nResolve them, `git add` each one, then run `monosplice pull --continue`."@
            } else {
                !f.halt && f.message@ == subrepo.name@ + ": "@ + import_error_message(err@)
            },
            _ => !f.halt && f.message@ == subrepo.name@ + ": "@ + import_error_message(err@),
        },
{
    let mut m = String::new();
    m.push_str(subrepo.name.as_str());
    m.push_str(": ");
    m.push_str(err.to_string().as_str());
    match err {
        ImportError::Conflict(c) => {
            if c.conflicts.len() > 0 {
                let mut pieces: Vec<Vec<char>> = Vec::new();
                let mut i: usize = 0;
                while i < c.conflicts.len()
                    invariant
                        i <= c.conflicts@.len(),
                        pieces.deep_view() == c.conflicts.deep_view().take(i as int),
                    decreases c.conflicts@.len() - i,
                {
                    let ghost before = pieces.deep_view();
                    let p = chars_of(c.conflicts[i].as_str());
                    assert(p.deep_view() =~= p@);
                    pieces.push(p);
                    assert(pieces.deep_view() =~= before.push(c.conflicts@[i as int]@));
                    assert(c.conflicts.deep_view().take(i + 1) =~= c.conflicts.deep_view().take(
                        i as int,
                    ).push(c.conflicts@[i as int]@));
                    i = i + 1;
                }
                assert(c.conflicts.deep_view().take(c.conflicts@.len() as int)
                    =~= c.conflicts.deep_view());
                let listed = join_chars(&pieces, "\n");
                m.push_str(":\n");
                m.push_str(string_of(listed.as_slice()).as_str());
                m.push_str(
                    "\nResolve them, `git add` each one, then run `monosplice pull --continue`.",
                );
                return SubrepoFailure::halting(m.as_str());
            }
            SubrepoFailure::new(m.as_str())
        },
        _ => SubrepoFailure::new(m.as_str()),
    }
}

/// What a pull says of one subrepo once it is done.
pub fn report(subrepo: &ResolvedSubrepo, count: usize) -> (r: String)
    ensures
        r@ == (if count == 0 {
            "✓ "@ + subrepo.name@ + ": up to date"@
        } else {
            "✓ "@ + subrepo.name@ + ": imported "@ + crate::text::decimal(count as nat)
                + " commit(s)"@
        }),
{
    let mut m = String::new();
    m.push_str("✓ ");
    m.push_str(subrepo.name.as_str());
    if count == 0 {
        m.push_str(": up to date");
    } else {
        m.push_str(": imported ");
        let digits = crate::text::decimal_of(count);
        m.push_str(crate::text::string_of(digits.as_slice()).as_str());
        m.push_str(" commit(s)");
    }
    m
}

} // verus!
