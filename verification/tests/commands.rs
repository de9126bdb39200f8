use monosplice::commands::pull::{self, PullArgs, PullMode};
use monosplice::commands::tag::{self, TagArgs};
use monosplice::commands::{attach, detach, doctor, push, status, sync};
use monosplice::config::{Project, ResolvedSubrepo};
use monosplice::git::GitError;
use monosplice::importer::{AbortOutcome, ImportConflict, ImportError, PullSequencer, PullSequencerCommit};

fn subrepo(name: &str, upstream: Option<&str>) -> ResolvedSubrepo {
    ResolvedSubrepo {
        name: name.to_string(),
        path: format!("packages/{name}"),
        remote: "fork".to_string(),
        upstream: upstream.map(str::to_string),
        branch: "main".to_string(),
        push_branch: "patches".to_string(),
        exclude: Vec::new(),
        rewrite_message: None,
        transform: None,
        scan: None,
    }
}

fn args(cont: bool, abort: bool, dry_run: bool) -> PullArgs {
    PullArgs { subrepo: None, continue_pull: cont, abort, dry_run }
}

#[test]
fn pull_refuses_flags_that_contradict_each_other() {
    let both = pull::run(&args(true, true, false)).err().expect("refused");
    assert!(both.message.starts_with("--continue and --abort do the opposite things"));
    assert_eq!(both.exit_code, 2);
    let dry = pull::run(&args(false, true, true)).err().expect("refused");
    assert!(dry.message.starts_with("--dry-run only previews a fresh pull, so it cannot be combined with --abort."));
    let dry = pull::run(&args(true, false, true)).err().expect("refused");
    assert!(dry.message.contains("`monosplice pull --continue` to act on the interrupted import."));
    assert!(pull::run(&args(false, false, true)).ok() == Some(PullMode::DryRun));
    assert!(pull::run(&args(false, false, false)).ok() == Some(PullMode::Pull));
    assert!(pull::run(&args(true, false, false)).ok() == Some(PullMode::Continue));
    assert!(pull::run(&args(false, true, false)).ok() == Some(PullMode::Abort));
}

fn state(path: Option<&str>) -> PullSequencer {
    PullSequencer {
        subrepo: "core".to_string(),
        path: path.map(str::to_string),
        current: PullSequencerCommit {
            sha: "p".to_string(),
            message: "m".to_string(),
            author_name: "a".to_string(),
            author_email: "e".to_string(),
            author_date: "d".to_string(),
        },
        remaining: Vec::new(),
        start_head: None,
        created: None,
    }
}

#[test]
fn abort_finds_the_subrepo_path_even_without_the_config_entry() {
    let subs = vec![subrepo("core", None)];
    assert_eq!(pull::abort_path(&subs, &state(Some("core"))).ok().unwrap(), "core");
    assert_eq!(pull::abort_path(&subs, &state(None)).ok().unwrap(), "packages/core");
    let missing = pull::abort_path(&Vec::new(), &state(None)).err().unwrap();
    assert_eq!(
        missing.message,
        "The interrupted pull references subrepo \"core\", which is no longer in your config.\nNothing was changed. Restore the entry in your config, or run `monosplice pull --abort` to throw the import away."
    );
    assert_eq!(pull::report(&subrepo("core", None), 0), "✓ core: up to date");
    assert_eq!(pull::report(&subrepo("core", None), 12), "✓ core: imported 12 commit(s)");
}

#[test]
fn tag_refuses_a_fork_and_unsynced_sides() {
    let project = Project {
        root: "/repo".to_string(),
        config_path: "/repo/monosplice.toml".to_string(),
        subrepos: vec![subrepo("core", None), subrepo("lodash", Some("up"))],
    };
    let t = |s: &str| TagArgs { subrepo: s.to_string(), tag: "v1".to_string() };
    assert_eq!(tag::run(&t("core"), &project).ok().unwrap().name, "core");
    let fork = tag::run(&t("lodash"), &project).err().unwrap();
    assert!(fork.message.starts_with("lodash: `upstream` is set, so fork is your fork and up is someone else's repository."));
    assert!(fork.message.contains("rebuilds the fork's patches branch"));
    assert!(fork.message.ends_with("  git push fork <sha>:refs/tags/v1"));
    let unknown = tag::run(&t("nope"), &project).err().unwrap();
    assert!(unknown.message.starts_with("Unknown subrepo \"nope\""));
    let core = subrepo("core", None);
    assert!(tag::require_nothing_to_push(&core, 0).is_ok());
    assert!(tag::require_nothing_to_push(&core, 2).err().unwrap().message.starts_with("core: 2 commit(s) have not been exported yet, so fork does not match monorepo HEAD."));
    assert!(tag::require_nothing_to_pull(&core, 0).is_ok());
    assert!(tag::require_nothing_to_pull(&core, 3).err().unwrap().message.starts_with("core: 3 commit(s) on fork have not been imported yet."));
    assert_eq!(tag::tag_lookup_args(&core, "v1"), vec!["ls-remote", "fork", "refs/tags/v1"]);
}

#[test]
fn commands_not_implemented_yet_say_so() {
    let a = attach::AttachArgs {
        folder: "core".to_string(),
        url: None,
        name: None,
        branch: None,
        yes: false,
        export_history: false,
        import_history: false,
        theirs: false,
        fork: None,
    };
    assert_eq!(attach::run(&a).err().unwrap().message, "monosplice attach: not implemented yet");
    assert_eq!(detach::run(&detach::DetachArgs { subrepo: "x".to_string() }).err().unwrap().exit_code, 2);
    assert!(doctor::run(&doctor::DoctorArgs { subrepo: None, json: false }).is_err());
    assert!(push::run(&push::PushArgs { subrepo: None, yes: false, export_history: false, dry_run: false }).is_err());
    assert!(status::run(&status::StatusArgs { subrepo: None, json: false, check: false, offline: false }).is_err());
    assert_eq!(sync::run(&sync::SyncArgs { subrepo: None, continue_sync: false }).err().unwrap().message, "monosplice sync: not implemented yet");
}

#[test]
fn a_fresh_pull_waits_for_the_interrupted_one() {
    let f = pull::pull_in_progress(&state(None));
    assert_eq!(f.exit_code, 2);
    assert_eq!(
        f.message,
        "A pull of core is in progress. Run `monosplice pull --continue` to finish it, or `monosplice pull --abort` to throw it away."
    );
    assert_eq!(pull::NOTHING_TO_CONTINUE, "No pull is in progress — nothing to continue.");
}

#[test]
fn continue_leads_with_the_interrupted_subrepo_and_skips_its_repeat() {
    let a = subrepo("a", None);
    let core = subrepo("core", None);
    let b = subrepo("b", None);
    let walk = pull::continue_walk(&core, vec![&a, &core, &b]);
    let names: Vec<&str> = walk.iter().map(|s| s.name.as_str()).collect();
    assert_eq!(names, vec!["core", "a", "b"]);
    let only = pull::continue_walk(&core, vec![&core]);
    assert_eq!(only.len(), 1);
}

#[test]
fn continue_refuses_while_files_are_still_unmerged() {
    let core = subrepo("core", None);
    assert!(pull::still_unmerged(&core, &Vec::new()).is_none());
    let f = pull::still_unmerged(&core, &vec!["a.txt".to_string(), "b/c.txt".to_string()]).unwrap();
    assert_eq!(f.exit_code, 2);
    assert_eq!(
        f.message,
        "core: these files are still unmerged:\n  a.txt\n  b/c.txt\nNothing was changed. Resolve them, `git add` each one, then run:\n  monosplice pull --continue\nor throw the import away with:\n  monosplice pull --abort"
    );
}

fn outcome(rewound: bool, discarded: &[&str], kept: &[&str], start_head: Option<&str>) -> AbortOutcome {
    AbortOutcome {
        rewound,
        discarded: discarded.iter().map(|s| s.to_string()).collect(),
        kept: kept.iter().map(|s| s.to_string()).collect(),
        start_head: start_head.map(str::to_string),
    }
}

#[test]
fn abort_reports_what_it_rewound_or_kept() {
    let st = state(Some("packages/core"));
    assert_eq!(
        pull::describe_abort(&st, "packages/core", &outcome(true, &[], &[], Some("h0"))),
        vec!["✓ core: pull aborted — nothing had been imported; packages/core/ is as it was before the pull."]
    );
    assert_eq!(
        pull::describe_abort(&st, "packages/core", &outcome(true, &["c1", "c2"], &[], Some("h0"))),
        vec!["✓ core: pull aborted — rewound 2 imported commit(s); packages/core/ is as it was before the pull."]
    );
    let kept = pull::describe_abort(&st, "packages/core", &outcome(false, &[], &["c1"], Some("h0")));
    assert_eq!(kept.len(), 2);
    assert_eq!(kept[0], "✓ core: pull aborted — dropped the conflicted import of p and restored packages/core/.");
    assert_eq!(
        kept[1],
        "  The 1 commit(s) this pull had already imported were KEPT: monorepo history has moved since they landed, and monosplice will not rewind past work it did not create. Pre-pull HEAD was h0 — `git reset --hard h0` would undo the rest."
    );
    let unknown = pull::describe_abort(&st, "packages/core", &outcome(false, &[], &["c1", "c2"], None));
    assert!(unknown[1].starts_with("  The 2 commit(s)"));
    assert!(unknown[1].ends_with("work it did not create."));
}

#[test]
fn a_conflict_halts_the_walk_and_other_failures_are_collected() {
    let core = subrepo("core", None);
    let conflict = ImportError::Conflict(ImportConflict {
        subrepo_name: "core".to_string(),
        pub_sha: "p9".to_string(),
        conflicts: vec!["a.txt".to_string(), "b.txt".to_string()],
        state_path: "/repo/.git/monosplice/pull-state.json".to_string(),
    });
    let f = pull::import_failure(&core, &conflict);
    assert!(f.halt);
    assert_eq!(
        f.message,
        "core: import of p9 into core conflicted:\na.txt\nb.txt\nResolve them, `git add` each one, then run `monosplice pull --continue`."
    );
    let io = pull::import_failure(&core, &ImportError::Io("disk full".to_string()));
    assert!(!io.halt);
    assert_eq!(io.message, "core: disk full");
    let git = pull::import_failure(
        &core,
        &ImportError::Git(GitError { git_args: vec!["apply".to_string()], exit_code: Some(1), stderr: "bad".to_string() }),
    );
    assert!(!git.halt);
    assert!(git.message.starts_with("core: "));
}

#[test]
fn a_tag_the_remote_already_has_is_never_moved() {
    let core = subrepo("core", None);
    assert!(tag::require_tag_is_free(&core, "v1.0.0", "").is_ok());
    let f = tag::require_tag_is_free(&core, "v1.0.0", "9f8e7d6c\trefs/tags/v1.0.0").unwrap_err();
    assert_eq!(f.exit_code, 2);
    assert_eq!(
        f.message,
        "core: tag v1.0.0 already exists on fork (9f8e7d6c).\nMonosplice never moves an existing tag on the standalone repo. Pick another name, or delete it yourself with:\n  git push fork :refs/tags/v1.0.0"
    );
}

#[test]
fn each_mode_refuses_by_whether_a_pull_is_in_progress() {
    let subs = vec![subrepo("web", None), subrepo("core", None)];
    let abort = pull::plan_pull(PullMode::Abort, &None, &subs).unwrap_err();
    assert_eq!(abort.message, pull::NOTHING_TO_ABORT);
    let cont = pull::plan_pull(PullMode::Continue, &None, &subs).unwrap_err();
    assert_eq!(cont.message, pull::NOTHING_TO_CONTINUE);
    assert!(matches!(pull::plan_pull(PullMode::Pull, &None, &subs), Ok(pull::PullPlan::Fresh)));
    assert!(matches!(pull::plan_pull(PullMode::DryRun, &None, &subs), Ok(pull::PullPlan::Fresh)));
    let waiting = Some(state(None));
    let fresh = pull::plan_pull(PullMode::Pull, &waiting, &subs).unwrap_err();
    assert!(fresh.message.starts_with("A pull of core is in progress."));
    let dry = pull::plan_pull(PullMode::DryRun, &waiting, &subs).unwrap_err();
    assert_eq!(dry.message, fresh.message);
    assert!(matches!(pull::plan_pull(PullMode::Continue, &waiting, &subs), Ok(pull::PullPlan::Continue(1))));
    match pull::plan_pull(PullMode::Abort, &waiting, &subs) {
        Ok(pull::PullPlan::Abort(path)) => assert_eq!(path, "packages/core"),
        other => panic!("{other:?}"),
    }
    match pull::plan_pull(PullMode::Abort, &Some(state(Some("kept/dir"))), &Vec::new()) {
        Ok(pull::PullPlan::Abort(path)) => assert_eq!(path, "kept/dir"),
        other => panic!("{other:?}"),
    }
    let gone = pull::plan_pull(PullMode::Continue, &waiting, &vec![subrepo("web", None)]).unwrap_err();
    assert!(gone.message.starts_with("The interrupted pull references subrepo \"core\""));
}
