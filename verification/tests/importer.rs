use monosplice::config::ResolvedSubrepo;
use monosplice::git::GitError;
use monosplice::trailers::{get_trailer, ORIGIN_TRAILER};
use monosplice::importer::{
    abort_import, check_import_preconditions, commit_import, continue_import, diff_base,
    exclude_warning, restore_subrepo_path, run_import, run_owns_history, sequencer_path,
    unmerged_paths, ImportAction, ImportError, ImportEvent, ImportStep, PullSequencer,
    PullSequencerCommit, RunProvenance,
};

fn subrepo(exclude: &[&str]) -> ResolvedSubrepo {
    ResolvedSubrepo {
        name: "core".to_string(),
        path: "core".to_string(),
        remote: "git@example.com:acme/core.git".to_string(),
        upstream: None,
        branch: "main".to_string(),
        push_branch: "main".to_string(),
        exclude: exclude.iter().map(|p| p.to_string()).collect(),
        rewrite_message: None,
        transform: None,
        scan: None,
    }
}

fn show(sha: &str, message: &str) -> String {
    format!("{sha}\0Pub Person\0pub@example.com\x001700000000 +0000\0C\0c@x\x001700000001 +0000\0{message}")
}

fn ok(s: &str) -> ImportEvent {
    ImportEvent::Output(Ok(s.to_string()))
}

fn failed(stderr: &str) -> GitError {
    GitError { git_args: vec!["apply".to_string()], exit_code: Some(1), stderr: stderr.to_string() }
}

fn args_of(action: &ImportAction) -> Vec<String> {
    match action {
        ImportAction::Git(c) => c.args.clone(),
        ImportAction::ReadPatch(a) | ImportAction::ApplyPatch(a) => a.clone(),
        _ => Vec::new(),
    }
}

/// Drive one candidate from `show` through to its import commit.
fn import_clean(run: &mut monosplice::importer::ImportRun, sha: &str, head: &str) {
    assert_eq!(args_of(&run.action())[0], "show");
    run.advance(ok(&show(sha, "feat: x\n")));
    assert_eq!(args_of(&run.action()), vec!["rev-list", "--parents", "-n", "1", sha]);
    run.advance(ok(&format!("{sha} parent1")));
    assert_eq!(
        args_of(&run.action()),
        vec!["diff-tree", "--binary", "-M", "-p", "parent1", sha]
    );
    run.advance(ImportEvent::Patch(Ok(false)));
    assert_eq!(
        args_of(&run.action()),
        vec!["apply", "--3way", "--index", "--directory=core"]
    );
    run.advance(ok(""));
    assert_eq!(
        args_of(&run.action()),
        vec!["diff-tree", "--name-only", "-r", "parent1", sha]
    );
    run.advance(ok("a.txt"));
    match run.action() {
        ImportAction::Git(c) => {
            assert_eq!(c.args[0], "commit");
            assert_eq!(c.args[4], format!("feat: x\n\nMonosplice-Origin: {sha}\n"));
            assert_eq!(c.opts.env[0], ("GIT_AUTHOR_NAME".to_string(), "Pub Person".to_string()));
        }
        _ => panic!("expected the import commit"),
    }
    run.advance(ok(""));
    assert_eq!(args_of(&run.action()), vec!["rev-parse", "HEAD"]);
    run.advance(ok(head));
}

#[test]
fn a_clean_run_imports_every_candidate_in_order() {
    let candidates = vec!["p1".to_string(), "p2".to_string()];
    let mut run = run_import(&subrepo(&[]), &candidates, None, Some("h0".to_string()));
    import_clean(&mut run, "p1", "m1");
    import_clean(&mut run, "p2", "m2");
    assert!(matches!(run.action(), ImportAction::Finished));
    let outcome = run.outcome().expect("finished").ok().expect("imported");
    assert_eq!(outcome.imported, vec!["p1", "p2"]);
}

#[test]
fn nothing_to_import_finishes_at_once() {
    let run = run_import(&subrepo(&[]), &[], None, None);
    assert!(run.step() == ImportStep::Finished);
    assert!(run.outcome().unwrap().ok().unwrap().imported.is_empty());
}

#[test]
fn a_root_commit_is_diffed_against_the_empty_tree() {
    assert_eq!(diff_base("abc"), monosplice::git::EMPTY_TREE);
    assert_eq!(diff_base("abc "), monosplice::git::EMPTY_TREE);
    assert_eq!(diff_base("abc p1 p2"), "p1");
}

#[test]
fn a_conflict_writes_the_sequencer_with_the_run_provenance() {
    let candidates = vec!["p1".to_string(), "p2".to_string(), "p3".to_string()];
    let run0 = RunProvenance { start_head: "h0".to_string(), created: vec!["m0".to_string()] };
    let mut run = run_import(&subrepo(&[]), &candidates, Some(run0), None);
    import_clean(&mut run, "p1", "m1");
    run.advance(ok(&show("p2", "fix: y\n")));
    run.advance(ok("p2 p1"));
    run.advance(ImportEvent::Patch(Ok(false)));
    run.advance(ImportEvent::Output(Err(failed("conflict"))));
    assert_eq!(args_of(&run.action()), vec!["diff", "--name-only", "--diff-filter=U"]);
    run.advance(ok("core/a.txt"));
    match run.action() {
        ImportAction::WriteSequencer(s) => {
            assert_eq!(s.subrepo, "core");
            assert_eq!(s.path.as_deref(), Some("core"));
            assert_eq!(s.current.sha, "p2");
            assert_eq!(s.current.message, "fix: y\n");
            assert_eq!(s.remaining, vec!["p3"]);
            assert_eq!(s.start_head.as_deref(), Some("h0"));
            assert_eq!(s.created, Some(vec!["m0".to_string(), "m1".to_string()]));
        }
        _ => panic!("expected the sequencer"),
    }
    run.advance(ImportEvent::Written(Ok("/repo/.git/monosplice/pull-state.json".to_string())));
    match run.outcome() {
        Some(Err(ImportError::Conflict(c))) => {
            assert_eq!(c.pub_sha, "p2");
            assert_eq!(c.conflicts, vec!["core/a.txt"]);
            assert_eq!(c.state_path, "/repo/.git/monosplice/pull-state.json");
            assert_eq!(
                ImportError::Conflict(c).to_string(),
                "import of p2 into core conflicted"
            );
        }
        _ => panic!("expected a conflict"),
    }
}

#[test]
fn a_failed_apply_with_nothing_unmerged_is_the_apply_error() {
    let candidates = vec!["p1".to_string()];
    let mut run = run_import(&subrepo(&[]), &candidates, None, None);
    run.advance(ok(&show("p1", "m\n")));
    run.advance(ok("p1 p0"));
    run.advance(ImportEvent::Patch(Ok(false)));
    run.advance(ImportEvent::Output(Err(failed("corrupt patch"))));
    run.advance(ok(""));
    match run.outcome() {
        Some(Err(ImportError::Git(e))) => assert_eq!(e.stderr, "corrupt patch"),
        _ => panic!("expected the apply error"),
    }
}

#[test]
fn an_empty_patch_is_not_applied_and_unexpected_answers_change_nothing() {
    let candidates = vec!["p1".to_string()];
    let mut run = run_import(&subrepo(&[]), &candidates, None, None);
    run.advance(ImportEvent::Noted);
    assert!(run.step() == ImportStep::ReadCommit);
    run.advance(ok(&show("p1", "m\n")));
    run.advance(ok("p1 p0"));
    run.advance(ImportEvent::Patch(Ok(true)));
    assert!(run.step() == ImportStep::ListNames);
}

#[test]
fn short_show_output_is_an_error_naming_the_call() {
    let candidates = vec!["p1".to_string()];
    let mut run = run_import(&subrepo(&[]), &candidates, None, None);
    run.advance(ok("p1\0only"));
    match run.outcome() {
        Some(Err(ImportError::Git(e))) => {
            assert_eq!(e.stderr, "unexpected git show output for p1");
            assert_eq!(e.exit_code, None);
            assert_eq!(e.git_args[0], "show");
        }
        _ => panic!("expected an error"),
    }
}

#[test]
fn warns_about_imported_paths_the_config_excludes() {
    let candidates = vec!["p1".to_string()];
    let mut run = run_import(&subrepo(&["secrets/**"]), &candidates, None, None);
    run.advance(ok(&show("p1", "m\n")));
    run.advance(ok("p1 p0"));
    run.advance(ImportEvent::Patch(Ok(true)));
    run.advance(ok("README.md\nsecrets/key.pem"));
    match run.action() {
        ImportAction::Warn(w) => {
            assert_eq!(w.len(), 1);
            assert!(w[0].starts_with("warning: core: imported core/secrets/key.pem, but it matches an exclude pattern"));
            assert_eq!(w[0], exclude_warning(&subrepo(&[]), "secrets/key.pem"));
        }
        _ => panic!("expected a warning"),
    }
    run.advance(ImportEvent::Noted);
    assert!(run.step() == ImportStep::Commit);
}

#[test]
fn a_broken_exclude_pattern_costs_a_warning_not_the_import() {
    let candidates = vec!["p1".to_string()];
    let mut run = run_import(&subrepo(&["["]), &candidates, None, None);
    run.advance(ok(&show("p1", "m\n")));
    run.advance(ok("p1 p0"));
    run.advance(ImportEvent::Patch(Ok(true)));
    run.advance(ok("a.txt"));
    match run.action() {
        ImportAction::Warn(w) => assert!(w[0].starts_with("warning: core: invalid exclude pattern \"[\": ")),
        _ => panic!("expected a warning"),
    }
}

fn sequencer(start_head: Option<&str>, created: Option<Vec<&str>>, remaining: Vec<&str>) -> PullSequencer {
    PullSequencer {
        subrepo: "core".to_string(),
        path: Some("core".to_string()),
        current: PullSequencerCommit {
            sha: "p2".to_string(),
            message: "fix: y\n".to_string(),
            author_name: "P".to_string(),
            author_email: "p@x".to_string(),
            author_date: "1700000000 +0000".to_string(),
        },
        remaining: remaining.into_iter().map(String::from).collect(),
        start_head: start_head.map(String::from),
        created: created.map(|c| c.into_iter().map(String::from).collect()),
    }
}

#[test]
fn continue_finishes_the_resolved_commit_then_the_rest() {
    let state = sequencer(Some("h0"), Some(vec!["m1"]), vec!["p3"]);
    let mut run = continue_import(&subrepo(&[]), &state);
    match run.action() {
        ImportAction::Git(c) => assert_eq!(c.args[4], "fix: y\n\nMonosplice-Origin: p2\n"),
        _ => panic!("expected the resolved commit"),
    }
    run.advance(ok(""));
    run.advance(ok("m2"));
    assert!(matches!(run.action(), ImportAction::ClearSequencer));
    run.advance(ImportEvent::Noted);
    import_clean(&mut run, "p3", "m3");
    let outcome = run.outcome().unwrap().ok().unwrap();
    assert_eq!(outcome.imported, vec!["p2", "p3"]);
}

#[test]
fn a_second_conflict_keeps_the_original_start_head() {
    let state = sequencer(None, None, vec!["p3"]);
    let mut run = continue_import(&subrepo(&[]), &state);
    run.advance(ok(""));
    run.advance(ok("m2"));
    run.advance(ImportEvent::Noted);
    run.advance(ok(&show("p3", "z\n")));
    run.advance(ok("p3 p2"));
    run.advance(ImportEvent::Patch(Ok(false)));
    run.advance(ImportEvent::Output(Err(failed("conflict"))));
    run.advance(ok("core/b.txt"));
    match run.action() {
        ImportAction::WriteSequencer(s) => {
            assert_eq!(s.start_head.as_deref(), Some("m2"));
            assert_eq!(s.created, Some(vec!["m2".to_string()]));
            assert!(s.remaining.is_empty());
        }
        _ => panic!("expected the sequencer"),
    }
}

#[test]
fn abort_rewinds_only_history_the_run_provably_made() {
    let state = sequencer(Some("h0"), Some(vec!["m1", "m2"]), vec![]);
    let walk = vec!["m2".to_string(), "m1".to_string()];
    let created = state.created.clone().unwrap();
    assert!(run_owns_history(true, Some(&walk), &created));
    assert!(!run_owns_history(false, Some(&walk), &created));
    assert!(!run_owns_history(true, None, &created));
    let moved = vec!["x9".to_string(), "m2".to_string(), "m1".to_string()];
    assert!(!run_owns_history(true, Some(&moved), &created));

    let (target, outcome) = abort_import("head9", &state, true);
    assert_eq!(target, "h0");
    assert!(outcome.rewound);
    assert_eq!(outcome.discarded, vec!["m1", "m2"]);
    assert!(outcome.kept.is_empty());

    let (target, outcome) = abort_import("head9", &state, false);
    assert_eq!(target, "head9");
    assert!(!outcome.rewound);
    assert!(outcome.discarded.is_empty());
    assert_eq!(outcome.kept, vec!["m1", "m2"]);
    assert_eq!(outcome.start_head.as_deref(), Some("h0"));

    let legacy = sequencer(None, None, vec![]);
    let (target, outcome) = abort_import("head9", &legacy, true);
    assert_eq!(target, "head9");
    assert!(!outcome.rewound);
}

#[test]
fn abort_touches_only_the_subrepo_path() {
    let calls = restore_subrepo_path("core", "h0");
    assert_eq!(calls[0], vec!["reset", "--quiet", "h0", "--", "core"]);
    assert_eq!(calls[1], vec!["checkout", "--quiet", "--", "core"]);
    assert_eq!(calls[2], vec!["clean", "-fdq", "--", "core"]);
    assert_eq!(calls[3], vec!["reset", "--quiet", "--soft", "h0"]);
}

#[test]
fn sequencer_path_lives_under_the_git_dir() {
    assert_eq!(sequencer_path("/repo", ".git"), "/repo/.git/monosplice/pull-state.json");
    assert_eq!(
        sequencer_path("/repo", "/elsewhere/.git/worktrees/w"),
        "/elsewhere/.git/worktrees/w/monosplice/pull-state.json"
    );
}

#[test]
fn unmerged_paths_is_empty_on_a_clean_index() {
    assert!(unmerged_paths("").is_empty());
    assert_eq!(unmerged_paths("a\nb"), vec!["a", "b"]);
}

#[test]
fn preconditions_refuse_a_repo_without_commits() {
    let s = subrepo(&[]);
    let msg = check_import_preconditions("/repo", false, &s, "", true, "", "monosplice pull core")
        .expect("refuses");
    assert!(msg.contains("has no commits yet"), "{msg}");
    assert!(msg.contains(&s.remote), "{msg}");
}

#[test]
fn preconditions_refuse_a_dirty_subrepo_and_staged_changes() {
    let s = subrepo(&[]);
    assert!(check_import_preconditions("/repo", true, &s, "", true, "", "monosplice pull core").is_none());
    let msg = check_import_preconditions("/repo", true, &s, " M core/a.txt", true, "", "monosplice pull core")
        .expect("refuses");
    assert!(msg.contains("core/ has uncommitted changes"), "{msg}");
    assert!(msg.contains("core/a.txt"), "{msg}");
    assert!(msg.contains("run `monosplice pull core` again"), "{msg}");
    assert!(msg.contains("Nothing was imported."), "{msg}");
    let msg = check_import_preconditions("/repo", true, &s, "", false, "other.txt", "monosplice attach core")
        .expect("refuses");
    assert!(msg.contains("core: you have staged changes:"), "{msg}");
    assert!(msg.contains("other.txt"), "{msg}");
    assert!(msg.contains("An import commits the index"), "{msg}");
    assert!(msg.contains("run `monosplice attach core` again"), "{msg}");
}

#[test]
fn the_import_commit_keeps_the_public_author() {
    let c = PullSequencerCommit {
        sha: "p1".to_string(),
        message: "feat".to_string(),
        author_name: "A".to_string(),
        author_email: "a@x".to_string(),
        author_date: "1 +0000".to_string(),
    };
    let call = commit_import(&c);
    assert_eq!(
        call.args,
        vec!["commit", "--allow-empty", "--no-verify", "-m", "feat\n\nMonosplice-Origin: p1\n"]
    );
    assert_eq!(call.opts.env.len(), 3);
    assert!(call.opts.input.is_none());
}

#[test]
fn an_imported_commit_names_the_public_commit_in_its_origin_trailer() {
    let c = PullSequencerCommit {
        sha: "4f2a9c1e".to_string(),
        message: "fix: handle empty input\n\nCo-authored-by: B <b@x>\n".to_string(),
        author_name: "A".to_string(),
        author_email: "a@x".to_string(),
        author_date: "1 +0000".to_string(),
    };
    let call = commit_import(&c);
    let message = &call.args[4];
    assert_eq!(get_trailer(message, ORIGIN_TRAILER).as_deref(), Some("4f2a9c1e"));
    assert_eq!(get_trailer(message, "Co-authored-by").as_deref(), Some("B <b@x>"));
}
