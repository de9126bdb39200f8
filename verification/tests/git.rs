use std::collections::{HashMap, HashSet};

use monosplice::git::{
    batch_check_call, commit_subjects_call, commit_tree_call, fetch_args, group_entries,
    ls_remote_args, mktree_call, mktree_input, parse_commit_meta, parse_commit_subjects,
    parse_existing_commits, parse_ls_remote, parse_ls_tree, parse_missing, parse_trailer_values,
    probe_push_args, probe_verdict, push_ref_args, push_ref_with_lease_args, read_commit,
    rev_parse_args, split_lines, stdin_list, strip_final_newline, subtree_line,
    trailer_values_args, tree_line, CommitTreeInput, GitError, ProbeOutcome, TreeEntry,
};


#[test]
fn strips_exactly_one_trailing_newline() {
    assert_eq!(strip_final_newline(b"abc\n".to_vec()), b"abc".to_vec());
    assert_eq!(strip_final_newline(b"abc\r\n".to_vec()), b"abc".to_vec());
    assert_eq!(strip_final_newline(b"abc\n\n".to_vec()), b"abc\n".to_vec());
    assert_eq!(strip_final_newline(b"abc".to_vec()), b"abc".to_vec());
    assert_eq!(strip_final_newline(b"".to_vec()), b"".to_vec());
    assert_eq!(strip_final_newline(b"\n".to_vec()), b"".to_vec());
    // Leading/inner whitespace survives — this is not trim().
    assert_eq!(
        strip_final_newline(b"  a b \n".to_vec()),
        b"  a b ".to_vec()
    );
}

#[test]
fn git_error_renders_like_the_ts_message() {
    let err = GitError {
        git_args: vec!["push".to_string(), "origin".to_string()],
        exit_code: Some(128),
        stderr: "boom".to_string(),
    };
    assert_eq!(err.to_string(), "git push origin failed (exit 128)\nboom");
    let killed = GitError {
        git_args: vec!["log".to_string()],
        exit_code: None,
        stderr: String::new(),
    };
    assert_eq!(killed.to_string(), "git log failed (exit unknown)\n");
}

#[test]
fn builds_newline_terminated_stdin_batches() {
    assert_eq!(stdin_list(&[]), "");
    assert_eq!(
        stdin_list(&["a".to_string(), "b".to_string()]),
        "a\nb\n".to_string()
    );
}

#[test]
fn empty_output_is_no_lines() {
    assert!(split_lines("").is_empty());
    assert_eq!(split_lines("a"), vec!["a".to_string()]);
    assert_eq!(split_lines("a\nb"), vec!["a".to_string(), "b".to_string()]);
}

#[test]
fn parses_commit_meta_nul_fields() {
    let out =
        "SHA\0An\0ae@x\x001700000000 +0000\0Cn\0ce@x\x001700000060 +0000\0subject\n\nbody\n";
    let m = parse_commit_meta(out).expect("parses");
    assert_eq!(m.sha, "SHA");
    assert_eq!(m.author_name, "An");
    assert_eq!(m.author_email, "ae@x");
    assert_eq!(m.author_date, "1700000000 +0000");
    assert_eq!(m.committer_name, "Cn");
    assert_eq!(m.committer_email, "ce@x");
    assert_eq!(m.committer_date, "1700000060 +0000");
    assert_eq!(m.message, "subject\n\nbody\n");
}

#[test]
fn a_message_containing_nul_is_rejoined() {
    let out = "SHA\0An\0ae\0d1\0Cn\0ce\0d2\0msg\0with-nul";
    let m = parse_commit_meta(out).expect("parses");
    assert_eq!(m.message, "msg\0with-nul");
}

#[test]
fn short_commit_meta_output_is_an_error() {
    assert!(parse_commit_meta("SHA\0An\0ae").is_none());
}

#[test]
fn parses_subjects_keyed_by_sha() {
    let out = "aaa\0first subject\nbbb\0second: subject\nccc\0";
    let subjects: HashMap<String, String> = parse_commit_subjects(out).into_iter().collect();
    assert_eq!(
        subjects.get("aaa").map(String::as_str),
        Some("first subject")
    );
    assert_eq!(
        subjects.get("bbb").map(String::as_str),
        Some("second: subject")
    );
    assert_eq!(subjects.get("ccc").map(String::as_str), Some(""));
    assert_eq!(subjects.len(), 3);
    assert!(parse_commit_subjects("").is_empty());
}

#[test]
fn parses_batch_check_missing_objects() {
    let out = "aaa missing\nbbb commit 217\nccc missing";
    let missing: HashSet<String> = parse_missing(out).into_iter().collect();
    assert!(missing.contains("aaa"));
    assert!(missing.contains("ccc"));
    assert!(!missing.contains("bbb"));
    assert_eq!(missing.len(), 2);
    assert!(parse_missing("").is_empty());
}

#[test]
fn parses_batch_check_existing_commits() {
    let out = "aaa commit 217\nbbb missing\nccc tree 40\nddd commit 12";
    assert_eq!(
        parse_existing_commits(out),
        vec!["aaa".to_string(), "ddd".to_string()]
    );
    assert!(parse_existing_commits("").is_empty());
}

#[test]
fn parses_nul_separated_ls_tree() {
    let out = "100644 blob aaa\tREADME.md\x00120000 blob bbb\tlink\x00160000 commit ccc\tvendor/dep\x00100755 blob ddd\tbin/run.sh\0";
    let entries = parse_ls_tree(out);
    assert_eq!(entries.len(), 4);
    assert_eq!(entries[0].mode, "100644");
    assert_eq!(entries[0].kind, "blob");
    assert_eq!(entries[0].sha, "aaa");
    assert_eq!(entries[0].path, "README.md");
    assert_eq!(entries[2].kind, "commit");
    assert_eq!(entries[2].path, "vendor/dep");
    assert_eq!(entries[3].mode, "100755");
    assert_eq!(entries[3].path, "bin/run.sh");
    assert!(parse_ls_tree("").is_empty());
}

#[test]
fn ls_tree_keeps_paths_with_spaces_and_tabs_intact() {
    let out = "100644 blob aaa\tdocs/a b\tc.md\0";
    let entries = parse_ls_tree(out);
    assert_eq!(entries[0].path, "docs/a b\tc.md");
}

#[test]
fn groups_entries_by_first_path_segment_in_order() {
    let entries = vec![
        entry("100644", "blob", "a1", "README.md"),
        entry("100644", "blob", "b1", "src/lib.rs"),
        entry("100644", "blob", "c1", "docs/x.md"),
        entry("100644", "blob", "d1", "src/core/git.rs"),
    ];
    let (here, subdirs) = group_entries(&entries);
    assert_eq!(here.len(), 1);
    assert_eq!(here[0].path, "README.md");
    // First-seen order: src first, then docs.
    assert_eq!(subdirs.len(), 2);
    assert_eq!(subdirs[0].0, "src");
    assert_eq!(
        subdirs[0]
            .1
            .iter()
            .map(|e| e.path.clone())
            .collect::<Vec<_>>(),
        vec!["lib.rs".to_string(), "core/git.rs".to_string()]
    );
    assert_eq!(subdirs[1].0, "docs");
    assert_eq!(subdirs[1].1[0].path, "x.md");
    assert_eq!(subdirs[1].1[0].sha, "c1");
}

#[test]
fn mktree_input_is_nul_terminated_lines() {
    let lines = vec![
        "100644 blob aaa\tREADME.md".to_string(),
        "040000 tree bbb\tsrc".to_string(),
    ];
    assert_eq!(
        mktree_input(&lines),
        "100644 blob aaa\tREADME.md\x00040000 tree bbb\tsrc\0"
    );
    assert_eq!(mktree_input(&[]), "");
}

#[test]
fn parses_trailer_values_dropping_commits_without_any() {
    let out = "aaa\0mono1\nbbb\0\nccc\0mono2\0 mono3 \nddd\0\0";
    let map: HashMap<String, Vec<String>> = parse_trailer_values(out).into_iter().collect();
    assert_eq!(map.get("aaa"), Some(&vec!["mono1".to_string()]));
    assert_eq!(map.get("bbb"), None);
    assert_eq!(
        map.get("ccc"),
        Some(&vec!["mono2".to_string(), "mono3".to_string()])
    );
    assert_eq!(map.get("ddd"), None);
    assert_eq!(map.len(), 2);
    assert!(parse_trailer_values("").is_empty());
}

#[test]
fn parses_ls_remote_output() {
    assert_eq!(parse_ls_remote(""), None);
    assert_eq!(
        parse_ls_remote("abc123\trefs/heads/main").as_deref(),
        Some("abc123")
    );
}

fn entry(mode: &str, kind: &str, sha: &str, path: &str) -> TreeEntry {
    TreeEntry {
        mode: mode.to_string(),
        kind: kind.to_string(),
        sha: sha.to_string(),
        path: path.to_string(),
    }
}

#[test]
fn negative_exit_codes_render_signed() {
    let err = GitError {
        git_args: vec!["fetch".to_string()],
        exit_code: Some(-9),
        stderr: "killed".to_string(),
    };
    assert_eq!(err.to_string(), "git fetch failed (exit -9)\nkilled");
}

#[test]
fn commit_objects_carry_parents_identity_and_message() {
    let input = CommitTreeInput {
        tree: "t".to_string(),
        parents: vec!["p1".to_string(), "p2".to_string()],
        message: "msg\n".to_string(),
        author_name: "A".to_string(),
        author_email: "a@x".to_string(),
        author_date: "1 +0000".to_string(),
        committer_name: "C".to_string(),
        committer_email: "c@x".to_string(),
        committer_date: "2 +0000".to_string(),
    };
    let call = commit_tree_call(&input);
    assert_eq!(call.args, vec!["commit-tree", "t", "-p", "p1", "-p", "p2"]);
    assert_eq!(call.opts.env.len(), 6);
    assert_eq!(call.opts.env[3], ("GIT_COMMITTER_NAME".to_string(), "C".to_string()));
    assert_eq!(call.opts.input.as_deref(), Some("msg\n"));
}

#[test]
fn invocations_name_exactly_what_they_touch() {
    assert!(commit_subjects_call(&[]).is_none());
    let c = commit_subjects_call(&["a".to_string()]).unwrap();
    assert_eq!(c.args, vec!["log", "--no-walk", "--format=%H%x00%s", "--stdin"]);
    assert_eq!(c.opts.input.as_deref(), Some("a\n"));
    assert!(batch_check_call(&[]).is_none());
    assert_eq!(rev_parse_args("HEAD")[3], "HEAD^{commit}");
    assert_eq!(ls_remote_args("r", "main"), vec!["ls-remote", "r", "refs/heads/main"]);
    assert_eq!(fetch_args("r", "main", "refs/x")[3], "+refs/heads/main:refs/x");
    assert_eq!(push_ref_args("r", "s", "refs/tags/v1")[2], "s:refs/tags/v1");
    assert_eq!(
        push_ref_with_lease_args("r", "s", "refs/heads/p", "old")[1],
        "--force-with-lease=refs/heads/p:old"
    );
    assert_eq!(
        trailer_values_args("Monosplice-Source", &["A..B".to_string()]),
        vec![
            "log",
            "--format=%H%x00%(trailers:key=Monosplice-Source,valueonly,separator=%x00)",
            "A..B"
        ]
    );
    let e = entry("100644", "blob", "aaa", "README.md");
    assert_eq!(tree_line(&e), "100644 blob aaa\tREADME.md");
    assert_eq!(subtree_line("bbb", "src"), "040000 tree bbb\tsrc");
    let m = mktree_call(&[tree_line(&e)]);
    assert_eq!(m.opts.input.as_deref(), Some("100644 blob aaa\tREADME.md\0"));
    let err = read_commit("abc", "only\0two").err().unwrap();
    assert_eq!(err.stderr, "unexpected git show output for abc");
    assert_eq!(err.git_args[0], "show");
    assert_eq!(read_commit("abc", "S\0a\0b\0c\0d\0e\0f\0m").unwrap().message, "m");
}

#[test]
fn a_push_probe_reports_what_git_said() {
    let args = probe_push_args("r", "s", "main");
    assert_eq!(args, vec!["push", "--dry-run", "r", "s:refs/heads/main"]);
    assert!(probe_verdict(&args, ProbeOutcome::Exited { success: true, code: Some(0), stderr: String::new() }).is_none());
    assert_eq!(
        probe_verdict(&args, ProbeOutcome::Exited { success: false, code: Some(128), stderr: " denied \n".to_string() }).unwrap(),
        "denied"
    );
    assert_eq!(
        probe_verdict(&args, ProbeOutcome::Exited { success: false, code: Some(1), stderr: String::new() }).unwrap(),
        "git push --dry-run r s:refs/heads/main failed (exit 1)"
    );
    assert_eq!(
        probe_verdict(&args, ProbeOutcome::TimedOut).unwrap(),
        "Command timed out after 20000 milliseconds: git push --dry-run r s:refs/heads/main"
    );
    assert_eq!(probe_verdict(&args, ProbeOutcome::Failed("no git".to_string())).unwrap(), "no git");
}
