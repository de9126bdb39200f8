use monosplice::git::TreeEntry;
use monosplice::hooks::{
    child_path, failure_detail, file_mode, hook_env, status_detail, tree_layout, HookError,
    Placement,
};

#[test]
fn hook_error_renders_like_the_ts_message() {
    let err = HookError {
        hook: "scan",
        mono_sha: "abc123".to_string(),
        subrepo: "core".to_string(),
        detail: "found a secret".to_string(),
    };
    assert_eq!(
        err.to_string(),
        "scan hook rejected core commit abc123: found a secret"
    );
}

#[test]
fn a_silent_failure_reads_as_its_exit_status() {
    assert_eq!(status_detail(Some(3)), "exited with status 3");
    assert_eq!(status_detail(Some(-1)), "exited with status -1");
    assert_eq!(status_detail(None), "exited with status unknown");
    assert_eq!(failure_detail("  \n", Some(7)), "exited with status 7");
    assert_eq!(failure_detail("  leaked a key\n", Some(7)), "leaked a key");
}

#[test]
fn hooks_see_the_subrepo_the_commit_and_the_message_file() {
    let env = hook_env("core", "abc", "/tmp/msg");
    assert_eq!(
        env,
        vec![
            ("MONOSPLICE_SUBREPO".to_string(), "core".to_string()),
            ("MONOSPLICE_MONO_SHA".to_string(), "abc".to_string()),
            ("MONOSPLICE_MESSAGE_FILE".to_string(), "/tmp/msg".to_string()),
        ]
    );
}

fn entry(mode: &str, kind: &str, sha: &str, path: &str) -> TreeEntry {
    TreeEntry {
        mode: mode.to_string(),
        kind: kind.to_string(),
        sha: sha.to_string(),
        path: path.to_string(),
    }
}

#[test]
fn the_layout_writes_blobs_links_and_keeps_gitlinks_off_disk() {
    let entries = vec![
        entry("100644", "blob", "a", "README.md"),
        entry("100755", "blob", "b", "bin/run.sh"),
        entry("120000", "blob", "c", "link"),
        entry("160000", "commit", "d", "vendor/dep"),
    ];
    let (placed, kept) = tree_layout(&entries);
    assert_eq!(placed.len(), 3);
    assert!(matches!(&placed[0], Placement::File { path, sha, executable: false } if path == "README.md" && sha == "a"));
    assert!(matches!(&placed[1], Placement::File { path, executable: true, .. } if path == "bin/run.sh"));
    assert!(matches!(&placed[2], Placement::Symlink { path, sha } if path == "link" && sha == "c"));
    assert_eq!(kept.len(), 1);
    assert_eq!(kept[0].path, "vendor/dep");
    assert_eq!(kept[0].mode, "160000");
}

#[test]
fn modes_and_paths_read_back_from_disk() {
    assert_eq!(file_mode(0o755), "100755");
    assert_eq!(file_mode(0o700), "100755");
    assert_eq!(file_mode(0o644), "100644");
    assert_eq!(child_path("", "a.txt"), "a.txt");
    assert_eq!(child_path("dir/sub", "a.txt"), "dir/sub/a.txt");
}
