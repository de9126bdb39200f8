use monosplice::adopt::{
    adopt_message, apply_into_args, commit_staged_args, differing_paths, differing_paths_args,
    tree_patch_args,
};
use monosplice::config::ResolvedSubrepo;
use monosplice::git::EMPTY_TREE;
use monosplice::trailers::{get_trailer, ORIGIN_TRAILER};

fn subrepo(upstream: Option<&str>) -> ResolvedSubrepo {
    ResolvedSubrepo {
        name: "core".to_string(),
        path: "vendor/core".to_string(),
        remote: "git@example.com:me/core-fork.git".to_string(),
        upstream: upstream.map(str::to_string),
        branch: "main".to_string(),
        push_branch: "main".to_string(),
        exclude: Vec::new(),
        rewrite_message: None,
        transform: None,
        scan: None,
    }
}

#[test]
fn adopt_message_pins_the_anchor_format() {
    let head = "0123456789abcdef0123456789abcdef01234567";
    assert_eq!(
        adopt_message(&subrepo(None), head),
        format!(
            "Adopt core from git@example.com:me/core-fork.git @ 0123456789\n\nMonosplice-Origin: {head}\n"
        )
    );
    // Triangular: the anchor names the repository the content actually came from.
    assert_eq!(
        adopt_message(&subrepo(Some("git@example.com:acme/core.git")), head),
        format!(
            "Adopt core from git@example.com:acme/core.git @ 0123456789\n\nMonosplice-Origin: {head}\n"
        )
    );
}

#[test]
fn a_short_head_is_kept_whole_in_the_subject() {
    assert_eq!(
        adopt_message(&subrepo(None), "abc"),
        "Adopt core from git@example.com:me/core-fork.git @ abc\n\nMonosplice-Origin: abc\n"
    );
}

#[test]
fn differing_paths_lists_the_tree_diff_and_nothing_when_equal() {
    assert_eq!(
        differing_paths("a.txt\nb/c.txt"),
        vec!["a.txt".to_string(), "b/c.txt".to_string()]
    );
    assert!(differing_paths("").is_empty());
    assert_eq!(
        differing_paths_args(EMPTY_TREE, "abc"),
        vec!["diff-tree", "-r", "--name-only", EMPTY_TREE, "abc"]
    );
}

#[test]
fn the_patch_is_staged_under_the_subrepo_path_and_committed_even_when_empty() {
    assert_eq!(
        tree_patch_args("t1", "t2"),
        vec!["diff-tree", "--binary", "-M", "-p", "t1", "t2"]
    );
    assert_eq!(
        apply_into_args(&subrepo(None)),
        vec!["apply", "--index", "--directory=vendor/core"]
    );
    assert_eq!(
        commit_staged_args("msg"),
        vec!["commit", "--allow-empty", "--no-verify", "-m", "msg"]
    );
}

#[test]
fn the_anchor_names_the_public_head_in_its_origin_trailer() {
    let head = "89abcdef0123456789abcdef0123456789abcdef";
    for upstream in [None, Some("https://example.com/acme/core.git")] {
        let message = adopt_message(&subrepo(upstream), head);
        assert_eq!(get_trailer(&message, ORIGIN_TRAILER).as_deref(), Some(head));
    }
}
