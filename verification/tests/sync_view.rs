use monosplice::config::ResolvedSubrepo;
use monosplice::sync_view::{fork_tracking_ref, is_triangular, pull_source, remote_tracking_ref};


fn subrepo(upstream: Option<&str>) -> ResolvedSubrepo {
    ResolvedSubrepo {
        name: "core".to_string(),
        path: "core".to_string(),
        remote: "fork".to_string(),
        upstream: upstream.map(str::to_string),
        branch: "main".to_string(),
        push_branch: "main".to_string(),
        exclude: Vec::new(),
        rewrite_message: None,
        transform: None,
        scan: None,
    }
}

#[test]
fn tracking_refs_are_namespaced_per_subrepo() {
    assert_eq!(remote_tracking_ref("core"), "refs/monosplice/core/remote");
    assert_eq!(fork_tracking_ref("core"), "refs/monosplice/core/fork");
}

#[test]
fn upstream_decides_where_the_tree_comes_from() {
    assert_eq!(pull_source(&subrepo(None)), "fork");
    assert!(!is_triangular(&subrepo(None)));
    assert_eq!(pull_source(&subrepo(Some("up"))), "up");
    assert!(is_triangular(&subrepo(Some("up"))));
}
