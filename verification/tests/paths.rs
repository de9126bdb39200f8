use monosplice::paths::{make_excluder, normalize_subrepo_path, Excluder};


fn excluder(patterns: &[&str]) -> Excluder {
    let owned: Vec<String> = patterns.iter().map(|p| (*p).to_string()).collect();
    make_excluder(&owned).expect("patterns compile")
}

#[test]
fn matches_nothing_with_no_patterns() {
    let ex = make_excluder(&[]).expect("empty compiles");
    assert!(!ex.matches("anything.txt"));
}

#[test]
fn matches_globs_including_dotfiles_and_nested_paths() {
    let ex = excluder(&["**/INTERNAL.md", "secrets/**", ".private-*"]);
    assert!(ex.matches("INTERNAL.md"));
    assert!(ex.matches("docs/INTERNAL.md"));
    assert!(ex.matches("secrets/key.pem"));
    assert!(ex.matches(".private-notes"));
    assert!(!ex.matches("README.md"));
    assert!(!ex.matches("src/secrets.ts"));
}

#[test]
fn globstar_prefix_matches_at_the_root_too() {
    let ex = excluder(&["**/*.md"]);
    assert!(ex.matches("docs/x.md"));
    assert!(ex.matches("x.md"));
    assert!(ex.matches("a/b/c/x.md"));
}

#[test]
fn a_star_does_not_cross_a_slash() {
    let ex = excluder(&["*.md"]);
    assert!(ex.matches("x.md"));
    assert!(!ex.matches("docs/x.md"));
}

#[test]
fn literal_dotfile_patterns_match() {
    let ex = excluder(&[".env"]);
    assert!(ex.matches(".env"));
    assert!(!ex.matches("a/.env"));
}

#[test]
fn a_trailing_globstar_matches_everything_below() {
    let ex = excluder(&["secret/**"]);
    assert!(ex.matches("secret/a/b"));
    assert!(ex.matches("secret/a"));
    assert!(!ex.matches("other/a"));
}

#[test]
fn globstar_matches_dotfiles_at_any_depth() {
    let ex = excluder(&["**/.env"]);
    assert!(ex.matches(".env"));
    assert!(ex.matches("a/.env"));
    assert!(ex.matches("a/b/.env"));
}

#[test]
fn wildcards_match_dotfiles() {
    let ex = excluder(&["**/*"]);
    assert!(ex.matches(".hidden"));
    assert!(ex.matches("a/.hidden"));
}

#[test]
fn any_pattern_matching_excludes() {
    let ex = excluder(&["a.txt", "b.txt"]);
    assert!(ex.matches("a.txt"));
    assert!(ex.matches("b.txt"));
    assert!(!ex.matches("c.txt"));
}

#[test]
fn an_invalid_pattern_is_reported_not_panicked() {
    assert!(make_excluder(&["[".to_string()]).is_err());
}

#[test]
fn strips_slashes() {
    assert_eq!(
        normalize_subrepo_path("/taka-core/").as_deref(),
        Ok("taka-core")
    );
    assert_eq!(
        normalize_subrepo_path("packages/lib").as_deref(),
        Ok("packages/lib")
    );
}

#[test]
fn rejects_root_and_escaping_paths() {
    assert!(normalize_subrepo_path("/").is_err());
    assert!(normalize_subrepo_path(".").is_err());
    assert!(normalize_subrepo_path("a/../b").is_err());
}
#[test]
fn tolerates_a_leading_dot_slash_and_normalizes_it_away() {
    assert_eq!(normalize_subrepo_path("./core").as_deref(), Ok("core"));
    assert_eq!(
        normalize_subrepo_path("./packages/lib").as_deref(),
        Ok("packages/lib")
    );
    assert_eq!(normalize_subrepo_path("./core/").as_deref(), Ok("core"));
    assert_eq!(normalize_subrepo_path(".//core").as_deref(), Ok("core"));
    assert_eq!(normalize_subrepo_path("././core").as_deref(), Ok("core"));
}

#[test]
fn still_rejects_bare_dot_and_dotdot_once_the_leading_dot_slash_is_gone() {
    assert!(normalize_subrepo_path("./").is_err());
    assert!(normalize_subrepo_path("./.").is_err());
    assert!(normalize_subrepo_path("./..").is_err());
    assert!(normalize_subrepo_path("./../core").is_err());
    assert!(normalize_subrepo_path("./a/./b").is_err());
}

#[test]
fn error_messages_quote_the_original_input_json_style() {
    assert_eq!(
        normalize_subrepo_path("/").unwrap_err(),
        "subrepo path may not be the repo root: \"/\""
    );
    assert_eq!(
        normalize_subrepo_path("a/../b").unwrap_err(),
        "subrepo path may not contain '.' or '..' segments: \"a/../b\""
    );
    assert_eq!(
        normalize_subrepo_path("a/\"q\"/../b").unwrap_err(),
        "subrepo path may not contain '.' or '..' segments: \"a/\\\"q\\\"/../b\""
    );
}

#[test]
fn normalizing_a_normalized_path_changes_nothing() {
    for p in ["/taka-core/", "./core/", ".//a/b//", "packages/lib", "././x"] {
        let once = normalize_subrepo_path(p).unwrap();
        assert_eq!(normalize_subrepo_path(&once).unwrap(), once);
    }
}

#[test]
fn control_characters_in_a_refused_path_are_escaped_as_json_escapes_them() {
    assert_eq!(
        normalize_subrepo_path("a/..\t/../b\u{1}").unwrap_err(),
        "subrepo path may not contain '.' or '..' segments: \"a/..\\t/../b\\u0001\""
    );
}
