use std::cell::{Cell, RefCell};

use monosplice::config::{ConfigError, Project, ResolvedSubrepo};
use monosplice::report::{
    configured_names, json_quote, require_project_from, select_subrepos, Failure,
    SubrepoFailure, SubrepoWalk, walk_subrepos, NO_CONFIG_FOUND,
};

fn subrepo(name: &str) -> ResolvedSubrepo {
    ResolvedSubrepo {
        name: name.to_string(),
        path: name.to_string(),
        remote: format!("git@example.test:{name}.git"),
        upstream: None,
        branch: "main".to_string(),
        push_branch: "main".to_string(),
        exclude: Vec::new(),
        rewrite_message: None,
        transform: None,
        scan: None,
    }
}

fn project(names: &[&str]) -> Project {
    Project {
        root: "/repo".to_string(),
        config_path: "/repo/monosplice.toml".to_string(),
        subrepos: names.iter().map(|n| subrepo(n)).collect(),
    }
}

/// The walk every multi-subrepo command runs.
fn walk(
    subrepos: &[&ResolvedSubrepo],
    body: impl Fn(&ResolvedSubrepo) -> Result<(), SubrepoFailure>,
) -> Result<(), Failure> {
    walk_subrepos(subrepos, body)
}

#[test]
fn exit_codes_match_the_error_contract() {
    assert_eq!(Failure::error("boom").exit_code, 2);
    assert_eq!(Failure::exit1("boom").exit_code, 1);
    assert_eq!(Failure::error("boom").message, "boom");
}

#[test]
fn each_subrepo_collects_failures_and_reports_them_together_with_exit_1() {
    let p = project(&["a", "b", "c"]);
    let all = select_subrepos(&p, None).unwrap();
    let seen: RefCell<Vec<String>> = RefCell::new(Vec::new());
    let failure = walk(&all, |s| {
        seen.borrow_mut().push(s.name.clone());
        if s.name == "b" {
            return Err(SubrepoFailure::new("b: refused"));
        }
        if s.name == "c" {
            return Err(SubrepoFailure::new("c: refused"));
        }
        Ok(())
    })
    .expect_err("collected failures must fail the command");
    assert_eq!(*seen.borrow(), vec!["a", "b", "c"]);
    assert_eq!(failure.exit_code, 1);
    assert_eq!(failure.message, "b: refused\n\nc: refused");
}

#[test]
fn each_subrepo_stops_the_walk_on_a_halting_failure() {
    let p = project(&["a", "b", "c"]);
    let all = select_subrepos(&p, None).unwrap();
    let seen: RefCell<Vec<String>> = RefCell::new(Vec::new());
    let failure = walk(&all, |s| {
        seen.borrow_mut().push(s.name.clone());
        if s.name == "b" {
            return Err(SubrepoFailure::halting("b: conflict"));
        }
        Ok(())
    })
    .expect_err("a halting failure still fails the command");
    assert_eq!(*seen.borrow(), vec!["a", "b"]);
    assert_eq!(failure.exit_code, 1);
    assert_eq!(failure.message, "b: conflict");
}

#[test]
fn each_subrepo_runs_every_entry_when_nothing_fails() {
    let p = project(&["a", "b", "c"]);
    let all = select_subrepos(&p, None).unwrap();
    let seen: RefCell<Vec<String>> = RefCell::new(Vec::new());
    let result = walk(&all, |s| {
        seen.borrow_mut().push(s.name.clone());
        Ok(())
    });
    assert!(result.is_ok());
    assert_eq!(*seen.borrow(), vec!["a", "b", "c"]);
}

#[test]
fn each_subrepo_says_so_when_there_is_nothing_configured() {
    let empty: Vec<&ResolvedSubrepo> = Vec::new();
    let ran = Cell::new(false);
    let result = walk(&empty, |_| {
        ran.set(true);
        Ok(())
    });
    assert!(result.is_ok());
    assert!(!ran.get(), "an empty config runs no body");
    assert!(SubrepoWalk::new().finish().is_ok());
}

#[test]
fn each_subrepo_accepts_borrowed_selections() {
    let p = project(&["a", "b"]);
    let selected = select_subrepos(&p, Some("b")).unwrap();
    let seen: RefCell<Vec<String>> = RefCell::new(Vec::new());
    walk(&selected, |s| {
        seen.borrow_mut().push(s.name.clone());
        Ok(())
    })
    .unwrap();
    assert_eq!(*seen.borrow(), vec!["b"]);
}

#[test]
fn select_subrepos_defaults_to_every_configured_subrepo() {
    let project = project(&["a", "b"]);
    let all = select_subrepos(&project, None).unwrap();
    assert_eq!(
        all.iter().map(|s| s.name.as_str()).collect::<Vec<_>>(),
        vec!["a", "b"]
    );
}

#[test]
fn select_subrepos_picks_the_one_named() {
    let project = project(&["a", "b"]);
    let one = select_subrepos(&project, Some("b")).unwrap();
    assert_eq!(one.len(), 1);
    assert_eq!(one[0].name, "b");
}

#[test]
fn select_subrepos_names_the_configured_ones_when_the_name_is_unknown() {
    let project = project(&["core", "lib"]);
    let failure = select_subrepos(&project, Some("nope")).expect_err("unknown name");
    assert_eq!(failure.exit_code, 2);
    assert_eq!(
        failure.message,
        "Unknown subrepo \"nope\". Configured subrepos: core, lib"
    );
}

#[test]
fn select_subrepos_falls_back_to_none_with_an_empty_config() {
    let project = project(&[]);
    let failure = select_subrepos(&project, Some("core")).expect_err("unknown name");
    assert_eq!(
        failure.message,
        "Unknown subrepo \"core\". Configured subrepos: (none)"
    );
}

#[test]
fn require_project_reports_a_missing_config_by_name() {
    let failure = require_project_from(Ok(None), true).expect_err("no config");
    assert_eq!(failure.exit_code, 2);
    assert!(failure.message.contains("monosplice.toml"), "{}", failure.message);
    assert!(failure.message.contains("monosplice init"), "{}", failure.message);
    assert_eq!(failure.message, NO_CONFIG_FOUND);
}

#[test]
fn require_project_refuses_a_root_outside_git_and_passes_load_errors_through() {
    let failure = require_project_from(Ok(Some(project(&["a"]))), false).expect_err("not git");
    assert_eq!(failure.message, "/repo is not a git repository.");
    let failure =
        require_project_from(Err(ConfigError("Invalid config at x:\nbad".to_string())), true)
            .expect_err("load error");
    assert_eq!(failure.message, "Invalid config at x:\nbad");
    assert_eq!(failure.exit_code, 2);
    let ok = require_project_from(Ok(Some(project(&["a"]))), true).expect("a project");
    assert_eq!(ok.subrepos.len(), 1);
}

#[test]
fn names_and_quotes_read_as_json_would() {
    assert_eq!(configured_names(&project(&["core", "lib"])), "core, lib");
    assert_eq!(configured_names(&project(&[])), "(none)");
    assert_eq!(json_quote("a\"b\\c\n"), "\"a\\\"b\\\\c\\n\"");
    assert_eq!(json_quote("\u{1}"), "\"\\u0001\"");
}
