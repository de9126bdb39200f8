use monosplice::commands::init::{created_lines, run, write_failed, InitArgs, InitPlan, TEMPLATE};
use monosplice::config::resolve_config;

#[test]
fn the_template_carries_a_commented_subrepos_example() {
    let commented = |needle: &str| {
        TEMPLATE
            .lines()
            .any(|l| l.trim_start().starts_with('#') && l.contains(needle))
    };
    assert!(commented("[[subrepos]]"), "{TEMPLATE}");
    assert!(commented("path = "), "{TEMPLATE}");
    assert!(commented("remote = "), "{TEMPLATE}");
    assert!(commented("branch = "), "{TEMPLATE}");
    assert!(commented("exclude = "), "{TEMPLATE}");
}

/// The template must load through the real loader as "nothing attached yet", or `attach`
/// would have no valid file to append its first entry to.
#[test]
fn the_template_is_a_valid_empty_config() {
    let resolved = resolve_config(TEMPLATE, "/repo/monosplice.toml")
        .expect("the scaffold must be valid TOML the loader accepts");
    assert!(resolved.is_empty());
}

#[test]
fn init_leaves_an_existing_config_alone_and_needs_a_git_repo() {
    match run(&InitArgs {}, Some("/repo/monosplice.toml"), true, "/repo/monosplice.toml") {
        Ok(InitPlan::AlreadyInitialized(p)) => assert_eq!(p, "/repo/monosplice.toml"),
        _ => panic!("expected AlreadyInitialized"),
    }
    match run(&InitArgs {}, None, true, "/repo/monosplice.toml") {
        Ok(InitPlan::Write(p)) => assert_eq!(p, "/repo/monosplice.toml"),
        _ => panic!("expected Write"),
    }
    match run(&InitArgs {}, None, false, "/repo/monosplice.toml") {
        Err(f) => {
            assert_eq!(f.exit_code, 2);
            assert!(f.message.starts_with("Not inside a git repository."));
        }
        _ => panic!("expected a refusal"),
    }
}

#[test]
fn init_says_what_it_created_and_what_failed() {
    let lines = created_lines("/repo/monosplice.toml");
    assert_eq!(lines.len(), 4);
    assert_eq!(lines[0], "Created /repo/monosplice.toml");
    assert_eq!(
        write_failed("/repo/monosplice.toml", "denied").message,
        "Could not write /repo/monosplice.toml: denied\nNothing was changed."
    );
}
