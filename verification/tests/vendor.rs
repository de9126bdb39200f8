use monosplice::config::{resolve_config, ResolvedSubrepo};
use monosplice::vendor::{
    check_config_edit_preconditions, check_free_slot, config_with_entry, config_without_entry,
    delete_it_yourself, reloaded_mismatch,
    removed_mismatch, insert_subrepo_entry, paste_it_yourself,
    remove_subrepo_entry, render_subrepo_entry, ConfigRemoveFailure, ConfigWriteFailure,
    SlotHints, VendorEntry,
};


fn entry(name: &str, path: &str, remote: &str, branch: &str) -> VendorEntry {
    VendorEntry {
        name: name.to_string(),
        path: path.to_string(),
        remote: remote.to_string(),
        branch: branch.to_string(),
        upstream: None,
        push_branch: None,
    }
}

fn resolved(over: VendorEntry) -> ResolvedSubrepo {
    ResolvedSubrepo {
        name: over.name,
        path: over.path,
        remote: over.remote,
        upstream: over.upstream,
        push_branch: over.push_branch.unwrap_or_else(|| over.branch.clone()),
        branch: over.branch,
        exclude: Vec::new(),
        rewrite_message: None,
        transform: None,
        scan: None,
    }
}

// --- render_subrepo_entry ---

#[test]
fn omits_name_and_branch_when_they_equal_the_loader_defaults() {
    assert_eq!(
        render_subrepo_entry(&entry(
            "lodash",
            "vendor/lodash",
            "git@github.com:lodash/lodash.git",
            "main"
        )),
        "[[subrepos]]\npath = \"vendor/lodash\"\nremote = \"git@github.com:lodash/lodash.git\""
    );
}

#[test]
fn writes_name_and_branch_when_they_differ_from_the_defaults() {
    assert_eq!(
        render_subrepo_entry(&entry("ld", "third_party/lodash", "u", "4.17-stable")),
        "[[subrepos]]\nname = \"ld\"\npath = \"third_party/lodash\"\nremote = \"u\"\nbranch = \"4.17-stable\""
    );
}

#[test]
fn escapes_quotes_and_backslashes_so_the_string_stays_valid() {
    let rendered = render_subrepo_entry(&entry("x", "vendor/x", "a\"b\\c", "main"));
    assert_eq!(
        rendered,
        "[[subrepos]]\npath = \"vendor/x\"\nremote = \"a\\\"b\\\\c\""
    );
    // ...and the escaped form is what the loader reads back.
    let subrepos = resolve_config(&rendered, "/repo/monosplice.toml").unwrap();
    assert_eq!(subrepos[0].remote, "a\"b\\c");
}

#[test]
fn renders_upstream_and_omits_a_default_push_branch() {
    let mut e = entry(
        "lodash",
        "vendor/lodash",
        "git@github.com:me/lodash.git",
        "main",
    );
    e.upstream = Some("git@github.com:lodash/lodash.git".to_string());
    e.push_branch = Some("main".to_string());
    assert_eq!(
        render_subrepo_entry(&e),
        "[[subrepos]]\npath = \"vendor/lodash\"\nremote = \"git@github.com:me/lodash.git\"\nupstream = \"git@github.com:lodash/lodash.git\""
    );
}

#[test]
fn renders_a_non_default_push_branch() {
    let mut e = entry("lodash", "vendor/lodash", "fork", "4.x");
    e.upstream = Some("up".to_string());
    e.push_branch = Some("patches".to_string());
    assert_eq!(
        render_subrepo_entry(&e),
        "[[subrepos]]\npath = \"vendor/lodash\"\nremote = \"fork\"\nbranch = \"4.x\"\nupstream = \"up\"\npush-branch = \"patches\""
    );
}

#[test]
fn a_rendered_entry_round_trips_through_the_loader() {
    let mut e = entry("ld", "third_party/lodash", "fork", "4.x");
    e.upstream = Some("up".to_string());
    e.push_branch = Some("patches".to_string());
    let subrepos = resolve_config(
        &render_subrepo_entry(&e),
        "/repo/monosplice.toml",
    )
    .unwrap();
    assert_eq!(subrepos.len(), 1);
    let s = &subrepos[0];
    assert_eq!(s.name, "ld");
    assert_eq!(s.path, "third_party/lodash");
    assert_eq!(s.remote, "fork");
    assert_eq!(s.branch, "4.x");
    assert_eq!(s.upstream.as_deref(), Some("up"));
    assert_eq!(s.push_branch, "patches");
}

// --- insert_subrepo_entry ---

#[test]
fn appends_to_an_empty_file_without_a_leading_blank_line() {
    let block = render_subrepo_entry(&entry("lodash", "vendor/lodash", "u", "main"));
    assert_eq!(insert_subrepo_entry("", &block), format!("{block}\n"));
    assert_eq!(insert_subrepo_entry("\n\n", &block), format!("{block}\n"));
}

#[test]
fn appends_after_exactly_one_blank_line_in_a_non_empty_file() {
    let block = render_subrepo_entry(&entry("lodash", "vendor/lodash", "u", "main"));
    let source = "[[subrepos]]\npath = \"core\"\nremote = \"r\"\n";
    assert_eq!(
        insert_subrepo_entry(source, &block),
        format!("[[subrepos]]\npath = \"core\"\nremote = \"r\"\n\n{block}\n")
    );
    // Trailing blank lines do not become two blank lines, and a missing final newline is
    // not a reason to run the block onto the previous line.
    assert_eq!(
        insert_subrepo_entry("# header\n\n\n", &block),
        format!("# header\n\n{block}\n")
    );
    assert_eq!(
        insert_subrepo_entry("# header", &block),
        format!("# header\n\n{block}\n")
    );
}

#[test]
fn the_appended_file_still_loads_with_both_entries_in_order() {
    let source = "[[subrepos]]\npath = \"core\"\nremote = \"r\"\n";
    let block = render_subrepo_entry(&entry("lodash", "vendor/lodash", "u", "main"));
    let updated = insert_subrepo_entry(source, &block);
    let subrepos = resolve_config(&updated, "/repo/monosplice.toml").unwrap();
    assert_eq!(
        subrepos.iter().map(|s| s.name.as_str()).collect::<Vec<_>>(),
        vec!["core", "lodash"]
    );
}

#[test]
fn removes_one_entry_among_several_and_leaves_the_rest_intact() {
    let source = "[[subrepos]]\npath = \"vendor/lodash\"\nremote = \"u\"\n\n[[subrepos]]\npath = \"core\"\nremote = \"r\"\n";
    assert_eq!(
        remove_subrepo_entry(source, "lodash").unwrap(),
        "[[subrepos]]\npath = \"core\"\nremote = \"r\"\n"
    );
    assert_eq!(
        remove_subrepo_entry(source, "core").unwrap(),
        "[[subrepos]]\npath = \"vendor/lodash\"\nremote = \"u\"\n"
    );
}

#[test]
fn removes_the_only_entry_leaving_an_empty_file() {
    let source = "[[subrepos]]\npath = \"core\"\nremote = \"r\"\n";
    assert_eq!(remove_subrepo_entry(source, "core").unwrap(), "");
}

#[test]
fn keeps_the_comments_and_keys_that_are_not_part_of_the_block() {
    let source = "# Monosplice configuration.\n\n[[subrepos]]\nname = \"core\"\npath = \"packages/core\"\nremote = \"r\"\nexclude = [\"a\", \"b\"]\n\n[[subrepos]]\npath = \"lib\"\nremote = \"l\"\n";
    assert_eq!(
        remove_subrepo_entry(source, "core").unwrap(),
        "# Monosplice configuration.\n\n[[subrepos]]\npath = \"lib\"\nremote = \"l\"\n"
    );
    assert_eq!(
        remove_subrepo_entry(source, "lib").unwrap(),
        "# Monosplice configuration.\n\n[[subrepos]]\nname = \"core\"\npath = \"packages/core\"\nremote = \"r\"\nexclude = [\"a\", \"b\"]\n"
    );
}

#[test]
fn matches_by_the_resolved_name_so_a_quoted_key_works_too() {
    let source = "[[subrepos]]\n\"path\" = \"packages/lib\"\n\"remote\" = \"u\"\n";
    assert_eq!(remove_subrepo_entry(source, "lib").unwrap(), "");
    // A literal `name` wins over the path basename, exactly like the loader.
    let named = "[[subrepos]]\nname = \"ld\"\npath = \"packages/lib\"\nremote = \"u\"\n";
    assert!(remove_subrepo_entry(named, "lib").is_none());
    assert_eq!(remove_subrepo_entry(named, "ld").unwrap(), "");
}

#[test]
fn is_not_fooled_by_brackets_inside_string_values() {
    let source = "[[subrepos]]\npath = \"core\"\nremote = \"r\"\nexclude = [\"a[b]c\"]\n\n[[subrepos]]\npath = \"lib\"\nremote = \"l\"\n";
    assert_eq!(
        remove_subrepo_entry(source, "core").unwrap(),
        "[[subrepos]]\npath = \"lib\"\nremote = \"l\"\n"
    );
}

#[test]
fn returns_none_for_anything_it_cannot_locate_unambiguously() {
    let literal = "[[subrepos]]\npath = \"core\"\nremote = \"r\"\n";
    assert!(remove_subrepo_entry(literal, "nope").is_none());
    // No block at all.
    assert!(remove_subrepo_entry("# empty\n", "core").is_none());
    // Two blocks the loader would name the same thing: the config is invalid anyway, but
    // an ambiguous match is never a licence to pick one.
    let twice = "[[subrepos]]\npath = \"core\"\nremote = \"r\"\n\n[[subrepos]]\npath = \"a/core\"\nremote = \"r2\"\n";
    assert!(remove_subrepo_entry(twice, "core").is_none());
    // A block with no path at all, a non-string path, and a multiline string: all
    // unreadable, so even the *other* block stays put.
    for bad in [
        "[[subrepos]]\nremote = \"r\"\n",
        "[[subrepos]]\npath = 42\nremote = \"r\"\n",
        "[[subrepos]]\npath = \"\"\"lib\"\"\"\nremote = \"r\"\n",
    ] {
        let source = format!("{bad}\n[[subrepos]]\npath = \"core\"\nremote = \"r\"\n");
        assert!(
            remove_subrepo_entry(&source, "core").is_none(),
            "should refuse: {bad}"
        );
    }
}

// --- check_free_slot ---

fn hints() -> SlotHints {
    SlotHints {
        rename: "Rename it".to_string(),
        relocate: "Relocate it.".to_string(),
    }
}

fn configured(path: &str) -> ResolvedSubrepo {
    resolved(entry("core", path, "git@github.com:you/core.git", "main"))
}

#[test]
fn accepts_a_free_name_and_a_free_path() {
    let e = entry("lib", "packages/lib", "u", "main");
    assert!(check_free_slot(&vec![configured("core")], &e, &hints()).is_none());
    assert!(check_free_slot(&vec![], &e, &hints()).is_none());
}

#[test]
fn rejects_a_name_that_is_taken_naming_the_subrepo_that_holds_it() {
    let e = entry("core", "packages/lib", "u", "main");
    let problem = check_free_slot(&vec![configured("core")], &e, &hints()).unwrap();
    assert!(problem.contains("A subrepo named core is already configured"));
    assert!(problem.contains("monosplice pull core"));
    assert!(problem.contains("Rename it"));
}

#[test]
fn rejects_a_path_that_is_taken() {
    let e = entry("lib", "core", "u", "main");
    let problem = check_free_slot(&vec![configured("core")], &e, &hints()).unwrap();
    assert!(problem.contains("core is already configured as subrepo core"));
    assert!(problem.contains("Relocate it."));
}

#[test]
fn rejects_paths_that_nest_either_way_round() {
    let inner = entry("lib", "core/inner", "u", "main");
    assert!(check_free_slot(&vec![configured("core")], &inner, &hints())
        .unwrap()
        .contains("may not nest"));
    let outer = entry("lib", "packages/lib", "u", "main");
    assert!(
        check_free_slot(&vec![configured("packages/lib/deep")], &outer, &hints())
            .unwrap()
            .contains("may not nest")
    );
}

#[test]
fn does_not_treat_a_shared_prefix_as_nesting() {
    let e = entry("lib", "core", "u", "main");
    assert!(check_free_slot(&vec![configured("core-tools")], &e, &hints()).is_none());
}

// --- the paste/delete instructions ---

#[test]
fn paste_it_yourself_prints_the_snippet_then_names_the_retry() {
    let failure = ConfigWriteFailure {
        snippet: "[[subrepos]]\npath = \"vendor/lodash\"\nremote = \"u\"".to_string(),
        reason: "the rewritten config does not load".to_string(),
    };
    let (log, error) = paste_it_yourself(
        "/repo/monosplice.toml",
        &failure,
        "monosplice attach vendor/lodash u",
    );
    assert_eq!(
        log,
        "Add this [[subrepos]] entry to /repo/monosplice.toml:\n\n[[subrepos]]\npath = \"vendor/lodash\"\nremote = \"u\"\n"
    );
    assert!(error.starts_with("monosplice cannot safely edit /repo/monosplice.toml: the rewritten config does not load.\n"));
    assert!(error.ends_with("\n  monosplice attach vendor/lodash u"));
}

#[test]
fn delete_it_yourself_names_the_entry_and_promises_the_directory_is_safe() {
    let subrepo = resolved(entry("lodash", "vendor/lodash", "u", "main"));
    let failure = ConfigRemoveFailure {
        reason: "the rewritten config still has a subrepo named lodash".to_string(),
    };
    let (log, error) =
        delete_it_yourself("/repo/monosplice.toml", &subrepo, &failure);
    assert_eq!(
        log,
        "Delete the [[subrepos]] entry for lodash (vendor/lodash/ tracking u) from /repo/monosplice.toml.\n"
    );
    assert!(
        error.contains("Nothing was changed — the config is untouched and no commit was made.")
    );
    assert!(
        error.contains("vendor/lodash/ and its history stay exactly as they are either way.")
    );
}

// --- reading a rewritten config back ---

fn project_of(source: &str) -> monosplice::config::Project {
    monosplice::config::Project {
        root: "/repo".to_string(),
        config_path: "/repo/monosplice.toml".to_string(),
        subrepos: resolve_config(source, "/repo/monosplice.toml").unwrap(),
    }
}

#[test]
fn a_reload_that_resolves_the_entry_as_written_checks_out() {
    let source = "[[subrepos]]\npath = \"core\"\nremote = \"r\"\n";
    let block = render_subrepo_entry(&entry("lodash", "vendor/lodash", "u", "main"));
    let updated = insert_subrepo_entry(source, &block);
    let written = resolved(entry("lodash", "vendor/lodash", "u", "main"));
    assert!(reloaded_mismatch(&Ok(Some(project_of(&updated))), &written).is_none());
    assert_eq!(
        reloaded_mismatch(&Ok(None), &written).unwrap(),
        "the config file vanished while monosplice was writing it"
    );
    assert_eq!(
        reloaded_mismatch(&Ok(Some(project_of(source))), &written).unwrap(),
        "the rewritten config has no subrepo named lodash"
    );
    let other = resolved(entry("lodash", "vendor/lodash", "elsewhere", "main"));
    assert_eq!(
        reloaded_mismatch(&Ok(Some(project_of(&updated))), &other).unwrap(),
        "the rewritten config resolves lodash to vendor/lodash/ tracking u (main), not what monosplice wrote"
    );
    let broken = monosplice::config::ConfigError("Invalid config at x:\nbad".to_string());
    assert!(reloaded_mismatch(&Err(broken), &written)
        .unwrap()
        .starts_with("the rewritten config does not load:\nInvalid config at x:"));
}

#[test]
fn a_reload_after_removal_must_keep_every_other_entry_exactly() {
    let source = "[[subrepos]]\npath = \"core\"\nremote = \"r\"\n\n[[subrepos]]\npath = \"vendor/lodash\"\nremote = \"u\"\n";
    let before = project_of(source);
    let victim = before.subrepos[1].clone();
    let updated = remove_subrepo_entry(source, "lodash").unwrap();
    assert!(removed_mismatch(&before, &Ok(Some(project_of(&updated))), &victim).is_none());
    assert_eq!(
        removed_mismatch(&before, &Ok(Some(project_of(source))), &victim).unwrap(),
        "the rewritten config still has a subrepo named lodash"
    );
    assert_eq!(
        removed_mismatch(&before, &Ok(Some(project_of(""))), &victim).unwrap(),
        "the rewritten config resolves to 0 subrepo(s) where 1 were expected"
    );
    let changed = "[[subrepos]]\npath = \"core\"\nremote = \"moved\"\n";
    assert_eq!(
        removed_mismatch(&before, &Ok(Some(project_of(changed))), &victim).unwrap(),
        "the rewritten config changed subrepo core, which monosplice was not asked to touch"
    );
}

#[test]
fn removing_what_was_inserted_gives_back_the_file() {
    let source = "# header\n\n[[subrepos]]\npath = \"core\"\nremote = \"r\"\n";
    let block = render_subrepo_entry(&entry("lodash", "vendor/lodash", "u", "main"));
    let updated = insert_subrepo_entry(source, &block);
    assert_eq!(remove_subrepo_entry(&updated, "lodash").unwrap(), source);
}

#[test]
fn editing_the_config_needs_commits_and_a_clean_tree() {
    let no_head = check_config_edit_preconditions("/repo", false, true, "", "", "monosplice attach core", "Attaching").unwrap();
    assert_eq!(no_head, "/repo has no commits yet — commit something before attaching into it. Nothing was changed.");
    let staged = check_config_edit_preconditions("/repo", true, false, "a.txt", "", "monosplice attach core", "Attaching").unwrap();
    assert_eq!(staged, "you have staged changes:\na.txt\nAttaching commits the index, so it would sweep them in. Commit or unstage them, then run `monosplice attach core` again. Nothing was changed.");
    let dirty = check_config_edit_preconditions("/repo", true, true, "", " M b.txt", "monosplice detach core", "Detaching").unwrap();
    assert!(dirty.starts_with("the working tree has uncommitted changes:\n M b.txt\nDetaching edits your config and commits it"));
    assert!(check_config_edit_preconditions("/repo", true, true, "", "", "r", "Attaching").is_none());
}

#[test]
fn a_resolved_subrepo_is_written_back_with_its_push_branch_folded_away() {
    let source = "# header\n";
    let sub = resolved(entry("lodash", "vendor/lodash", "u", "main"));
    let (snippet, updated) = config_with_entry(source, &sub);
    assert_eq!(snippet, "[[subrepos]]\npath = \"vendor/lodash\"\nremote = \"u\"");
    assert_eq!(updated, format!("# header\n\n{snippet}\n"));
    let reloaded = resolve_config(&updated, "monosplice.toml").unwrap();
    assert_eq!(reloaded.len(), 1);
    assert_eq!(reloaded[0].name, "lodash");
    assert_eq!(reloaded[0].push_branch, "main");
}

#[test]
fn an_entry_a_text_edit_cannot_find_is_refused_with_its_name() {
    let source = "[[subrepos]]\npath = \"core\"\nremote = \"r\"\n";
    let missing = resolved(entry("lodash", "vendor/lodash", "u", "main"));
    assert_eq!(
        config_without_entry(source, &missing).unwrap_err().reason,
        "no plain [[subrepos]] entry for lodash that a text edit can safely remove"
    );
    let (_, with_lodash) = config_with_entry(source, &missing);
    assert_eq!(config_without_entry(&with_lodash, &missing).unwrap(), source);
}

#[test]
fn removing_an_inserted_fork_entry_with_its_own_name_gives_back_the_file() {
    let source = "[[subrepos]]\npath = \"core\"\nremote = \"r\"\n\n[[subrepos]]\nname = \"web\"\npath = \"apps/site\"\nremote = \"w\"\n";
    let mut fork = entry("ld", "vendor/lodash", "git@example.com:me/lodash.git", "4.x");
    fork.upstream = Some("https://example.com/lodash/lodash.git".to_string());
    fork.push_branch = Some("patches \"a\"\tb".to_string());
    let updated = insert_subrepo_entry(source, &render_subrepo_entry(&fork));
    assert!(updated.contains("name = \"ld\""));
    assert!(updated.contains("push-branch = \"patches \\\"a\\\"\\tb\""));
    assert_eq!(remove_subrepo_entry(&updated, "ld").unwrap(), source);
    assert_eq!(remove_subrepo_entry("", "ld"), None);
    let alone = insert_subrepo_entry("", &render_subrepo_entry(&fork));
    assert_eq!(remove_subrepo_entry(&alone, "ld").unwrap(), "");
}

#[test]
fn control_and_non_ascii_characters_read_back_as_written() {
    let remote = "a\u{7f}b\tc\u{1}d\u{c}é\"\\";
    let rendered = render_subrepo_entry(&entry("x", "vendor/x", remote, "main"));
    assert!(rendered.contains("remote = \"a\\u007Fb\\tc\\u0001d\\fé\\\"\\\\\""), "{rendered}");
    let subrepos = resolve_config(&rendered, "/repo/monosplice.toml").unwrap();
    assert_eq!(subrepos[0].remote, remote);
}

#[test]
fn an_entry_named_with_escaped_characters_is_removed_again() {
    let source = "[[subrepos]]\npath = \"core\"\nremote = \"r\"\n";
    let block = render_subrepo_entry(&entry("we\"ird\u{7f}", "vendor/w", "u", "main"));
    let updated = insert_subrepo_entry(source, &block);
    assert_eq!(remove_subrepo_entry(&updated, "we\"ird\u{7f}").unwrap(), source);
    assert_eq!(remove_subrepo_entry(&insert_subrepo_entry("", &block), "we\"ird\u{7f}").unwrap(), "");
}
