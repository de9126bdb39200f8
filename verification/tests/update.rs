use monosplice::commands::update::{
    binary_missing, binary_name, cannot_write, check_lines, curl_failure_detail, download_failed,
    exe_not_found, latest_version, no_release_for, running_from_source, tar_not_run,
    unpack_failed, unreachable_github, update_step, version_of_release, with_extension_suffix,
    UpdateStep, INSTALL_ONELINER,
};

#[test]
fn the_staged_binary_sits_beside_the_one_it_replaces() {
    assert_eq!(
        with_extension_suffix("/usr/local/bin/monosplice", "new"),
        "/usr/local/bin/monosplice.new"
    );
    assert_eq!(with_extension_suffix("C:/bin/monosplice.exe", "new"), "C:/bin/monosplice.exe.new");
}

#[test]
fn the_reinstall_hint_is_the_documented_one_liner() {
    assert!(INSTALL_ONELINER.starts_with("curl -fsSL https://github.com/jakequist/monosplice/releases/latest/download/install.sh"));
    assert!(INSTALL_ONELINER.ends_with("| sh"));
}

#[test]
fn the_latest_version_is_read_from_the_api_answer() {
    assert_eq!(
        latest_version("{\"tag_name\": \"v1.4.0\", \"name\": \"x\"}").ok().as_deref(),
        Some("1.4.0")
    );
    let missing = latest_version("{\"name\": \"x\"}").expect_err("no tag");
    assert!(missing.message.contains("the API response carried no tag_name"));
    let garbage = latest_version("not json").expect_err("garbage");
    assert!(garbage.message.contains("could not read the API response: "));
    let empty = latest_version("{\"tag_name\": \"v\"}").expect_err("no version");
    assert!(empty.message.contains("release tag \"v\" does not contain a version"));
    assert!(empty.message.starts_with("Could not ask GitHub for the latest monosplice version.\n"));
}

#[test]
fn failures_name_what_to_do_next() {
    assert_eq!(
        unreachable_github("boom").message,
        "Could not ask GitHub for the latest monosplice version.\nboom\nCheck your network, then try again — or look at the release history:\n  https://github.com/jakequist/monosplice/releases"
    );
    assert!(download_failed("u", "d").message.starts_with("Could not download u\nd\n"));
    assert!(cannot_write("/x", true, "e").message.starts_with("monosplice does not have permission to replace /x."));
    assert!(cannot_write("/x", false, "e").message.starts_with("Could not replace /x: e\n"));
    assert!(no_release_for("riscv64", "linux").message.starts_with("monosplice publishes no release binary for riscv64-linux,"));
    assert_eq!(curl_failure_detail("  nope \n", Some(6)), "nope");
    assert_eq!(curl_failure_detail("", Some(6)), "curl exited 6");
    assert_eq!(curl_failure_detail("", None), "curl was killed by a signal");
    assert_eq!(binary_name(".exe"), "monosplice.exe");
}

#[test]
fn check_reports_both_versions() {
    assert_eq!(
        check_lines("1.0.0", "1.0.0"),
        vec!["installed: 1.0.0", "latest:    1.0.0", "✓ up to date"]
    );
    assert_eq!(
        check_lines("1.0.0", "1.1.0")[2],
        "Run `monosplice update` to install 1.1.0."
    );
}

#[test]
fn each_answer_of_the_releases_api_has_its_outcome() {
    assert_eq!(version_of_release(Ok(Some("v2.0.1".to_string()))).ok().as_deref(), Some("2.0.1"));
    assert_eq!(version_of_release(Ok(Some("  0.9.0 ".to_string()))).ok().as_deref(), Some("0.9.0"));
    assert_eq!(
        version_of_release(Ok(None)).unwrap_err().message,
        unreachable_github("the API response carried no tag_name").message
    );
    assert_eq!(
        version_of_release(Err("expected value at line 1 column 1".to_string())).unwrap_err().message,
        unreachable_github("could not read the API response: expected value at line 1 column 1").message
    );
    assert_eq!(
        version_of_release(Ok(Some("v".to_string()))).unwrap_err().message,
        unreachable_github("release tag \"v\" does not contain a version").message
    );
}

#[test]
fn update_installs_only_when_the_latest_differs() {
    match update_step("1.2.0", "1.2.0") {
        UpdateStep::UpToDate(line) => assert_eq!(line, "✓ monosplice 1.2.0 is already up to date"),
        other => panic!("{other:?}"),
    }
    match update_step("1.2.0", "1.3.0") {
        UpdateStep::Install { before, after } => {
            assert_eq!(before, "Updating monosplice 1.2.0 → 1.3.0…");
            assert_eq!(after, "✓ monosplice updated to 1.3.0");
        }
        other => panic!("{other:?}"),
    }
}

#[test]
fn each_install_refusal_names_the_way_back() {
    let tail = format!("\nNothing was changed. Reinstall with:\n  {INSTALL_ONELINER}");
    assert_eq!(exe_not_found("gone").message, format!("Could not find the running monosplice binary: gone{tail}"));
    assert_eq!(unpack_failed("1.3.0", 2).message, format!("Could not unpack the monosplice 1.3.0 release (tar exited 2).{tail}"));
    assert_eq!(unpack_failed("1.3.0", -1).message, format!("Could not unpack the monosplice 1.3.0 release (tar exited -1).{tail}"));
    assert_eq!(tar_not_run("1.3.0", "no tar").message, format!("Could not run tar to unpack the monosplice 1.3.0 release: no tar{tail}"));
    assert_eq!(
        binary_missing("1.3.0", "monosplice").message,
        format!("The monosplice 1.3.0 release archive did not contain a monosplice binary.{tail}")
    );
    assert_eq!(
        running_from_source("/home/me/monosplice").message,
        "You're running monosplice from source (/home/me/monosplice), not from an installed binary.\n`monosplice update` replaces an installed binary, which is not what is on your PATH here.\nUpdate this checkout with git instead:\n  git -C /home/me/monosplice pull"
    );
}
