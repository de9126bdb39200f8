use monosplice::release::{
    release_asset_url, version_from_tag, LATEST_RELEASE_API, RELEASES_PAGE, RELEASE_REPO,
};


#[test]
fn urls_point_at_the_release_repo() {
    assert_eq!(RELEASE_REPO, "jakequist/monosplice");
    assert_eq!(
        RELEASES_PAGE,
        "https://github.com/jakequist/monosplice/releases"
    );
    assert_eq!(
        LATEST_RELEASE_API,
        "https://api.github.com/repos/jakequist/monosplice/releases/latest"
    );
}

#[test]
fn strips_a_leading_v() {
    assert_eq!(version_from_tag("v1.2.3").unwrap(), "1.2.3");
}

#[test]
fn accepts_a_tag_that_is_already_a_bare_version() {
    assert_eq!(version_from_tag("0.1.0").unwrap(), "0.1.0");
}

#[test]
fn keeps_prerelease_and_build_metadata_intact() {
    assert_eq!(version_from_tag("v1.0.0-rc.1").unwrap(), "1.0.0-rc.1");
    assert_eq!(version_from_tag("v1.0.0+build.5").unwrap(), "1.0.0+build.5");
}

#[test]
fn only_strips_the_first_v() {
    assert_eq!(version_from_tag("vv1.0.0").unwrap(), "v1.0.0");
}

#[test]
fn ignores_surrounding_whitespace() {
    assert_eq!(version_from_tag("  v1.2.3\n").unwrap(), "1.2.3");
}

#[test]
fn rejects_tags_with_nothing_left_after_the_v() {
    assert!(version_from_tag("").is_err());
    assert!(version_from_tag("   ").is_err());
    let message = version_from_tag("v").expect_err("expected an error");
    assert_eq!(message, "release tag \"v\" does not contain a version");
}

#[test]
fn asset_url_points_at_the_versioned_per_target_tarball() {
    assert_eq!(
        release_asset_url("1.2.3", "x86_64-unknown-linux-gnu"),
        "https://github.com/jakequist/monosplice/releases/download/v1.2.3/monosplice-1.2.3-x86_64-unknown-linux-gnu.tar.gz"
    );
}

#[test]
fn the_asset_url_names_the_versioned_tarball_for_this_target() {
    let target = "x86_64-unknown-linux-gnu";
    let url = release_asset_url("9.9.9", target);
    assert!(url.ends_with(&format!("monosplice-9.9.9-{target}.tar.gz")), "{url}");
}
