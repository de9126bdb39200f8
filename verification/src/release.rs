//! Where the CLI installs itself from: the GitHub releases of the project.

use vstd::prelude::*;

use crate::report::{json_quote, json_quoted};
use crate::text::{chars_of, slice_chars, string_of, trim, trim_chars, Space};

verus! {

/// GitHub repo that hosts the releases the CLI installs from.
pub const RELEASE_REPO: &'static str = "jakequist/monosplice";

/// Package, binary and tarball name.
pub const PACKAGE: &'static str = "monosplice";

pub const RELEASES_PAGE: &'static str = "https://github.com/jakequist/monosplice/releases";

pub const LATEST_RELEASE_API: &'static str =
    "https://api.github.com/repos/jakequist/monosplice/releases/latest";

/// The version a release tag names: trimmed, one leading `v` dropped.
pub open spec fn tag_version(tag: Seq<char>) -> Seq<char> {
    let t = trim(Space::Unicode, tag);
    if t.len() > 0 && t[0] == 'v' {
        t.drop_first()
    } else {
        t
    }
}

/// `v1.2.3` → `1.2.3`. Errors when the tag carries no version.
pub fn version_from_tag(tag: &str) -> (r: Result<String, String>)
    ensures
        match r {
            Ok(v) => tag_version(tag@).len() > 0 && v@ == tag_version(tag@),
            Err(e) => tag_version(tag@).len() == 0 && e@ == "release tag "@ + json_quoted(tag@)
                + " does not contain a version"@,
        },
{
    let t = chars_of(tag);
    let trimmed = trim_chars(Space::Unicode, t.as_slice());
    let version = if trimmed.len() > 0 && trimmed[0] == 'v' {
        let v = slice_chars(trimmed.as_slice(), 1, trimmed.len());
        assert(v@ =~= trimmed@.drop_first());
        v
    } else {
        trimmed
    };
    if version.len() == 0 {
        let mut msg = String::new();
        msg.push_str("release tag ");
        msg.push_str(json_quote(tag).as_str());
        msg.push_str(" does not contain a version");
        return Err(msg);
    }
    Ok(string_of(version.as_slice()))
}

/// Immutable, versioned asset URL for a target triple.
pub fn release_asset_url(version: &str, target: &str) -> (r: String)
    ensures
        r@ == RELEASES_PAGE@ + "/download/v"@ + version@ + "/"@ + PACKAGE@ + "-"@ + version@ + "-"@
            + target@ + ".tar.gz"@,
{
    let mut s = String::new();
    s.push_str(RELEASES_PAGE);
    s.push_str("/download/v");
    s.push_str(version);
    s.push_str("/");
    s.push_str(PACKAGE);
    s.push_str("-");
    s.push_str(version);
    s.push_str("-");
    s.push_str(target);
    s.push_str(".tar.gz");
    s
}

} // verus!
