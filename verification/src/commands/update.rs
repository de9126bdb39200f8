//! `monosplice update`: ask the GitHub Releases API what the latest version is and, when
//! asked to, swap the running executable for the release asset built for this target.
//! Here are the messages and the reading of the API's answer; the network and the disk are
//! the caller's.

use vstd::prelude::*;

use crate::release::{version_from_tag, tag_version, PACKAGE, RELEASES_PAGE};
use crate::report::{json_quoted, Failure};
use crate::text::{chars_of, string_of, trim, trim_chars, Space};

verus! {

/// The arguments of `update`.
#[derive(Debug)]
pub struct UpdateArgs {
    /// Only report the installed and latest versions; change nothing.
    pub check: bool,
}

/// Seconds curl may spend on the whole request before it is a network problem.
pub const REQUEST_TIMEOUT_SECS: &'static str = "10";

/// The one command that reinstalls monosplice wherever it was installed from.
pub const INSTALL_ONELINER: &'static str = "curl -fsSL https://github.com/jakequist/monosplice/releases/latest/download/install.sh | sh";

/// `<exe>.<suffix>`, keeping any existing extension: `monosplice.exe` becomes
/// `monosplice.exe.new`.
pub fn with_extension_suffix(exe: &str, suffix: &str) -> (r: String)
    ensures
        r@ == exe@ + "."@ + suffix@,
{
    let mut r = String::new();
    r.push_str(exe);
    r.push_str(".");
    r.push_str(suffix);
    r
}

pub open spec fn unreachable_text(detail: Seq<char>) -> Seq<char> {
    "Could not ask GitHub for the latest "@ + PACKAGE@ + " version.\n"@ + detail
        + "\nCheck your network, then try again — or look at the release history:\n  "@
        + RELEASES_PAGE@
}

/// The releases API could not be asked, or did not answer usably.
pub fn unreachable_github(detail: &str) -> (f: Failure)
    ensures
        f.message@ == unreachable_text(detail@),
        f.exit_code == 2,
{
    let mut m = String::new();
    m.push_str("Could not ask GitHub for the latest ");
    m.push_str(PACKAGE);
    m.push_str(" version.\n");
    m.push_str(detail);
    m.push_str("\nCheck your network, then try again — or look at the release history:\n  ");
    m.push_str(RELEASES_PAGE);
    Failure::error(m.as_str())
}

/// The release tarball could not be downloaded.
pub fn download_failed(url: &str, detail: &str) -> (f: Failure)
    ensures
        f.message@ == "Could not download "@ + url@ + "\n"@ + detail@
            + "\nNothing was changed. Check your network and try again, or look at the release history:\n  "@
            + RELEASES_PAGE@,
        f.exit_code == 2,
{
    let mut m = String::new();
    m.push_str("Could not download ");
    m.push_str(url);
    m.push_str("\n");
    m.push_str(detail);
    m.push_str(
        "\nNothing was changed. Check your network and try again, or look at the release history:\n  ",
    );
    m.push_str(RELEASES_PAGE);
    Failure::error(m.as_str())
}

/// The binary could not be replaced: a permission problem names the reinstall one-liner,
/// anything else quotes the error.
pub fn cannot_write(exe: &str, permission_denied: bool, err: &str) -> (f: Failure)
    ensures
        f.exit_code == 2,
        f.message@ == (if permission_denied {
            "monosplice does not have permission to replace "@ + exe@
                + ".\nNothing was changed. Reinstall it where you installed it from:\n  "@
                + INSTALL_ONELINER@
        } else {
            "Could not replace "@ + exe@ + ": "@ + err@ + "\nNothing was changed. Reinstall with:\n  "@
                + INSTALL_ONELINER@
        }),
{
    let mut m = String::new();
    if permission_denied {
        m.push_str("monosplice does not have permission to replace ");
        m.push_str(exe);
        m.push_str(".\nNothing was changed. Reinstall it where you installed it from:\n  ");
        m.push_str(INSTALL_ONELINER);
    } else {
        m.push_str("Could not replace ");
        m.push_str(exe);
        m.push_str(": ");
        m.push_str(err);
        m.push_str("\nNothing was changed. Reinstall with:\n  ");
        m.push_str(INSTALL_ONELINER);
    }
    Failure::error(m.as_str())
}

/// Why curl failed: its stderr, trimmed, else its exit status.
pub fn curl_failure_detail(stderr: &str, code: Option<i32>) -> (r: String)
    ensures
        r@ == (if trim(Space::Unicode, stderr@).len() > 0 {
            trim(Space::Unicode, stderr@)
        } else {
            match code {
                Some(c) => "curl exited "@ + crate::git::signed_decimal(c as int),
                None => "curl was killed by a signal"@,
            }
        }),
{
    let cs = chars_of(stderr);
    let t = trim_chars(Space::Unicode, cs.as_slice());
    if t.len() > 0 {
        return string_of(t.as_slice());
    }
    match code {
        Some(c) => {
            let mut m = String::new();
            m.push_str("curl exited ");
            let digits = crate::git::signed_decimal_of(c);
            m.push_str(string_of(digits.as_slice()).as_str());
            m
        },
        None => "curl was killed by a signal".to_owned(),
    }
}

/// What `serde_json` reads in the releases API's answer: the `tag_name` string when the
/// body parses and carries one, or the parse error's text.
pub uninterp spec fn api_tag_name(body: Seq<char>) -> Result<Option<Seq<char>>, Seq<char>>;

/// `serde_json::from_str::<serde_json::Value>(body)`, then `.get("tag_name")` and
/// `as_str`. The contract names the outcome; the JSON grammar is `serde_json`'s.
#[verifier::external_body]
fn tag_name_in(body: &str) -> (r: Result<Option<String>, String>)
    ensures
        match r {
            Ok(Some(t)) => api_tag_name(body@) == Ok::<Option<Seq<char>>, Seq<char>>(Some(t@)),
            Ok(None) => api_tag_name(body@) == Ok::<Option<Seq<char>>, Seq<char>>(None),
            Err(e) => api_tag_name(body@) == Err::<Option<Seq<char>>, Seq<char>>(e@),
        },
{
    match serde_json::from_str::<serde_json::Value>(body) {
        Ok(v) => Ok(v.get("tag_name").and_then(serde_json::Value::as_str).map(str::to_string)),
        Err(e) => Err(e.to_string()),
    }
}

/// What the newest released version is, given what the releases API's answer held: its
/// `tag_name`, `None` when it carried none, or why it could not be read.
pub open spec fn release_outcome(
    tag_name: Result<Option<Seq<char>>, Seq<char>>,
    r: Result<String, Failure>,
) -> bool {
    match tag_name {
        Err(e) => r matches Err(f) && f.message@ == unreachable_text(
            "could not read the API response: "@ + e,
        ),
        Ok(None) => r matches Err(f) && f.message@ == unreachable_text(
            "the API response carried no tag_name"@,
        ),
        Ok(Some(tag)) => if tag_version(tag).len() > 0 {
            r matches Ok(v) && v@ == tag_version(tag)
        } else {
            r matches Err(f) && f.message@ == unreachable_text(
                "release tag "@ + json_quoted(tag) + " does not contain a version"@,
            )
        },
    }
}

/// The newest released version, from the `tag_name` the releases API's answer held.
pub fn version_of_release(tag_name: Result<Option<String>, String>) -> (r: Result<String, Failure>)
    ensures
        release_outcome(
            match tag_name {
                Ok(Some(t)) => Ok::<Option<Seq<char>>, Seq<char>>(Some(t@)),
                Ok(None) => Ok::<Option<Seq<char>>, Seq<char>>(None),
                Err(e) => Err::<Option<Seq<char>>, Seq<char>>(e@),
            },
            r,
        ),
{
    match tag_name {
        Err(e) => {
            let mut d = String::new();
            d.push_str("could not read the API response: ");
            d.push_str(e.as_str());
            Err(unreachable_github(d.as_str()))
        },
        Ok(None) => Err(unreachable_github("the API response carried no tag_name")),
        Ok(Some(tag)) => match version_from_tag(tag.as_str()) {
            Ok(v) => Ok(v),
            Err(message) => Err(unreachable_github(message.as_str())),
        },
    }
}

/// The newest released version, from the releases API's answer.
pub fn latest_version(body: &str) -> (r: Result<String, Failure>)
    ensures
        release_outcome(api_tag_name(body@), r),
{
    version_of_release(tag_name_in(body))
}

/// The running executable could not be found.
pub fn exe_not_found(err: &str) -> (f: Failure)
    ensures
        f.exit_code == 2,
        f.message@ == "Could not find the running monosplice binary: "@ + err@
            + "\nNothing was changed. Reinstall with:\n  "@ + INSTALL_ONELINER@,
{
    let mut m = String::new();
    m.push_str("Could not find the running monosplice binary: ");
    m.push_str(err);
    m.push_str("\nNothing was changed. Reinstall with:\n  ");
    m.push_str(INSTALL_ONELINER);
    Failure::error(m.as_str())
}

/// The executable was built in a checkout, which `update` must not replace.
pub fn running_from_source(root: &str) -> (f: Failure)
    ensures
        f.exit_code == 2,
        f.message@ == "You're running monosplice from source ("@ + root@
            + "), not from an installed binary.\n`monosplice update` replaces an installed binary, which is not what is on your PATH here.\nUpdate this checkout with git instead:\n  git -C "@
            + root@ + " pull"@,
{
    let mut m = String::new();
    m.push_str("You're running monosplice from source (");
    m.push_str(root);
    m.push_str(
        "), not from an installed binary.\n`monosplice update` replaces an installed binary, which is not what is on your PATH here.\nUpdate this checkout with git instead:\n  git -C ",
    );
    m.push_str(root);
    m.push_str(" pull");
    Failure::error(m.as_str())
}

/// tar ran and failed; a process killed by a signal reports `-1`.
pub fn unpack_failed(version: &str, code: i32) -> (f: Failure)
    ensures
        f.exit_code == 2,
        f.message@ == "Could not unpack the monosplice "@ + version@ + " release (tar exited "@
            + crate::git::signed_decimal(code as int) + ").\nNothing was changed. Reinstall with:\n  "@
            + INSTALL_ONELINER@,
{
    let mut m = String::new();
    m.push_str("Could not unpack the monosplice ");
    m.push_str(version);
    m.push_str(" release (tar exited ");
    let digits = crate::git::signed_decimal_of(code);
    m.push_str(string_of(digits.as_slice()).as_str());
    m.push_str(").\nNothing was changed. Reinstall with:\n  ");
    m.push_str(INSTALL_ONELINER);
    Failure::error(m.as_str())
}

/// tar could not be started.
pub fn tar_not_run(version: &str, err: &str) -> (f: Failure)
    ensures
        f.exit_code == 2,
        f.message@ == "Could not run tar to unpack the monosplice "@ + version@ + " release: "@
            + err@ + "\nNothing was changed. Reinstall with:\n  "@ + INSTALL_ONELINER@,
{
    let mut m = String::new();
    m.push_str("Could not run tar to unpack the monosplice ");
    m.push_str(version);
    m.push_str(" release: ");
    m.push_str(err);
    m.push_str("\nNothing was changed. Reinstall with:\n  ");
    m.push_str(INSTALL_ONELINER);
    Failure::error(m.as_str())
}

/// The archive held no binary of the expected name.
pub fn binary_missing(version: &str, name: &str) -> (f: Failure)
    ensures
        f.exit_code == 2,
        f.message@ == "The monosplice "@ + version@ + " release archive did not contain a "@
            + name@ + " binary.\nNothing was changed. Reinstall with:\n  "@ + INSTALL_ONELINER@,
{
    let mut m = String::new();
    m.push_str("The monosplice ");
    m.push_str(version);
    m.push_str(" release archive did not contain a ");
    m.push_str(name);
    m.push_str(" binary.\nNothing was changed. Reinstall with:\n  ");
    m.push_str(INSTALL_ONELINER);
    Failure::error(m.as_str())
}

/// What `update` does once it knows the latest version.
#[derive(Debug)]
pub enum UpdateStep {
    /// Nothing: the installed version is the latest. The line to print.
    UpToDate(String),
    /// Install the latest: the line to print before, and the one after.
    Install { before: String, after: String },
}

/// Whether the latest version needs installing, and what `update` says about it.
pub fn update_step(current: &str, latest: &str) -> (r: UpdateStep)
    ensures
        current@ == latest@ ==> (r matches UpdateStep::UpToDate(m) && m@ == "✓ monosplice "@
            + current@ + " is already up to date"@),
        current@ != latest@ ==> (r matches UpdateStep::Install { before, after } && before@
            == "Updating monosplice "@ + current@ + " → "@ + latest@ + "…"@ && after@
            == "✓ monosplice updated to "@ + latest@),
{
    if crate::text::str_eq(current, latest) {
        let mut m = String::new();
        m.push_str("✓ monosplice ");
        m.push_str(current);
        m.push_str(" is already up to date");
        return UpdateStep::UpToDate(m);
    }
    let mut before = String::new();
    before.push_str("Updating monosplice ");
    before.push_str(current);
    before.push_str(" → ");
    before.push_str(latest);
    before.push_str("…");
    let mut after = String::new();
    after.push_str("✓ monosplice updated to ");
    after.push_str(latest);
    UpdateStep::Install { before, after }
}

/// What `update --check` prints.
pub fn check_lines(current: &str, latest: &str) -> (r: Vec<String>)
    ensures
        r.deep_view() == seq![
            "installed: "@ + current@,
            "latest:    "@ + latest@,
            if current@ == latest@ {
                "✓ up to date"@
            } else {
                "Run `monosplice update` to install "@ + latest@ + "."@
            },
        ],
{
    let mut a = String::new();
    a.push_str("installed: ");
    a.push_str(current);
    let mut b = String::new();
    b.push_str("latest:    ");
    b.push_str(latest);
    let c = if crate::text::str_eq(latest, current) {
        "✓ up to date".to_owned()
    } else {
        let mut c = String::new();
        c.push_str("Run `monosplice update` to install ");
        c.push_str(latest);
        c.push_str(".");
        c
    };
    let mut lines: Vec<String> = Vec::new();
    lines.push(a);
    lines.push(b);
    lines.push(c);
    assert(lines.deep_view() =~= seq![
        "installed: "@ + current@,
        "latest:    "@ + latest@,
        if current@ == latest@ {
            "✓ up to date"@
        } else {
            "Run `monosplice update` to install "@ + latest@ + "."@
        },
    ]);
    lines
}

/// The release binary's file name on a platform with this executable suffix.
pub fn binary_name(exe_suffix: &str) -> (r: String)
    ensures
        r@ == PACKAGE@ + exe_suffix@,
{
    let mut r = String::new();
    r.push_str(PACKAGE);
    r.push_str(exe_suffix);
    r
}

/// The platform has no release binary.
pub fn no_release_for(arch: &str, os: &str) -> (f: Failure)
    ensures
        f.exit_code == 2,
        f.message@ == "monosplice publishes no release binary for "@ + arch@ + "-"@ + os@
            + ", so there is nothing to update to.\nNothing was changed. Build from source, or look at the release history:\n  "@
            + RELEASES_PAGE@,
{
    let mut m = String::new();
    m.push_str("monosplice publishes no release binary for ");
    m.push_str(arch);
    m.push_str("-");
    m.push_str(os);
    m.push_str(
        ", so there is nothing to update to.\nNothing was changed. Build from source, or look at the release history:\n  ",
    );
    m.push_str(RELEASES_PAGE);
    Failure::error(m.as_str())
}

} // verus!
