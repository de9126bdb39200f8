//! `monosplice tag`: tag the standalone commit that corresponds to the current monorepo
//! HEAD. A tag is a promise that "this commit is what the monorepo says it is", so it may
//! only be created when both sides are already reflected in each other. Here are the
//! refusals, and how the remote's answer about the tag is read.

use vstd::prelude::*;

use crate::config::{Project, ResolvedSubrepo};
use crate::report::{find_subrepo, json_quote, select_subrepos, unknown_subrepo_text, Failure};
use crate::text::{chars_of, decimal, split, split_chars, string_of};

verus! {

/// The arguments of `tag`.
#[derive(Debug)]
pub struct TagArgs {
    /// Name of the subrepo to tag.
    pub subrepo: String,
    /// Tag name to create on the standalone remote.
    pub tag: String,
}

pub open spec fn triangular_refusal(subrepo: ResolvedSubrepo, upstream: Seq<char>, tag: Seq<char>) -> Seq<
    char,
> {
    subrepo.name@ + ": `upstream` is set, so "@ + subrepo.remote@ + " is your fork and "@ + upstream
        + " is someone else's repository.\nTags belong to the upstream maintainers, and monosplice rebuilds the fork's "@
        + subrepo.push_branch@
        + " branch on every push, so a tag there would soon point at abandoned history. No tag was created.\nIf you really want one on your fork, create it yourself:\n  git push "@
        + subrepo.remote@ + " <sha>:refs/tags/"@ + tag
}

/// A triangular subrepo has no commit monosplice may tag: `remote` is a fork whose branch it
/// rebuilds, and `upstream` belongs to someone else.
pub fn refuse_triangular(subrepo: &ResolvedSubrepo, tag: &str) -> (r: Option<Failure>)
    ensures
        match subrepo.upstream {
            Some(u) => r matches Some(f) && f.exit_code == 2 && f.message@ == triangular_refusal(
                *subrepo,
                u@,
                tag@,
            ),
            None => r is None,
        },
{
    match &subrepo.upstream {
        Some(u) => {
            let mut m = String::new();
            m.push_str(subrepo.name.as_str());
            m.push_str(": `upstream` is set, so ");
            m.push_str(subrepo.remote.as_str());
            m.push_str(" is your fork and ");
            m.push_str(u.as_str());
            m.push_str(
                " is someone else's repository.\nTags belong to the upstream maintainers, and monosplice rebuilds the fork's ",
            );
            m.push_str(subrepo.push_branch.as_str());
            m.push_str(
                " branch on every push, so a tag there would soon point at abandoned history. No tag was created.\nIf you really want one on your fork, create it yourself:\n  git push ",
            );
            m.push_str(subrepo.remote.as_str());
            m.push_str(" <sha>:refs/tags/");
            m.push_str(tag);
            Some(Failure::error(m.as_str()))
        },
        None => None,
    }
}

/// The subrepo to tag, and the refusals that come before asking any remote: an unknown
/// name, and a triangular subrepo.
pub fn run<'a>(args: &TagArgs, project: &'a Project) -> (r: Result<&'a ResolvedSubrepo, Failure>)
    ensures
        match find_subrepo(project.subrepos@, args.subrepo@) {
            Some(i) => match project.subrepos@[i].upstream {
                Some(u) => r matches Err(f) && f.exit_code == 2 && f.message@ == triangular_refusal(
                    project.subrepos@[i],
                    u@,
                    args.tag@,
                ),
                None => r matches Ok(s) && *s == project.subrepos@[i],
            },
            None => r matches Err(f) && f.exit_code == 2 && f.message@ == unknown_subrepo_text(
                args.subrepo@,
                project.subrepos@,
            ),
        },
{
    let selected = select_subrepos(project, Some(args.subrepo.as_str()))?;
    if selected.len() == 0 {
        let mut m = String::new();
        m.push_str("Unknown subrepo ");
        m.push_str(json_quote(args.subrepo.as_str()).as_str());
        m.push_str(".");
        return Err(Failure::error(m.as_str()));
    }
    let subrepo = selected[0];
    if let Some(f) = refuse_triangular(subrepo, args.tag.as_str()) {
        return Err(f);
    }
    Ok(subrepo)
}

/// Refuse while monorepo commits are still unexported: the tag would name a commit missing
/// that work.
pub fn require_nothing_to_push(subrepo: &ResolvedSubrepo, unexported: usize) -> (r: Result<
    (),
    Failure,
>)
    ensures
        unexported == 0 <==> r is Ok,
        r matches Err(f) ==> f.exit_code == 2 && f.message@ == subrepo.name@ + ": "@ + decimal(
            unexported as nat,
        ) + " commit(s) have not been exported yet, so "@ + subrepo.remote@
            + " does not match monorepo HEAD.\nTagging now would name a commit that is missing that work. No tag was created.\nRun `monosplice push "@
            + subrepo.name@ + "` first, then tag again."@,
{
    if unexported == 0 {
        return Ok(());
    }
    let mut m = String::new();
    m.push_str(subrepo.name.as_str());
    m.push_str(": ");
    m.push_str(crate::text::string_of(crate::text::decimal_of(unexported).as_slice()).as_str());
    m.push_str(" commit(s) have not been exported yet, so ");
    m.push_str(subrepo.remote.as_str());
    m.push_str(
        " does not match monorepo HEAD.\nTagging now would name a commit that is missing that work. No tag was created.\nRun `monosplice push ",
    );
    m.push_str(subrepo.name.as_str());
    m.push_str("` first, then tag again.");
    Err(Failure::error(m.as_str()))
}

/// Refuse while standalone commits are still unimported: the tag would name work the
/// monorepo has never seen.
pub fn require_nothing_to_pull(subrepo: &ResolvedSubrepo, unimported: usize) -> (r: Result<
    (),
    Failure,
>)
    ensures
        unimported == 0 <==> r is Ok,
        r matches Err(f) ==> f.exit_code == 2 && f.message@ == subrepo.name@ + ": "@ + decimal(
            unimported as nat,
        ) + " commit(s) on "@ + subrepo.remote@
            + " have not been imported yet.\nTagging now would name work the monorepo has never seen. No tag was created.\nRun `monosplice pull "@
            + subrepo.name@ + "` first, then tag again."@,
{
    if unimported == 0 {
        return Ok(());
    }
    let mut m = String::new();
    m.push_str(subrepo.name.as_str());
    m.push_str(": ");
    m.push_str(crate::text::string_of(crate::text::decimal_of(unimported).as_slice()).as_str());
    m.push_str(" commit(s) on ");
    m.push_str(subrepo.remote.as_str());
    m.push_str(
        " have not been imported yet.\nTagging now would name work the monorepo has never seen. No tag was created.\nRun `monosplice pull ",
    );
    m.push_str(subrepo.name.as_str());
    m.push_str("` first, then tag again.");
    Err(Failure::error(m.as_str()))
}

/// Asking the remote whether the tag exists already.
pub fn tag_lookup_args(subrepo: &ResolvedSubrepo, tag: &str) -> (r: Vec<String>)
    ensures
        r.deep_view() == seq!["ls-remote"@, subrepo.remote@, "refs/tags/"@ + tag@],
{
    let mut t = String::new();
    t.push_str("refs/tags/");
    t.push_str(tag);
    let mut a: Vec<String> = Vec::new();
    a.push("ls-remote".to_owned());
    a.push(subrepo.remote.clone());
    a.push(t);
    assert(a.deep_view() =~= seq!["ls-remote"@, subrepo.remote@, "refs/tags/"@ + tag@]);
    a
}

/// The existing tag's commit, as the remote listed it: the first tab-separated field.
pub open spec fn listed_sha(existing: Seq<char>) -> Seq<char> {
    split(existing, '\t')[0]
}

/// Monosplice never moves a tag: refuse when the remote already lists one by this name.
/// `existing` is what asking the remote for the tag printed.
pub fn require_tag_is_free(subrepo: &ResolvedSubrepo, tag: &str, existing: &str) -> (r: Result<
    (),
    Failure,
>)
    ensures
        existing@.len() == 0 <==> r is Ok,
        r matches Err(f) ==> f.exit_code == 2 && f.message@ == subrepo.name@ + ": tag "@ + tag@
            + " already exists on "@ + subrepo.remote@ + " ("@ + listed_sha(existing@)
            + ").\nMonosplice never moves an existing tag on the standalone repo. Pick another name, or delete it yourself with:\n  git push "@
            + subrepo.remote@ + " :refs/tags/"@ + tag@,
{
    let cs = chars_of(existing);
    if cs.len() == 0 {
        return Ok(());
    }
    let fields = split_chars(cs.as_slice(), '\t');
    proof {
        crate::text::lemma_split_from_nonempty(cs@, '\t', seq![]);
    }
    assert(fields@[0]@ == fields.deep_view()[0]);
    let sha = string_of(fields[0].as_slice());
    let mut m = String::new();
    m.push_str(subrepo.name.as_str());
    m.push_str(": tag ");
    m.push_str(tag);
    m.push_str(" already exists on ");
    m.push_str(subrepo.remote.as_str());
    m.push_str(" (");
    m.push_str(sha.as_str());
    m.push_str(
        ").\nMonosplice never moves an existing tag on the standalone repo. Pick another name, or delete it yourself with:\n  git push ",
    );
    m.push_str(subrepo.remote.as_str());
    m.push_str(" :refs/tags/");
    m.push_str(tag);
    Err(Failure::error(m.as_str()))
}

} // verus!
