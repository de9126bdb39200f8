//! The tracking-ref names and the triangular predicates.

use vstd::prelude::*;

use crate::config::ResolvedSubrepo;

verus! {

/// Where a subrepo's public branch is mirrored inside the monorepo's object db.
pub fn remote_tracking_ref(name: &str) -> (r: String)
    ensures
        r@ == "refs/monosplice/"@ + name@ + "/remote"@,
{
    let mut s = String::new();
    s.push_str("refs/monosplice/");
    s.push_str(name);
    s.push_str("/remote");
    s
}

/// Where the fork's push branch is mirrored (triangular mode only).
pub fn fork_tracking_ref(name: &str) -> (r: String)
    ensures
        r@ == "refs/monosplice/"@ + name@ + "/fork"@,
{
    let mut s = String::new();
    s.push_str("refs/monosplice/");
    s.push_str(name);
    s.push_str("/fork");
    s
}

/// The repository every sync decision is made against: `upstream` when configured, else
/// `remote`.
pub open spec fn pull_source_of(s: ResolvedSubrepo) -> Seq<char> {
    match s.upstream {
        Some(u) => u@,
        None => s.remote@,
    }
}

pub fn pull_source(s: &ResolvedSubrepo) -> (r: &str)
    ensures
        r@ == pull_source_of(*s),
{
    match &s.upstream {
        Some(u) => u.as_str(),
        None => s.remote.as_str(),
    }
}

/// Is this subrepo pulled from one repository and pushed to another?
pub fn is_triangular(s: &ResolvedSubrepo) -> (b: bool)
    ensures
        b == s.upstream is Some,
{
    s.upstream.is_some()
}

} // verus!
