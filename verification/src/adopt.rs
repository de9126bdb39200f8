//! Adoption: connecting the monorepo to a public branch it did not create. It is an
//! import-side operation, so it stages a patch into the subrepo directory and commits it
//! with an Origin trailer; these are the commit message and the git invocations.

use vstd::prelude::*;

use crate::config::ResolvedSubrepo;
use crate::git::output_lines;
use crate::sync_view::{pull_source, pull_source_of};
use crate::text::{lemma_trim_end_prefix, spec_is_space, trim, trim_end, Space};
use crate::trailers::{
    append_trailer, has_crlf, key_char, lemma_get_trailer_reads_what_append_trailer_wrote,
    lemma_normalize_identity, line_terminator, normalize_newlines, paragraphs, paragraphs_from,
    trailer_value, with_trailer, ORIGIN_TRAILER,
};

verus! {

/// The first ten characters of a sha (all of it when shorter).
pub open spec fn short_sha(sha: Seq<char>) -> Seq<char> {
    if sha.len() <= 10 {
        sha
    } else {
        sha.take(10)
    }
}

pub open spec fn adopt_subject(name: Seq<char>, source: Seq<char>, pub_head: Seq<char>) -> Seq<char> {
    "Adopt "@ + name + " from "@ + source + " @ "@ + short_sha(pub_head) + "\n"@
}

/// The commit that anchors the monorepo to a public branch it did not create: one shape for
/// every route in, naming the repository the content came from, with the public head as
/// its Origin trailer.
pub fn adopt_message(subrepo: &ResolvedSubrepo, pub_head: &str) -> (r: String)
    ensures
        r@ == with_trailer(
            adopt_subject(subrepo.name@, pull_source_of(*subrepo), pub_head@),
            ORIGIN_TRAILER@,
            pub_head@,
        ),
{
    let head = crate::text::chars_of(pub_head);
    let n: usize = if head.len() <= 10 {
        head.len()
    } else {
        10
    };
    let short = crate::text::slice_chars(head.as_slice(), 0, n);
    assert(short@ =~= short_sha(pub_head@));
    let mut subject = String::new();
    subject.push_str("Adopt ");
    subject.push_str(subrepo.name.as_str());
    subject.push_str(" from ");
    subject.push_str(pull_source(subrepo));
    subject.push_str(" @ ");
    subject.push_str(crate::text::string_of(short.as_slice()).as_str());
    subject.push_str("\n");
    append_trailer(subject.as_str(), ORIGIN_TRAILER, pub_head)
}

/// `diff-tree` listing the paths where two trees disagree.
pub fn differing_paths_args(from_tree: &str, to_tree: &str) -> (r: Vec<String>)
    ensures
        r.deep_view() == seq!["diff-tree"@, "-r"@, "--name-only"@, from_tree@, to_tree@],
{
    let mut a: Vec<String> = Vec::new();
    a.push("diff-tree".to_owned());
    a.push("-r".to_owned());
    a.push("--name-only".to_owned());
    a.push(from_tree.to_owned());
    a.push(to_tree.to_owned());
    assert(a.deep_view() =~= seq!["diff-tree"@, "-r"@, "--name-only"@, from_tree@, to_tree@]);
    a
}

/// The paths where two trees disagree, as the user would see them inside the subrepo, from
/// what `diff-tree --name-only` printed: none at all for empty output.
pub fn differing_paths(out: &str) -> (r: Vec<String>)
    ensures
        r.deep_view() == output_lines(out@),
{
    crate::git::split_lines(out)
}

/// The binary patch from one tree to the other.
pub fn tree_patch_args(from_tree: &str, to_tree: &str) -> (r: Vec<String>)
    ensures
        r.deep_view() == seq!["diff-tree"@, "--binary"@, "-M"@, "-p"@, from_tree@, to_tree@],
{
    let mut a: Vec<String> = Vec::new();
    a.push("diff-tree".to_owned());
    a.push("--binary".to_owned());
    a.push("-M".to_owned());
    a.push("-p".to_owned());
    a.push(from_tree.to_owned());
    a.push(to_tree.to_owned());
    assert(a.deep_view() =~= seq!["diff-tree"@, "--binary"@, "-M"@, "-p"@, from_tree@, to_tree@]);
    a
}

/// Staging a tree patch inside the subrepo directory (the patch goes on stdin; an empty one
/// is not applied at all).
pub fn apply_into_args(subrepo: &ResolvedSubrepo) -> (r: Vec<String>)
    ensures
        r.deep_view() == seq!["apply"@, "--index"@, "--directory="@ + subrepo.path@],
{
    let mut dir = String::new();
    dir.push_str("--directory=");
    dir.push_str(subrepo.path.as_str());
    let mut a: Vec<String> = Vec::new();
    a.push("apply".to_owned());
    a.push("--index".to_owned());
    a.push(dir);
    assert(a.deep_view() =~= seq!["apply"@, "--index"@, "--directory="@ + subrepo.path@]);
    a
}

/// Commit whatever was staged. `--allow-empty` because matching trees still record the
/// baseline: the Origin trailer is the whole point of the commit.
pub fn commit_staged_args(message: &str) -> (r: Vec<String>)
    ensures
        r.deep_view() == seq!["commit"@, "--allow-empty"@, "--no-verify"@, "-m"@, message@],
{
    let mut a: Vec<String> = Vec::new();
    a.push("commit".to_owned());
    a.push("--allow-empty".to_owned());
    a.push("--no-verify".to_owned());
    a.push("-m".to_owned());
    a.push(message.to_owned());
    assert(a.deep_view() =~= seq!["commit"@, "--allow-empty"@, "--no-verify"@, "-m"@, message@]);
    a
}

/// No character of `s` ends a line.
pub open spec fn one_line(s: Seq<char>) -> bool {
    forall|i: int| 0 <= i < s.len() ==> !line_terminator(#[trigger] s[i])
}

proof fn lemma_one_line_concat(a: Seq<char>, b: Seq<char>)
    requires
        one_line(a),
        one_line(b),
    ensures
        one_line(a + b),
{
    assert forall|i: int| 0 <= i < (a + b).len() implies !line_terminator(#[trigger] (a + b)[i]) by {
        if i < a.len() {
            assert((a + b)[i] == a[i]);
        } else {
            assert((a + b)[i] == b[i - a.len()]);
        }
    }
}

/// Text without a line feed is one paragraph.
proof fn lemma_one_paragraph(s: Seq<char>, cur: Seq<char>)
    requires
        forall|i: int| 0 <= i < s.len() ==> #[trigger] s[i] != '\n',
    ensures
        paragraphs_from(s, cur).len() == 1,
    decreases s.len(),
{
    if s.len() > 0 {
        assert(s[0] != '\n');
        assert forall|i: int| 0 <= i < s.drop_first().len() implies #[trigger] s.drop_first()[i]
            != '\n' by {
            assert(s.drop_first()[i] == s[i + 1]);
        }
        lemma_one_paragraph(s.drop_first(), cur.push(s[0]));
    }
}

/// **An adoption commit names the public head it anchors to.** When the subrepo's name, the
/// repository it pulls from and the public head are each one line, and the head has
/// something in it, the Origin trailer read back from the message `adopt_message` commits is
/// the public head, white space trimmed.
pub proof fn lemma_an_adoption_names_the_public_head(
    name: Seq<char>,
    source: Seq<char>,
    pub_head: Seq<char>,
)
    requires
        one_line(name),
        one_line(source),
        one_line(pub_head),
        trim_end(Space::Js, pub_head).len() > 0,
    ensures
        trailer_value(
            with_trailer(adopt_subject(name, source, pub_head), ORIGIN_TRAILER@, pub_head),
            ORIGIN_TRAILER@,
        ) == Some(trim(Space::Js, pub_head)),
{
    reveal_strlit("Adopt ");
    reveal_strlit(" from ");
    reveal_strlit(" @ ");
    reveal_strlit("\n");
    reveal_strlit("Monosplice-Origin");
    let short = short_sha(pub_head);
    assert(one_line(short)) by {
        assert forall|i: int| 0 <= i < short.len() implies !line_terminator(#[trigger] short[i]) by {
            assert(short[i] == pub_head[i]);
        }
    }
    assert(one_line("Adopt "@));
    assert(one_line(" from "@));
    assert(one_line(" @ "@));
    lemma_one_line_concat("Adopt "@, name);
    lemma_one_line_concat("Adopt "@ + name, " from "@);
    lemma_one_line_concat("Adopt "@ + name + " from "@, source);
    lemma_one_line_concat("Adopt "@ + name + " from "@ + source, " @ "@);
    lemma_one_line_concat("Adopt "@ + name + " from "@ + source + " @ "@, short);
    let line = "Adopt "@ + name + " from "@ + source + " @ "@ + short;
    let subject = adopt_subject(name, source, pub_head);
    assert(subject == line + seq!['\n']);
    assert(!has_crlf(subject)) by {
        assert forall|i: int| 0 <= i < subject.len() - 1 implies !(subject[i] == '\r'
            && #[trigger] subject[i + 1] == '\n') by {
            assert(subject[i] == line[i]);
            assert(!line_terminator(line[i]));
        }
    }
    lemma_normalize_identity(subject);
    assert(trailer_value(normalize_newlines(subject), ORIGIN_TRAILER@) == trailer_value(
        subject,
        ORIGIN_TRAILER@,
    ));
    let body = trim_end(Space::Js, subject);
    lemma_trim_end_prefix(Space::Js, subject);
    assert(line[0] == 'A');
    assert(!spec_is_space(Space::Js, subject[0]));
    assert(body.len() > 0);
    assert(spec_is_space(Space::Js, subject.last()));
    assert(body.len() < subject.len());
    assert forall|i: int| 0 <= i < body.len() implies #[trigger] body[i] != '\n' by {
        assert(body[i] == subject[i]);
        assert(subject[i] == line[i]);
        assert(!line_terminator(line[i]));
    }
    lemma_one_paragraph(body, seq![]);
    assert(paragraphs(subject).len() == 1);
    assert forall|i: int| 0 <= i < ORIGIN_TRAILER@.len() implies key_char(
        #[trigger] ORIGIN_TRAILER@[i],
    ) by {
        assert(ORIGIN_TRAILER@ == "Monosplice-Origin"@);
    }
    lemma_get_trailer_reads_what_append_trailer_wrote(subject, ORIGIN_TRAILER@, pub_head);
}

} // verus!
