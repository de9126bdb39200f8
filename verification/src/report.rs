//! How a command stops, how a multi-subrepo walk collects refusals instead of dying on the
//! first one, and the project/subrepo lookups every command starts with.

use vstd::prelude::*;

use crate::config::{ConfigError, Project, ResolvedSubrepo};
use crate::text::{chars_of, hex_digit, hex_digit_of, join, string_of};

verus! {

/// A command refusing to continue: `Error: <message>` on stderr, then exit `exit_code`.
#[derive(Debug)]
pub struct Failure {
    pub message: String,
    pub exit_code: i32,
}

impl Failure {
    /// A refusal: exit 2.
    pub fn error(message: &str) -> (f: Failure)
        ensures
            f.message@ == message@,
            f.exit_code == 2,
    {
        Failure { message: string_of(chars_of(message).as_slice()), exit_code: 2 }
    }

    /// Problems found and reported: exit 1 (`doctor`, `status --check`, collected failures).
    pub fn exit1(message: &str) -> (f: Failure)
        ensures
            f.message@ == message@,
            f.exit_code == 1,
    {
        Failure { message: string_of(chars_of(message).as_slice()), exit_code: 1 }
    }
}

/// A single subrepo refused to proceed; `halt` stops the walk where it stands.
#[derive(Debug)]
pub struct SubrepoFailure {
    pub message: String,
    pub halt: bool,
}

impl SubrepoFailure {
    pub fn new(message: &str) -> (f: SubrepoFailure)
        ensures
            f.message@ == message@,
            !f.halt,
    {
        SubrepoFailure { message: string_of(chars_of(message).as_slice()), halt: false }
    }

    /// This failure cannot be walked past: stop the run where it stands.
    pub fn halting(message: &str) -> (f: SubrepoFailure)
        ensures
            f.message@ == message@,
            f.halt,
    {
        SubrepoFailure { message: string_of(chars_of(message).as_slice()), halt: true }
    }
}

/// What every subrepo-selecting command says when the config has nothing to work on.
pub const NO_SUBREPOS_CONFIGURED: &'static str =
    "no subrepos configured — run `monosplice attach <folder> <git-url>` to connect one";

/// A multi-subrepo walk in progress: the refusals collected so far, and whether one of them
/// halted the walk.
#[derive(Debug)]
pub struct SubrepoWalk {
    pub failures: Vec<String>,
    pub halted: bool,
}

impl SubrepoWalk {
    pub fn new() -> (w: SubrepoWalk)
        ensures
            w.failures@.len() == 0,
            !w.halted,
    {
        SubrepoWalk { failures: Vec::new(), halted: false }
    }

    /// Record what one subrepo's body answered. A failure is kept; a halting one stops the
    /// walk.
    pub fn record(&mut self, outcome: Result<(), SubrepoFailure>)
        requires
            !old(self).halted,
        ensures
            match outcome {
                Ok(()) => final(self).failures@ == old(self).failures@ && !final(self).halted,
                Err(f) => final(self).failures@ == old(self).failures@.push(f.message)
                    && final(self).halted == f.halt,
            },
    {
        match outcome {
            Ok(()) => {},
            Err(f) => {
                self.failures.push(f.message);
                self.halted = f.halt;
            },
        }
    }

    /// Every collected refusal, reported together with exit 1; or success when there were
    /// none.
    pub fn finish(self) -> (r: Result<(), Failure>)
        ensures
            self.failures@.len() == 0 ==> r is Ok,
            self.failures@.len() > 0 ==> (r matches Err(f) && f.exit_code == 1 && f.message@
                == join(self.failures.deep_view(), "\n\n"@)),
    {
        if self.failures.len() == 0 {
            return Ok(());
        }
        let mut pieces: Vec<Vec<char>> = Vec::new();
        let mut i: usize = 0;
        while i < self.failures.len()
            invariant
                i <= self.failures@.len(),
                pieces.deep_view() == self.failures.deep_view().take(i as int),
            decreases self.failures@.len() - i,
        {
            let ghost before = pieces.deep_view();
            let c = chars_of(self.failures[i].as_str());
            assert(c.deep_view() =~= c@);
            pieces.push(c);
            assert(pieces.deep_view() =~= before.push(self.failures@[i as int]@));
            assert(self.failures.deep_view().take(i + 1) =~= self.failures.deep_view().take(
                i as int,
            ).push(self.failures@[i as int]@));
            i = i + 1;
        }
        assert(self.failures.deep_view().take(self.failures@.len() as int)
            =~= self.failures.deep_view());
        let text = crate::text::join_chars(&pieces, "\n\n");
        Err(Failure { message: string_of(text.as_slice()), exit_code: 1 })
    }
}

/// The refusals among a walk's outcomes, in order.
pub open spec fn refusals(rs: Seq<Result<(), SubrepoFailure>>) -> Seq<String>
    decreases rs.len(),
{
    if rs.len() == 0 {
        seq![]
    } else {
        refusals(rs.drop_last()) + match rs.last() {
            Err(f) => seq![f.message],
            Ok(()) => seq![],
        }
    }
}

/// A halting refusal.
pub open spec fn halts(r: Result<(), SubrepoFailure>) -> bool {
    r matches Err(f) && f.halt
}

/// What a walk over `subrepos` did, given the outcomes `rs` of the bodies it ran: it ran the
/// body on the first `rs.len()` subrepos in order, once each, `rs[i]` being a possible
/// outcome of the body on `subrepos[i]`; it stopped after the first halting refusal or at
/// the end; and it answers success without refusals, else every refusal joined by a blank
/// line with exit 1.
pub open spec fn walk_ran<F: Fn(&ResolvedSubrepo) -> Result<(), SubrepoFailure>>(
    subrepos: Seq<&ResolvedSubrepo>,
    body: F,
    rs: Seq<Result<(), SubrepoFailure>>,
    r: Result<(), Failure>,
) -> bool {
    &&& rs.len() <= subrepos.len()
    &&& forall|i: int| 0 <= i < rs.len() ==> call_ensures(body, (subrepos[i],), #[trigger] rs[i])
    &&& forall|i: int| 0 <= i < rs.len() - 1 ==> !halts(#[trigger] rs[i])
    &&& (rs.len() == subrepos.len() || (rs.len() > 0 && halts(rs.last())))
    &&& (refusals(rs).len() == 0 ==> r is Ok)
    &&& (refusals(rs).len() > 0 ==> (r matches Err(f) && f.exit_code == 1 && f.message@ == join(
        refusals(rs).map_values(|m: String| m@),
        "\n\n"@,
    )))
}

/// Run `body` for each subrepo, collecting the refusals and reporting them together with
/// exit 1; a halting refusal stops the walk where it stands.
pub fn walk_subrepos<F: Fn(&ResolvedSubrepo) -> Result<(), SubrepoFailure>>(
    subrepos: &[&ResolvedSubrepo],
    body: F,
) -> (r: Result<(), Failure>)
    requires
        forall|i: int| 0 <= i < subrepos@.len() ==> call_requires(body, (#[trigger] subrepos@[i],)),
    ensures
        exists|rs: Seq<Result<(), SubrepoFailure>>| #[trigger] walk_ran(subrepos@, body, rs, r),
{
    let mut walk = SubrepoWalk::new();
    let ghost mut rs: Seq<Result<(), SubrepoFailure>> = seq![];
    let mut i: usize = 0;
    while i < subrepos.len()
        invariant_except_break
            i <= subrepos@.len(),
            rs.len() == i,
            !walk.halted,
            forall|k: int| 0 <= k < i ==> !halts(#[trigger] rs[k]),
        invariant
            rs.len() <= subrepos@.len(),
            forall|k: int| 0 <= k < subrepos@.len() ==> call_requires(body, (#[trigger] subrepos@[k],)),
            forall|k: int| 0 <= k < rs.len() ==> call_ensures(body, (subrepos@[k],), #[trigger] rs[k]),
            walk.failures@ == refusals(rs),
        ensures
            rs.len() <= subrepos@.len(),
            forall|k: int| 0 <= k < rs.len() - 1 ==> !halts(#[trigger] rs[k]),
            rs.len() == subrepos@.len() || (rs.len() > 0 && halts(rs.last())),
        decreases subrepos@.len() - i,
    {
        let outcome = body(subrepos[i]);
        let ghost before = rs;
        proof {
            rs = rs.push(outcome);
            assert(rs.drop_last() =~= before);
        }
        walk.record(outcome);
        i = i + 1;
        if walk.halted {
            break;
        }
    }
    assert(walk.failures.deep_view() =~= refusals(rs).map_values(|m: String| m@));
    let r = walk.finish();
    assert(walk_ran(subrepos@, body, rs, r));
    r
}

/// The JSON escape of one character: quote, backslash and control characters escaped, in
/// lower-case `\u00xx` form when no short escape exists.
pub open spec fn json_escape_char(c: char) -> Seq<char> {
    let u = c as u32;
    if c == '"' {
        seq!['\\', '"']
    } else if c == '\\' {
        seq!['\\', '\\']
    } else if u == 0x0a {
        seq!['\\', 'n']
    } else if u == 0x0d {
        seq!['\\', 'r']
    } else if u == 0x09 {
        seq!['\\', 't']
    } else if u == 0x08 {
        seq!['\\', 'b']
    } else if u == 0x0c {
        seq!['\\', 'f']
    } else if u < 0x20 {
        seq!['\\', 'u', '0', '0', hex_digit(u / 16, false), hex_digit(u % 16, false)]
    } else {
        seq![c]
    }
}

pub open spec fn json_escape(s: Seq<char>) -> Seq<char>
    decreases s.len(),
{
    if s.len() == 0 {
        seq![]
    } else {
        json_escape_char(s[0]) + json_escape(s.drop_first())
    }
}

/// `JSON.stringify` of a string.
pub open spec fn json_quoted(s: Seq<char>) -> Seq<char> {
    seq!['"'] + json_escape(s) + seq!['"']
}

fn push_json_escape(out: &mut Vec<char>, c: char)
    ensures
        final(out)@ == old(out)@ + json_escape_char(c),
{
    let u = c as u32;
    if c == '"' {
        out.push('\\');
        out.push('"');
    } else if c == '\\' {
        out.push('\\');
        out.push('\\');
    } else if u == 0x0a {
        out.push('\\');
        out.push('n');
    } else if u == 0x0d {
        out.push('\\');
        out.push('r');
    } else if u == 0x09 {
        out.push('\\');
        out.push('t');
    } else if u == 0x08 {
        out.push('\\');
        out.push('b');
    } else if u == 0x0c {
        out.push('\\');
        out.push('f');
    } else if u < 0x20 {
        out.push('\\');
        out.push('u');
        out.push('0');
        out.push('0');
        out.push(hex_digit_of(u / 16, false));
        out.push(hex_digit_of(u % 16, false));
    } else {
        out.push(c);
    }
    assert(final(out)@ =~= old(out)@ + json_escape_char(c));
}

/// `JSON.stringify` of a string, so quoted names read as they always have.
pub fn json_quote(value: &str) -> (r: String)
    ensures
        r@ == json_quoted(value@),
{
    let cs = chars_of(value);
    let mut out: Vec<char> = Vec::new();
    out.push('"');
    let mut i: usize = 0;
    assert(cs@.skip(0) =~= cs@);
    assert(json_quoted(cs@) =~= out@ + json_escape(cs@.skip(0)) + seq!['"']);
    while i < cs.len()
        invariant
            i <= cs@.len(),
            json_quoted(cs@) == out@ + json_escape(cs@.skip(i as int)) + seq!['"'],
        decreases cs@.len() - i,
    {
        assert(cs@.skip(i as int).drop_first() =~= cs@.skip(i + 1));
        push_json_escape(&mut out, cs[i]);
        assert(json_escape(cs@.skip(i as int)) == json_escape_char(cs@[i as int]) + json_escape(
            cs@.skip(i + 1),
        ));
        i = i + 1;
        assert(json_quoted(cs@) =~= out@ + json_escape(cs@.skip(i as int)) + seq!['"']);
    }
    assert(cs@.skip(cs@.len() as int) =~= Seq::<char>::empty());
    out.push('"');
    assert(out@ =~= json_quoted(cs@));
    string_of(out.as_slice())
}

/// The names of a project's subrepos, comma separated, or `(none)`.
pub open spec fn names_text(subrepos: Seq<ResolvedSubrepo>) -> Seq<char> {
    if subrepos.len() == 0 {
        "(none)"@
    } else {
        join(subrepos.map_values(|s: ResolvedSubrepo| s.name@), ", "@)
    }
}

/// `name, name, ...`, or `(none)`: what every "unknown subrepo" lists.
pub fn configured_names(project: &Project) -> (r: String)
    ensures
        r@ == names_text(project.subrepos@),
{
    if project.subrepos.len() == 0 {
        return string_of(chars_of("(none)").as_slice());
    }
    let mut pieces: Vec<Vec<char>> = Vec::new();
    let mut i: usize = 0;
    let ghost names = project.subrepos@.map_values(|s: ResolvedSubrepo| s.name@);
    while i < project.subrepos.len()
        invariant
            i <= project.subrepos@.len(),
            names == project.subrepos@.map_values(|s: ResolvedSubrepo| s.name@),
            pieces.deep_view() == names.take(i as int),
        decreases project.subrepos@.len() - i,
    {
        let ghost before = pieces.deep_view();
        let c = chars_of(project.subrepos[i].name.as_str());
        assert(c.deep_view() =~= c@);
        pieces.push(c);
        assert(pieces.deep_view() =~= before.push(names[i as int]));
        assert(names.take(i + 1) =~= names.take(i as int).push(names[i as int]));
        i = i + 1;
    }
    assert(names.take(project.subrepos@.len() as int) =~= names);
    let text = crate::text::join_chars(&pieces, ", ");
    string_of(text.as_slice())
}

/// The first subrepo with this name.
pub open spec fn find_subrepo(subrepos: Seq<ResolvedSubrepo>, name: Seq<char>) -> Option<int> {
    if exists|i: int| 0 <= i < subrepos.len() && (#[trigger] subrepos[i]).name@ == name {
        Some(
            choose|i: int|
                0 <= i < subrepos.len() && (#[trigger] subrepos[i]).name@ == name && forall|j: int|
                    0 <= j < i ==> subrepos[j].name@ != name,
        )
    } else {
        None
    }
}

/// `find_subrepo` picks the first match.
pub proof fn lemma_find_subrepo(subrepos: Seq<ResolvedSubrepo>, name: Seq<char>, i: int)
    requires
        0 <= i < subrepos.len(),
        subrepos[i].name@ == name,
        forall|j: int| 0 <= j < i ==> subrepos[j].name@ != name,
    ensures
        find_subrepo(subrepos, name) == Some(i),
{
    let k = choose|k: int|
        0 <= k < subrepos.len() && (#[trigger] subrepos[k]).name@ == name && forall|j: int|
            0 <= j < k ==> subrepos[j].name@ != name;
    assert(k == i) by {
        if k < i {
            assert(subrepos[k].name@ != name);
        } else if k > i {
            assert(subrepos[i].name@ != name);
        }
    }
}

/// The message for an unknown subrepo name.
pub open spec fn unknown_subrepo_text(name: Seq<char>, subrepos: Seq<ResolvedSubrepo>) -> Seq<
    char,
> {
    "Unknown subrepo "@ + json_quoted(name) + ". Configured subrepos: "@ + names_text(subrepos)
}

/// Pick subrepos by optional name: all of them, the one so named, or a refusal naming the
/// configured ones.
pub fn select_subrepos<'a>(project: &'a Project, name: Option<&str>) -> (r: Result<
    Vec<&'a ResolvedSubrepo>,
    Failure,
>)
    ensures
        match name {
            None => r matches Ok(v) && v@.len() == project.subrepos@.len() && forall|i: int|
                0 <= i < v@.len() ==> *v@[i] == project.subrepos@[i],
            Some(n) => match find_subrepo(project.subrepos@, n@) {
                Some(i) => r matches Ok(v) && v@.len() == 1 && *v@[0] == project.subrepos@[i],
                None => r matches Err(f) && f.exit_code == 2 && f.message@ == unknown_subrepo_text(
                    n@,
                    project.subrepos@,
                ),
            },
        },
{
    match name {
        None => {
            let mut all: Vec<&'a ResolvedSubrepo> = Vec::new();
            let mut i: usize = 0;
            while i < project.subrepos.len()
                invariant
                    i <= project.subrepos@.len(),
                    all@.len() == i,
                    forall|j: int| 0 <= j < i ==> *all@[j] == project.subrepos@[j],
                decreases project.subrepos@.len() - i,
            {
                all.push(&project.subrepos[i]);
                assert(*all@[i as int] == project.subrepos@[i as int]);
                i = i + 1;
            }
            assert(all@.len() == project.subrepos@.len());
            assert(forall|j: int| 0 <= j < all@.len() ==> *all@[j] == project.subrepos@[j]);
            Ok(all)
        },
        Some(n) => {
            let mut i: usize = 0;
            while i < project.subrepos.len()
                invariant
                    i <= project.subrepos@.len(),
                    forall|j: int| 0 <= j < i ==> project.subrepos@[j].name@ != n@,
                    name == Some(n),
                decreases project.subrepos@.len() - i,
            {
                if crate::text::str_eq(project.subrepos[i].name.as_str(), n) {
                    proof {
                        lemma_find_subrepo(project.subrepos@, n@, i as int);
                    }
                    let mut one: Vec<&'a ResolvedSubrepo> = Vec::new();
                    one.push(&project.subrepos[i]);
                    assert(*one@[0] == project.subrepos@[i as int]);
                    return Ok(one);
                }
                i = i + 1;
            }
            let mut msg = String::new();
            msg.push_str("Unknown subrepo ");
            msg.push_str(json_quote(n).as_str());
            msg.push_str(". Configured subrepos: ");
            msg.push_str(configured_names(project).as_str());
            Err(Failure { message: msg, exit_code: 2 })
        },
    }
}

pub const NO_CONFIG_FOUND: &'static str =
    "No monosplice config found. Run this inside a repo containing monosplice.toml, or run `monosplice init` to create one.";

/// Turn what loading the config found, and whether its root is a git work tree, into the
/// project a command runs on or the refusal it stops with.
pub fn require_project_from(
    loaded: Result<Option<Project>, ConfigError>,
    root_is_work_tree: bool,
) -> (r: Result<Project, Failure>)
    ensures
        match loaded {
            Err(e) => r matches Err(f) && f.exit_code == 2 && f.message@ == e.0@,
            Ok(None) => r matches Err(f) && f.exit_code == 2 && f.message@ == NO_CONFIG_FOUND@,
            Ok(Some(p)) => if root_is_work_tree {
                r == Ok::<Project, Failure>(p)
            } else {
                r matches Err(f) && f.exit_code == 2 && f.message@ == p.root@
                    + " is not a git repository."@
            },
        },
{
    match loaded {
        Err(e) => Err(Failure { message: e.0, exit_code: 2 }),
        Ok(None) => Err(Failure::error(NO_CONFIG_FOUND)),
        Ok(Some(p)) => {
            if root_is_work_tree {
                Ok(p)
            } else {
                let mut msg = String::new();
                msg.push_str(p.root.as_str());
                msg.push_str(" is not a git repository.");
                Err(Failure { message: msg, exit_code: 2 })
            }
        },
    }
}

} // verus!
