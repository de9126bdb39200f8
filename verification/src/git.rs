//! What monosplice asks of git and what it makes of the answers. Running the process is
//! the caller's job; here are the argument lists, the stdin payloads and the parsers.

use vstd::prelude::*;

use crate::text::{
    chars_of, chars_of_all, decimal, decimal_of, extend, extend_str, find_char, first_index, join,
    join_chars, lemma_first_index, split, split_strings, str_eq, string_of, trim, trim_chars,
    Space,
};
use crate::entry_laws::{lemma_join_split, lemma_split_concat, lemma_split_from_plain};

verus! {

/// SHA of git's canonical empty tree object.
pub const EMPTY_TREE: &'static str = "4b825dc642cb6eb9a060e54bf8d69288fbee4904";

/// A git invocation that exited non-zero, or could not be run.
#[derive(Debug, Clone)]
pub struct GitError {
    pub git_args: Vec<String>,
    pub exit_code: Option<i32>,
    pub stderr: String,
}

/// A failed git call as text.
pub struct GitErrorView {
    pub args: Seq<Seq<char>>,
    pub code: Option<i32>,
    pub stderr: Seq<char>,
}

impl View for GitError {
    type V = GitErrorView;

    open spec fn view(&self) -> GitErrorView {
        GitErrorView { args: self.git_args.deep_view(), code: self.exit_code, stderr: self.stderr@ }
    }
}

/// A signed integer in decimal.
pub open spec fn signed_decimal(i: int) -> Seq<char> {
    if i < 0 {
        seq!['-'] + decimal((-i) as nat)
    } else {
        decimal(i as nat)
    }
}

pub open spec fn exit_text(code: Option<i32>) -> Seq<char> {
    match code {
        Some(c) => signed_decimal(c as int),
        None => "unknown"@,
    }
}

/// `git <args> failed (exit <code>)` and git's stderr on the next line.
pub open spec fn git_error_text(args: Seq<Seq<char>>, code: Option<i32>, stderr: Seq<char>) -> Seq<
    char,
> {
    "git "@ + join(args, " "@) + " failed (exit "@ + exit_text(code) + ")\n"@ + stderr
}

pub fn signed_decimal_of(i: i32) -> (r: Vec<char>)
    ensures
        r@ == signed_decimal(i as int),
{
    if i < 0 {
        let magnitude = (-(i as i64)) as usize;
        let mut r: Vec<char> = Vec::new();
        r.push('-');
        let digits = decimal_of(magnitude);
        extend(&mut r, digits.as_slice());
        r
    } else {
        decimal_of(i as usize)
    }
}

impl GitError {
    /// The message a failed git call is reported with.
    pub fn to_string(&self) -> (r: String)
        ensures
            r@ == git_error_text(self.git_args.deep_view(), self.exit_code, self.stderr@),
    {
        let args = chars_of_all(self.git_args.as_slice());
        assert(self.git_args@.map_values(|s: String| s@) =~= self.git_args.deep_view());
        let mut out = chars_of("git ");
        let joined = join_chars(&args, " ");
        extend(&mut out, joined.as_slice());
        extend_str(&mut out, " failed (exit ");
        match self.exit_code {
            Some(c) => {
                let digits = signed_decimal_of(c);
                extend(&mut out, digits.as_slice());
            },
            None => {
                extend_str(&mut out, "unknown");
            },
        }
        extend_str(&mut out, ")\n");
        extend_str(&mut out, self.stderr.as_str());
        string_of(out.as_slice())
    }
}

/// One commit as `git show --format` reports it.
#[derive(Debug, Clone)]
pub struct CommitMeta {
    pub sha: String,
    pub author_name: String,
    pub author_email: String,
    /// raw format: "<unix-ts> <tz>"
    pub author_date: String,
    pub committer_name: String,
    pub committer_email: String,
    pub committer_date: String,
    /// Full raw message including trailers.
    pub message: String,
}

/// One entry of a recursive tree listing.
#[derive(Debug, Clone)]
pub struct TreeEntry {
    pub mode: String,
    /// "blob" | "commit" | "tree"
    pub kind: String,
    pub sha: String,
    /// Path relative to the listed tree root.
    pub path: String,
}

pub struct TreeEntryView {
    pub mode: Seq<char>,
    pub kind: Seq<char>,
    pub sha: Seq<char>,
    pub path: Seq<char>,
}

impl View for TreeEntry {
    type V = TreeEntryView;

    open spec fn view(&self) -> TreeEntryView {
        TreeEntryView { mode: self.mode@, kind: self.kind@, sha: self.sha@, path: self.path@ }
    }
}

pub open spec fn tree_views(entries: Seq<TreeEntry>) -> Seq<TreeEntryView> {
    entries.map_values(|e: TreeEntry| e@)
}

/// A copy of an entry, possibly under another path.
fn entry_at(e: &TreeEntry, path: String) -> (r: TreeEntry)
    ensures
        r@ == (TreeEntryView { path: path@, ..e@ }),
{
    TreeEntry { mode: e.mode.clone(), kind: e.kind.clone(), sha: e.sha.clone(), path }
}

/// Exactly one trailing `\n` comes off, with a `\r` before it; nothing else.
pub open spec fn without_final_newline(out: Seq<u8>) -> Seq<u8> {
    if out.len() > 0 && out.last() == 10u8 {
        let t = out.drop_last();
        if t.len() > 0 && t.last() == 13u8 {
            t.drop_last()
        } else {
            t
        }
    } else {
        out
    }
}

/// Strip the final newline of git's output: not a trim, since commit messages and blob-ish
/// output keep their own leading and inner white space.
pub fn strip_final_newline(out: Vec<u8>) -> (r: Vec<u8>)
    ensures
        r@ == without_final_newline(out@),
{
    let mut out = out;
    if out.len() > 0 && out[out.len() - 1] == 10u8 {
        out.pop();
        if out.len() > 0 && out[out.len() - 1] == 13u8 {
            out.pop();
        }
    }
    out
}

/// Each item followed by `term`.
pub open spec fn terminated(items: Seq<Seq<char>>, term: char) -> Seq<char>
    decreases items.len(),
{
    if items.len() == 0 {
        seq![]
    } else {
        terminated(items.drop_last(), term) + items.last() + seq![term]
    }
}

fn terminated_of(items: &[String], term: char) -> (r: String)
    ensures
        r@ == terminated(items@.map_values(|s: String| s@), term),
{
    let ghost all = items@.map_values(|s: String| s@);
    let mut out: Vec<char> = Vec::new();
    let mut i: usize = 0;
    while i < items.len()
        invariant
            i <= items@.len(),
            all == items@.map_values(|s: String| s@),
            out@ == terminated(all.take(i as int), term),
        decreases items@.len() - i,
    {
        extend_str(&mut out, items[i].as_str());
        out.push(term);
        assert(all.take(i + 1).drop_last() =~= all.take(i as int));
        i = i + 1;
    }
    assert(all.take(items@.len() as int) =~= all);
    string_of(out.as_slice())
}

/// The `--stdin` batch payload: one name per line, every line terminated.
pub fn stdin_list(shas: &[String]) -> (r: String)
    ensures
        r@ == terminated(shas@.map_values(|s: String| s@), '\n'),
{
    terminated_of(shas, '\n')
}

/// `git mktree -z` input: every line terminated by NUL.
pub fn mktree_input(lines: &[String]) -> (r: String)
    ensures
        r@ == terminated(lines@.map_values(|s: String| s@), '\0'),
{
    terminated_of(lines, '\0')
}

/// The lines of git's output: none at all for empty output.
pub open spec fn output_lines(out: Seq<char>) -> Seq<Seq<char>> {
    if out.len() == 0 {
        seq![]
    } else {
        split(out, '\n')
    }
}

/// Split git output into lines; empty output is no lines, not one empty line.
pub fn split_lines(out: &str) -> (r: Vec<String>)
    ensures
        r.deep_view() == output_lines(out@),
{
    if out.is_empty() {
        Vec::new()
    } else {
        split_strings(out, '\n')
    }
}

/// `git show` output split on NUL: seven header fields, then the message, which may itself
/// hold NULs and is rejoined.
pub fn parse_commit_meta(out: &str) -> (r: Option<CommitMeta>)
    ensures
        match r {
            Some(m) => parse_commit_meta_holds(out@, m),
            None => split(out@, '\0').len() < 8,
        },
{
    let cs = chars_of(out);
    let parts = crate::text::split_chars(cs.as_slice(), '\0');
    let ghost pv = parts.deep_view();
    if parts.len() < 8 {
        return None;
    }
    let mut tail: Vec<Vec<char>> = Vec::new();
    let mut i: usize = 7;
    while i < parts.len()
        invariant
            7 <= i <= parts@.len(),
            pv == parts.deep_view(),
            tail.deep_view() == pv.subrange(7, i as int),
        decreases parts@.len() - i,
    {
        let ghost before = tail.deep_view();
        let piece = crate::text::slice_chars(parts[i].as_slice(), 0, parts[i].len());
        assert(parts@[i as int].deep_view() =~= parts@[i as int]@);
        assert(piece@ =~= pv[i as int]);
        assert(piece.deep_view() =~= piece@);
        tail.push(piece);
        assert(tail.deep_view() =~= before.push(pv[i as int]));
        assert(tail.deep_view() =~= pv.subrange(7, i + 1));
        i = i + 1;
    }
    assert(pv.subrange(7, pv.len() as int) =~= pv.skip(7));
    let message = join_chars(&tail, "\0");
    assert forall|k: int| 0 <= k < 7 implies parts@[k]@ == pv[k] by {
        assert(parts@[k].deep_view() =~= parts@[k]@);
    }
    Some(
        CommitMeta {
            sha: string_of(parts[0].as_slice()),
            author_name: string_of(parts[1].as_slice()),
            author_email: string_of(parts[2].as_slice()),
            author_date: string_of(parts[3].as_slice()),
            committer_name: string_of(parts[4].as_slice()),
            committer_email: string_of(parts[5].as_slice()),
            committer_date: string_of(parts[6].as_slice()),
            message: string_of(message.as_slice()),
        },
    )
}

/// The sha `ls-remote` printed first, if it printed anything.
pub open spec fn ls_remote_sha(out: Seq<char>) -> Option<Seq<char>> {
    if out.len() == 0 {
        None
    } else {
        Some(split(out, '\t')[0])
    }
}

pub fn parse_ls_remote(out: &str) -> (r: Option<String>)
    ensures
        r.deep_view() == ls_remote_sha(out@),
{
    if out.is_empty() {
        return None;
    }
    let cs = chars_of(out);
    let pieces = crate::text::split_chars(cs.as_slice(), '\t');
    proof {
        crate::text::lemma_split_from_nonempty(cs@, '\t', seq![]);
    }
    assert(pieces@[0].deep_view() =~= pieces@[0]@);
    Some(string_of(pieces[0].as_slice()))
}

/// The arguments as owned strings.
pub fn owned_args(args: &[&str]) -> (r: Vec<String>)
    ensures
        r.deep_view() == args@.map_values(|a: &str| a@),
{
    let ghost want = args@.map_values(|a: &str| a@);
    let mut out: Vec<String> = Vec::new();
    let mut i: usize = 0;
    while i < args.len()
        invariant
            i <= args@.len(),
            want == args@.map_values(|a: &str| a@),
            out.deep_view() == want.take(i as int),
        decreases args@.len() - i,
    {
        let ghost before = out.deep_view();
        let a = string_of(chars_of(args[i]).as_slice());
        out.push(a);
        assert(out.deep_view() =~= before.push(want[i as int]));
        assert(want.take(i + 1) =~= want.take(i as int).push(want[i as int]));
        i = i + 1;
    }
    assert(want.take(args@.len() as int) =~= want);
    out
}

/// The `i`-th field, or nothing when there are fewer.
pub open spec fn field_or_empty(fields: Seq<Seq<char>>, i: int) -> Seq<char> {
    if 0 <= i < fields.len() {
        fields[i]
    } else {
        seq![]
    }
}

/// Where `key` sits among the keyed entries.
pub open spec fn key_index<V>(entries: Seq<(Seq<char>, V)>, key: Seq<char>) -> Option<int>
    decreases entries.len(),
{
    if entries.len() == 0 {
        None
    } else if entries.last().0 == key {
        Some(entries.len() - 1)
    } else {
        key_index(entries.drop_last(), key)
    }
}

/// A map insert on keyed entries: a key already there gets the new value in its place, a new
/// key goes at the end.
pub open spec fn upsert<V>(entries: Seq<(Seq<char>, V)>, key: Seq<char>, value: V) -> Seq<
    (Seq<char>, V),
> {
    match key_index(entries, key) {
        Some(i) => entries.update(i, (key, value)),
        None => entries.push((key, value)),
    }
}

proof fn lemma_key_index<V>(entries: Seq<(Seq<char>, V)>, key: Seq<char>)
    ensures
        match key_index(entries, key) {
            Some(i) => 0 <= i < entries.len() && entries[i].0 == key,
            None => forall|j: int| 0 <= j < entries.len() ==> entries[j].0 != key,
        },
    decreases entries.len(),
{
    if entries.len() > 0 && entries.last().0 != key {
        let rest = entries.drop_last();
        lemma_key_index(rest, key);
        assert forall|j: int| 0 <= j < rest.len() implies rest[j] == entries[j] by {}
    }
}

proof fn lemma_key_index_found<V>(entries: Seq<(Seq<char>, V)>, key: Seq<char>, i: int)
    requires
        0 <= i < entries.len(),
        entries[i].0 == key,
        forall|j: int| 0 <= j < entries.len() && j != i ==> entries[j].0 != key,
    ensures
        key_index(entries, key) == Some(i),
    decreases entries.len(),
{
    if entries.len() - 1 != i {
        lemma_key_index_found(entries.drop_last(), key, i);
    }
}

/// Keys appear once each among the entries.
pub open spec fn distinct_keys<V>(entries: Seq<(Seq<char>, V)>) -> bool {
    forall|i: int, j: int|
        0 <= i < entries.len() && 0 <= j < entries.len() && i != j ==> entries[i].0
            != entries[j].0
}

fn upsert_into<V: DeepView>(entries: &mut Vec<(String, V)>, key: String, value: V)
    requires
        distinct_keys(old(entries).deep_view()),
    ensures
        final(entries).deep_view() == upsert(old(entries).deep_view(), key@, value.deep_view()),
        distinct_keys(final(entries).deep_view()),
{
    let ghost before = entries.deep_view();
    let mut i: usize = 0;
    while i < entries.len()
        invariant
            i <= entries@.len(),
            before == entries.deep_view(),
            before == old(entries).deep_view(),
            distinct_keys(before),
            forall|j: int| 0 <= j < i ==> before[j].0 != key@,
        decreases entries@.len() - i,
    {
        assert(before[i as int].0 == entries@[i as int].0@);
        if str_eq(entries[i].0.as_str(), key.as_str()) {
            proof {
                lemma_key_index_found(before, key@, i as int);
            }
            let ghost kv = key@;
            let ghost vv = value.deep_view();
            entries.set(i, (key, value));
            assert(entries.deep_view() =~= before.update(i as int, (kv, vv)));
            return;
        }
        i = i + 1;
    }
    proof {
        lemma_key_index(before, key@);
        if key_index(before, key@) is Some {
            let k = key_index(before, key@)->0;
            assert(before[k].0 == key@);
        }
    }
    let ghost kv = key@;
    let ghost vv = value.deep_view();
    entries.push((key, value));
    assert(entries.deep_view() =~= before.push((kv, vv)));
}

/// Subject per commit sha from `log --format=%H%x00%s` output, lines `0..n`; a later line
/// for the same sha replaces the earlier.
pub open spec fn subjects_upto(lines: Seq<Seq<char>>, n: int) -> Seq<(Seq<char>, Seq<char>)>
    decreases n,
{
    if n <= 0 || n > lines.len() {
        seq![]
    } else {
        let acc = subjects_upto(lines, n - 1);
        let fields = split(lines[n - 1], '\0');
        if fields[0].len() > 0 {
            upsert(acc, fields[0], field_or_empty(fields, 1))
        } else {
            acc
        }
    }
}

pub open spec fn commit_subjects_of(out: Seq<char>) -> Seq<(Seq<char>, Seq<char>)> {
    subjects_upto(output_lines(out), output_lines(out).len() as int)
}

/// The i-th piece of a split, or an empty string past the end.
fn piece_or_empty(pieces: &Vec<Vec<char>>, i: usize) -> (r: String)
    ensures
        r@ == field_or_empty(pieces.deep_view(), i as int),
{
    if i < pieces.len() {
        assert(pieces@[i as int].deep_view() =~= pieces@[i as int]@);
        string_of(pieces[i].as_slice())
    } else {
        String::new()
    }
}

/// Subject line per commit, keyed by sha: a map, as keyed entries with each sha once.
pub fn parse_commit_subjects(out: &str) -> (r: Vec<(String, String)>)
    ensures
        r.deep_view() == commit_subjects_of(out@),
        distinct_keys(r.deep_view()),
{
    let lines = split_lines(out);
    let ghost lv = lines.deep_view();
    let mut subjects: Vec<(String, String)> = Vec::new();
    let mut i: usize = 0;
    while i < lines.len()
        invariant
            i <= lines@.len(),
            lv == lines.deep_view(),
            lv == output_lines(out@),
            subjects.deep_view() == subjects_upto(lv, i as int),
            distinct_keys(subjects.deep_view()),
        decreases lines@.len() - i,
    {
        let line = chars_of(lines[i].as_str());
        let fields = crate::text::split_chars(line.as_slice(), '\0');
        proof {
            crate::text::lemma_split_from_nonempty(line@, '\0', seq![]);
        }
        let sha = piece_or_empty(&fields, 0);
        let subject = piece_or_empty(&fields, 1);
        if !sha.as_str().is_empty() {
            upsert_into(&mut subjects, sha, subject);
        }
        i = i + 1;
    }
    subjects
}

/// The first two space-separated fields of a `cat-file --batch-check` line.
pub open spec fn batch_fields(line: Seq<char>) -> (Seq<char>, Seq<char>) {
    let fields = split(line, ' ');
    (fields[0], field_or_empty(fields, 1))
}

/// Names git answered `missing` for, lines `0..n`, each once, first-seen order: a set.
pub open spec fn missing_upto(lines: Seq<Seq<char>>, n: int) -> Seq<Seq<char>>
    decreases n,
{
    if n <= 0 || n > lines.len() {
        seq![]
    } else {
        let acc = missing_upto(lines, n - 1);
        let (name, status) = batch_fields(lines[n - 1]);
        if name.len() > 0 && status == "missing"@ && !acc.contains(name) {
            acc.push(name)
        } else {
            acc
        }
    }
}

pub open spec fn missing_of(out: Seq<char>) -> Seq<Seq<char>> {
    missing_upto(output_lines(out), output_lines(out).len() as int)
}

fn batch_fields_of(line: &str) -> (r: (String, String))
    ensures
        (r.0@, r.1@) == batch_fields(line@),
{
    let cs = chars_of(line);
    let fields = crate::text::split_chars(cs.as_slice(), ' ');
    proof {
        crate::text::lemma_split_from_nonempty(cs@, ' ', seq![]);
    }
    (piece_or_empty(&fields, 0), piece_or_empty(&fields, 1))
}

fn contains_string(v: &Vec<String>, s: &str) -> (b: bool)
    ensures
        b == v.deep_view().contains(s@),
{
    let mut i: usize = 0;
    while i < v.len()
        invariant
            i <= v@.len(),
            forall|j: int| 0 <= j < i ==> v.deep_view()[j] != s@,
        decreases v@.len() - i,
    {
        if str_eq(v[i].as_str(), s) {
            assert(v.deep_view()[i as int] == s@);
            return true;
        }
        i = i + 1;
    }
    false
}

/// Which of the asked names git reported missing: a set, each name once.
pub fn parse_missing(out: &str) -> (r: Vec<String>)
    ensures
        r.deep_view() == missing_of(out@),
{
    let lines = split_lines(out);
    let ghost lv = lines.deep_view();
    let mut missing: Vec<String> = Vec::new();
    let mut i: usize = 0;
    while i < lines.len()
        invariant
            i <= lines@.len(),
            lv == lines.deep_view(),
            lv == output_lines(out@),
            missing.deep_view() == missing_upto(lv, i as int),
        decreases lines@.len() - i,
    {
        let (name, status) = batch_fields_of(lines[i].as_str());
        if !name.as_str().is_empty() && str_eq(status.as_str(), "missing") && !contains_string(
            &missing,
            name.as_str(),
        ) {
            let ghost before = missing.deep_view();
            missing.push(name);
            assert(missing.deep_view() =~= before.push(batch_fields(lv[i as int]).0));
        }
        i = i + 1;
    }
    missing
}

/// Names git answered `commit` for, lines `0..n`, in order.
pub open spec fn commits_upto(lines: Seq<Seq<char>>, n: int) -> Seq<Seq<char>>
    decreases n,
{
    if n <= 0 || n > lines.len() {
        seq![]
    } else {
        let acc = commits_upto(lines, n - 1);
        let (name, kind) = batch_fields(lines[n - 1]);
        if name.len() > 0 && kind == "commit"@ {
            acc.push(name)
        } else {
            acc
        }
    }
}

pub open spec fn existing_commits_of(out: Seq<char>) -> Seq<Seq<char>> {
    commits_upto(output_lines(out), output_lines(out).len() as int)
}

/// Which of the asked names are commits that exist here, in the order git answered.
pub fn parse_existing_commits(out: &str) -> (r: Vec<String>)
    ensures
        r.deep_view() == existing_commits_of(out@),
{
    let lines = split_lines(out);
    let ghost lv = lines.deep_view();
    let mut ok: Vec<String> = Vec::new();
    let mut i: usize = 0;
    while i < lines.len()
        invariant
            i <= lines@.len(),
            lv == lines.deep_view(),
            lv == output_lines(out@),
            ok.deep_view() == commits_upto(lv, i as int),
        decreases lines@.len() - i,
    {
        let (name, kind) = batch_fields_of(lines[i].as_str());
        if !name.as_str().is_empty() && str_eq(kind.as_str(), "commit") {
            let ghost before = ok.deep_view();
            ok.push(name);
            assert(ok.deep_view() =~= before.push(batch_fields(lv[i as int]).0));
        }
        i = i + 1;
    }
    ok
}

/// A trailer value list: each value trimmed, the empty ones dropped.
pub open spec fn trimmed_values(fields: Seq<Seq<char>>) -> Seq<Seq<char>> {
    fields.map_values(|v: Seq<char>| trim(Space::Unicode, v)).filter(|v: Seq<char>| v.len() > 0)
}

/// Trailer values per commit sha from `log --format=%H%x00%(trailers:...)` output, lines
/// `0..n`; commits without a value are left out.
pub open spec fn trailer_values_upto(lines: Seq<Seq<char>>, n: int) -> Seq<
    (Seq<char>, Seq<Seq<char>>),
>
    decreases n,
{
    if n <= 0 || n > lines.len() {
        seq![]
    } else {
        let acc = trailer_values_upto(lines, n - 1);
        let fields = split(lines[n - 1], '\0');
        let vals = trimmed_values(fields.drop_first());
        if fields[0].len() > 0 && vals.len() > 0 {
            upsert(acc, fields[0], vals)
        } else {
            acc
        }
    }
}

pub open spec fn trailer_values_of(out: Seq<char>) -> Seq<(Seq<char>, Seq<Seq<char>>)> {
    trailer_values_upto(output_lines(out), output_lines(out).len() as int)
}

fn trimmed_values_of(fields: &Vec<Vec<char>>) -> (r: Vec<String>)
    requires
        fields@.len() >= 1,
    ensures
        r.deep_view() == trimmed_values(fields.deep_view().drop_first()),
{
    let ghost all = fields.deep_view().drop_first();
    let ghost trimmed = all.map_values(|v: Seq<char>| trim(Space::Unicode, v));
    let ghost keep = |v: Seq<char>| v.len() > 0;
    let mut out: Vec<String> = Vec::new();
    let mut i: usize = 1;
    while i < fields.len()
        invariant
            1 <= i <= fields@.len(),
            all == fields.deep_view().drop_first(),
            trimmed == all.map_values(|v: Seq<char>| trim(Space::Unicode, v)),
            keep == (|v: Seq<char>| v.len() > 0),
            out.deep_view() == trimmed.take(i - 1).filter(keep),
        decreases fields@.len() - i,
    {
        assert(fields@[i as int].deep_view() =~= fields@[i as int]@);
        assert(all[i - 1] == fields@[i as int]@);
        let t = trim_chars(Space::Unicode, fields[i].as_slice());
        assert(trimmed.take(i as int) =~= trimmed.take(i - 1).push(t@));
        proof {
            trimmed.take(i - 1).lemma_filter_push(t@, keep);
        }
        if t.len() > 0 {
            let ghost before = out.deep_view();
            out.push(string_of(t.as_slice()));
            assert(out.deep_view() =~= before.push(t@));
        }
        i = i + 1;
    }
    assert(trimmed.take(fields@.len() - 1) =~= trimmed);
    out
}

/// Trailer values per commit sha, keyed entries with each sha once.
pub fn parse_trailer_values(out: &str) -> (r: Vec<(String, Vec<String>)>)
    ensures
        r.deep_view() == trailer_values_of(out@),
        distinct_keys(r.deep_view()),
{
    let lines = split_lines(out);
    let ghost lv = lines.deep_view();
    let mut map: Vec<(String, Vec<String>)> = Vec::new();
    let mut i: usize = 0;
    while i < lines.len()
        invariant
            i <= lines@.len(),
            lv == lines.deep_view(),
            lv == output_lines(out@),
            map.deep_view() == trailer_values_upto(lv, i as int),
            distinct_keys(map.deep_view()),
        decreases lines@.len() - i,
    {
        let line = chars_of(lines[i].as_str());
        let fields = crate::text::split_chars(line.as_slice(), '\0');
        proof {
            crate::text::lemma_split_from_nonempty(line@, '\0', seq![]);
        }
        let sha = piece_or_empty(&fields, 0);
        let vals = trimmed_values_of(&fields);
        if !sha.as_str().is_empty() && vals.len() > 0 {
            upsert_into(&mut map, sha, vals);
        }
        i = i + 1;
    }
    map
}

/// One NUL-separated `ls-tree` record: `<mode> <kind> <sha>\t<path>`. Only the first tab
/// separates metadata from the path; paths may hold more.
pub open spec fn ls_tree_entry(line: Seq<char>) -> Option<TreeEntryView> {
    match first_index(line, '\t') {
        None => None,
        Some(t) => {
            let head = split(line.take(t), ' ');
            if head.len() >= 3 {
                Some(
                    TreeEntryView {
                        mode: head[0],
                        kind: head[1],
                        sha: head[2],
                        path: line.skip(t + 1),
                    },
                )
            } else {
                None
            }
        },
    }
}

/// The entries of records `0..n`; empty records and malformed ones are skipped.
pub open spec fn ls_tree_upto(records: Seq<Seq<char>>, n: int) -> Seq<TreeEntryView>
    decreases n,
{
    if n <= 0 || n > records.len() {
        seq![]
    } else {
        let acc = ls_tree_upto(records, n - 1);
        if records[n - 1].len() > 0 {
            match ls_tree_entry(records[n - 1]) {
                Some(e) => acc.push(e),
                None => acc,
            }
        } else {
            acc
        }
    }
}

pub open spec fn ls_tree_of(out: Seq<char>) -> Seq<TreeEntryView> {
    if out.len() == 0 {
        seq![]
    } else {
        ls_tree_upto(split(out, '\0'), split(out, '\0').len() as int)
    }
}

fn ls_tree_entry_of(line: &[char]) -> (r: Option<TreeEntry>)
    ensures
        match r {
            Some(e) => ls_tree_entry(line@) == Some(e@),
            None => ls_tree_entry(line@) is None,
        },
{
    match find_char(line, '\t') {
        None => None,
        Some(t) => {
            proof {
                lemma_first_index(line@, '\t');
            }
            let head = crate::text::slice_chars(line, 0, t);
            assert(head@ =~= line@.take(t as int));
            let fields = crate::text::split_chars(head.as_slice(), ' ');
            if fields.len() < 3 {
                return None;
            }
            let len = line.len();
            assert(t < len);
            let path = crate::text::slice_chars(line, t + 1, len);
            assert(path@ =~= line@.skip(t + 1));
            assert(fields@[0].deep_view() =~= fields@[0]@);
            assert(fields@[1].deep_view() =~= fields@[1]@);
            assert(fields@[2].deep_view() =~= fields@[2]@);
            Some(
                TreeEntry {
                    mode: string_of(fields[0].as_slice()),
                    kind: string_of(fields[1].as_slice()),
                    sha: string_of(fields[2].as_slice()),
                    path: string_of(path.as_slice()),
                },
            )
        },
    }
}

/// Parse `ls-tree -r -z` output.
pub fn parse_ls_tree(out: &str) -> (r: Vec<TreeEntry>)
    ensures
        tree_views(r@) == ls_tree_of(out@),
{
    if out.is_empty() {
        return Vec::new();
    }
    let cs = chars_of(out);
    let records = crate::text::split_chars(cs.as_slice(), '\0');
    let ghost rv = records.deep_view();
    let mut entries: Vec<TreeEntry> = Vec::new();
    let mut i: usize = 0;
    while i < records.len()
        invariant
            i <= records@.len(),
            rv == records.deep_view(),
            rv == split(out@, '\0'),
            tree_views(entries@) == ls_tree_upto(rv, i as int),
        decreases records@.len() - i,
    {
        assert(records@[i as int].deep_view() =~= records@[i as int]@);
        if records[i].len() > 0 {
            match ls_tree_entry_of(records[i].as_slice()) {
                Some(e) => {
                    let ghost before = tree_views(entries@);
                    let ghost ev = e@;
                    entries.push(e);
                    assert(tree_views(entries@) =~= before.push(ev));
                },
                None => {},
            }
        }
        i = i + 1;
    }
    entries
}

/// Keyed subdirectories as text.
pub open spec fn subdir_views(subdirs: Seq<(String, Vec<TreeEntry>)>) -> Seq<
    (Seq<char>, Seq<TreeEntryView>),
> {
    subdirs.map_values(|p: (String, Vec<TreeEntry>)| (p.0@, tree_views(p.1@)))
}

/// Entries `0..n` split into the ones at this level and, per first path segment in
/// first-seen order, the ones below it with that segment stripped.
pub open spec fn group_upto(entries: Seq<TreeEntryView>, n: int) -> (
    Seq<TreeEntryView>,
    Seq<(Seq<char>, Seq<TreeEntryView>)>,
)
    decreases n,
{
    if n <= 0 || n > entries.len() {
        (seq![], seq![])
    } else {
        let (here, subs) = group_upto(entries, n - 1);
        let e = entries[n - 1];
        match first_index(e.path, '/') {
            None => (here.push(e), subs),
            Some(k) => {
                let dir = e.path.take(k);
                let child = TreeEntryView { path: e.path.skip(k + 1), ..e };
                match key_index(subs, dir) {
                    Some(i) => (here, subs.update(i, (dir, subs[i].1.push(child)))),
                    None => (here, subs.push((dir, seq![child]))),
                }
            },
        }
    }
}

fn find_subdir(subdirs: &Vec<(String, Vec<TreeEntry>)>, dir: &str) -> (r: Option<usize>)
    ensures
        match r {
            Some(i) => i < subdirs@.len() && subdir_views(subdirs@)[i as int].0 == dir@,
            None => forall|j: int|
                0 <= j < subdirs@.len() ==> subdir_views(subdirs@)[j].0 != dir@,
        },
{
    let ghost sv = subdir_views(subdirs@);
    let mut i: usize = 0;
    while i < subdirs.len()
        invariant
            i <= subdirs@.len(),
            sv == subdir_views(subdirs@),
            forall|j: int| 0 <= j < i ==> sv[j].0 != dir@,
        decreases subdirs@.len() - i,
    {
        assert(sv[i as int].0 == subdirs@[i as int].0@);
        if str_eq(subdirs[i].0.as_str(), dir) {
            return Some(i);
        }
        i = i + 1;
    }
    None
}

/// Split flat entries into those at this level and, per first path segment, those below it.
pub fn group_entries(entries: &[TreeEntry]) -> (r: (Vec<TreeEntry>, Vec<(String, Vec<TreeEntry>)>))
    ensures
        (tree_views(r.0@), subdir_views(r.1@)) == group_upto(
            tree_views(entries@),
            entries@.len() as int,
        ),
{
    let ghost ev = tree_views(entries@);
    let mut here: Vec<TreeEntry> = Vec::new();
    let mut subdirs: Vec<(String, Vec<TreeEntry>)> = Vec::new();
    let mut n: usize = 0;
    while n < entries.len()
        invariant
            n <= entries@.len(),
            ev == tree_views(entries@),
            (tree_views(here@), subdir_views(subdirs@)) == group_upto(ev, n as int),
            distinct_keys(subdir_views(subdirs@)),
        decreases entries@.len() - n,
    {
        let e = &entries[n];
        assert(ev[n as int] == e@);
        let pc = chars_of(e.path.as_str());
        match find_char(pc.as_slice(), '/') {
            None => {
                let ghost before = tree_views(here@);
                here.push(entry_at(e, e.path.clone()));
                assert(tree_views(here@) =~= before.push(e@));
            },
            Some(slash) => {
                proof {
                    lemma_first_index(pc@, '/');
                }
                let len = pc.len();
                assert(slash < len);
                let dir = crate::text::slice_chars(pc.as_slice(), 0, slash);
                let rest = crate::text::slice_chars(pc.as_slice(), slash + 1, len);
                assert(dir@ =~= e.path@.take(slash as int));
                assert(rest@ =~= e.path@.skip(slash + 1));
                let child = entry_at(e, string_of(rest.as_slice()));
                let dir = string_of(dir.as_slice());
                let ghost sv = subdir_views(subdirs@);
                let slot_of = find_subdir(&subdirs, dir.as_str());
                if let Some(i) = slot_of {
                    proof {
                        lemma_key_index_found(sv, dir@, i as int);
                    }
                    let mut slot: (String, Vec<TreeEntry>) = (String::new(), Vec::new());
                    subdirs.set_and_swap(i, &mut slot);
                    let ghost kids = tree_views(slot.1@);
                    let ghost cv = child@;
                    slot.1.push(child);
                    assert(tree_views(slot.1@) =~= kids.push(cv));
                    subdirs.set(i, slot);
                    assert(subdir_views(subdirs@) =~= sv.update(
                        i as int,
                        (dir@, sv[i as int].1.push(cv)),
                    ));
                } else {
                    proof {
                        lemma_key_index(sv, dir@);
                        if key_index(sv, dir@) is Some {
                            let k = key_index(sv, dir@)->0;
                            assert(sv[k].0 == dir@);
                        }
                    }
                    let ghost cv = child@;
                    let mut kids: Vec<TreeEntry> = Vec::new();
                    kids.push(child);
                    assert(tree_views(kids@) =~= seq![cv]);
                    subdirs.push((dir, kids));
                    assert(subdir_views(subdirs@) =~= sv.push((dir@, seq![cv])));
                }
            },
        }
        n = n + 1;
    }
    (here, subdirs)
}

// ---------------------------------------------------------------------------------------
// The invocations.

/// Options for a git invocation: the variables layered on top of the inherited environment,
/// and what to write to git's stdin.
#[derive(Debug)]
pub struct GitOpts {
    pub env: Vec<(String, String)>,
    pub input: Option<String>,
}

impl Default for GitOpts {
    /// No extra variables, nothing on stdin.
    fn default() -> (o: GitOpts)
        ensures
            o.env@.len() == 0,
            o.input is None,
    {
        GitOpts { env: Vec::new(), input: None }
    }
}

/// One git invocation: its arguments and its options.
#[derive(Debug)]
pub struct GitCall {
    pub args: Vec<String>,
    pub opts: GitOpts,
}

fn owned(s: &str) -> (r: String)
    ensures
        r@ == s@,
{
    s.to_owned()
}

fn concat(a: &str, b: &str) -> (r: String)
    ensures
        r@ == a@ + b@,
{
    let mut r = String::new();
    r.push_str(a);
    r.push_str(b);
    r
}

pub open spec fn read_commit_args_of(sha: Seq<char>) -> Seq<Seq<char>> {
    seq![
        "show"@,
        "-s"@,
        "--date=raw"@,
        "--format=%H%x00%an%x00%ae%x00%ad%x00%cn%x00%ce%x00%cd%x00%B"@,
        sha,
    ]
}

/// `git show` of one commit, its fields NUL-separated.
pub fn read_commit_args(sha: &str) -> (r: Vec<String>)
    ensures
        r.deep_view() == read_commit_args_of(sha@),
{
    let mut a: Vec<String> = Vec::new();
    a.push(owned("show"));
    a.push(owned("-s"));
    a.push(owned("--date=raw"));
    a.push(owned("--format=%H%x00%an%x00%ae%x00%ad%x00%cn%x00%ce%x00%cd%x00%B"));
    a.push(owned(sha));
    assert(a.deep_view() =~= read_commit_args_of(sha@));
    a
}

/// The commit `sha`, from what `git show` with `read_commit_args(sha)` printed; an error
/// naming that call when the output has too few fields.
pub fn read_commit(sha: &str, out: &str) -> (r: Result<CommitMeta, GitError>)
    ensures
        match r {
            Ok(m) => parse_commit_meta_holds(out@, m),
            Err(e) => split(out@, '\0').len() < 8 && e.git_args.deep_view() == read_commit_args_of(
                sha@,
            ) && e.exit_code is None && e.stderr@ == "unexpected git show output for "@ + sha@,
        },
{
    match parse_commit_meta(out) {
        Some(m) => Ok(m),
        None => Err(
            GitError {
                git_args: read_commit_args(sha),
                exit_code: None,
                stderr: concat("unexpected git show output for ", sha),
            },
        ),
    }
}

/// What `parse_commit_meta` promises of a commit it returns.
pub open spec fn parse_commit_meta_holds(out: Seq<char>, m: CommitMeta) -> bool {
    let parts = split(out, '\0');
    &&& parts.len() >= 8
    &&& m.sha@ == parts[0]
    &&& m.author_name@ == parts[1]
    &&& m.author_email@ == parts[2]
    &&& m.author_date@ == parts[3]
    &&& m.committer_name@ == parts[4]
    &&& m.committer_email@ == parts[5]
    &&& m.committer_date@ == parts[6]
    &&& m.message@ == join(parts.skip(7), "\0"@)
}

/// `rev-list` with the caller's arguments (ranges, `--reverse`, `--`, paths).
pub fn rev_list_args(extra: &[String]) -> (r: Vec<String>)
    ensures
        r.deep_view() == seq!["rev-list"@] + extra@.map_values(|s: String| s@),
{
    let mut a: Vec<String> = Vec::new();
    a.push(owned("rev-list"));
    let mut i: usize = 0;
    while i < extra.len()
        invariant
            i <= extra@.len(),
            a.deep_view() == seq!["rev-list"@] + extra@.take(i as int).map_values(|s: String| s@),
        decreases extra@.len() - i,
    {
        let ghost before = a.deep_view();
        a.push(owned(extra[i].as_str()));
        assert(a.deep_view() =~= before.push(extra@[i as int]@));
        assert(extra@.take(i + 1).map_values(|s: String| s@) =~= extra@.take(i as int).map_values(
            |s: String| s@,
        ).push(extra@[i as int]@));
        assert(a.deep_view() =~= seq!["rev-list"@] + extra@.take(i + 1).map_values(
            |s: String| s@,
        ));
        i = i + 1;
    }
    assert(extra@.take(extra@.len() as int) =~= extra@);
    a
}

/// `log --no-walk` fed the shas on stdin, one subject per commit; nothing to ask when there
/// are no shas.
pub fn commit_subjects_call(shas: &[String]) -> (r: Option<GitCall>)
    ensures
        match r {
            Some(c) => shas@.len() > 0 && c.args.deep_view() == seq![
                "log"@,
                "--no-walk"@,
                "--format=%H%x00%s"@,
                "--stdin"@,
            ] && c.opts.env@.len() == 0 && c.opts.input.deep_view() == Some(
                terminated(shas@.map_values(|s: String| s@), '\n'),
            ),
            None => shas@.len() == 0,
        },
{
    if shas.len() == 0 {
        return None;
    }
    let mut a: Vec<String> = Vec::new();
    a.push(owned("log"));
    a.push(owned("--no-walk"));
    a.push(owned("--format=%H%x00%s"));
    a.push(owned("--stdin"));
    let c = GitCall { args: a, opts: GitOpts { env: Vec::new(), input: Some(stdin_list(shas)) } };
    assert(c.args.deep_view() =~= seq!["log"@, "--no-walk"@, "--format=%H%x00%s"@, "--stdin"@]);
    Some(c)
}

/// `rev-parse --verify --quiet <rev>^{commit}`: resolves only to a commit.
pub fn rev_parse_args(rev: &str) -> (r: Vec<String>)
    ensures
        r.deep_view() == seq![
            "rev-parse"@,
            "--verify"@,
            "--quiet"@,
            rev@ + "^{commit}"@,
        ],
{
    let mut a: Vec<String> = Vec::new();
    a.push(owned("rev-parse"));
    a.push(owned("--verify"));
    a.push(owned("--quiet"));
    a.push(concat(rev, "^{commit}"));
    assert(a.deep_view() =~= seq!["rev-parse"@, "--verify"@, "--quiet"@, rev@ + "^{commit}"@]);
    a
}

/// One batched `cat-file --batch-check` for all the names; nothing to ask for none.
pub fn batch_check_call(shas: &[String]) -> (r: Option<GitCall>)
    ensures
        match r {
            Some(c) => shas@.len() > 0 && c.args.deep_view() == seq![
                "cat-file"@,
                "--batch-check"@,
            ] && c.opts.env@.len() == 0 && c.opts.input.deep_view() == Some(
                terminated(shas@.map_values(|s: String| s@), '\n'),
            ),
            None => shas@.len() == 0,
        },
{
    if shas.len() == 0 {
        return None;
    }
    let mut a: Vec<String> = Vec::new();
    a.push(owned("cat-file"));
    a.push(owned("--batch-check"));
    assert(a.deep_view() =~= seq!["cat-file"@, "--batch-check"@]);
    Some(GitCall { args: a, opts: GitOpts { env: Vec::new(), input: Some(stdin_list(shas)) } })
}

/// What a new commit object is made of.
#[derive(Debug)]
pub struct CommitTreeInput {
    pub tree: String,
    pub parents: Vec<String>,
    pub message: String,
    pub author_name: String,
    pub author_email: String,
    pub author_date: String,
    pub committer_name: String,
    pub committer_email: String,
    pub committer_date: String,
}

/// `-p <parent>` for each parent, in order.
pub open spec fn parent_args(parents: Seq<Seq<char>>) -> Seq<Seq<char>>
    decreases parents.len(),
{
    if parents.len() == 0 {
        seq![]
    } else {
        parent_args(parents.drop_last()) + seq!["-p"@, parents.last()]
    }
}

pub open spec fn commit_identity_env(input: CommitTreeInput) -> Seq<(Seq<char>, Seq<char>)> {
    seq![
        ("GIT_AUTHOR_NAME"@, input.author_name@),
        ("GIT_AUTHOR_EMAIL"@, input.author_email@),
        ("GIT_AUTHOR_DATE"@, input.author_date@),
        ("GIT_COMMITTER_NAME"@, input.committer_name@),
        ("GIT_COMMITTER_EMAIL"@, input.committer_email@),
        ("GIT_COMMITTER_DATE"@, input.committer_date@),
    ]
}

/// `commit-tree` writing the commit object straight into the object db, authorship through
/// the environment and the message on stdin. Never touches the working tree.
pub fn commit_tree_call(input: &CommitTreeInput) -> (c: GitCall)
    ensures
        c.args.deep_view() == seq!["commit-tree"@, input.tree@] + parent_args(
            input.parents.deep_view(),
        ),
        c.opts.env.deep_view() == commit_identity_env(*input),
        c.opts.input.deep_view() == Some(input.message@),
{
    let mut a: Vec<String> = Vec::new();
    a.push(owned("commit-tree"));
    a.push(owned(input.tree.as_str()));
    let ghost pv = input.parents.deep_view();
    let mut i: usize = 0;
    assert(pv.take(0) =~= Seq::<Seq<char>>::empty());
    while i < input.parents.len()
        invariant
            i <= input.parents@.len(),
            pv == input.parents.deep_view(),
            a.deep_view() == seq!["commit-tree"@, input.tree@] + parent_args(pv.take(i as int)),
        decreases input.parents@.len() - i,
    {
        let ghost before = a.deep_view();
        a.push(owned("-p"));
        a.push(owned(input.parents[i].as_str()));
        assert(pv[i as int] == input.parents@[i as int]@);
        assert(a.deep_view() =~= before + seq!["-p"@, pv[i as int]]);
        assert(pv.take(i + 1).drop_last() =~= pv.take(i as int));
        assert(a.deep_view() =~= seq!["commit-tree"@, input.tree@] + parent_args(
            pv.take(i + 1),
        ));
        i = i + 1;
    }
    assert(pv.take(input.parents@.len() as int) =~= pv);
    let mut env: Vec<(String, String)> = Vec::new();
    env.push((owned("GIT_AUTHOR_NAME"), owned(input.author_name.as_str())));
    env.push((owned("GIT_AUTHOR_EMAIL"), owned(input.author_email.as_str())));
    env.push((owned("GIT_AUTHOR_DATE"), owned(input.author_date.as_str())));
    env.push((owned("GIT_COMMITTER_NAME"), owned(input.committer_name.as_str())));
    env.push((owned("GIT_COMMITTER_EMAIL"), owned(input.committer_email.as_str())));
    env.push((owned("GIT_COMMITTER_DATE"), owned(input.committer_date.as_str())));
    assert(env.deep_view() =~= commit_identity_env(*input));
    GitCall { args: a, opts: GitOpts { env, input: Some(owned(input.message.as_str())) } }
}

/// Recursive listing of a tree-ish, NUL-separated.
pub fn ls_tree_args(treeish: &str) -> (r: Vec<String>)
    ensures
        r.deep_view() == seq!["ls-tree"@, "-r"@, "-z"@, treeish@],
{
    let mut a: Vec<String> = Vec::new();
    a.push(owned("ls-tree"));
    a.push(owned("-r"));
    a.push(owned("-z"));
    a.push(owned(treeish));
    assert(a.deep_view() =~= seq!["ls-tree"@, "-r"@, "-z"@, treeish@]);
    a
}

/// The `mktree` line of an entry at this level.
pub fn tree_line(e: &TreeEntry) -> (r: String)
    ensures
        r@ == e.mode@ + " "@ + e.kind@ + " "@ + e.sha@ + "\t"@ + e.path@,
{
    let mut r = String::new();
    r.push_str(e.mode.as_str());
    r.push_str(" ");
    r.push_str(e.kind.as_str());
    r.push_str(" ");
    r.push_str(e.sha.as_str());
    r.push_str("\t");
    r.push_str(e.path.as_str());
    r
}

/// The `mktree` line of a subdirectory whose tree was written as `sha`.
pub fn subtree_line(sha: &str, dir: &str) -> (r: String)
    ensures
        r@ == "040000 tree "@ + sha@ + "\t"@ + dir@,
{
    let mut r = String::new();
    r.push_str("040000 tree ");
    r.push_str(sha);
    r.push_str("\t");
    r.push_str(dir);
    r
}

/// `mktree -z` fed these lines.
pub fn mktree_call(lines: &[String]) -> (c: GitCall)
    ensures
        c.args.deep_view() == seq!["mktree"@, "-z"@],
        c.opts.env@.len() == 0,
        c.opts.input.deep_view() == Some(terminated(lines@.map_values(|s: String| s@), '\0')),
{
    let mut a: Vec<String> = Vec::new();
    a.push(owned("mktree"));
    a.push(owned("-z"));
    assert(a.deep_view() =~= seq!["mktree"@, "-z"@]);
    GitCall { args: a, opts: GitOpts { env: Vec::new(), input: Some(mktree_input(lines)) } }
}

/// Write blob content (fed on stdin) into the object db.
pub fn hash_object_args() -> (r: Vec<String>)
    ensures
        r.deep_view() == seq!["hash-object"@, "-w"@, "--stdin"@],
{
    let mut a: Vec<String> = Vec::new();
    a.push(owned("hash-object"));
    a.push(owned("-w"));
    a.push(owned("--stdin"));
    assert(a.deep_view() =~= seq!["hash-object"@, "-w"@, "--stdin"@]);
    a
}

/// Read a blob's raw content.
pub fn read_blob_args(sha: &str) -> (r: Vec<String>)
    ensures
        r.deep_view() == seq!["cat-file"@, "blob"@, sha@],
{
    let mut a: Vec<String> = Vec::new();
    a.push(owned("cat-file"));
    a.push(owned("blob"));
    a.push(owned(sha));
    assert(a.deep_view() =~= seq!["cat-file"@, "blob"@, sha@]);
    a
}

pub open spec fn trailer_format(key: Seq<char>) -> Seq<char> {
    "--format=%H%x00%(trailers:key="@ + key + ",valueonly,separator=%x00)"@
}

/// `log` printing each commit's sha and its values for one trailer key.
pub fn trailer_values_args(key: &str, rev_args: &[String]) -> (r: Vec<String>)
    ensures
        r.deep_view() == seq!["log"@, trailer_format(key@)] + rev_args@.map_values(
            |s: String| s@,
        ),
{
    let mut a: Vec<String> = Vec::new();
    a.push(owned("log"));
    let mut f = String::new();
    f.push_str("--format=%H%x00%(trailers:key=");
    f.push_str(key);
    f.push_str(",valueonly,separator=%x00)");
    a.push(f);
    let mut i: usize = 0;
    assert(a.deep_view() =~= seq!["log"@, trailer_format(key@)] + rev_args@.take(0).map_values(
        |s: String| s@,
    ));
    while i < rev_args.len()
        invariant
            i <= rev_args@.len(),
            a.deep_view() == seq!["log"@, trailer_format(key@)] + rev_args@.take(
                i as int,
            ).map_values(|s: String| s@),
        decreases rev_args@.len() - i,
    {
        let ghost before = a.deep_view();
        a.push(owned(rev_args[i].as_str()));
        assert(a.deep_view() =~= before.push(rev_args@[i as int]@));
        assert(rev_args@.take(i + 1).map_values(|s: String| s@) =~= rev_args@.take(
            i as int,
        ).map_values(|s: String| s@).push(rev_args@[i as int]@));
        assert(a.deep_view() =~= seq!["log"@, trailer_format(key@)] + rev_args@.take(
            i + 1,
        ).map_values(|s: String| s@));
        i = i + 1;
    }
    assert(rev_args@.take(rev_args@.len() as int) =~= rev_args@);
    a
}

/// Ask a remote for one branch head.
pub fn ls_remote_args(remote: &str, branch: &str) -> (r: Vec<String>)
    ensures
        r.deep_view() == seq!["ls-remote"@, remote@, "refs/heads/"@ + branch@],
{
    let mut a: Vec<String> = Vec::new();
    a.push(owned("ls-remote"));
    a.push(owned(remote));
    a.push(concat("refs/heads/", branch));
    assert(a.deep_view() =~= seq!["ls-remote"@, remote@, "refs/heads/"@ + branch@]);
    a
}

/// Fetch a remote branch, forced, into a local tracking ref; no tags.
pub fn fetch_args(remote: &str, branch: &str, local_ref: &str) -> (r: Vec<String>)
    ensures
        r.deep_view() == seq![
            "fetch"@,
            "--no-tags"@,
            remote@,
            "+refs/heads/"@ + branch@ + ":"@ + local_ref@,
        ],
{
    let mut spec = String::new();
    spec.push_str("+refs/heads/");
    spec.push_str(branch);
    spec.push_str(":");
    spec.push_str(local_ref);
    let mut a: Vec<String> = Vec::new();
    a.push(owned("fetch"));
    a.push(owned("--no-tags"));
    a.push(owned(remote));
    a.push(spec);
    assert(a.deep_view() =~= seq![
        "fetch"@,
        "--no-tags"@,
        remote@,
        "+refs/heads/"@ + branch@ + ":"@ + local_ref@,
    ]);
    a
}

/// Resolve a ref to its sha, as after a fetch.
pub fn resolve_ref_args(local_ref: &str) -> (r: Vec<String>)
    ensures
        r.deep_view() == seq!["rev-parse"@, local_ref@],
{
    let mut a: Vec<String> = Vec::new();
    a.push(owned("rev-parse"));
    a.push(owned(local_ref));
    assert(a.deep_view() =~= seq!["rev-parse"@, local_ref@]);
    a
}

/// Push a sha to a remote ref, fast-forward only.
pub fn push_ref_args(remote: &str, sha: &str, dst_ref: &str) -> (r: Vec<String>)
    ensures
        r.deep_view() == seq!["push"@, remote@, sha@ + ":"@ + dst_ref@],
{
    let mut spec = String::new();
    spec.push_str(sha);
    spec.push_str(":");
    spec.push_str(dst_ref);
    let mut a: Vec<String> = Vec::new();
    a.push(owned("push"));
    a.push(owned(remote));
    a.push(spec);
    assert(a.deep_view() =~= seq!["push"@, remote@, sha@ + ":"@ + dst_ref@]);
    a
}

/// Replace a remote ref, but only while it still holds `expect`.
pub fn push_ref_with_lease_args(remote: &str, sha: &str, dst_ref: &str, expect: &str) -> (r: Vec<
    String,
>)
    ensures
        r.deep_view() == seq![
            "push"@,
            "--force-with-lease="@ + dst_ref@ + ":"@ + expect@,
            remote@,
            sha@ + ":"@ + dst_ref@,
        ],
{
    let mut lease = String::new();
    lease.push_str("--force-with-lease=");
    lease.push_str(dst_ref);
    lease.push_str(":");
    lease.push_str(expect);
    let mut spec = String::new();
    spec.push_str(sha);
    spec.push_str(":");
    spec.push_str(dst_ref);
    let mut a: Vec<String> = Vec::new();
    a.push(owned("push"));
    a.push(lease);
    a.push(owned(remote));
    a.push(spec);
    assert(a.deep_view() =~= seq![
        "push"@,
        "--force-with-lease="@ + dst_ref@ + ":"@ + expect@,
        remote@,
        sha@ + ":"@ + dst_ref@,
    ]);
    a
}

/// How long a push-access probe waits before calling a remote unreachable.
pub const PROBE_TIMEOUT_MS: u64 = 20000;

/// A dry-run push of a ref to exactly where it already points: nothing is written, but the
/// far side still has to open `receive-pack`.
pub fn probe_push_args(remote: &str, sha: &str, branch: &str) -> (r: Vec<String>)
    ensures
        r.deep_view() == seq!["push"@, "--dry-run"@, remote@, sha@ + ":refs/heads/"@ + branch@],
{
    let mut spec = String::new();
    spec.push_str(sha);
    spec.push_str(":refs/heads/");
    spec.push_str(branch);
    let mut a: Vec<String> = Vec::new();
    a.push(owned("push"));
    a.push(owned("--dry-run"));
    a.push(owned(remote));
    a.push(spec);
    assert(a.deep_view() =~= seq!["push"@, "--dry-run"@, remote@, sha@ + ":refs/heads/"@ + branch@]);
    a
}

/// How a push-access probe ended.
#[derive(Debug)]
pub enum ProbeOutcome {
    /// git could not be started, or waited on: the error's text.
    Failed(String),
    /// git exited; its status and its stderr.
    Exited { success: bool, code: Option<i32>, stderr: String },
    /// git did not answer within the timeout.
    TimedOut,
}

pub open spec fn rendered_args(args: Seq<Seq<char>>) -> Seq<char> {
    "git "@ + join(args, " "@)
}

/// What a probe says of write access: `None` when the push would be allowed, else git's own
/// complaint (trimmed), the exit status when it said nothing, or that it timed out.
pub open spec fn probe_verdict_of(args: Seq<Seq<char>>, outcome: ProbeOutcome) -> Option<Seq<char>> {
    match outcome {
        ProbeOutcome::Failed(e) => Some(e@),
        ProbeOutcome::Exited { success, code, stderr } => if success {
            None
        } else if trim(Space::Unicode, stderr@).len() == 0 {
            Some(rendered_args(args) + " failed (exit "@ + exit_text(code) + ")"@)
        } else {
            Some(trim(Space::Unicode, stderr@))
        },
        ProbeOutcome::TimedOut => Some(
            "Command timed out after 20000 milliseconds: "@ + rendered_args(args),
        ),
    }
}

fn rendered_args_of(args: &[String]) -> (r: Vec<char>)
    ensures
        r@ == rendered_args(args@.map_values(|s: String| s@)),
{
    let pieces = chars_of_all(args);
    let mut out = chars_of("git ");
    let joined = join_chars(&pieces, " ");
    extend(&mut out, joined.as_slice());
    out
}

/// The probe's verdict on how git ended.
pub fn probe_verdict(args: &[String], outcome: ProbeOutcome) -> (r: Option<String>)
    ensures
        r.deep_view() == probe_verdict_of(args@.map_values(|s: String| s@), outcome),
{
    let ghost o = outcome;
    match outcome {
        ProbeOutcome::Failed(e) => Some(e),
        ProbeOutcome::Exited { success, code, stderr } => {
            if success {
                return None;
            }
            let cs = chars_of(stderr.as_str());
            let t = trim_chars(Space::Unicode, cs.as_slice());
            if t.len() == 0 {
                let mut out = rendered_args_of(args);
                extend_str(&mut out, " failed (exit ");
                match code {
                    Some(c) => {
                        let digits = signed_decimal_of(c);
                        extend(&mut out, digits.as_slice());
                    },
                    None => {
                        extend_str(&mut out, "unknown");
                    },
                }
                extend_str(&mut out, ")");
                Some(string_of(out.as_slice()))
            } else {
                Some(string_of(t.as_slice()))
            }
        },
        ProbeOutcome::TimedOut => {
            let mut out = chars_of("Command timed out after 20000 milliseconds: ");
            let r = rendered_args_of(args);
            extend(&mut out, r.as_slice());
            Some(string_of(out.as_slice()))
        },
    }
}


// ---------------------------------------------------------------------------------------
// What the commit calls carry, field by field.

/// Text without a NUL: one field of `git show` output.
pub open spec fn no_nul(s: Seq<char>) -> bool {
    forall|i: int| 0 <= i < s.len() ==> s[i] != '\0'
}

/// What `git show` prints for a commit in the format `read_commit_args` asks for: hash,
/// author name, email and date, committer name, email and date, then the raw message, each
/// followed by a NUL but the message.
pub open spec fn show_output(
    sha: Seq<char>,
    author_name: Seq<char>,
    author_email: Seq<char>,
    author_date: Seq<char>,
    committer_name: Seq<char>,
    committer_email: Seq<char>,
    committer_date: Seq<char>,
    message: Seq<char>,
) -> Seq<char> {
    sha + seq!['\0'] + author_name + seq!['\0'] + author_email + seq!['\0'] + author_date + seq![
        '\0',
    ] + committer_name + seq!['\0'] + committer_email + seq!['\0'] + committer_date + seq!['\0']
        + message
}

/// A field without NUL followed by a NUL splits off as one piece.
proof fn lemma_split_field(a: Seq<char>, b: Seq<char>)
    requires
        no_nul(a),
    ensures
        split(a + seq!['\0'] + b, '\0') == seq![a] + split(b, '\0'),
{
    lemma_split_concat(a, '\0', b);
    lemma_split_from_plain(a, '\0', seq![]);
    assert(Seq::<char>::empty() + a =~= a);
}

/// The pieces `show_output` splits into: the seven fields, then the message's own pieces.
pub proof fn lemma_show_output_split(
    sha: Seq<char>,
    an: Seq<char>,
    ae: Seq<char>,
    ad: Seq<char>,
    cn: Seq<char>,
    ce: Seq<char>,
    cd: Seq<char>,
    message: Seq<char>,
)
    requires
        no_nul(sha),
        no_nul(an),
        no_nul(ae),
        no_nul(ad),
        no_nul(cn),
        no_nul(ce),
        no_nul(cd),
    ensures
        split(show_output(sha, an, ae, ad, cn, ce, cd, message), '\0') == seq![
            sha,
            an,
            ae,
            ad,
            cn,
            ce,
            cd,
        ] + split(message, '\0'),
        join(split(message, '\0'), "\0"@) == message,
{
    let z = seq!['\0'];
    let t6 = cd + z + message;
    let t5 = ce + z + t6;
    let t4 = cn + z + t5;
    let t3 = ad + z + t4;
    let t2 = ae + z + t3;
    let t1 = an + z + t2;
    assert(show_output(sha, an, ae, ad, cn, ce, cd, message) =~= sha + z + t1);
    lemma_split_field(sha, t1);
    lemma_split_field(an, t2);
    lemma_split_field(ae, t3);
    lemma_split_field(ad, t4);
    lemma_split_field(cn, t5);
    lemma_split_field(ce, t6);
    lemma_split_field(cd, message);
    assert(split(show_output(sha, an, ae, ad, cn, ce, cd, message), '\0') =~= seq![
        sha,
        an,
        ae,
        ad,
        cn,
        ce,
        cd,
    ] + split(message, '\0'));
    reveal_strlit("\0");
    assert("\0"@ =~= z);
    lemma_join_split(message, '\0');
}

/// **A commit read back from `git show` is the commit git described.** For output in the
/// shape `read_commit_args` asks for, with no NUL inside the seven header fields, the read
/// succeeds and each field of the commit is the field of the same name, the message whole
/// (NULs in it included).
pub proof fn lemma_a_read_commit_is_the_commit_shown(
    sha: Seq<char>,
    an: Seq<char>,
    ae: Seq<char>,
    ad: Seq<char>,
    cn: Seq<char>,
    ce: Seq<char>,
    cd: Seq<char>,
    message: Seq<char>,
    m: CommitMeta,
)
    requires
        no_nul(sha),
        no_nul(an),
        no_nul(ae),
        no_nul(ad),
        no_nul(cn),
        no_nul(ce),
        no_nul(cd),
        parse_commit_meta_holds(show_output(sha, an, ae, ad, cn, ce, cd, message), m),
    ensures
        split(show_output(sha, an, ae, ad, cn, ce, cd, message), '\0').len() >= 8,
        m.sha@ == sha,
        m.author_name@ == an,
        m.author_email@ == ae,
        m.author_date@ == ad,
        m.committer_name@ == cn,
        m.committer_email@ == ce,
        m.committer_date@ == cd,
        m.message@ == message,
{
    lemma_show_output_split(sha, an, ae, ad, cn, ce, cd, message);
    let parts = split(show_output(sha, an, ae, ad, cn, ce, cd, message), '\0');
    crate::text::lemma_split_from_nonempty(message, '\0', seq![]);
    assert(parts.skip(7) =~= split(message, '\0'));
}

/// **`read_commit_args` asks git for the commit's fields in the order the reader takes
/// them:** the format is `%H` (hash), `%an` `%ae` `%ad` (author name, email, date), `%cn`
/// `%ce` `%cd` (committer name, email, date) and `%B` (raw message), separated by `%x00`
/// (a NUL), with dates in git's raw form, for the commit asked for.
pub proof fn lemma_read_commit_asks_for_each_field(sha: Seq<char>)
    ensures
        read_commit_args_of(sha) == seq![
            "show"@,
            "-s"@,
            "--date=raw"@,
            "--format="@ + join(
                seq!["%H"@, "%an"@, "%ae"@, "%ad"@, "%cn"@, "%ce"@, "%cd"@, "%B"@],
                "%x00"@,
            ),
            sha,
        ],
{
    reveal_strlit("--format=%H%x00%an%x00%ae%x00%ad%x00%cn%x00%ce%x00%cd%x00%B");
    reveal_strlit("--format=");
    reveal_strlit("%H");
    reveal_strlit("%an");
    reveal_strlit("%ae");
    reveal_strlit("%ad");
    reveal_strlit("%cn");
    reveal_strlit("%ce");
    reveal_strlit("%cd");
    reveal_strlit("%B");
    reveal_strlit("%x00");
    let ps = seq!["%H"@, "%an"@, "%ae"@, "%ad"@, "%cn"@, "%ce"@, "%cd"@, "%B"@];
    reveal_with_fuel(join, 9);
    assert(ps.drop_last().drop_last().drop_last().drop_last().drop_last().drop_last().drop_last()
        =~= seq!["%H"@]);
    assert("--format=%H%x00%an%x00%ae%x00%ad%x00%cn%x00%ce%x00%cd%x00%B"@ =~= "--format="@ + join(
        ps,
        "%x00"@,
    ));
}

/// The value an environment list gives a variable: its last binding, as when the list is
/// applied to a process in order.
pub open spec fn env_value(env: Seq<(Seq<char>, Seq<char>)>, key: Seq<char>) -> Option<Seq<char>>
    decreases env.len(),
{
    if env.len() == 0 {
        None
    } else if env.last().0 == key {
        Some(env.last().1)
    } else {
        env_value(env.drop_last(), key)
    }
}

/// **A commit object written with `commit-tree` keeps each identity of its input:** the
/// author's name, email and date and the committer's name, email and date each go to the
/// git variable of the same name, and no other variable is set.
pub proof fn lemma_commit_tree_keeps_each_identity(input: CommitTreeInput)
    ensures
        env_value(commit_identity_env(input), "GIT_AUTHOR_NAME"@) == Some(input.author_name@),
        env_value(commit_identity_env(input), "GIT_AUTHOR_EMAIL"@) == Some(input.author_email@),
        env_value(commit_identity_env(input), "GIT_AUTHOR_DATE"@) == Some(input.author_date@),
        env_value(commit_identity_env(input), "GIT_COMMITTER_NAME"@) == Some(input.committer_name@),
        env_value(commit_identity_env(input), "GIT_COMMITTER_EMAIL"@) == Some(
            input.committer_email@,
        ),
        env_value(commit_identity_env(input), "GIT_COMMITTER_DATE"@) == Some(input.committer_date@),
        forall|k: Seq<char>|
            #[trigger] env_value(commit_identity_env(input), k) is Some ==> k == "GIT_AUTHOR_NAME"@
                || k == "GIT_AUTHOR_EMAIL"@ || k == "GIT_AUTHOR_DATE"@ || k == "GIT_COMMITTER_NAME"@
                || k == "GIT_COMMITTER_EMAIL"@ || k == "GIT_COMMITTER_DATE"@,
{
    reveal_strlit("GIT_AUTHOR_NAME");
    reveal_strlit("GIT_AUTHOR_EMAIL");
    reveal_strlit("GIT_AUTHOR_DATE");
    reveal_strlit("GIT_COMMITTER_NAME");
    reveal_strlit("GIT_COMMITTER_EMAIL");
    reveal_strlit("GIT_COMMITTER_DATE");
    reveal_with_fuel(env_value, 7);
    let env = commit_identity_env(input);
    assert(env.drop_last().drop_last().drop_last().drop_last().drop_last().drop_last().len() == 0);
    let an = "GIT_AUTHOR_NAME"@;
    let ae = "GIT_AUTHOR_EMAIL"@;
    let ad = "GIT_AUTHOR_DATE"@;
    let cn = "GIT_COMMITTER_NAME"@;
    let ce = "GIT_COMMITTER_EMAIL"@;
    let cd = "GIT_COMMITTER_DATE"@;
    assert(an != ae && an != ad && an != cn && an != ce && an != cd) by {
        assert(an.len() != ae.len() && an.len() != cn.len() && an.len() != ce.len());
        assert(an[11] != ad[11] && an[4] != cd[4]);
    }
    assert(ae != ad && ae != cn && ae != ce && ae != cd) by {
        assert(ae.len() != ad.len() && ae.len() != cn.len() && ae.len() != cd.len());
        assert(ae[4] != ce[4]);
    }
    assert(ad != cn && ad != ce && ad != cd) by {
        assert(ad.len() != cn.len() && ad.len() != ce.len() && ad[4] != cd[4]);
    }
    assert(cn != ce && cn != cd) by {
        assert(cn.len() != ce.len() && cn[14] != cd[14]);
    }
    assert(ce != cd) by {
        assert(ce.len() != cd.len());
    }
}

} // verus!
