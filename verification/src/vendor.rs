//! Turning a git URL and a folder into a subrepo entry, writing it into `monosplice.toml`,
//! and refusing to when the file is not something a line-wise edit may safely rewrite.
//! Everything here is text: reading and writing the file is the caller's.

use vstd::prelude::*;

use crate::config::{
    basename, basename_of, ConfigError, Project, ResolvedSubrepo, SubrepoView, subrepo_views,
};
use crate::sync_view::{pull_source, pull_source_of};
use crate::config::{parse_toml_table, toml_table, TomlValue};
use crate::paths::{normalize_subrepo_path, normalized_path};
use crate::text::{
    chars_eq, chars_of, extend, extend_str, find_char, first_index, has_prefix, hex_digit,
    hex_digit_of, join, join_chars, lemma_first_index, split, starts_with, str_eq, string_of,
    lower_case, to_lowercase, trim, trim_chars, trim_start, Space,
};

verus! {

/// A subrepo entry as it exists before the config knows about it.
#[derive(Debug)]
pub struct VendorEntry {
    pub name: String,
    pub path: String,
    pub remote: String,
    pub branch: String,
    /// Set by `--fork`: `remote` is then the fork and this is where the tree comes from.
    pub upstream: Option<String>,
    /// Branch pushed on the fork. Omitted from the rendered entry when it equals `branch`.
    pub push_branch: Option<String>,
}

impl VendorEntry {
    /// The entry a resolved subrepo would be written back as.
    pub fn from_subrepo(s: &ResolvedSubrepo) -> (e: VendorEntry)
        ensures
            e.name@ == s.name@,
            e.path@ == s.path@,
            e.remote@ == s.remote@,
            e.branch@ == s.branch@,
            e.upstream.deep_view() == s.upstream.deep_view(),
            e.push_branch.deep_view() == Some(s.push_branch@),
    {
        VendorEntry {
            name: s.name.clone(),
            path: s.path.clone(),
            remote: s.remote.clone(),
            branch: s.branch.clone(),
            upstream: match &s.upstream {
                Some(u) => Some(u.clone()),
                None => None,
            },
            push_branch: Some(s.push_branch.clone()),
        }
    }
}

/// The TOML basic-string escape of one character: quote, backslash and control characters
/// (DEL too) escaped, in upper-case `\u00XX` form when no short escape exists.
pub open spec fn toml_escape_char(c: char) -> Seq<char> {
    let u = c as u32;
    if c == '"' {
        seq!['\\', '"']
    } else if c == '\\' {
        seq!['\\', '\\']
    } else if u == 0x0a {
        seq!['\\', 'n']
    } else if u == 0x0d {
        seq!['\\', 'r']
    } else if u == 0x09 {
        seq!['\\', 't']
    } else if u == 0x08 {
        seq!['\\', 'b']
    } else if u == 0x0c {
        seq!['\\', 'f']
    } else if u < 0x20 || u == 0x7f {
        seq!['\\', 'u', '0', '0', hex_digit(u / 16, true), hex_digit(u % 16, true)]
    } else {
        seq![c]
    }
}

pub open spec fn toml_escape(s: Seq<char>) -> Seq<char>
    decreases s.len(),
{
    if s.len() == 0 {
        seq![]
    } else {
        toml_escape_char(s[0]) + toml_escape(s.drop_first())
    }
}

/// A TOML basic string holding `s`.
pub open spec fn toml_quoted(s: Seq<char>) -> Seq<char> {
    seq!['"'] + toml_escape(s) + seq!['"']
}

/// The two upper-case hex digits of a control character's escape tell its two nibbles apart.
proof fn lemma_hex_digit_upper(d: u32)
    requires
        d < 16,
    ensures
        hex_digit(d, true) as u32 == (if d < 10 {
            d + 48
        } else {
            d + 55
        }),
{
}

/// An escaped character is recognised from the front of the text it starts: what follows it
/// is the rest of the text.
proof fn lemma_escape_char_decodes(c: char, d: char, x: Seq<char>, y: Seq<char>)
    requires
        toml_escape_char(c) + x == toml_escape_char(d) + y,
    ensures
        c == d,
        x == y,
{
    let ec = toml_escape_char(c);
    let ed = toml_escape_char(d);
    assert((ec + x)[0] == (ed + y)[0]);
    if ec.len() == 6 && ed.len() == 6 {
        let u = c as u32;
        let v = d as u32;
        assert((ec + x)[4] == (ed + y)[4]);
        assert((ec + x)[5] == (ed + y)[5]);
        lemma_hex_digit_upper(u / 16);
        lemma_hex_digit_upper(v / 16);
        lemma_hex_digit_upper(u % 16);
        lemma_hex_digit_upper(v % 16);
        assert(u / 16 == v / 16);
        assert(u % 16 == v % 16);
        assert(u == v);
    } else if ec.len() >= 2 && ed.len() >= 2 {
        assert((ec + x)[1] == (ed + y)[1]);
    }
    assert(c == d);
    assert(x =~= (ec + x).skip(ec.len() as int));
    assert(y =~= (ed + y).skip(ed.len() as int));
}

/// Different texts never escape to the same text.
proof fn lemma_escape_injective(a: Seq<char>, b: Seq<char>)
    requires
        toml_escape(a) == toml_escape(b),
    ensures
        a == b,
    decreases a.len(),
{
    if a.len() == 0 {
        if b.len() > 0 {
            assert(toml_escape(b).len() > 0);
        }
        assert(b =~= a);
    } else {
        if b.len() == 0 {
            assert(toml_escape(a).len() > 0);
        }
        lemma_escape_char_decodes(
            a[0],
            b[0],
            toml_escape(a.drop_first()),
            toml_escape(b.drop_first()),
        );
        lemma_escape_injective(a.drop_first(), b.drop_first());
        assert(a =~= seq![a[0]] + a.drop_first());
        assert(b =~= seq![b[0]] + b.drop_first());
    }
}

/// A quoted string opens with one quote and never with three, so it is read as a one-line
/// basic string.
proof fn lemma_quoted_start(x: Seq<char>)
    ensures
        starts_with(toml_quoted(x), "\""@),
        !starts_with(toml_quoted(x), "\"\"\""@),
        !starts_with(toml_quoted(x), "'''"@),
{
    reveal_strlit("\"");
    reveal_strlit("\"\"\"");
    reveal_strlit("'''");
    let q = toml_quoted(x);
    let one = "\""@;
    let three = "\"\"\""@;
    let singles = "'''"@;
    assert(one =~= seq!['"']);
    assert(three =~= seq!['"', '"', '"']);
    assert(singles =~= seq!['\'', '\'', '\'']);
    assert(q.take(1) =~= one);
    assert(q[0] == '"');
    assert(q.len() >= 3 ==> q.take(3)[0] == q[0]);
    if x.len() > 0 {
        let e = toml_escape_char(x[0]);
        assert(toml_escape(x) == e + toml_escape(x.drop_first()));
        assert(q[1] == e[0]);
        assert(q.len() >= 3 ==> q.take(3)[1] == q[1]);
        assert(q.take(3) != three);
    } else {
        assert(q.len() == 2);
    }
}

/// **A value this module quotes is what the loader reads back.** The line reader takes the
/// basic string `toml_quoted(x)` for the text `x`, whatever characters `x` holds.
pub proof fn lemma_quoted_reads_back(x: Seq<char>)
    ensures
        field_value(toml_quoted(x)) == Some(x),
{
    let y = choose|y: Seq<char>| toml_quoted(x) == #[trigger] toml_quoted(y);
    lemma_quoted_injective(x, y);
}

/// A quoted string gives back the one text it quotes.
pub proof fn lemma_quoted_injective(a: Seq<char>, b: Seq<char>)
    requires
        toml_quoted(a) == toml_quoted(b),
    ensures
        a == b,
{
    let qa = toml_quoted(a);
    let qb = toml_quoted(b);
    assert(toml_escape(a) =~= qa.subrange(1, qa.len() - 1));
    assert(toml_escape(b) =~= qb.subrange(1, qb.len() - 1));
    lemma_escape_injective(a, b);
}

fn push_toml_escape(out: &mut Vec<char>, c: char)
    ensures
        final(out)@ == old(out)@ + toml_escape_char(c),
{
    let u = c as u32;
    if c == '"' {
        out.push('\\');
        out.push('"');
    } else if c == '\\' {
        out.push('\\');
        out.push('\\');
    } else if u == 0x0a {
        out.push('\\');
        out.push('n');
    } else if u == 0x0d {
        out.push('\\');
        out.push('r');
    } else if u == 0x09 {
        out.push('\\');
        out.push('t');
    } else if u == 0x08 {
        out.push('\\');
        out.push('b');
    } else if u == 0x0c {
        out.push('\\');
        out.push('f');
    } else if u < 0x20 || u == 0x7f {
        out.push('\\');
        out.push('u');
        out.push('0');
        out.push('0');
        out.push(hex_digit_of(u / 16, true));
        out.push(hex_digit_of(u % 16, true));
    } else {
        out.push(c);
    }
    assert(final(out)@ =~= old(out)@ + toml_escape_char(c));
}

/// TOML basic string: what the docs show and every key in the template uses.
pub fn quote(value: &str) -> (r: Vec<char>)
    ensures
        r@ == toml_quoted(value@),
{
    let cs = chars_of(value);
    let mut out: Vec<char> = Vec::new();
    out.push('"');
    let mut i: usize = 0;
    assert(cs@.skip(0) =~= cs@);
    assert(toml_quoted(cs@) =~= out@ + toml_escape(cs@.skip(0)) + seq!['"']);
    while i < cs.len()
        invariant
            i <= cs@.len(),
            toml_quoted(cs@) == out@ + toml_escape(cs@.skip(i as int)) + seq!['"'],
        decreases cs@.len() - i,
    {
        assert(cs@.skip(i as int).drop_first() =~= cs@.skip(i + 1));
        push_toml_escape(&mut out, cs[i]);
        assert(toml_escape(cs@.skip(i as int)) == toml_escape_char(cs@[i as int]) + toml_escape(
            cs@.skip(i + 1),
        ));
        i = i + 1;
        assert(toml_quoted(cs@) =~= out@ + toml_escape(cs@.skip(i as int)) + seq!['"']);
    }
    assert(cs@.skip(cs@.len() as int) =~= Seq::<char>::empty());
    out.push('"');
    assert(out@ =~= toml_quoted(cs@));
    out
}

/// The lines of a rendered entry: `name`, `branch` and `push-branch` only where they differ
/// from what the loader would default to.
pub open spec fn entry_lines(
    name: Seq<char>,
    path: Seq<char>,
    remote: Seq<char>,
    branch: Seq<char>,
    upstream: Option<Seq<char>>,
    push_branch: Option<Seq<char>>,
) -> Seq<Seq<char>> {
    seq!["[[subrepos]]"@] + (if name != basename_of(path) {
        seq!["name = "@ + toml_quoted(name)]
    } else {
        seq![]
    }) + seq!["path = "@ + toml_quoted(path), "remote = "@ + toml_quoted(remote)] + (if branch
        != "main"@ {
        seq!["branch = "@ + toml_quoted(branch)]
    } else {
        seq![]
    }) + (match upstream {
        Some(u) => seq!["upstream = "@ + toml_quoted(u)] + (match push_branch {
            Some(p) if p != branch => seq!["push-branch = "@ + toml_quoted(p)],
            _ => seq![],
        }),
        None => seq![],
    })
}

fn push_line(lines: &mut Vec<Vec<char>>, key: &str, value: &str)
    ensures
        final(lines).deep_view() == old(lines).deep_view().push(key@ + toml_quoted(value@)),
{
    let mut l = chars_of(key);
    let q = quote(value);
    extend(&mut l, q.as_slice());
    let ghost before = lines.deep_view();
    let ghost lv = l@;
    assert(l.deep_view() =~= l@);
    lines.push(l);
    assert(lines.deep_view() =~= before.push(lv));
}

/// The entry to write into the config, one `key = "value"` per line, no trailing newline.
pub fn render_subrepo_entry(e: &VendorEntry) -> (r: String)
    ensures
        r@ == join(
            entry_lines(
                e.name@,
                e.path@,
                e.remote@,
                e.branch@,
                e.upstream.deep_view(),
                e.push_branch.deep_view(),
            ),
            "\n"@,
        ),
{
    let mut lines: Vec<Vec<char>> = Vec::new();
    let header = chars_of("[[subrepos]]");
    assert(header.deep_view() =~= header@);
    lines.push(header);
    let ghost mut expect: Seq<Seq<char>> = seq!["[[subrepos]]"@];
    assert(lines.deep_view() =~= expect);
    let base = basename(e.path.as_str());
    if !str_eq(e.name.as_str(), base.as_str()) {
        push_line(&mut lines, "name = ", e.name.as_str());
        proof {
            expect = expect + seq!["name = "@ + toml_quoted(e.name@)];
        }
    }
    assert(lines.deep_view() =~= expect);
    push_line(&mut lines, "path = ", e.path.as_str());
    push_line(&mut lines, "remote = ", e.remote.as_str());
    proof {
        expect = expect + seq!["path = "@ + toml_quoted(e.path@), "remote = "@ + toml_quoted(
            e.remote@,
        )];
    }
    assert(lines.deep_view() =~= expect);
    if !str_eq(e.branch.as_str(), "main") {
        push_line(&mut lines, "branch = ", e.branch.as_str());
        proof {
            expect = expect + seq!["branch = "@ + toml_quoted(e.branch@)];
        }
    }
    assert(lines.deep_view() =~= expect);
    match &e.upstream {
        Some(u) => {
            push_line(&mut lines, "upstream = ", u.as_str());
            proof {
                expect = expect + seq!["upstream = "@ + toml_quoted(u@)];
            }
            assert(lines.deep_view() =~= expect);
            match &e.push_branch {
                Some(p) => {
                    if !str_eq(p.as_str(), e.branch.as_str()) {
                        push_line(&mut lines, "push-branch = ", p.as_str());
                        proof {
                            expect = expect + seq!["push-branch = "@ + toml_quoted(p@)];
                        }
                    }
                },
                None => {},
            }
        },
        None => {},
    }
    assert(lines.deep_view() =~= entry_lines(
        e.name@,
        e.path@,
        e.remote@,
        e.branch@,
        e.upstream.deep_view(),
        e.push_branch.deep_view(),
    ));
    let joined = join_chars(&lines, "\n");
    string_of(joined.as_slice())
}

/// `s` without trailing line feeds and carriage returns.
pub open spec fn trim_newlines_end(s: Seq<char>) -> Seq<char>
    decreases s.len(),
{
    if s.len() > 0 && (s.last() == '\n' || s.last() == '\r') {
        trim_newlines_end(s.drop_last())
    } else {
        s
    }
}

fn trim_newlines_end_of(s: &[char]) -> (r: Vec<char>)
    ensures
        r@ == trim_newlines_end(s@),
{
    let mut n = s.len();
    assert(s@.take(n as int) =~= s@);
    while n > 0 && (s[n - 1] == '\n' || s[n - 1] == '\r')
        invariant
            n <= s@.len(),
            trim_newlines_end(s@) == trim_newlines_end(s@.take(n as int)),
        decreases n,
    {
        assert(s@.take(n as int).drop_last() =~= s@.take(n - 1));
        n = n - 1;
    }
    let r = crate::text::slice_chars(s, 0, n);
    assert(r@ =~= s@.take(n as int));
    r
}

/// The file with the entry appended after one blank line (or alone, in an empty file).
pub open spec fn inserted_entry(source: Seq<char>, block: Seq<char>) -> Seq<char> {
    let trimmed = trim_newlines_end(source);
    if trim(Space::Unicode, trimmed).len() == 0 {
        block + seq!['\n']
    } else {
        trimmed + seq!['\n', '\n'] + block + seq!['\n']
    }
}

/// Append the entry at the end of the file: an array of tables only ever grows at the bottom.
pub fn insert_subrepo_entry(source: &str, entry_block: &str) -> (r: String)
    ensures
        r@ == inserted_entry(source@, entry_block@),
{
    let src = chars_of(source);
    let trimmed = trim_newlines_end_of(src.as_slice());
    let t = crate::text::trim_chars(Space::Unicode, trimmed.as_slice());
    let mut out: Vec<char> = Vec::new();
    if t.len() == 0 {
        extend_str(&mut out, entry_block);
        out.push('\n');
    } else {
        extend(&mut out, trimmed.as_slice());
        out.push('\n');
        out.push('\n');
        extend_str(&mut out, entry_block);
        out.push('\n');
    }
    assert(out@ =~= inserted_entry(source@, entry_block@));
    string_of(out.as_slice())
}

// ---------------------------------------------------------------------------------------
// Reading a block back: only plain, single-line strings count.

pub open spec fn is_quote(c: char) -> bool {
    c == '"' || c == '\''
}

pub open spec fn unquote_end(s: Seq<char>) -> Seq<char>
    decreases s.len(),
{
    if s.len() > 0 && is_quote(s.last()) {
        unquote_end(s.drop_last())
    } else {
        s
    }
}

pub open spec fn unquote_start(s: Seq<char>) -> Seq<char>
    decreases s.len(),
{
    if s.len() > 0 && is_quote(s[0]) {
        unquote_start(s.drop_first())
    } else {
        s
    }
}

/// A key with its quote characters stripped from both ends (`str::trim_matches`).
pub open spec fn unquote(s: Seq<char>) -> Seq<char> {
    unquote_start(unquote_end(s))
}

fn unquote_chars(s: &[char]) -> (r: Vec<char>)
    ensures
        r@ == unquote(s@),
{
    let mut n = s.len();
    assert(s@.take(n as int) =~= s@);
    while n > 0 && (s[n - 1] == '"' || s[n - 1] == '\'')
        invariant
            n <= s@.len(),
            unquote_end(s@) == unquote_end(s@.take(n as int)),
        decreases n,
    {
        assert(s@.take(n as int).drop_last() =~= s@.take(n - 1));
        n = n - 1;
    }
    let t = crate::text::slice_chars(s, 0, n);
    assert(t@ =~= s@.take(n as int));
    let mut k: usize = 0;
    assert(t@.skip(0) =~= t@);
    while k < t.len() && (t[k] == '"' || t[k] == '\'')
        invariant
            k <= t@.len(),
            unquote_start(t@) == unquote_start(t@.skip(k as int)),
        decreases t@.len() - k,
    {
        assert(t@.skip(k as int).drop_first() =~= t@.skip(k + 1));
        k = k + 1;
    }
    let r = crate::text::slice_chars(t.as_slice(), k, t.len());
    assert(r@ =~= t@.skip(k as int));
    r
}

/// The string under `key` in a parsed table, when it is a string.
pub open spec fn string_entry(entries: Seq<(String, TomlValue)>, key: Seq<char>) -> Option<
    Seq<char>,
>
    decreases entries.len(),
{
    if entries.len() == 0 {
        None
    } else if entries[0].0@ == key {
        match entries[0].1 {
            TomlValue::Str(v) => Some(v@),
            _ => None,
        }
    } else {
        string_entry(entries.drop_first(), key)
    }
}

fn string_entry_of(entries: &Vec<(String, TomlValue)>, key: &str) -> (r: Option<String>)
    ensures
        r.deep_view() == string_entry(entries@, key@),
{
    let mut i: usize = 0;
    assert(entries@.skip(0) =~= entries@);
    while i < entries.len()
        invariant
            i <= entries@.len(),
            string_entry(entries@, key@) == string_entry(entries@.skip(i as int), key@),
        decreases entries@.len() - i,
    {
        assert(entries@.skip(i as int).drop_first() =~= entries@.skip(i + 1));
        if str_eq(entries[i].0.as_str(), key) {
            return match &entries[i].1 {
                TomlValue::Str(v) => Some(v.clone()),
                _ => None,
            };
        }
        i = i + 1;
    }
    None
}

/// A field's value text read as a plain single-line TOML string: a basic string written the
/// way this module quotes reads as the text it quotes; otherwise `None` for a multiline
/// string, anything that is not a quoted string, or what the TOML parser will not read so.
pub open spec fn field_value(value: Seq<char>) -> Option<Seq<char>> {
    if exists|x: Seq<char>| value == #[trigger] toml_quoted(x) {
        Some(choose|x: Seq<char>| value == #[trigger] toml_quoted(x))
    } else if starts_with(value, "\"\"\""@) || starts_with(value, "'''"@) {
        None
    } else if !(starts_with(value, "\""@) || starts_with(value, "'"@)) {
        None
    } else {
        match toml_table("v = "@ + value) {
            Ok(entries) => string_entry(entries@, "v"@),
            Err(_) => None,
        }
    }
}

fn starts_with_str(s: &[char], p: &str) -> (b: bool)
    ensures
        b == starts_with(s@, p@),
{
    let pc = chars_of(p);
    has_prefix(s, pc.as_slice())
}

fn field_value_of(value: &[char]) -> (r: Option<String>)
    ensures
        r.deep_view() == field_value(value@),
{
    proof {
        if exists|x: Seq<char>| value@ == #[trigger] toml_quoted(x) {
            let x = choose|x: Seq<char>| value@ == #[trigger] toml_quoted(x);
            lemma_quoted_start(x);
        }
    }
    if starts_with_str(value, "\"\"\"") || starts_with_str(value, "'''") {
        return None;
    }
    if !(starts_with_str(value, "\"") || starts_with_str(value, "'")) {
        return None;
    }
    let mut doc = chars_of("v = ");
    extend(&mut doc, value);
    let text = string_of(doc.as_slice());
    proof {
        if exists|x: Seq<char>| value@ == #[trigger] toml_quoted(x) {
            let x = choose|x: Seq<char>| value@ == #[trigger] toml_quoted(x);
            assert(text@ == "v = "@ + toml_quoted(x));
        }
    }
    match parse_toml_table(text.as_str()) {
        Ok(entries) => string_entry_of(&entries, "v"),
        Err(_) => None,
    }
}

/// What one line of a block says of `key`: nothing (`None`), or the value read from it
/// (`Some(None)` when it is not a plain string).
pub open spec fn field_of_line(line: Seq<char>, key: Seq<char>) -> Option<Option<Seq<char>>> {
    let text = trim(Space::Unicode, line);
    if text.len() == 0 || text[0] == '#' {
        None
    } else {
        match first_index(text, '=') {
            None => None,
            Some(k) => if unquote(trim(Space::Unicode, text.take(k))) != key {
                None
            } else {
                Some(field_value(trim(Space::Unicode, text.skip(k + 1))))
            },
        }
    }
}

fn field_of_line_of(line: &[char], key: &str) -> (r: Option<Option<String>>)
    ensures
        r.deep_view() == field_of_line(line@, key@),
{
    let text = trim_chars(Space::Unicode, line);
    if text.len() == 0 || text[0] == '#' {
        return None;
    }
    match find_char(text.as_slice(), '=') {
        None => None,
        Some(k) => {
            proof {
                lemma_first_index(text@, '=');
            }
            let raw_key = crate::text::slice_chars(text.as_slice(), 0, k);
            let raw_value = crate::text::slice_chars(text.as_slice(), k + 1, text.len());
            assert(raw_key@ =~= text@.take(k as int));
            assert(raw_value@ =~= text@.skip(k + 1));
            let bare_key = trim_chars(Space::Unicode, raw_key.as_slice());
            let unquoted = unquote_chars(bare_key.as_slice());
            let kc = chars_of(key);
            if !chars_eq(unquoted.as_slice(), kc.as_slice()) {
                return None;
            }
            let value = trim_chars(Space::Unicode, raw_value.as_slice());
            Some(field_value_of(value.as_slice()))
        },
    }
}

/// The first line of `body` (from `i` on) that says something of `key`, and what it says.
pub open spec fn read_field_from(body: Seq<Seq<char>>, key: Seq<char>, i: int) -> Option<
    Option<Seq<char>>,
>
    decreases body.len() - i,
{
    if i < 0 || i >= body.len() {
        None
    } else {
        match field_of_line(body[i], key) {
            Some(f) => Some(f),
            None => read_field_from(body, key, i + 1),
        }
    }
}

/// `key` read out of lines `lo..hi`: missing (`None`), unreadable (`Some(None)`) or a value.
fn read_field(lines: &Vec<Vec<char>>, lo: usize, hi: usize, key: &str) -> (r: Option<
    Option<String>,
>)
    requires
        lo <= hi <= lines@.len(),
    ensures
        r.deep_view() == read_field_from(lines.deep_view().subrange(lo as int, hi as int), key@, 0),
{
    let ghost body = lines.deep_view().subrange(lo as int, hi as int);
    let mut i = lo;
    while i < hi
        invariant
            lo <= i <= hi <= lines@.len(),
            body == lines.deep_view().subrange(lo as int, hi as int),
            read_field_from(body, key@, 0) == read_field_from(body, key@, i - lo),
        decreases hi - i,
    {
        assert(body[i - lo] == lines@[i as int]@);
        match field_of_line_of(lines[i].as_slice(), key) {
            Some(f) => {
                return Some(f);
            },
            None => {},
        }
        i = i + 1;
    }
    None
}

/// The name the loader would give a block: its literal `name`, else the basename of its
/// normalized `path`; `None` when neither can be read literally.
pub open spec fn entry_name(body: Seq<Seq<char>>) -> Option<Seq<char>> {
    match read_field_from(body, "name"@, 0) {
        Some(Some(n)) => Some(n),
        Some(None) => None,
        None => match read_field_from(body, "path"@, 0) {
            Some(Some(p)) => match normalized_path(p) {
                Ok(q) => Some(basename_of(q)),
                Err(_) => None,
            },
            _ => None,
        },
    }
}

fn entry_name_of(lines: &Vec<Vec<char>>, lo: usize, hi: usize) -> (r: Option<String>)
    requires
        lo <= hi <= lines@.len(),
    ensures
        r.deep_view() == entry_name(lines.deep_view().subrange(lo as int, hi as int)),
{
    match read_field(lines, lo, hi, "name") {
        Some(Some(n)) => Some(n),
        Some(None) => None,
        None => match read_field(lines, lo, hi, "path") {
            Some(Some(p)) => match normalize_subrepo_path(p.as_str()) {
                Ok(q) => Some(basename(q.as_str())),
                Err(_) => None,
            },
            _ => None,
        },
    }
}

// ---------------------------------------------------------------------------------------
// Removing a block: the reverse of `insert_subrepo_entry`.

/// The lines of a file, without the empty piece a final newline leaves.
pub open spec fn file_lines(source: Seq<char>) -> Seq<Seq<char>> {
    if source.len() > 0 && source.last() == '\n' {
        split(source, '\n').drop_last()
    } else {
        split(source, '\n')
    }
}

/// A `[[subrepos]]` header line.
pub open spec fn is_header(line: Seq<char>) -> bool {
    trim(Space::Unicode, line) == "[[subrepos]]"@
}

/// A line that opens some table, which ends the block before it.
pub open spec fn opens_table(line: Seq<char>) -> bool {
    let t = trim_start(Space::Unicode, line);
    t.len() > 0 && t[0] == '['
}

/// The `[[subrepos]]` blocks from line `j` on, as `(header, end)` line ranges; `open` is the
/// header of the block still running at `j`.
pub open spec fn blocks_from(lines: Seq<Seq<char>>, j: int, open: Option<int>) -> Seq<(int, int)>
    decreases lines.len() - j,
{
    if j < 0 || j >= lines.len() {
        match open {
            Some(h) => seq![(h, lines.len() as int)],
            None => seq![],
        }
    } else {
        let next = if is_header(lines[j]) {
            Some(j)
        } else {
            None
        };
        match open {
            Some(h) => if opens_table(lines[j]) {
                seq![(h, j)] + blocks_from(lines, j + 1, next)
            } else {
                blocks_from(lines, j + 1, open)
            },
            None => blocks_from(lines, j + 1, next),
        }
    }
}

/// The blocks (from the `k`-th on) the loader would name `name`; `None` as soon as one
/// block's name cannot be read, since that block might be the one.
pub open spec fn hits_from(
    lines: Seq<Seq<char>>,
    blocks: Seq<(int, int)>,
    name: Seq<char>,
    k: int,
) -> Option<Seq<(int, int)>>
    decreases blocks.len() - k,
{
    if k < 0 || k >= blocks.len() {
        Some(seq![])
    } else {
        match entry_name(lines.subrange(blocks[k].0 + 1, blocks[k].1)) {
            None => None,
            Some(n) => match hits_from(lines, blocks, name, k + 1) {
                None => None,
                Some(rest) => Some(
                    if n == name {
                        seq![blocks[k]] + rest
                    } else {
                        rest
                    },
                ),
            },
        }
    }
}

pub open spec fn is_blank(line: Seq<char>) -> bool {
    trim(Space::Unicode, line).len() == 0
}

/// Where a cut block leaves a blank line on both sides of the seam, the extra blanks go.
pub open spec fn close_seam(lines: Seq<Seq<char>>, at: int) -> Seq<Seq<char>>
    decreases lines.len(),
{
    if 0 < at < lines.len() && is_blank(lines[at - 1]) && is_blank(lines[at]) {
        close_seam(lines.remove(at), at)
    } else {
        lines
    }
}

/// The file without the one block the loader would name `name`, or `None` when no single
/// block can be picked out plainly.
pub open spec fn removed_entry(source: Seq<char>, name: Seq<char>) -> Option<Seq<char>> {
    let lines = file_lines(source);
    match hits_from(lines, blocks_from(lines, 0, None), name, 0) {
        Some(hits) => if hits.len() == 1 {
            let start = hits[0].0;
            let end = hits[0].1;
            let kept = join(close_seam(lines.take(start) + lines.skip(end), start), "\n"@);
            if trim(Space::Unicode, kept).len() == 0 {
                Some(seq![])
            } else {
                Some(trim_newlines_end(kept) + seq!['\n'])
            }
        } else {
            None
        },
        None => None,
    }
}

fn is_header_of(line: &[char]) -> (b: bool)
    ensures
        b == is_header(line@),
{
    let t = trim_chars(Space::Unicode, line);
    let h = chars_of("[[subrepos]]");
    chars_eq(t.as_slice(), h.as_slice())
}

fn opens_table_of(line: &[char]) -> (b: bool)
    ensures
        b == opens_table(line@),
{
    let n = crate::text::trim_start_len(Space::Unicode, line);
    n < line.len() && line[n] == '['
}

fn is_blank_of(line: &[char]) -> (b: bool)
    ensures
        b == is_blank(line@),
{
    trim_chars(Space::Unicode, line).len() == 0
}

pub open spec fn block_views(blocks: Seq<(usize, usize)>) -> Seq<(int, int)> {
    blocks.map_values(|b: (usize, usize)| (b.0 as int, b.1 as int))
}

fn blocks_of(lines: &Vec<Vec<char>>) -> (r: Vec<(usize, usize)>)
    ensures
        block_views(r@) == blocks_from(lines.deep_view(), 0, None),
        forall|k: int|
            0 <= k < r@.len() ==> (#[trigger] r@[k]).0 < r@[k].1 <= lines@.len(),
{
    let ghost all = lines.deep_view();
    let mut out: Vec<(usize, usize)> = Vec::new();
    let mut open: Option<usize> = None;
    let mut j: usize = 0;
    while j < lines.len()
        invariant
            j <= lines@.len(),
            all == lines.deep_view(),
            blocks_from(all, 0, None) == block_views(out@) + blocks_from(
                all,
                j as int,
                match open {
                    Some(h) => Some(h as int),
                    None => None,
                },
            ),
            match open {
                Some(h) => h < j,
                None => true,
            },
            forall|k: int| 0 <= k < out@.len() ==> (#[trigger] out@[k]).0 < out@[k].1 <= j,
        decreases lines@.len() - j,
    {
        assert(all[j as int] == lines@[j as int]@);
        let header = is_header_of(lines[j].as_slice());
        let next = if header {
            Some(j)
        } else {
            None
        };
        match open {
            Some(h) => {
                if opens_table_of(lines[j].as_slice()) {
                    let ghost before = block_views(out@);
                    out.push((h, j));
                    assert(block_views(out@) =~= before + seq![(h as int, j as int)]);
                    open = next;
                }
            },
            None => {
                open = next;
            },
        }
        j = j + 1;
    }
    match open {
        Some(h) => {
            let ghost before = block_views(out@);
            out.push((h, lines.len()));
            assert(block_views(out@) =~= before + seq![(h as int, lines@.len() as int)]);
        },
        None => {
            assert(block_views(out@) =~= block_views(out@) + Seq::<(int, int)>::empty());
        },
    }
    out
}

fn hits_of(lines: &Vec<Vec<char>>, blocks: &Vec<(usize, usize)>, name: &str) -> (r: Option<
    Vec<(usize, usize)>,
>)
    requires
        forall|k: int|
            0 <= k < blocks@.len() ==> (#[trigger] blocks@[k]).0 < blocks@[k].1 <= lines@.len(),
    ensures
        match r {
            Some(h) => hits_from(lines.deep_view(), block_views(blocks@), name@, 0) == Some(
                block_views(h@),
            ) && forall|k: int|
                0 <= k < h@.len() ==> (#[trigger] h@[k]).0 < h@[k].1 <= lines@.len(),
            None => hits_from(lines.deep_view(), block_views(blocks@), name@, 0) is None,
        },
{
    let ghost all = lines.deep_view();
    let ghost bv = block_views(blocks@);
    let mut hits: Vec<(usize, usize)> = Vec::new();
    let mut k: usize = 0;
    while k < blocks.len()
        invariant
            k <= blocks@.len(),
            all == lines.deep_view(),
            bv == block_views(blocks@),
            forall|i: int|
                0 <= i < blocks@.len() ==> (#[trigger] blocks@[i]).0 < blocks@[i].1
                    <= lines@.len(),
            forall|i: int| 0 <= i < hits@.len() ==> (#[trigger] hits@[i]).0 < hits@[i].1 <= lines@.len(),
            hits_from(all, bv, name@, 0) == match hits_from(all, bv, name@, k as int) {
                Some(rest) => Some(block_views(hits@) + rest),
                None => None::<Seq<(int, int)>>,
            },
        decreases blocks@.len() - k,
    {
        let (start, end) = blocks[k];
        assert(bv[k as int] == (start as int, end as int));
        match entry_name_of(lines, start + 1, end) {
            None => {
                return None;
            },
            Some(n) => {
                if str_eq(n.as_str(), name) {
                    let ghost before = block_views(hits@);
                    hits.push((start, end));
                    assert(block_views(hits@) =~= before + seq![(start as int, end as int)]);
                    assert forall|rest: Seq<(int, int)>|
                        true implies before + (seq![(start as int, end as int)] + rest)
                        =~= block_views(hits@) + rest by {}
                } else {
                }
            },
        }
        k = k + 1;
    }
    assert(block_views(hits@) + Seq::<(int, int)>::empty() =~= block_views(hits@));
    Some(hits)
}

/// The reverse of `insert_subrepo_entry`: delete the block the loader would name `name`, or
/// `None` when the file does not spell it out plainly enough to edit. A block runs from its
/// `[[subrepos]]` header to the next table header or the end of the file, its identity must
/// be readable from a plain string, and exactly one block may match.
pub fn remove_subrepo_entry(source: &str, name: &str) -> (r: Option<String>)
    ensures
        r.deep_view() == removed_entry(source@, name@),
{
    let src = chars_of(source);
    let mut lines = crate::text::split_chars(src.as_slice(), '\n');
    if src.len() > 0 && src[src.len() - 1] == '\n' {
        proof {
            crate::text::lemma_split_from_nonempty(src@, '\n', seq![]);
        }
        let ghost before = lines.deep_view();
        lines.pop();
        assert(lines.deep_view() =~= before.drop_last());
    }
    let ghost all = lines.deep_view();
    assert(all == file_lines(source@));
    let blocks = blocks_of(&lines);
    let hits = match hits_of(&lines, &blocks, name) {
        Some(h) => h,
        None => {
            return None;
        },
    };
    if hits.len() != 1 {
        return None;
    }
    let (start, end) = hits[0];
    assert(block_views(hits@)[0] == (start as int, end as int));
    let mut kept_lines: Vec<Vec<char>> = Vec::new();
    let mut i: usize = 0;
    while i < lines.len()
        invariant
            i <= lines@.len(),
            start < end <= lines@.len(),
            all == lines.deep_view(),
            kept_lines.deep_view() == (if i <= start {
                all.take(i as int)
            } else if i <= end {
                all.take(start as int)
            } else {
                all.take(start as int) + all.subrange(end as int, i as int)
            }),
        decreases lines@.len() - i,
    {
        if i < start || i >= end {
            let ghost before = kept_lines.deep_view();
            let line = crate::text::slice_chars(lines[i].as_slice(), 0, lines[i].len());
            assert(line@ =~= all[i as int]);
            assert(line.deep_view() =~= line@);
            kept_lines.push(line);
            assert(kept_lines.deep_view() =~= before.push(all[i as int]));
        }
        proof {
            if i + 1 <= start {
                assert(all.take(i + 1) =~= all.take(i as int).push(all[i as int]));
            } else if i + 1 > end {
                if i == end {
                    assert(all.subrange(end as int, i + 1) =~= seq![all[i as int]]);
                } else {
                    assert(all.subrange(end as int, i + 1) =~= all.subrange(end as int, i as int).push(all[i as int]));
                }
            }
        }
        i = i + 1;
    }
    assert(kept_lines.deep_view() =~= all.take(start as int) + all.skip(end as int));
    let ghost cut = kept_lines.deep_view();
    loop
        invariant
            close_seam(cut, start as int) == close_seam(kept_lines.deep_view(), start as int),
        ensures
            close_seam(cut, start as int) == kept_lines.deep_view(),
        decreases kept_lines@.len(),
    {
        let seam = start > 0 && start < kept_lines.len() && is_blank_of(
            kept_lines[start - 1].as_slice(),
        ) && is_blank_of(kept_lines[start].as_slice());
        if start > 0 && start < kept_lines.len() {
            assert(kept_lines@[start - 1]@ == kept_lines.deep_view()[start - 1]);
            assert(kept_lines@[start as int]@ == kept_lines.deep_view()[start as int]);
        }
        if !seam {
            break;
        }
        let ghost before = kept_lines.deep_view();
        kept_lines.remove(start);
        assert(kept_lines.deep_view() =~= before.remove(start as int));
    }
    let kept = join_chars(&kept_lines, "\n");
    if trim_chars(Space::Unicode, kept.as_slice()).len() == 0 {
        let e = String::new();
        assert(e@ =~= Seq::<char>::empty());
        return Some(e);
    }
    let mut out = trim_newlines_end_of(kept.as_slice());
    out.push('\n');
    Some(string_of(out.as_slice()))
}

/// How a command tells the user to pick a different name or a different directory.
#[derive(Debug)]
pub struct SlotHints {
    /// Clause, no trailing period: "Vendor it under another name with `--name <name>`".
    pub rename: String,
    /// Full sentence: "Pick another directory with `--path <dir>`."
    pub relocate: String,
}

/// `a` and `b` sit one inside the other.
pub open spec fn paths_nest(a: Seq<char>, b: Seq<char>) -> bool {
    crate::config::nested_in(a, b) || crate::config::nested_in(b, a)
}

/// Why configured subrepo `s` blocks the new entry, if it does.
pub open spec fn slot_clash(
    s: SubrepoView,
    name: Seq<char>,
    path: Seq<char>,
    rename: Seq<char>,
    relocate: Seq<char>,
) -> Option<Seq<char>> {
    if s.name == name {
        Some(
            "A subrepo named "@ + name + " is already configured ("@ + s.path + "/ tracking "@
                + s.remote + ").\nNothing was changed. "@ + rename + ", or run `monosplice pull "@
                + s.name + "` if this is the one you meant."@,
        )
    } else if s.path == path {
        Some(path + " is already configured as subrepo "@ + s.name + ".\nNothing was changed. "@
            + relocate)
    } else if paths_nest(s.path, path) {
        Some(
            "subrepo paths may not nest: "@ + path + " and "@ + s.path + " (subrepo "@ + s.name
                + ") would sit inside one another.\nNothing was changed. "@ + relocate,
        )
    } else {
        None
    }
}

/// The first configured subrepo (from `i` on) that blocks the new entry.
pub open spec fn first_slot_clash(
    subs: Seq<SubrepoView>,
    i: int,
    name: Seq<char>,
    path: Seq<char>,
    rename: Seq<char>,
    relocate: Seq<char>,
) -> Option<Seq<char>>
    decreases subs.len() - i,
{
    if i >= subs.len() || i < 0 {
        None
    } else {
        match slot_clash(subs[i], name, path, rename, relocate) {
            Some(m) => Some(m),
            None => first_slot_clash(subs, i + 1, name, path, rename, relocate),
        }
    }
}

fn is_nested(a: &str, b: &str) -> (r: bool)
    ensures
        r == crate::config::nested_in(a@, b@),
{
    let ac = chars_of(a);
    let mut bc = chars_of(b);
    bc.push('/');
    assert(bc@ =~= b@ + seq!['/']);
    crate::text::has_prefix(ac.as_slice(), bc.as_slice())
}

/// Why this name/path pair cannot become a new subrepo, or `None` when the slot is free: both
/// halves must be free, and the path may not nest inside (or contain) a configured subrepo.
pub fn check_free_slot(
    subrepos: &Vec<ResolvedSubrepo>,
    entry: &VendorEntry,
    hints: &SlotHints,
) -> (r: Option<String>)
    ensures
        match r {
            Some(m) => first_slot_clash(
                subrepo_views(subrepos@),
                0,
                entry.name@,
                entry.path@,
                hints.rename@,
                hints.relocate@,
            ) == Some(m@),
            None => first_slot_clash(
                subrepo_views(subrepos@),
                0,
                entry.name@,
                entry.path@,
                hints.rename@,
                hints.relocate@,
            ) is None,
        },
{
    let ghost sv = subrepo_views(subrepos@);
    let mut i: usize = 0;
    while i < subrepos.len()
        invariant
            i <= subrepos@.len(),
            sv == subrepo_views(subrepos@),
            first_slot_clash(sv, 0, entry.name@, entry.path@, hints.rename@, hints.relocate@)
                == first_slot_clash(
                sv,
                i as int,
                entry.name@,
                entry.path@,
                hints.rename@,
                hints.relocate@,
            ),
        decreases subrepos@.len() - i,
    {
        let s = &subrepos[i];
        assert(sv[i as int] == s@);
        if str_eq(s.name.as_str(), entry.name.as_str()) {
            let mut m = String::new();
            m.push_str("A subrepo named ");
            m.push_str(entry.name.as_str());
            m.push_str(" is already configured (");
            m.push_str(s.path.as_str());
            m.push_str("/ tracking ");
            m.push_str(s.remote.as_str());
            m.push_str(").\nNothing was changed. ");
            m.push_str(hints.rename.as_str());
            m.push_str(", or run `monosplice pull ");
            m.push_str(s.name.as_str());
            m.push_str("` if this is the one you meant.");
            return Some(m);
        }
        if str_eq(s.path.as_str(), entry.path.as_str()) {
            let mut m = String::new();
            m.push_str(entry.path.as_str());
            m.push_str(" is already configured as subrepo ");
            m.push_str(s.name.as_str());
            m.push_str(".\nNothing was changed. ");
            m.push_str(hints.relocate.as_str());
            return Some(m);
        }
        if is_nested(s.path.as_str(), entry.path.as_str()) || is_nested(
            entry.path.as_str(),
            s.path.as_str(),
        ) {
            let mut m = String::new();
            m.push_str("subrepo paths may not nest: ");
            m.push_str(entry.path.as_str());
            m.push_str(" and ");
            m.push_str(s.path.as_str());
            m.push_str(" (subrepo ");
            m.push_str(s.name.as_str());
            m.push_str(") would sit inside one another.\nNothing was changed. ");
            m.push_str(hints.relocate.as_str());
            return Some(m);
        }
        i = i + 1;
    }
    None
}

/// The config could not be edited safely. The file is back to its original bytes.
#[derive(Debug)]
pub struct ConfigWriteFailure {
    /// The rendered entry, for the user to paste in by hand.
    pub snippet: String,
    /// Why monosplice will not touch the file.
    pub reason: String,
}

/// The config could not have an entry removed from it.
#[derive(Debug)]
pub struct ConfigRemoveFailure {
    pub reason: String,
}

/// Why a text edit will not take this entry out of the config.
pub open spec fn unremovable_reason(name: Seq<char>) -> Seq<char> {
    "no plain [[subrepos]] entry for "@ + name + " that a text edit can safely remove"@
}

/// The config text with the subrepo's entry deleted, or why a text edit may not delete it.
pub fn config_without_entry(source: &str, entry: &ResolvedSubrepo) -> (r: Result<
    String,
    ConfigRemoveFailure,
>)
    ensures
        match removed_entry(source@, entry.name@) {
            Some(t) => r matches Ok(u) && u@ == t,
            None => r matches Err(f) && f.reason@ == unremovable_reason(entry.name@),
        },
{
    match remove_subrepo_entry(source, entry.name.as_str()) {
        Some(u) => Ok(u),
        None => {
            let mut reason = String::new();
            reason.push_str("no plain [[subrepos]] entry for ");
            reason.push_str(entry.name.as_str());
            reason.push_str(" that a text edit can safely remove");
            Err(ConfigRemoveFailure { reason })
        },
    }
}

/// The entry a resolved subrepo is written as, and the config text with it appended.
pub fn config_with_entry(source: &str, entry: &ResolvedSubrepo) -> (r: (String, String))
    ensures
        r.0@ == join(
            entry_lines(
                entry.name@,
                entry.path@,
                entry.remote@,
                entry.branch@,
                entry.upstream.deep_view(),
                Some(entry.push_branch@),
            ),
            "\n"@,
        ),
        r.1@ == inserted_entry(source@, r.0@),
{
    let snippet = render_subrepo_entry(&VendorEntry::from_subrepo(entry));
    let updated = insert_subrepo_entry(source, snippet.as_str());
    (snippet, updated)
}

/// The first subrepo, from position `i` on, with this name.
pub open spec fn find_view_from(subs: Seq<SubrepoView>, name: Seq<char>, i: int) -> Option<int>
    decreases subs.len() - i,
{
    if i < 0 || i >= subs.len() {
        None
    } else if subs[i].name == name {
        Some(i)
    } else {
        find_view_from(subs, name, i + 1)
    }
}

/// The first subrepo with this name.
pub open spec fn find_view(subs: Seq<SubrepoView>, name: Seq<char>) -> Option<int> {
    find_view_from(subs, name, 0)
}

/// The fields a config edit must leave exactly as written.
pub open spec fn same_identity(a: SubrepoView, b: SubrepoView) -> bool {
    &&& a.path == b.path
    &&& a.remote == b.remote
    &&& a.branch == b.branch
    &&& a.upstream == b.upstream
    &&& a.push_branch == b.push_branch
}

pub open spec fn pull_source_view(s: SubrepoView) -> Seq<char> {
    match s.upstream {
        Some(u) => u,
        None => s.remote,
    }
}

/// Why the reloaded subrepos do not hold the entry just written, exactly as written.
pub open spec fn entry_reload_problem(subs: Seq<SubrepoView>, entry: SubrepoView) -> Option<
    Seq<char>,
> {
    match find_view(subs, entry.name) {
        None => Some("the rewritten config has no subrepo named "@ + entry.name),
        Some(i) => if !same_identity(subs[i], entry) {
            Some(
                "the rewritten config resolves "@ + entry.name + " to "@ + subs[i].path
                    + "/ tracking "@ + pull_source_view(subs[i]) + " ("@ + subs[i].branch
                    + "), not what monosplice wrote"@,
            )
        } else {
            None
        },
    }
}

/// Why the config just written cannot be trusted, given what reloading it gave.
pub open spec fn reload_problem(
    loaded: Result<Option<Seq<SubrepoView>>, Seq<char>>,
    entry: SubrepoView,
) -> Option<Seq<char>> {
    match loaded {
        Ok(None) => Some("the config file vanished while monosplice was writing it"@),
        Err(e) => Some("the rewritten config does not load:\n"@ + e),
        Ok(Some(subs)) => entry_reload_problem(subs, entry),
    }
}

/// A config load as text: the subrepos, that there was none, or the error message.
pub open spec fn load_view(loaded: Result<Option<Project>, ConfigError>) -> Result<
    Option<Seq<SubrepoView>>,
    Seq<char>,
> {
    match loaded {
        Ok(Some(p)) => Ok(Some(subrepo_views(p.subrepos@))),
        Ok(None) => Ok(None),
        Err(e) => Err(e.0@),
    }
}

fn same_identity_of(a: &ResolvedSubrepo, b: &ResolvedSubrepo) -> (r: bool)
    ensures
        r == same_identity(a@, b@),
{
    let up = match (&a.upstream, &b.upstream) {
        (Some(x), Some(y)) => str_eq(x.as_str(), y.as_str()),
        (None, None) => true,
        _ => false,
    };
    str_eq(a.path.as_str(), b.path.as_str()) && str_eq(a.remote.as_str(), b.remote.as_str())
        && str_eq(a.branch.as_str(), b.branch.as_str()) && up && str_eq(
        a.push_branch.as_str(),
        b.push_branch.as_str(),
    )
}

fn mismatch_message(entry: &ResolvedSubrepo, found: &ResolvedSubrepo) -> (m: String)
    ensures
        m@ == "the rewritten config resolves "@ + entry.name@ + " to "@ + found@.path
            + "/ tracking "@ + pull_source_view(found@) + " ("@ + found@.branch
            + "), not what monosplice wrote"@,
{
    let mut m = String::new();
    m.push_str("the rewritten config resolves ");
    m.push_str(entry.name.as_str());
    m.push_str(" to ");
    m.push_str(found.path.as_str());
    m.push_str("/ tracking ");
    m.push_str(pull_source(found));
    m.push_str(" (");
    m.push_str(found.branch.as_str());
    m.push_str("), not what monosplice wrote");
    m
}

fn entry_reload_mismatch(subrepos: &Vec<ResolvedSubrepo>, entry: &ResolvedSubrepo) -> (r: Option<
    String,
>)
    ensures
        match r {
            Some(m) => entry_reload_problem(subrepo_views(subrepos@), entry@) == Some(m@),
            None => entry_reload_problem(subrepo_views(subrepos@), entry@) is None,
        },
{
    let ghost sv = subrepo_views(subrepos@);
    let mut i: usize = 0;
    while i < subrepos.len()
        invariant
            i <= subrepos@.len(),
            sv == subrepo_views(subrepos@),
            find_view(sv, entry.name@) == find_view_from(sv, entry.name@, i as int),
        decreases subrepos@.len() - i,
    {
        let found = &subrepos[i];
        assert(sv[i as int] == found@);
        if str_eq(found.name.as_str(), entry.name.as_str()) {
            assert(find_view(sv, entry.name@) == Some(i as int));
            if !same_identity_of(found, entry) {
                return Some(mismatch_message(entry, found));
            }
            return None;
        }
        i = i + 1;
    }
    let mut m = String::new();
    m.push_str("the rewritten config has no subrepo named ");
    m.push_str(entry.name.as_str());
    Some(m)
}

/// Why the config monosplice just wrote cannot be trusted, or `None` when reloading it
/// resolves the new entry exactly as written.
pub fn reloaded_mismatch(loaded: &Result<Option<Project>, ConfigError>, entry: &ResolvedSubrepo) -> (r:
    Option<String>)
    ensures
        match r {
            Some(m) => reload_problem(load_view(*loaded), entry@) == Some(m@),
            None => reload_problem(load_view(*loaded), entry@) is None,
        },
{
    match loaded {
        Ok(None) => Some(string_of(
            chars_of("the config file vanished while monosplice was writing it").as_slice(),
        )),
        Err(e) => {
            let mut m = String::new();
            m.push_str("the rewritten config does not load:\n");
            m.push_str(e.0.as_str());
            Some(m)
        },
        Ok(Some(project)) => entry_reload_mismatch(&project.subrepos, entry),
    }
}

/// The subrepos other than the one named, in order.
pub open spec fn others(subs: Seq<SubrepoView>, name: Seq<char>) -> Seq<SubrepoView> {
    subs.filter(|s: SubrepoView| s.name != name)
}

/// The first position where the reloaded subrepos stop matching the expected ones.
pub open spec fn first_changed(expected: Seq<SubrepoView>, got: Seq<SubrepoView>, i: int) -> Option<
    int,
>
    decreases expected.len() - i,
{
    if i >= expected.len() || i >= got.len() || i < 0 {
        None
    } else if got[i].name != expected[i].name || !same_identity(got[i], expected[i]) {
        Some(i)
    } else {
        first_changed(expected, got, i + 1)
    }
}

/// Why the reloaded subrepos are not exactly the ones before, less the one named.
pub open spec fn trim_problem(
    before: Seq<SubrepoView>,
    subs: Seq<SubrepoView>,
    name: Seq<char>,
) -> Option<Seq<char>> {
    if find_view(subs, name) is Some {
        Some("the rewritten config still has a subrepo named "@ + name)
    } else if subs.len() != others(before, name).len() {
        Some(
            "the rewritten config resolves to "@ + crate::text::decimal(subs.len())
                + " subrepo(s) where "@ + crate::text::decimal(others(before, name).len())
                + " were expected"@,
        )
    } else {
        match first_changed(others(before, name), subs, 0) {
            Some(i) => Some(
                "the rewritten config changed subrepo "@ + others(before, name)[i].name
                    + ", which monosplice was not asked to touch"@,
            ),
            None => None,
        }
    }
}

/// Why the config just trimmed cannot be trusted, given what reloading it gave.
pub open spec fn removal_problem(
    before: Seq<SubrepoView>,
    loaded: Result<Option<Seq<SubrepoView>>, Seq<char>>,
    name: Seq<char>,
) -> Option<Seq<char>> {
    match loaded {
        Ok(None) => Some("the config file vanished while monosplice was writing it"@),
        Err(e) => Some("the rewritten config does not load:\n"@ + e),
        Ok(Some(subs)) => trim_problem(before, subs, name),
    }
}

fn others_of<'a>(subrepos: &'a Vec<ResolvedSubrepo>, name: &str) -> (r: Vec<&'a ResolvedSubrepo>)
    ensures
        r@.map_values(|s: &ResolvedSubrepo| s@) == others(subrepo_views(subrepos@), name@),
{
    let ghost before = subrepo_views(subrepos@);
    let mut expected: Vec<&ResolvedSubrepo> = Vec::new();
    let mut k: usize = 0;
    while k < subrepos.len()
        invariant
            k <= subrepos@.len(),
            before == subrepo_views(subrepos@),
            expected@.map_values(|s: &ResolvedSubrepo| s@) == others(
                before.take(k as int),
                name@,
            ),
        decreases subrepos@.len() - k,
    {
        let s = &subrepos[k];
        let ghost prev = expected@.map_values(|s: &ResolvedSubrepo| s@);
        assert(before.take(k + 1) =~= before.take(k as int).push(s@));
        proof {
            before.take(k as int).lemma_filter_push(s@, |v: SubrepoView| v.name != name@);
        }
        if !str_eq(s.name.as_str(), name) {
            expected.push(s);
            assert(expected@.map_values(|s: &ResolvedSubrepo| s@) =~= prev.push(s@));
        } else {
            assert(expected@.map_values(|s: &ResolvedSubrepo| s@) =~= prev);
        }
        k = k + 1;
    }
    assert(before.take(subrepos@.len() as int) =~= before);
    expected
}

fn count_message(got: usize, want: usize) -> (m: String)
    ensures
        m@ == "the rewritten config resolves to "@ + crate::text::decimal(got as nat)
            + " subrepo(s) where "@ + crate::text::decimal(want as nat) + " were expected"@,
{
    let mut m = String::new();
    m.push_str("the rewritten config resolves to ");
    m.push_str(string_of(crate::text::decimal_of(got).as_slice()).as_str());
    m.push_str(" subrepo(s) where ");
    m.push_str(string_of(crate::text::decimal_of(want).as_slice()).as_str());
    m.push_str(" were expected");
    m
}

fn trim_mismatch(
    before: &Vec<ResolvedSubrepo>,
    reloaded: &Vec<ResolvedSubrepo>,
    name: &str,
) -> (r: Option<String>)
    ensures
        match r {
            Some(m) => trim_problem(subrepo_views(before@), subrepo_views(reloaded@), name@)
                == Some(m@),
            None => trim_problem(subrepo_views(before@), subrepo_views(reloaded@), name@) is None,
        },
{
    let ghost got = subrepo_views(reloaded@);
    let mut i: usize = 0;
    while i < reloaded.len()
        invariant
            i <= reloaded@.len(),
            got == subrepo_views(reloaded@),
            find_view(got, name@) == find_view_from(got, name@, i as int),
        decreases reloaded@.len() - i,
    {
        assert(got[i as int] == reloaded@[i as int]@);
        if str_eq(reloaded[i].name.as_str(), name) {
            let mut m = String::new();
            m.push_str("the rewritten config still has a subrepo named ");
            m.push_str(name);
            return Some(m);
        }
        i = i + 1;
    }
    let expected = others_of(before, name);
    let ghost ev = expected@.map_values(|s: &ResolvedSubrepo| s@);
    if reloaded.len() != expected.len() {
        return Some(count_message(reloaded.len(), expected.len()));
    }
    let mut j: usize = 0;
    while j < expected.len()
        invariant
            j <= expected@.len(),
            expected@.len() == reloaded@.len(),
            got == subrepo_views(reloaded@),
            ev == expected@.map_values(|s: &ResolvedSubrepo| s@),
            ev == others(subrepo_views(before@), name@),
            find_view(got, name@) is None,
            first_changed(ev, got, 0) == first_changed(ev, got, j as int),
        decreases expected@.len() - j,
    {
        let want = expected[j];
        let have = &reloaded[j];
        assert(ev[j as int] == want@);
        assert(got[j as int] == have@);
        if !str_eq(have.name.as_str(), want.name.as_str()) || !same_identity_of(have, want) {
            let mut m = String::new();
            m.push_str("the rewritten config changed subrepo ");
            m.push_str(want.name.as_str());
            m.push_str(", which monosplice was not asked to touch");
            return Some(m);
        }
        j = j + 1;
    }
    None
}

/// Why the config monosplice just trimmed cannot be trusted, or `None` when the named subrepo
/// is gone and every other one resolves exactly as it did before.
pub fn removed_mismatch(
    project: &Project,
    loaded: &Result<Option<Project>, ConfigError>,
    entry: &ResolvedSubrepo,
) -> (r: Option<String>)
    ensures
        match r {
            Some(m) => removal_problem(
                subrepo_views(project.subrepos@),
                load_view(*loaded),
                entry.name@,
            ) == Some(m@),
            None => removal_problem(
                subrepo_views(project.subrepos@),
                load_view(*loaded),
                entry.name@,
            ) is None,
        },
{
    match loaded {
        Ok(None) => Some(string_of(
            chars_of("the config file vanished while monosplice was writing it").as_slice(),
        )),
        Err(e) => {
            let mut m = String::new();
            m.push_str("the rewritten config does not load:\n");
            m.push_str(e.0.as_str());
            Some(m)
        },
        Ok(Some(p)) => trim_mismatch(&project.subrepos, &p.subrepos, entry.name.as_str()),
    }
}

/// `(log, error)` when monosplice will not delete the entry itself.
pub fn delete_it_yourself(
    config_path: &str,
    entry: &ResolvedSubrepo,
    failure: &ConfigRemoveFailure,
) -> (r: (String, String))
    ensures
        r.0@ == "Delete the [[subrepos]] entry for "@ + entry.name@ + " ("@ + entry.path@
            + "/ tracking "@ + pull_source_of(*entry) + ") from "@ + config_path@ + ".\n"@,
        r.1@ == "monosplice cannot safely edit "@ + config_path@ + ": "@ + failure.reason@
            + ".\nNothing was changed — the config is untouched and no commit was made. Delete the entry described above by hand and commit it; "@
            + entry.path@ + "/ and its history stay exactly as they are either way."@,
{
    let mut log = String::new();
    log.push_str("Delete the [[subrepos]] entry for ");
    log.push_str(entry.name.as_str());
    log.push_str(" (");
    log.push_str(entry.path.as_str());
    log.push_str("/ tracking ");
    log.push_str(pull_source(entry));
    log.push_str(") from ");
    log.push_str(config_path);
    log.push_str(".\n");
    let mut err = String::new();
    err.push_str("monosplice cannot safely edit ");
    err.push_str(config_path);
    err.push_str(": ");
    err.push_str(failure.reason.as_str());
    err.push_str(
        ".\nNothing was changed — the config is untouched and no commit was made. Delete the entry described above by hand and commit it; ",
    );
    err.push_str(entry.path.as_str());
    err.push_str("/ and its history stay exactly as they are either way.");
    (log, err)
}

/// `(log, error)` when monosplice will not edit the config: the entry to paste, and the
/// command to run once it is pasted in.
pub fn paste_it_yourself(
    config_path: &str,
    failure: &ConfigWriteFailure,
    next_command: &str,
) -> (r: (String, String))
    ensures
        r.0@ == "Add this [[subrepos]] entry to "@ + config_path@ + ":\n\n"@ + failure.snippet@
            + "\n"@,
        r.1@ == "monosplice cannot safely edit "@ + config_path@ + ": "@ + failure.reason@
            + ".\nNothing was changed — the config is untouched and no commit was made. Paste the entry printed above into your config, then run:\n  "@
            + next_command@,
{
    let mut log = String::new();
    log.push_str("Add this [[subrepos]] entry to ");
    log.push_str(config_path);
    log.push_str(":\n\n");
    log.push_str(failure.snippet.as_str());
    log.push_str("\n");
    let mut err = String::new();
    err.push_str("monosplice cannot safely edit ");
    err.push_str(config_path);
    err.push_str(": ");
    err.push_str(failure.reason.as_str());
    err.push_str(
        ".\nNothing was changed — the config is untouched and no commit was made. Paste the entry printed above into your config, then run:\n  ",
    );
    err.push_str(next_command);
    (log, err)
}

/// Why the monorepo is not ready for a command that edits the config and commits it.
pub open spec fn config_edit_problem(
    root: Seq<char>,
    has_head: bool,
    index_clean: bool,
    staged: Seq<char>,
    dirty: Seq<char>,
    retry: Seq<char>,
    verb: Seq<char>,
) -> Option<Seq<char>> {
    if !has_head {
        Some(
            root + " has no commits yet — commit something before "@ + lower_case(verb)
                + " into it. Nothing was changed."@,
        )
    } else if !index_clean {
        Some(
            "you have staged changes:\n"@ + staged + "\n"@ + verb
                + " commits the index, so it would sweep them in. Commit or unstage them, then run `"@
                + retry + "` again. Nothing was changed."@,
        )
    } else if dirty.len() > 0 {
        Some(
            "the working tree has uncommitted changes:\n"@ + dirty + "\n"@ + verb
                + " edits your config and commits it, so it needs a clean tree. Commit or stash them, then run `"@
                + retry + "` again. Nothing was changed."@,
        )
    } else {
        None
    }
}

/// Why the monorepo is not ready for a command that edits the config and commits it, given
/// what git said: whether `HEAD` resolves, whether the index matches `HEAD`, the staged file
/// names and the tracked changes (`status --porcelain --untracked-files=no`). Untracked
/// files do not count: they are never committed. `verb` is a gerund naming the command,
/// e.g. "Attaching".
pub fn check_config_edit_preconditions(
    root: &str,
    has_head: bool,
    index_clean: bool,
    staged: &str,
    dirty: &str,
    retry: &str,
    verb: &str,
) -> (r: Option<String>)
    ensures
        r.deep_view() == config_edit_problem(
            root@,
            has_head,
            index_clean,
            staged@,
            dirty@,
            retry@,
            verb@,
        ),
{
    if !has_head {
        let mut m = String::new();
        m.push_str(root);
        m.push_str(" has no commits yet — commit something before ");
        let lower = to_lowercase(verb);
        m.push_str(lower.as_str());
        m.push_str(" into it. Nothing was changed.");
        return Some(m);
    }
    if !index_clean {
        let mut m = String::new();
        m.push_str("you have staged changes:\n");
        m.push_str(staged);
        m.push_str("\n");
        m.push_str(verb);
        m.push_str(
            " commits the index, so it would sweep them in. Commit or unstage them, then run `",
        );
        m.push_str(retry);
        m.push_str("` again. Nothing was changed.");
        return Some(m);
    }
    if !dirty.is_empty() {
        let mut m = String::new();
        m.push_str("the working tree has uncommitted changes:\n");
        m.push_str(dirty);
        m.push_str("\n");
        m.push_str(verb);
        m.push_str(
            " edits your config and commits it, so it needs a clean tree. Commit or stash them, then run `",
        );
        m.push_str(retry);
        m.push_str("` again. Nothing was changed.");
        return Some(m);
    }
    None
}

} // verus!
