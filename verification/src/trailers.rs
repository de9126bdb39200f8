//! Trailer keys that record the cross-repo commit mapping.
//!
//! - Public commits exported from the monorepo carry `Monosplice-Source: <mono-sha>`.
//! - Monorepo commits imported from a public repo carry `Monosplice-Origin: <pub-sha>`,
//!   marking that pub commit as reflected in the monorepo.
//!
//! A trailer is read only from the final paragraph of a message, and only when that whole
//! paragraph is a trailer block; appending extends such a block or starts a new one.

use vstd::prelude::*;

use crate::text::{
    chars_eq, chars_of, lemma_first_index, lemma_first_index_unique, lemma_trim_end_of_prefix,
    lemma_trim_end_prefix, split_from, trim_start, extend, extend_str, find_char, first_index, slice_chars, spec_is_space, split,
    split_chars, string_of, trim, trim_chars, trim_end, trim_end_chars, is_space, Space,
};

verus! {

pub const SOURCE_TRAILER: &'static str = "Monosplice-Source";

pub const ORIGIN_TRAILER: &'static str = "Monosplice-Origin";

// ---------------------------------------------------------------------------------------
// The model.

/// Characters that end a line in JavaScript.
pub open spec fn line_terminator(c: char) -> bool {
    let u = c as u32;
    u == 0x0a || u == 0x0d || u == 0x2028 || u == 0x2029
}

/// `[A-Za-z0-9-]`.
pub open spec fn key_char(c: char) -> bool {
    let u = c as u32;
    (0x30 <= u && u <= 0x39) || (0x41 <= u && u <= 0x5a) || (0x61 <= u && u <= 0x7a) || u == 0x2d
}

/// Every `\r\n` replaced by `\n`, scanning left to right.
pub open spec fn normalize_newlines(s: Seq<char>) -> Seq<char>
    decreases s.len(),
{
    if s.len() == 0 {
        s
    } else if s.len() >= 2 && s[0] == '\r' && s[1] == '\n' {
        seq!['\n'] + normalize_newlines(s.skip(2))
    } else {
        seq![s[0]] + normalize_newlines(s.skip(1))
    }
}

/// `s` without its leading line feeds.
pub open spec fn drop_newlines(s: Seq<char>) -> Seq<char>
    decreases s.len(),
{
    if s.len() > 0 && s[0] == '\n' {
        drop_newlines(s.drop_first())
    } else {
        s
    }
}

pub proof fn lemma_drop_newlines_shorter(s: Seq<char>)
    ensures
        drop_newlines(s).len() <= s.len(),
        s.len() > 0 && s[0] == '\n' ==> drop_newlines(s).len() < s.len(),
    decreases s.len(),
{
    if s.len() > 0 && s[0] == '\n' {
        lemma_drop_newlines_shorter(s.drop_first());
    }
}

/// Blocks of `s` separated by runs of two or more line feeds; `cur` is the block being read.
pub open spec fn paragraphs_from(s: Seq<char>, cur: Seq<char>) -> Seq<Seq<char>>
    decreases s.len(),
{
    if s.len() == 0 {
        seq![cur]
    } else if s.len() >= 2 && s[0] == '\n' && s[1] == '\n' {
        proof {
            lemma_drop_newlines_shorter(s);
        }
        seq![cur] + paragraphs_from(drop_newlines(s), seq![])
    } else {
        paragraphs_from(s.drop_first(), cur.push(s[0]))
    }
}

/// The paragraphs of a commit message: CRLF normalized, trailing white space dropped, split
/// on blank lines.
pub open spec fn paragraphs(message: Seq<char>) -> Seq<Seq<char>> {
    paragraphs_from(trim_end(Space::Js, normalize_newlines(message)), seq![])
}

/// `^[A-Za-z0-9-]+:\s.+$`: a key, a colon, one white-space character, then at least one
/// more character, none of them a line terminator.
pub open spec fn trailer_line(line: Seq<char>) -> bool {
    match first_index(line, ':') {
        None => false,
        Some(i) => {
            &&& i > 0
            &&& forall|k: int| 0 <= k < i ==> key_char(#[trigger] line[k])
            &&& line.len() >= i + 3
            &&& spec_is_space(Space::Js, line[i + 1])
            &&& forall|k: int| i + 2 <= k < line.len() ==> !line_terminator(#[trigger] line[k])
        },
    }
}

/// Every line of the block is a trailer line.
pub open spec fn trailer_block(block: Seq<char>) -> bool {
    forall|k: int|
        0 <= k < split(block, '\n').len() ==> trailer_line(#[trigger] split(block, '\n')[k])
}

/// The value of the first line whose key (the text before its first colon) is `key`.
pub open spec fn lookup(lines: Seq<Seq<char>>, key: Seq<char>) -> Option<Seq<char>>
    decreases lines.len(),
{
    if lines.len() == 0 {
        None
    } else {
        match first_index(lines[0], ':') {
            Some(i) if lines[0].take(i) == key => Some(trim(Space::Js, lines[0].skip(i + 1))),
            _ => lookup(lines.drop_first(), key),
        }
    }
}

/// The trailer value a message carries for `key`.
pub open spec fn trailer_value(message: Seq<char>, key: Seq<char>) -> Option<Seq<char>> {
    let blocks = paragraphs(message);
    if blocks.len() < 2 {
        None
    } else if !trailer_block(blocks.last()) {
        None
    } else {
        lookup(split(blocks.last(), '\n'), key)
    }
}

/// The line `key: value` followed by a line feed.
pub open spec fn trailer_text(key: Seq<char>, value: Seq<char>) -> Seq<char> {
    key + seq![':', ' '] + value + seq!['\n']
}

/// A message with `key: value` appended, to the final trailer block when the message ends
/// with one, else as a new block.
pub open spec fn with_trailer(message: Seq<char>, key: Seq<char>, value: Seq<char>) -> Seq<
    char,
> {
    let body = trim_end(Space::Js, normalize_newlines(message));
    let blocks = paragraphs(body);
    if body.len() == 0 {
        trailer_text(key, value)
    } else if blocks.len() > 1 && trailer_block(blocks.last()) {
        body + seq!['\n'] + trailer_text(key, value)
    } else {
        body + seq!['\n', '\n'] + trailer_text(key, value)
    }
}

// ---------------------------------------------------------------------------------------
// The code.

pub fn is_line_terminator(c: char) -> (b: bool)
    ensures
        b == line_terminator(c),
{
    let u = c as u32;
    u == 0x0a || u == 0x0d || u == 0x2028 || u == 0x2029
}

fn is_key_char(c: char) -> (b: bool)
    ensures
        b == key_char(c),
{
    let u = c as u32;
    (0x30 <= u && u <= 0x39) || (0x41 <= u && u <= 0x5a) || (0x61 <= u && u <= 0x7a) || u == 0x2d
}

proof fn lemma_normalize_step(s: Seq<char>, i: int)
    requires
        0 <= i < s.len(),
    ensures
        normalize_newlines(s.skip(i)) == (if i + 1 < s.len() && s[i] == '\r' && s[i + 1] == '\n' {
            seq!['\n'] + normalize_newlines(s.skip(i + 2))
        } else {
            seq![s[i]] + normalize_newlines(s.skip(i + 1))
        }),
{
    if i + 1 < s.len() {
        assert(s.skip(i).skip(2) =~= s.skip(i + 2));
    }
    assert(s.skip(i).skip(1) =~= s.skip(i + 1));
}

/// Every `\r\n` replaced by `\n`.
pub fn normalize_crlf(s: &[char]) -> (v: Vec<char>)
    ensures
        v@ == normalize_newlines(s@),
{
    let mut out: Vec<char> = Vec::new();
    let mut i: usize = 0;
    assert(s@.skip(0) =~= s@);
    while i < s.len()
        invariant
            i <= s@.len(),
            normalize_newlines(s@) == out@ + normalize_newlines(s@.skip(i as int)),
        decreases s@.len() - i,
    {
        proof {
            lemma_normalize_step(s@, i as int);
        }
        if s[i] == '\r' && i + 1 < s.len() && s[i + 1] == '\n' {
            out.push('\n');
            i = i + 2;
        } else {
            out.push(s[i]);
            i = i + 1;
        }
        assert(normalize_newlines(s@) =~= out@ + normalize_newlines(s@.skip(i as int)));
    }
    assert(s@.skip(s@.len() as int) =~= Seq::<char>::empty());
    assert(out@ + Seq::<char>::empty() =~= out@);
    out
}

/// `drop_newlines` of a suffix starting at a line feed is the suffix after the whole run.
proof fn lemma_drop_newlines_run(s: Seq<char>, i: int, j: int)
    requires
        0 <= i <= j <= s.len(),
        forall|k: int| i <= k < j ==> s[k] == '\n',
        j < s.len() ==> s[j] != '\n',
    ensures
        drop_newlines(s.skip(i)) == s.skip(j),
    decreases j - i,
{
    if i < j {
        assert(s.skip(i).drop_first() =~= s.skip(i + 1));
        lemma_drop_newlines_run(s, i + 1, j);
    } else {
        if j < s.len() {
            assert(s.skip(j)[0] == s[j]);
        }
    }
}

proof fn lemma_paragraphs_plain_step(s: Seq<char>, cur: Seq<char>, i: int)
    requires
        0 <= i < s.len(),
        !(i + 1 < s.len() && s[i] == '\n' && s[i + 1] == '\n'),
    ensures
        paragraphs_from(s.skip(i), cur) == paragraphs_from(s.skip(i + 1), cur.push(s[i])),
{
    assert(s.skip(i).drop_first() =~= s.skip(i + 1));
}

proof fn lemma_paragraphs_break_step(s: Seq<char>, cur: Seq<char>, i: int, j: int)
    requires
        0 <= i,
        i + 1 < s.len(),
        s[i] == '\n',
        s[i + 1] == '\n',
        i < j <= s.len(),
        forall|k: int| i <= k < j ==> s[k] == '\n',
        j < s.len() ==> s[j] != '\n',
    ensures
        paragraphs_from(s.skip(i), cur) == seq![cur] + paragraphs_from(s.skip(j), seq![]),
{
    lemma_drop_newlines_run(s, i, j);
}

/// The blocks of `s` separated by runs of two or more line feeds.
fn split_paragraphs(s: &[char]) -> (v: Vec<Vec<char>>)
    ensures
        v.deep_view() == paragraphs_from(s@, seq![]),
{
    let mut out: Vec<Vec<char>> = Vec::new();
    let mut cur: Vec<char> = Vec::new();
    let mut i: usize = 0;
    assert(s@.skip(0) =~= s@);
    while i < s.len()
        invariant
            i <= s@.len(),
            paragraphs_from(s@, seq![]) == out.deep_view() + paragraphs_from(
                s@.skip(i as int),
                cur@,
            ),
        decreases s@.len() - i,
    {
        if s[i] == '\n' && i + 1 < s.len() && s[i + 1] == '\n' {
            let mut j = i + 1;
            while j < s.len() && s[j] == '\n'
                invariant
                    i < j <= s@.len(),
                    forall|k: int| i <= k < j ==> s@[k] == '\n',
                decreases s@.len() - j,
            {
                j = j + 1;
            }
            proof {
                lemma_paragraphs_break_step(s@, cur@, i as int, j as int);
            }
            let ghost before = out.deep_view();
            let ghost piece = cur@;
            assert(cur.deep_view() =~= cur@);
            out.push(cur);
            cur = Vec::new();
            assert(out.deep_view() =~= before.push(piece));
            assert(out.deep_view() + paragraphs_from(s@.skip(j as int), cur@) =~= before + (seq![
                piece,
            ] + paragraphs_from(s@.skip(j as int), seq![])));
            i = j;
        } else {
            proof {
                lemma_paragraphs_plain_step(s@, cur@, i as int);
            }
            cur.push(s[i]);
            i = i + 1;
        }
    }
    let ghost before = out.deep_view();
    let ghost piece = cur@;
    assert(cur.deep_view() =~= cur@);
    out.push(cur);
    assert(out.deep_view() =~= before.push(piece));
    assert(s@.skip(s@.len() as int) =~= Seq::<char>::empty());
    assert(out.deep_view() =~= before + seq![piece]);
    out
}

/// Split a commit message into paragraphs (blocks separated by blank lines), after
/// normalizing CRLF and dropping trailing white space.
pub fn paragraphs_of(message: &[char]) -> (v: Vec<Vec<char>>)
    ensures
        v.deep_view() == paragraphs(message@),
{
    let normalized = normalize_crlf(message);
    let body = trim_end_chars(Space::Js, normalized.as_slice());
    split_paragraphs(body.as_slice())
}

/// Is this one trailer line?
pub fn is_trailer_line(line: &[char]) -> (b: bool)
    ensures
        b == trailer_line(line@),
{
    let idx = match find_char(line, ':') {
        None => return false,
        Some(i) => i,
    };
    proof {
        lemma_first_index(line@, ':');
    }
    if idx == 0 {
        return false;
    }
    let mut k: usize = 0;
    while k < idx
        invariant
            k <= idx,
            idx < line@.len(),
            first_index(line@, ':') == Some(idx as int),
            forall|m: int| 0 <= m < k ==> key_char(#[trigger] line@[m]),
        decreases idx - k,
    {
        if !is_key_char(line[k]) {
            assert(!key_char(line@[k as int]));
            return false;
        }
        k = k + 1;
    }
    if line.len() - idx < 3 {
        return false;
    }
    if !is_space(Space::Js, line[idx + 1]) {
        return false;
    }
    let mut m = idx + 2;
    while m < line.len()
        invariant
            idx + 2 <= m <= line@.len(),
            first_index(line@, ':') == Some(idx as int),
            forall|q: int| idx + 2 <= q < m ==> !line_terminator(#[trigger] line@[q]),
        decreases line@.len() - m,
    {
        if is_line_terminator(line[m]) {
            assert(line_terminator(line@[m as int]));
            return false;
        }
        m = m + 1;
    }
    true
}

/// Is every line of the block a trailer line?
pub fn is_trailer_block(block: &[char]) -> (b: bool)
    ensures
        b == trailer_block(block@),
{
    let lines = split_chars(block, '\n');
    let mut k: usize = 0;
    while k < lines.len()
        invariant
            k <= lines@.len(),
            lines.deep_view() == split(block@, '\n'),
            forall|m: int| 0 <= m < k ==> trailer_line(#[trigger] split(block@, '\n')[m]),
        decreases lines@.len() - k,
    {
        assert(lines@[k as int]@ == lines.deep_view()[k as int]);
        if !is_trailer_line(lines[k].as_slice()) {
            return false;
        }
        k = k + 1;
    }
    true
}

/// Read a trailer value from a commit message. Only the final paragraph counts, and only
/// when that whole paragraph is a trailer block; a one-paragraph message has none.
pub fn get_trailer(message: &str, key: &str) -> (r: Option<String>)
    ensures
        match r {
            Some(v) => trailer_value(message@, key@) == Some(v@),
            None => trailer_value(message@, key@) is None,
        },
{
    let m = chars_of(message);
    let k = chars_of(key);
    let blocks = paragraphs_of(m.as_slice());
    if blocks.len() < 2 {
        return None;
    }
    let last_idx = blocks.len() - 1;
    assert(blocks@[last_idx as int]@ == blocks.deep_view().last());
    let last = &blocks[last_idx];
    if !is_trailer_block(last.as_slice()) {
        return None;
    }
    let lines = split_chars(last.as_slice(), '\n');
    let ghost all = lines.deep_view();
    let mut i: usize = 0;
    assert(all.skip(0) =~= all);
    while i < lines.len()
        invariant
            i <= lines@.len(),
            all == lines.deep_view(),
            k@ == key@,
            blocks.deep_view() == paragraphs(message@),
            blocks.deep_view().len() >= 2,
            trailer_block(blocks.deep_view().last()),
            all == split(blocks.deep_view().last(), '\n'),
            lookup(all, k@) == lookup(all.skip(i as int), k@),
        decreases lines@.len() - i,
    {
        let line = &lines[i];
        assert(line@ == all[i as int]);
        assert(all.skip(i as int)[0] == all[i as int]);
        assert(all.skip(i as int).drop_first() =~= all.skip(i + 1));
        match find_char(line.as_slice(), ':') {
            Some(idx) => {
                proof {
                    lemma_first_index(line@, ':');
                }
                let head = slice_chars(line.as_slice(), 0, idx);
                assert(head@ =~= line@.take(idx as int));
                if chars_eq(head.as_slice(), k.as_slice()) {
                    let rest = slice_chars(line.as_slice(), idx + 1, line.len());
                    assert(rest@ =~= line@.skip(idx + 1));
                    let value = trim_chars(Space::Js, rest.as_slice());
                    assert(lookup(all.skip(i as int), k@) == Some(value@));
                    return Some(string_of(value.as_slice()));
                }
            },
            None => {},
        }
        i = i + 1;
    }
    None
}

/// Append a trailer to a commit message, extending an existing trailer block if the message
/// ends with one, otherwise starting a new block.
pub fn append_trailer(message: &str, key: &str, value: &str) -> (r: String)
    ensures
        r@ == with_trailer(message@, key@, value@),
{
    let m = chars_of(message);
    let normalized = normalize_crlf(m.as_slice());
    let body = trim_end_chars(Space::Js, normalized.as_slice());
    let mut line: Vec<char> = Vec::new();
    extend_str(&mut line, key);
    line.push(':');
    line.push(' ');
    extend_str(&mut line, value);
    line.push('\n');
    assert(line@ =~= trailer_text(key@, value@));
    if body.len() == 0 {
        return string_of(line.as_slice());
    }
    let blocks = paragraphs_of(body.as_slice());
    let mut out = body.clone();
    let extends = if blocks.len() > 1 {
        let last_idx = blocks.len() - 1;
        assert(blocks@[last_idx as int]@ == blocks.deep_view().last());
        is_trailer_block(blocks[last_idx].as_slice())
    } else {
        false
    };
    if extends {
        out.push('\n');
    } else {
        out.push('\n');
        out.push('\n');
    }
    extend(&mut out, line.as_slice());
    if extends {
        assert(out@ =~= body@ + seq!['\n'] + trailer_text(key@, value@));
    } else {
        assert(out@ =~= body@ + seq!['\n', '\n'] + trailer_text(key@, value@));
    }
    string_of(out.as_slice())
}

} // verus!

verus! {

// ---------------------------------------------------------------------------------------
// Reading back what was appended.

/// Does `s` hold a `\r` directly followed by a `\n`?
pub open spec fn has_crlf(s: Seq<char>) -> bool {
    exists|i: int| 0 <= i < s.len() - 1 && s[i] == '\r' && #[trigger] s[i + 1] == '\n'
}

pub proof fn lemma_normalize_identity(s: Seq<char>)
    requires
        !has_crlf(s),
    ensures
        normalize_newlines(s) == s,
    decreases s.len(),
{
    if s.len() > 0 {
        if s.len() >= 2 && s[0] == '\r' && s[1] == '\n' {
            assert(s[0int + 1] == '\n');
        }
        assert(!has_crlf(s.skip(1))) by {
            if has_crlf(s.skip(1)) {
                let i = choose|i: int|
                    0 <= i < s.skip(1).len() - 1 && s.skip(1)[i] == '\r' && #[trigger] s.skip(1)[i
                        + 1] == '\n';
                assert(s[(i + 1) + 1] == '\n');
            }
        }
        lemma_normalize_identity(s.skip(1));
        assert(seq![s[0]] + s.skip(1) =~= s);
    }
}

/// Normalizing two texts joined where no `\r\n` straddles the seam: each half on its own.
proof fn lemma_normalize_concat(a: Seq<char>, x: Seq<char>)
    requires
        !(a.len() > 0 && x.len() > 0 && a.last() == '\r' && x[0] == '\n'),
    ensures
        normalize_newlines(a + x) == normalize_newlines(a) + normalize_newlines(x),
    decreases a.len(),
{
    let t = a + x;
    if a.len() == 0 {
        assert(t =~= x);
        assert(normalize_newlines(a) == a);
        assert(a + normalize_newlines(x) =~= normalize_newlines(x));
    } else if a.len() >= 2 && a[0] == '\r' && a[1] == '\n' {
        assert(t[0] == '\r' && t[1] == '\n');
        assert(t.skip(2) =~= a.skip(2) + x);
        if a.skip(2).len() > 0 {
            assert(a.skip(2).last() == a.last());
        }
        lemma_normalize_concat(a.skip(2), x);
        assert(seq!['\n'] + (normalize_newlines(a.skip(2)) + normalize_newlines(x)) =~= (seq![
            '\n',
        ] + normalize_newlines(a.skip(2))) + normalize_newlines(x));
    } else {
        assert(t[0] == a[0]);
        if a.len() >= 2 {
            assert(t[1] == a[1]);
        }
        assert(t.skip(1) =~= a.skip(1) + x);
        if a.skip(1).len() > 0 {
            assert(a.skip(1).last() == a.last());
        }
        lemma_normalize_concat(a.skip(1), x);
        assert(seq![a[0]] + (normalize_newlines(a.skip(1)) + normalize_newlines(x)) =~= (seq![
            a[0],
        ] + normalize_newlines(a.skip(1))) + normalize_newlines(x));
    }
}

/// Normalizing white space leaves white space.
proof fn lemma_normalize_spaces(s: Seq<char>)
    requires
        forall|i: int| 0 <= i < s.len() ==> spec_is_space(Space::Js, #[trigger] s[i]),
    ensures
        forall|i: int|
            0 <= i < normalize_newlines(s).len() ==> spec_is_space(
                Space::Js,
                #[trigger] normalize_newlines(s)[i],
            ),
    decreases s.len(),
{
    if s.len() > 0 {
        let n = normalize_newlines(s);
        if s.len() >= 2 && s[0] == '\r' && s[1] == '\n' {
            assert forall|i: int| 0 <= i < s.skip(2).len() implies spec_is_space(
                Space::Js,
                #[trigger] s.skip(2)[i],
            ) by {
                assert(s.skip(2)[i] == s[i + 2]);
            }
            lemma_normalize_spaces(s.skip(2));
            assert(spec_is_space(Space::Js, '\n'));
            assert forall|i: int| 0 <= i < n.len() implies spec_is_space(Space::Js, #[trigger] n[i]) by {
                if i > 0 {
                    assert(n[i] == normalize_newlines(s.skip(2))[i - 1]);
                }
            }
        } else {
            assert forall|i: int| 0 <= i < s.skip(1).len() implies spec_is_space(
                Space::Js,
                #[trigger] s.skip(1)[i],
            ) by {
                assert(s.skip(1)[i] == s[i + 1]);
            }
            lemma_normalize_spaces(s.skip(1));
            assert forall|i: int| 0 <= i < n.len() implies spec_is_space(Space::Js, #[trigger] n[i]) by {
                if i > 0 {
                    assert(n[i] == normalize_newlines(s.skip(1))[i - 1]);
                } else {
                    assert(n[0] == s[0]);
                }
            }
        }
    }
}

/// Splitting a text with no separator yields it whole.
proof fn lemma_split_plain(s: Seq<char>, sep: char, cur: Seq<char>)
    requires
        forall|i: int| 0 <= i < s.len() ==> s[i] != sep,
    ensures
        split_from(s, sep, cur) == seq![cur + s],
    decreases s.len(),
{
    if s.len() > 0 {
        assert(s[0] != sep);
        lemma_split_plain(s.drop_first(), sep, cur.push(s[0]));
        assert(cur.push(s[0]) + s.drop_first() =~= cur + s);
    } else {
        assert(cur + s =~= cur);
    }
}

/// Splitting `a`, a separator, then a text with no separator: the pieces of `a`, then the text.
proof fn lemma_split_append(a: Seq<char>, sep: char, cur: Seq<char>, l: Seq<char>)
    requires
        forall|i: int| 0 <= i < l.len() ==> l[i] != sep,
    ensures
        split_from(a + seq![sep] + l, sep, cur) == split_from(a, sep, cur) + seq![l],
    decreases a.len(),
{
    let x = a + seq![sep] + l;
    if a.len() == 0 {
        assert(x =~= seq![sep] + l);
        assert(x.drop_first() =~= l);
        lemma_split_plain(l, sep, seq![]);
        assert(Seq::<char>::empty() + l =~= l);
    } else {
        assert(x[0] == a[0]);
        assert(x.drop_first() =~= a.drop_first() + seq![sep] + l);
        if a[0] == sep {
            lemma_split_append(a.drop_first(), sep, seq![], l);
            assert(seq![cur] + (split_from(a.drop_first(), sep, seq![]) + seq![l]) =~= (seq![cur]
                + split_from(a.drop_first(), sep, seq![])) + seq![l]);
        } else {
            lemma_split_append(a.drop_first(), sep, cur.push(a[0]), l);
        }
    }
}

/// `lookup` over two runs of lines: the first run wins.
proof fn lemma_lookup_append(xs: Seq<Seq<char>>, ys: Seq<Seq<char>>, key: Seq<char>)
    ensures
        lookup(xs + ys, key) == (match lookup(xs, key) {
            Some(v) => Some(v),
            None => lookup(ys, key),
        }),
    decreases xs.len(),
{
    if xs.len() == 0 {
        assert(xs + ys =~= ys);
    } else {
        assert((xs + ys)[0] == xs[0]);
        assert((xs + ys).drop_first() =~= xs.drop_first() + ys);
        lemma_lookup_append(xs.drop_first(), ys, key);
    }
}

/// A text with no line feed is one paragraph.
proof fn lemma_paragraphs_plain(l: Seq<char>, cur: Seq<char>)
    requires
        forall|i: int| 0 <= i < l.len() ==> l[i] != '\n',
    ensures
        paragraphs_from(l, cur) == seq![cur + l],
    decreases l.len(),
{
    if l.len() > 0 {
        assert(l[0] != '\n');
        lemma_paragraphs_plain(l.drop_first(), cur.push(l[0]));
        assert(cur.push(l[0]) + l.drop_first() =~= cur + l);
    } else {
        assert(cur + l =~= cur);
    }
}

proof fn lemma_paragraphs_nonempty(s: Seq<char>, cur: Seq<char>)
    ensures
        paragraphs_from(s, cur).len() >= 1,
    decreases s.len(),
{
    if s.len() == 0 {
    } else if s.len() >= 2 && s[0] == '\n' && s[1] == '\n' {
        lemma_drop_newlines_shorter(s);
        lemma_paragraphs_nonempty(drop_newlines(s), seq![]);
    } else {
        lemma_paragraphs_nonempty(s.drop_first(), cur.push(s[0]));
    }
}

/// Dropping leading line feeds from `a + x`, where `a` does not end with one.
proof fn lemma_drop_newlines_append(a: Seq<char>, x: Seq<char>)
    requires
        a.len() > 0,
        a.last() != '\n',
    ensures
        drop_newlines(a + x) == drop_newlines(a) + x,
        drop_newlines(a).len() > 0,
        drop_newlines(a).last() == a.last(),
    decreases a.len(),
{
    if a[0] == '\n' {
        assert(a.len() > 1);
        assert((a + x).drop_first() =~= a.drop_first() + x);
        assert(a.drop_first().last() == a.last());
        lemma_drop_newlines_append(a.drop_first(), x);
    } else {
        assert((a + x)[0] == a[0]);
    }
}

/// A blank line then a line with no line feed: one more paragraph.
proof fn lemma_paragraphs_new_block(a: Seq<char>, cur: Seq<char>, l: Seq<char>)
    requires
        a.len() == 0 || a.last() != '\n',
        l.len() > 0,
        forall|i: int| 0 <= i < l.len() ==> l[i] != '\n',
    ensures
        paragraphs_from(a + seq!['\n', '\n'] + l, cur) == paragraphs_from(a, cur) + seq![l],
    decreases a.len(),
{
    let x = a + seq!['\n', '\n'] + l;
    if a.len() == 0 {
        assert(x =~= seq!['\n', '\n'] + l);
        assert(x.drop_first() =~= seq!['\n'] + l);
        assert(x.drop_first().drop_first() =~= l);
        assert(l[0] != '\n');
        assert(drop_newlines(x.drop_first().drop_first()) == l);
        assert(drop_newlines(x.drop_first()) == drop_newlines(x.drop_first().drop_first()));
        assert(drop_newlines(x) == drop_newlines(x.drop_first()));
        lemma_paragraphs_plain(l, seq![]);
        assert(Seq::<char>::empty() + l =~= l);
    } else if a.len() >= 2 && a[0] == '\n' && a[1] == '\n' {
        assert(x[0] == '\n' && x[1] == '\n');
        lemma_drop_newlines_append(a, seq!['\n', '\n'] + l);
        assert(x =~= a + (seq!['\n', '\n'] + l));
        assert(drop_newlines(a) + (seq!['\n', '\n'] + l) =~= drop_newlines(a) + seq!['\n', '\n']
            + l);
        lemma_drop_newlines_shorter(a);
        lemma_paragraphs_new_block(drop_newlines(a), seq![], l);
        assert(seq![cur] + (paragraphs_from(drop_newlines(a), seq![]) + seq![l]) =~= (seq![cur]
            + paragraphs_from(drop_newlines(a), seq![])) + seq![l]);
    } else {
        assert(x[0] == a[0]);
        if a.len() == 1 {
            assert(a[0] != '\n');
        } else {
            assert(x[1] == a[1]);
        }
        assert(x.drop_first() =~= a.drop_first() + seq!['\n', '\n'] + l);
        if a.len() > 1 {
            assert(a.drop_first().last() == a.last());
        }
        lemma_paragraphs_new_block(a.drop_first(), cur.push(a[0]), l);
    }
}

/// A single line feed then a line with no line feed: the last paragraph grows by that line.
proof fn lemma_paragraphs_extend_block(a: Seq<char>, cur: Seq<char>, l: Seq<char>)
    requires
        a.len() == 0 || a.last() != '\n',
        l.len() > 0,
        forall|i: int| 0 <= i < l.len() ==> l[i] != '\n',
    ensures
        paragraphs_from(a, cur).len() >= 1,
        paragraphs_from(a + seq!['\n'] + l, cur) == paragraphs_from(a, cur).update(
            paragraphs_from(a, cur).len() - 1,
            paragraphs_from(a, cur).last() + seq!['\n'] + l,
        ),
    decreases a.len(),
{
    lemma_paragraphs_nonempty(a, cur);
    let x = a + seq!['\n'] + l;
    if a.len() == 0 {
        assert(x =~= seq!['\n'] + l);
        assert(x[1] == l[0]);
        assert(x.drop_first() =~= l);
        lemma_paragraphs_plain(l, cur.push('\n'));
        assert(cur.push('\n') + l =~= cur + seq!['\n'] + l);
        assert(seq![cur].update(0, cur + seq!['\n'] + l) =~= seq![cur + seq!['\n'] + l]);
    } else if a.len() >= 2 && a[0] == '\n' && a[1] == '\n' {
        assert(x[0] == '\n' && x[1] == '\n');
        lemma_drop_newlines_append(a, seq!['\n'] + l);
        assert(x =~= a + (seq!['\n'] + l));
        assert(drop_newlines(a) + (seq!['\n'] + l) =~= drop_newlines(a) + seq!['\n'] + l);
        lemma_drop_newlines_shorter(a);
        lemma_paragraphs_extend_block(drop_newlines(a), seq![], l);
        let p = paragraphs_from(drop_newlines(a), seq![]);
        assert(seq![cur] + p.update(p.len() - 1, p.last() + seq!['\n'] + l) =~= (seq![cur]
            + p).update((seq![cur] + p).len() - 1, (seq![cur] + p).last() + seq!['\n'] + l));
    } else {
        assert(x[0] == a[0]);
        if a.len() == 1 {
            assert(a[0] != '\n');
        } else {
            assert(x[1] == a[1]);
        }
        assert(x.drop_first() =~= a.drop_first() + seq!['\n'] + l);
        if a.len() > 1 {
            assert(a.drop_first().last() == a.last());
        }
        lemma_paragraphs_extend_block(a.drop_first(), cur.push(a[0]), l);
    }
}

/// `trim_end` of text followed by white space, where the text ends in a non-space.
proof fn lemma_trim_end_split(kind: Space, a: Seq<char>, b: Seq<char>)
    requires
        a.len() > 0,
        !spec_is_space(kind, a.last()),
        forall|i: int| 0 <= i < b.len() ==> spec_is_space(kind, #[trigger] b[i]),
    ensures
        trim_end(kind, a + b) == a,
{
    let s = a + b;
    assert forall|i: int| a.len() <= i < s.len() implies spec_is_space(kind, #[trigger] s[i]) by {
        assert(s[i] == b[i - a.len()]);
    }
    assert(s[a.len() - 1] == a.last());
    lemma_trim_end_of_prefix(kind, s, a.len() as int);
    assert(s.take(a.len() as int) =~= a);
}

/// A valid key followed by `: ` and a value with no line terminator is a trailer line whose
/// lookup gives back the trimmed value.
proof fn lemma_trailer_line_of(key: Seq<char>, tv: Seq<char>)
    requires
        key.len() > 0,
        forall|i: int| 0 <= i < key.len() ==> key_char(#[trigger] key[i]),
        tv.len() > 0,
        !spec_is_space(Space::Js, tv.last()),
        forall|i: int| 0 <= i < tv.len() ==> !line_terminator(#[trigger] tv[i]),
    ensures
        ({
            let l = key + seq![':', ' '] + tv;
            &&& trailer_line(l)
            &&& forall|i: int| 0 <= i < l.len() ==> l[i] != '\n'
            &&& lookup(seq![l], key) == Some(trim_start(Space::Js, tv))
        }),
{
    let l = key + seq![':', ' '] + tv;
    let i = key.len() as int;
    assert forall|j: int| 0 <= j < i implies l[j] != ':' by {
        assert(l[j] == key[j]);
        assert(key_char(key[j]));
    }
    assert(l[i] == ':');
    lemma_first_index_unique(l, ':', i);
    assert(l.take(i) =~= key);
    assert forall|k: int| 0 <= k < i implies key_char(#[trigger] l[k]) by {
        assert(l[k] == key[k]);
    }
    assert(l[i + 1] == ' ');
    assert forall|k: int| i + 2 <= k < l.len() implies !line_terminator(#[trigger] l[k]) by {
        assert(l[k] == tv[k - i - 2]);
    }
    assert forall|k: int| 0 <= k < l.len() implies l[k] != '\n' by {
        if k < i {
            assert(l[k] == key[k]);
            assert(key_char(key[k]));
        } else if k >= i + 2 {
            assert(l[k] == tv[k - i - 2]);
            assert(!line_terminator(tv[k - i - 2]));
        }
    }
    let rest = l.skip(i + 1);
    assert(rest =~= seq![' '] + tv);
    lemma_trim_end_split(Space::Js, rest, Seq::<char>::empty());
    assert(rest + Seq::<char>::empty() =~= rest);
    assert(rest.last() == tv.last());
    assert(trim_start(Space::Js, rest) == trim_start(Space::Js, rest.drop_first()));
    assert(rest.drop_first() =~= tv);
    assert(seq![l][0] == l);
}

/// The message's text as appending sees it, normalized once more: it still ends in what the
/// text ended in, and both the message normalized once and that text split into the same
/// paragraphs.
proof fn lemma_normalized_body(message: Seq<char>)
    requires
        trim_end(Space::Js, normalize_newlines(message)).len() > 0,
    ensures
        ({
            let n = normalize_newlines(message);
            let body = trim_end(Space::Js, n);
            let b2 = normalize_newlines(body);
            &&& body.len() > 0
            &&& !spec_is_space(Space::Js, body.last())
            &&& b2.len() > 0
            &&& b2.last() == body.last()
            &&& paragraphs(n) == paragraphs_from(b2, seq![])
            &&& paragraphs(body) == paragraphs_from(b2, seq![])
        }),
{
    let n = normalize_newlines(message);
    let body = trim_end(Space::Js, n);
    lemma_trim_end_prefix(Space::Js, n);
    let ws = n.skip(body.len() as int);
    assert(n =~= body + ws);
    assert forall|i: int| 0 <= i < ws.len() implies spec_is_space(Space::Js, #[trigger] ws[i]) by {
        assert(ws[i] == n[body.len() + i]);
    }
    assert(body.last() != '\r') by {
        assert(spec_is_space(Space::Js, '\r'));
    }
    lemma_normalize_concat(body, ws);
    let b2 = normalize_newlines(body);
    let c = body.last();
    assert(body =~= body.drop_last() + seq![c]);
    lemma_normalize_concat(body.drop_last(), seq![c]);
    assert(seq![c].skip(1) =~= Seq::<char>::empty());
    assert(normalize_newlines(Seq::<char>::empty()) == Seq::<char>::empty());
    assert(normalize_newlines(seq![c]) =~= seq![c] + normalize_newlines(seq![c].skip(1)));
    assert(normalize_newlines(seq![c]) =~= seq![c]);
    assert(b2.len() > 0 && b2.last() == c);
    lemma_normalize_spaces(ws);
    lemma_trim_end_split(Space::Js, b2, normalize_newlines(ws));
    lemma_trim_end_of_prefix(Space::Js, b2, b2.len() as int);
    assert(b2.take(b2.len() as int) =~= b2);
}

/// **Reading a trailer gives back what appending it wrote.** For a message with some text,
/// a trailer key made of `[A-Za-z0-9-]` that the message does not already carry, and a value
/// on one line with something in it, the trailer read from the appended message is the
/// value with its surrounding white space trimmed. Appending decides where the trailer goes
/// after a second CRLF normalization of the message, and reading normalizes the result once
/// more; so the law leaves out exactly the messages whose once-normalized text carries the key
/// with another value (such as `"a\n\r\r\nK: v"`, read as carrying no `K`, yet `K: v` after
/// appending `K: x`).
#[verifier::rlimit(40)]
pub proof fn lemma_get_trailer_reads_what_append_trailer_wrote(
    message: Seq<char>,
    key: Seq<char>,
    value: Seq<char>,
)
    requires
        trim_end(Space::Js, normalize_newlines(message)).len() > 0,
        key.len() > 0,
        forall|i: int| 0 <= i < key.len() ==> key_char(#[trigger] key[i]),
        forall|i: int| 0 <= i < value.len() ==> !line_terminator(#[trigger] value[i]),
        trim_end(Space::Js, value).len() > 0,
        trailer_value(message, key) is None,
        trailer_value(normalize_newlines(message), key) is None || trailer_value(
            normalize_newlines(message),
            key,
        ) == Some(trim(Space::Js, value)),
    ensures
        trailer_value(with_trailer(message, key, value), key) == Some(trim(Space::Js, value)),
{
    let n = normalize_newlines(message);
    let body = trim_end(Space::Js, n);
    lemma_normalized_body(message);
    let b2 = normalize_newlines(body);
    let blocks = paragraphs_from(b2, seq![]);
    lemma_paragraphs_nonempty(b2, seq![]);

    let tv = trim_end(Space::Js, value);
    lemma_trim_end_prefix(Space::Js, value);
    assert forall|i: int| 0 <= i < tv.len() implies !line_terminator(#[trigger] tv[i]) by {
        assert(tv[i] == value[i]);
    }
    lemma_trailer_line_of(key, tv);
    let l = key + seq![':', ' '] + tv;
    let extends = blocks.len() > 1 && trailer_block(blocks.last());
    let sep: Seq<char> = if extends {
        seq!['\n']
    } else {
        seq!['\n', '\n']
    };
    let out = with_trailer(message, key, value);
    assert(out =~= body + sep + l + (value.skip(tv.len() as int) + seq!['\n']));

    // The appended text normalizes to itself.
    let suffix = sep + l + (value.skip(tv.len() as int) + seq!['\n']);
    assert(out =~= body + suffix);
    assert(!has_crlf(suffix)) by {
        if has_crlf(suffix) {
            let i = choose|i: int|
                0 <= i < suffix.len() - 1 && suffix[i] == '\r' && #[trigger] suffix[i + 1] == '\n';
            if i < sep.len() {
                assert(suffix[i] == sep[i]);
            } else if i < sep.len() + key.len() {
                assert(suffix[i] == key[i - sep.len()]);
                assert(key_char(key[i - sep.len()]));
            } else if i < sep.len() + key.len() + 2 {
                assert(suffix[i] == l[i - sep.len()]);
            } else if i < sep.len() + l.len() {
                assert(suffix[i] == tv[i - sep.len() - key.len() - 2]);
                assert(!line_terminator(tv[i - sep.len() - key.len() - 2]));
            } else if i < sep.len() + l.len() + value.len() - tv.len() {
                assert(suffix[i] == value[tv.len() + i - sep.len() - l.len()]);
                assert(!line_terminator(value[tv.len() + i - sep.len() - l.len()]));
            } else {
                assert(i == suffix.len() - 1);
            }
        }
    }
    lemma_normalize_identity(suffix);
    lemma_normalize_concat(body, suffix);
    assert(normalize_newlines(out) =~= b2 + sep + l + (value.skip(tv.len() as int) + seq!['\n']));

    // Trailing white space of the value and the final line feed go.
    let tail = value.skip(tv.len() as int) + seq!['\n'];
    assert forall|i: int| 0 <= i < tail.len() implies spec_is_space(Space::Js, #[trigger] tail[i]) by {
        if i < value.len() - tv.len() {
            assert(tail[i] == value[tv.len() + i]);
        }
    }
    let kept = b2 + sep + l;
    assert(kept.last() == tv.last());
    lemma_trim_end_split(Space::Js, kept, tail);
    assert(normalize_newlines(out) =~= kept + tail);
    assert(paragraphs(out) == paragraphs_from(kept, seq![]));

    if extends {
        lemma_paragraphs_extend_block(b2, seq![], l);
        let last = blocks.last();
        let new_last = last + seq!['\n'] + l;
        assert(paragraphs(out).last() == new_last);
        assert(trailer_value(n, key) == lookup(split(last, '\n'), key));
        lemma_split_append(last, '\n', seq![], l);
        let lines = split(last, '\n');
        assert(split(new_last, '\n') == lines + seq![l]);
        assert forall|k: int|
            0 <= k < split(new_last, '\n').len() implies trailer_line(
            #[trigger] split(new_last, '\n')[k],
        ) by {
            if k < lines.len() {
                assert(split(new_last, '\n')[k] == lines[k]);
            } else {
                assert(split(new_last, '\n')[k] == l);
            }
        }
        lemma_lookup_append(lines, seq![l], key);
    } else {
        lemma_paragraphs_new_block(b2, seq![], l);
        assert(paragraphs(out).last() == l);
        lemma_split_plain(l, '\n', seq![]);
        assert(Seq::<char>::empty() + l =~= l);
        assert(split(l, '\n') == seq![l]);
        assert(trailer_block(l)) by {
            assert forall|k: int| 0 <= k < split(l, '\n').len() implies trailer_line(
                #[trigger] split(l, '\n')[k],
            ) by {
                assert(k == 0);
            }
        }
    }
}

} // verus!
