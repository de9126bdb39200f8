//! What holds of the config edits across calls: removing the entry that was just appended
//! gives the file back.

use vstd::prelude::*;

use crate::text::{
    first_index, hex_digit, join, lemma_first_index_unique, lemma_trim_end_of_prefix,
    lemma_trim_start_of_suffix, spec_is_space, split, split_from, trim, trim_end, trim_start,
    Space,
};
use crate::config::basename_of;
use crate::paths::normalized_path;
use crate::vendor::{
    blocks_from, close_seam, entry_lines, entry_name, field_of_line, field_value, file_lines,
    hits_from, inserted_entry, is_header, opens_table, read_field_from, removed_entry,
    lemma_quoted_reads_back, toml_escape, toml_escape_char, toml_quoted, trim_newlines_end,
    unquote, unquote_end, unquote_start,
};

verus! {

// ---------------------------------------------------------------------------------------
// Splitting and joining lines.

/// Splitting across one separator splits each side.
proof fn lemma_split_from_concat(a: Seq<char>, sep: char, b: Seq<char>, cur: Seq<char>)
    ensures
        split_from(a + seq![sep] + b, sep, cur) == split_from(a, sep, cur) + split_from(
            b,
            sep,
            seq![],
        ),
    decreases a.len(),
{
    let whole = a + seq![sep] + b;
    if a.len() == 0 {
        assert(whole =~= seq![sep] + b);
        assert(whole.drop_first() =~= b);
    } else {
        assert(whole.drop_first() =~= a.drop_first() + seq![sep] + b);
        if a[0] == sep {
            lemma_split_from_concat(a.drop_first(), sep, b, seq![]);
            assert(split_from(whole, sep, cur) =~= seq![cur] + (split_from(
                a.drop_first(),
                sep,
                seq![],
            ) + split_from(b, sep, seq![])));
        } else {
            lemma_split_from_concat(a.drop_first(), sep, b, cur.push(a[0]));
        }
    }
}

pub(crate) proof fn lemma_split_concat(a: Seq<char>, sep: char, b: Seq<char>)
    ensures
        split(a + seq![sep] + b, sep) == split(a, sep) + split(b, sep),
{
    lemma_split_from_concat(a, sep, b, seq![]);
}

/// A piece without the separator splits into itself.
pub(crate) proof fn lemma_split_from_plain(p: Seq<char>, sep: char, cur: Seq<char>)
    requires
        forall|i: int| 0 <= i < p.len() ==> p[i] != sep,
    ensures
        split_from(p, sep, cur) == seq![cur + p],
    decreases p.len(),
{
    if p.len() == 0 {
        assert(cur + p =~= cur);
    } else {
        assert forall|i: int| 0 <= i < p.drop_first().len() implies p.drop_first()[i] != sep by {
            assert(p.drop_first()[i] == p[i + 1]);
        }
        lemma_split_from_plain(p.drop_first(), sep, cur.push(p[0]));
        assert(cur.push(p[0]) + p.drop_first() =~= cur + p);
    }
}

/// Joining pieces that hold no separator, then splitting, gives the pieces back.
proof fn lemma_split_join(pieces: Seq<Seq<char>>, sep: char)
    requires
        pieces.len() > 0,
        forall|k: int, i: int|
            0 <= k < pieces.len() && 0 <= i < pieces[k].len() ==> #[trigger] pieces[k][i] != sep,
    ensures
        split(join(pieces, seq![sep]), sep) == pieces,
    decreases pieces.len(),
{
    if pieces.len() == 1 {
        lemma_split_from_plain(pieces[0], sep, seq![]);
        assert(Seq::<char>::empty() + pieces[0] =~= pieces[0]);
        assert(pieces =~= seq![pieces[0]]);
    } else {
        let init = pieces.drop_last();
        assert forall|k: int, i: int|
            0 <= k < init.len() && 0 <= i < init[k].len() implies #[trigger] init[k][i] != sep by {
            assert(init[k] == pieces[k]);
        }
        lemma_split_join(init, sep);
        lemma_split_concat(join(init, seq![sep]), sep, pieces.last());
        lemma_split_from_plain(pieces.last(), sep, seq![]);
        assert(Seq::<char>::empty() + pieces.last() =~= pieces.last());
        assert(pieces =~= init + seq![pieces.last()]);
    }
}

/// Joining in front of a non-empty rest.
proof fn lemma_join_prepend(x: Seq<char>, rest: Seq<Seq<char>>, sep: Seq<char>)
    requires
        rest.len() > 0,
    ensures
        join(seq![x] + rest, sep) == x + sep + join(rest, sep),
    decreases rest.len(),
{
    let all = seq![x] + rest;
    assert(all.len() > 1);
    assert(join(all, sep) == join(all.drop_last(), sep) + sep + all.last());
    if rest.len() == 1 {
        assert(all.drop_last() =~= seq![x]);
        assert(join(seq![x], sep) == x);
        assert(all.last() == rest[0]);
        assert(join(rest, sep) == rest[0]);
    } else {
        assert(all.drop_last() =~= seq![x] + rest.drop_last());
        lemma_join_prepend(x, rest.drop_last(), sep);
        assert(all.last() == rest.last());
        assert(join(rest, sep) == join(rest.drop_last(), sep) + sep + rest.last());
        assert(x + sep + join(rest.drop_last(), sep) + sep + rest.last() =~= x + sep + (join(
            rest.drop_last(),
            sep,
        ) + sep + rest.last()));
    }
}

/// Splitting, then joining with the separator, gives the text back.
proof fn lemma_join_split_from(s: Seq<char>, sep: char, cur: Seq<char>)
    ensures
        join(split_from(s, sep, cur), seq![sep]) == cur + s,
    decreases s.len(),
{
    if s.len() == 0 {
        assert(cur + s =~= cur);
    } else if s[0] == sep {
        crate::text::lemma_split_from_nonempty(s.drop_first(), sep, seq![]);
        lemma_join_split_from(s.drop_first(), sep, seq![]);
        lemma_join_prepend(cur, split_from(s.drop_first(), sep, seq![]), seq![sep]);
        assert(cur + seq![sep] + (Seq::<char>::empty() + s.drop_first()) =~= cur + s);
    } else {
        lemma_join_split_from(s.drop_first(), sep, cur.push(s[0]));
        assert(cur.push(s[0]) + s.drop_first() =~= cur + s);
    }
}

pub(crate) proof fn lemma_join_split(s: Seq<char>, sep: char)
    ensures
        join(split(s, sep), seq![sep]) == s,
{
    lemma_join_split_from(s, sep, seq![]);
    assert(Seq::<char>::empty() + s =~= s);
}

// ---------------------------------------------------------------------------------------
// What the rendered lines hold.

proof fn lemma_hex_digit_not_newline(d: u32)
    requires
        d < 16,
    ensures
        hex_digit(d, true) != '\n',
{
    if d < 10 {
        assert(((d + 48) as u8) as char != '\n');
    } else {
        assert(((d + 55) as u8) as char != '\n');
    }
}

/// An escaped character is never a line feed.
proof fn lemma_escape_char_has_no_newline(c: char)
    ensures
        forall|i: int|
            0 <= i < toml_escape_char(c).len() ==> #[trigger] toml_escape_char(c)[i] != '\n',
{
    let u = c as u32;
    if !(c == '"' || c == '\\' || u == 0x0a || u == 0x0d || u == 0x09 || u == 0x08 || u == 0x0c)
        && (u < 0x20 || u == 0x7f) {
        lemma_hex_digit_not_newline(u / 16);
        lemma_hex_digit_not_newline(u % 16);
    }
}

/// A TOML basic string never holds a raw line feed.
proof fn lemma_escape_has_no_newline(s: Seq<char>)
    ensures
        forall|i: int| 0 <= i < toml_escape(s).len() ==> #[trigger] toml_escape(s)[i] != '\n',
    decreases s.len(),
{
    if s.len() > 0 {
        lemma_escape_has_no_newline(s.drop_first());
        lemma_escape_char_has_no_newline(s[0]);
        let e = toml_escape_char(s[0]);
        let rest = toml_escape(s.drop_first());
        assert(toml_escape(s) == e + rest);
        assert forall|i: int| 0 <= i < toml_escape(s).len() implies #[trigger] toml_escape(s)[i]
            != '\n' by {
            if i < e.len() {
                assert(toml_escape(s)[i] == e[i]);
            } else {
                assert(toml_escape(s)[i] == rest[i - e.len()]);
            }
        }
    }
}

proof fn lemma_quoted_has_no_newline(s: Seq<char>)
    ensures
        forall|i: int| 0 <= i < toml_quoted(s).len() ==> #[trigger] toml_quoted(s)[i] != '\n',
{
    lemma_escape_has_no_newline(s);
    let q = toml_quoted(s);
    assert forall|i: int| 0 <= i < q.len() implies #[trigger] q[i] != '\n' by {
        if 0 < i < q.len() - 1 {
            assert(q[i] == toml_escape(s)[i - 1]);
        }
    }
}

/// A key the rendered lines use: no white space, `=`, quote or `#` in it, and no `[` in front.
spec fn plain_key(key: Seq<char>) -> bool {
    &&& key.len() > 0
    &&& key[0] != '['
    &&& forall|i: int|
        0 <= i < key.len() ==> {
            let c = #[trigger] key[i];
            !spec_is_space(Space::Unicode, c) && c != '=' && c != '"' && c != '\'' && c != '#'
        }
}

/// A text that starts and ends with something other than white space trims to itself.
proof fn lemma_trim_solid(s: Seq<char>)
    requires
        s.len() > 0,
        !spec_is_space(Space::Unicode, s[0]),
        !spec_is_space(Space::Unicode, s.last()),
    ensures
        trim(Space::Unicode, s) == s,
{
    lemma_trim_end_of_prefix(Space::Unicode, s, s.len() as int);
    assert(s.take(s.len() as int) =~= s);
    lemma_trim_start_of_suffix(Space::Unicode, s, 0);
    assert(s.skip(0) =~= s);
}

/// How a rendered `key = "value"` line reads: it speaks of `key` only, its value is the
/// quoted text, it opens no table and holds no line feed.
proof fn lemma_field_line(key: Seq<char>, prefix: Seq<char>, v: Seq<char>, wanted: Seq<char>)
    requires
        plain_key(key),
        prefix == key + seq![' ', '=', ' '],
    ensures
        field_of_line(prefix + toml_quoted(v), wanted) == (if key == wanted {
            Some(field_value(toml_quoted(v)))
        } else {
            None::<Option<Seq<char>>>
        }),
        !opens_table(prefix + toml_quoted(v)),
        forall|i: int|
            0 <= i < (prefix + toml_quoted(v)).len() ==> #[trigger] (prefix + toml_quoted(v))[i]
                != '\n',
{
    let q = toml_quoted(v);
    let line = prefix + q;
    let k = key.len() as int;
    assert(q[0] == '"');
    assert(q.last() == '"');
    assert(line[0] == key[0]);
    assert(line.last() == '"');
    lemma_trim_solid(line);
    let text = trim(Space::Unicode, line);
    assert(text == line);
    assert(line[k + 1] == '=');
    assert forall|j: int| 0 <= j < k + 1 implies line[j] != '=' by {
        if j < k {
            assert(line[j] == key[j]);
        }
    }
    lemma_first_index_unique(line, '=', k + 1);
    assert(line.take(k + 1) =~= key + seq![' ']);
    lemma_trim_end_of_prefix(Space::Unicode, key + seq![' '], k);
    assert((key + seq![' ']).take(k) =~= key);
    lemma_trim_start_of_suffix(Space::Unicode, key, 0);
    assert(key.skip(0) =~= key);
    assert(trim(Space::Unicode, line.take(k + 1)) == key);
    assert(unquote_end(key) == key);
    assert(unquote_start(key) == key);
    assert(unquote(key) == key);
    assert(line.skip(k + 2) =~= seq![' '] + q);
    let tail = seq![' '] + q;
    lemma_trim_end_of_prefix(Space::Unicode, tail, tail.len() as int);
    assert(tail.take(tail.len() as int) =~= tail);
    lemma_trim_start_of_suffix(Space::Unicode, tail, 1);
    assert(tail.skip(1) =~= q);
    assert(trim(Space::Unicode, line.skip(k + 2)) == q);
    lemma_trim_start_of_suffix(Space::Unicode, line, 0);
    assert(line.skip(0) =~= line);
    lemma_quoted_has_no_newline(v);
    assert forall|i: int| 0 <= i < line.len() implies #[trigger] line[i] != '\n' by {
        if i < k {
            assert(line[i] == key[i]);
            assert(spec_is_space(Space::Unicode, '\n'));
        } else if i >= k + 3 {
            assert(line[i] == q[i - k - 3]);
        }
    }
}

/// The keys of a rendered entry are plain, and each line's prefix is the key and ` = `.
proof fn lemma_entry_keys()
    ensures
        plain_key("name"@),
        plain_key("path"@),
        plain_key("remote"@),
        plain_key("branch"@),
        plain_key("upstream"@),
        plain_key("push-branch"@),
        "name = "@ == "name"@ + seq![' ', '=', ' '],
        "path = "@ == "path"@ + seq![' ', '=', ' '],
        "remote = "@ == "remote"@ + seq![' ', '=', ' '],
        "branch = "@ == "branch"@ + seq![' ', '=', ' '],
        "upstream = "@ == "upstream"@ + seq![' ', '=', ' '],
        "push-branch = "@ == "push-branch"@ + seq![' ', '=', ' '],
        "name"@ != "path"@,
        "name"@ != "remote"@,
        "name"@ != "branch"@,
        "name"@ != "upstream"@,
        "name"@ != "push-branch"@,
{
    reveal_strlit("name");
    reveal_strlit("path");
    reveal_strlit("remote");
    reveal_strlit("branch");
    reveal_strlit("upstream");
    reveal_strlit("push-branch");
    reveal_strlit("name = ");
    reveal_strlit("path = ");
    reveal_strlit("remote = ");
    reveal_strlit("branch = ");
    reveal_strlit("upstream = ");
    reveal_strlit("push-branch = ");
    assert("name = "@ =~= "name"@ + seq![' ', '=', ' ']);
    assert("path = "@ =~= "path"@ + seq![' ', '=', ' ']);
    assert("remote = "@ =~= "remote"@ + seq![' ', '=', ' ']);
    assert("branch = "@ =~= "branch"@ + seq![' ', '=', ' ']);
    assert("upstream = "@ =~= "upstream"@ + seq![' ', '=', ' ']);
    assert("push-branch = "@ =~= "push-branch"@ + seq![' ', '=', ' ']);
    assert("name"@[0] != "path"@[0]);
    assert("name"@.len() != "remote"@.len());
    assert("name"@.len() != "branch"@.len());
    assert("name"@.len() != "upstream"@.len());
    assert("name"@.len() != "push-branch"@.len());
}

/// A line no key is read from.
proof fn lemma_read_field_none(body: Seq<Seq<char>>, key: Seq<char>, j: int)
    requires
        0 <= j <= body.len(),
        forall|i: int| j <= i < body.len() ==> field_of_line(#[trigger] body[i], key) is None,
    ensures
        read_field_from(body, key, j) is None,
    decreases body.len() - j,
{
    if j < body.len() {
        lemma_read_field_none(body, key, j + 1);
    }
}

/// The lines below the header of a rendered entry.
spec fn entry_body(
    name: Seq<char>,
    path: Seq<char>,
    remote: Seq<char>,
    branch: Seq<char>,
    upstream: Option<Seq<char>>,
    push_branch: Option<Seq<char>>,
) -> Seq<Seq<char>> {
    entry_lines(name, path, remote, branch, upstream, push_branch).drop_first()
}

/// The fields of a rendered entry, key and value, in the order they are written.
spec fn entry_fields(
    name: Seq<char>,
    path: Seq<char>,
    remote: Seq<char>,
    branch: Seq<char>,
    upstream: Option<Seq<char>>,
    push_branch: Option<Seq<char>>,
) -> Seq<(Seq<char>, Seq<char>)> {
    (if name != basename_of(path) {
        seq![("name"@, name)]
    } else {
        seq![]
    }) + seq![("path"@, path), ("remote"@, remote)] + (if branch != "main"@ {
        seq![("branch"@, branch)]
    } else {
        seq![]
    }) + (match upstream {
        Some(u) => seq![("upstream"@, u)] + (match push_branch {
            Some(p) if p != branch => seq![("push-branch"@, p)],
            _ => seq![],
        }),
        None => seq![],
    })
}

/// One `key = "value"` line.
spec fn field_line(kv: (Seq<char>, Seq<char>)) -> Seq<char> {
    kv.0 + seq![' ', '=', ' '] + toml_quoted(kv.1)
}

/// The lines below the header are the fields, one per line; every key is plain, `name` is
/// written first when at all, and `path` is written right after it.
proof fn lemma_entry_body_fields(
    name: Seq<char>,
    path: Seq<char>,
    remote: Seq<char>,
    branch: Seq<char>,
    upstream: Option<Seq<char>>,
    push_branch: Option<Seq<char>>,
)
    ensures
        ({
            let fields = entry_fields(name, path, remote, branch, upstream, push_branch);
            let nl: int = if name != basename_of(path) {
                1
            } else {
                0
            };
            &&& entry_body(name, path, remote, branch, upstream, push_branch) == fields.map_values(
                |kv: (Seq<char>, Seq<char>)| field_line(kv),
            )
            &&& fields.len() > nl
            &&& forall|i: int| 0 <= i < fields.len() ==> plain_key(#[trigger] fields[i].0)
            &&& name != basename_of(path) ==> fields[0] == ("name"@, name)
            &&& fields[nl] == ("path"@, path)
            &&& forall|i: int| nl <= i < fields.len() ==> #[trigger] fields[i].0 != "name"@
        }),
{
    lemma_entry_keys();
    let fields = entry_fields(name, path, remote, branch, upstream, push_branch);
    let lines = entry_lines(name, path, remote, branch, upstream, push_branch);
    let n_part: Seq<Seq<char>> = if name != basename_of(path) {
        seq!["name = "@ + toml_quoted(name)]
    } else {
        seq![]
    };
    let b_part: Seq<Seq<char>> = if branch != "main"@ {
        seq!["branch = "@ + toml_quoted(branch)]
    } else {
        seq![]
    };
    let u_part: Seq<Seq<char>> = match upstream {
        Some(u) => seq!["upstream = "@ + toml_quoted(u)] + (match push_branch {
            Some(p) if p != branch => seq!["push-branch = "@ + toml_quoted(p)],
            _ => seq![],
        }),
        None => seq![],
    };
    let mid = seq!["path = "@ + toml_quoted(path), "remote = "@ + toml_quoted(remote)];
    assert(lines == seq!["[[subrepos]]"@] + n_part + mid + b_part + u_part);
    let body = lines.drop_first();
    assert(body =~= n_part + mid + b_part + u_part);
    let f_n: Seq<(Seq<char>, Seq<char>)> = if name != basename_of(path) {
        seq![("name"@, name)]
    } else {
        seq![]
    };
    let f_b: Seq<(Seq<char>, Seq<char>)> = if branch != "main"@ {
        seq![("branch"@, branch)]
    } else {
        seq![]
    };
    let f_u: Seq<(Seq<char>, Seq<char>)> = match upstream {
        Some(u) => seq![("upstream"@, u)] + (match push_branch {
            Some(p) if p != branch => seq![("push-branch"@, p)],
            _ => seq![],
        }),
        None => seq![],
    };
    let f_mid = seq![("path"@, path), ("remote"@, remote)];
    assert(fields =~= f_n + f_mid + f_b + f_u);
    let mapped = fields.map_values(|kv: (Seq<char>, Seq<char>)| field_line(kv));
    assert(n_part =~= f_n.map_values(|kv: (Seq<char>, Seq<char>)| field_line(kv)));
    assert(mid =~= f_mid.map_values(|kv: (Seq<char>, Seq<char>)| field_line(kv)));
    assert(b_part =~= f_b.map_values(|kv: (Seq<char>, Seq<char>)| field_line(kv)));
    assert(u_part =~= f_u.map_values(|kv: (Seq<char>, Seq<char>)| field_line(kv)));
    assert(body =~= mapped);
    let nl: int = if name != basename_of(path) {
        1
    } else {
        0
    };
    assert forall|i: int| 0 <= i < fields.len() implies plain_key(#[trigger] fields[i].0) by {
        if i >= nl + 2 + f_b.len() {
            assert(fields[i] == f_u[i - nl - 2 - f_b.len()]);
        }
    }
    assert forall|i: int| nl <= i < fields.len() implies #[trigger] fields[i].0 != "name"@ by {
        if i >= nl + 2 + f_b.len() {
            assert(fields[i] == f_u[i - nl - 2 - f_b.len()]);
        }
    }
}

/// How each line below the header reads.
proof fn lemma_entry_body_reads(
    name: Seq<char>,
    path: Seq<char>,
    remote: Seq<char>,
    branch: Seq<char>,
    upstream: Option<Seq<char>>,
    push_branch: Option<Seq<char>>,
    i: int,
    wanted: Seq<char>,
)
    requires
        0 <= i < entry_body(name, path, remote, branch, upstream, push_branch).len(),
    ensures
        ({
            let fields = entry_fields(name, path, remote, branch, upstream, push_branch);
            let line = entry_body(name, path, remote, branch, upstream, push_branch)[i];
            &&& field_of_line(line, wanted) == (if fields[i].0 == wanted {
                Some(field_value(toml_quoted(fields[i].1)))
            } else {
                None::<Option<Seq<char>>>
            })
            &&& !opens_table(line)
            &&& forall|j: int| 0 <= j < line.len() ==> #[trigger] line[j] != '\n'
        }),
{
    lemma_entry_body_fields(name, path, remote, branch, upstream, push_branch);
    let fields = entry_fields(name, path, remote, branch, upstream, push_branch);
    let kv = fields[i];
    lemma_field_line(kv.0, kv.0 + seq![' ', '=', ' '], kv.1, wanted);
    assert(entry_body(name, path, remote, branch, upstream, push_branch)[i] == field_line(kv));
}

/// The loader names a rendered block after its entry.
proof fn lemma_rendered_entry_name(
    name: Seq<char>,
    path: Seq<char>,
    remote: Seq<char>,
    branch: Seq<char>,
    upstream: Option<Seq<char>>,
    push_branch: Option<Seq<char>>,
)
    requires
        name == basename_of(path) ==> normalized_path(path) == Ok::<Seq<char>, Seq<char>>(path),
    ensures
        entry_name(entry_body(name, path, remote, branch, upstream, push_branch)) == Some(name),
{
    lemma_entry_keys();
    lemma_quoted_reads_back(name);
    lemma_quoted_reads_back(path);
    lemma_entry_body_fields(name, path, remote, branch, upstream, push_branch);
    let body = entry_body(name, path, remote, branch, upstream, push_branch);
    let fields = entry_fields(name, path, remote, branch, upstream, push_branch);
    if name != basename_of(path) {
        lemma_entry_body_reads(name, path, remote, branch, upstream, push_branch, 0, "name"@);
        assert(field_value(toml_quoted(name)) == Some(name));
        assert(read_field_from(body, "name"@, 0) == Some(Some(name)));
    } else {
        assert forall|i: int| 0 <= i < body.len() implies field_of_line(
            #[trigger] body[i],
            "name"@,
        ) is None by {
            lemma_entry_body_reads(name, path, remote, branch, upstream, push_branch, i, "name"@);
        }
        lemma_read_field_none(body, "name"@, 0);
        lemma_entry_body_reads(name, path, remote, branch, upstream, push_branch, 0, "path"@);
        assert(field_value(toml_quoted(path)) == Some(path));
        assert(read_field_from(body, "path"@, 0) == Some(Some(path)));
    }
}

// ---------------------------------------------------------------------------------------
// Blocks.

/// The blocks `blocks_from` closes while it walks lines `j..` of `a`.
spec fn closed_in(a: Seq<Seq<char>>, j: int, open: Option<int>) -> Seq<(int, int)>
    decreases a.len() - j,
{
    if j < 0 || j >= a.len() {
        seq![]
    } else {
        let next = if is_header(a[j]) {
            Some(j)
        } else {
            None
        };
        match open {
            Some(h) => if opens_table(a[j]) {
                seq![(h, j)] + closed_in(a, j + 1, next)
            } else {
                closed_in(a, j + 1, open)
            },
            None => closed_in(a, j + 1, next),
        }
    }
}

/// The block still open once `blocks_from` has walked lines `j..` of `a`.
spec fn open_after(a: Seq<Seq<char>>, j: int, open: Option<int>) -> Option<int>
    decreases a.len() - j,
{
    if j < 0 || j >= a.len() {
        open
    } else {
        let next = if is_header(a[j]) {
            Some(j)
        } else {
            None
        };
        match open {
            Some(h) => if opens_table(a[j]) {
                open_after(a, j + 1, next)
            } else {
                open_after(a, j + 1, open)
            },
            None => open_after(a, j + 1, next),
        }
    }
}

/// Walking `a` and then whatever follows it: the blocks closed inside `a` come first.
proof fn lemma_blocks_split(a: Seq<Seq<char>>, c: Seq<Seq<char>>, j: int, open: Option<int>)
    requires
        0 <= j <= a.len(),
    ensures
        blocks_from(a + c, j, open) == closed_in(a, j, open) + blocks_from(
            a + c,
            a.len() as int,
            open_after(a, j, open),
        ),
    decreases a.len() - j,
{
    if j < a.len() {
        assert((a + c)[j] == a[j]);
        let next = if is_header(a[j]) {
            Some(j)
        } else {
            None
        };
        match open {
            Some(h) => if opens_table(a[j]) {
                lemma_blocks_split(a, c, j + 1, next);
                assert(seq![(h, j)] + (closed_in(a, j + 1, next) + blocks_from(
                    a + c,
                    a.len() as int,
                    open_after(a, j + 1, next),
                )) =~= seq![(h, j)] + closed_in(a, j + 1, next) + blocks_from(
                    a + c,
                    a.len() as int,
                    open_after(a, j + 1, next),
                ));
            } else {
                lemma_blocks_split(a, c, j + 1, open);
            },
            None => {
                lemma_blocks_split(a, c, j + 1, next);
            },
        }
    } else {
        assert(closed_in(a, j, open) =~= Seq::<(int, int)>::empty());
    }
}

/// The blocks of `a` alone.
proof fn lemma_blocks_whole(a: Seq<Seq<char>>)
    ensures
        blocks_from(a, 0, None) == closed_in(a, 0, None) + match open_after(a, 0, None) {
            Some(h) => seq![(h, a.len() as int)],
            None => Seq::<(int, int)>::empty(),
        },
{
    lemma_blocks_split(a, seq![], 0, None);
    assert(a + Seq::<Seq<char>>::empty() =~= a);
}

/// Where the blocks closed inside `a` lie, and where the open one starts.
proof fn lemma_blocks_bounds(a: Seq<Seq<char>>, j: int, open: Option<int>)
    requires
        0 <= j <= a.len(),
        open matches Some(h) ==> 0 <= h < j,
    ensures
        forall|k: int|
            0 <= k < closed_in(a, j, open).len() ==> {
                let b = #[trigger] closed_in(a, j, open)[k];
                0 <= b.0 < b.1 < a.len()
            },
        open_after(a, j, open) matches Some(h) ==> 0 <= h < a.len(),
        a.len() == 0 ==> open_after(a, j, open) == open,
    decreases a.len() - j,
{
    if j < a.len() {
        let next = if is_header(a[j]) {
            Some(j)
        } else {
            None
        };
        match open {
            Some(h) => if opens_table(a[j]) {
                lemma_blocks_bounds(a, j + 1, next);
                let rest = closed_in(a, j + 1, next);
                assert(closed_in(a, j, open) == seq![(h, j)] + rest);
                assert forall|k: int| 0 <= k < closed_in(a, j, open).len() implies {
                    let b = #[trigger] closed_in(a, j, open)[k];
                    0 <= b.0 < b.1 < a.len()
                } by {
                    if k > 0 {
                        assert(closed_in(a, j, open)[k] == rest[k - 1]);
                    }
                }
            } else {
                lemma_blocks_bounds(a, j + 1, open);
                assert(closed_in(a, j, open) == closed_in(a, j + 1, open));
            },
            None => {
                lemma_blocks_bounds(a, j + 1, next);
                assert(closed_in(a, j, open) == closed_in(a, j + 1, next));
            },
        }
    } else {
        assert(closed_in(a, j, open).len() == 0);
    }
}

/// With no table opened from `j` on, the open block runs to the end.
proof fn lemma_blocks_tail(lines: Seq<Seq<char>>, j: int, h: int)
    requires
        0 <= j <= lines.len(),
        forall|i: int| j <= i < lines.len() ==> !opens_table(#[trigger] lines[i]),
    ensures
        blocks_from(lines, j, Some(h)) == seq![(h, lines.len() as int)],
    decreases lines.len() - j,
{
    if j < lines.len() {
        lemma_blocks_tail(lines, j + 1, h);
    }
}

// ---------------------------------------------------------------------------------------
// Which blocks a name picks out.

/// When no block from `k` on is named `name`, each of them names itself plainly.
proof fn lemma_no_hits(lines: Seq<Seq<char>>, blocks: Seq<(int, int)>, name: Seq<char>, k: int)
    requires
        0 <= k,
        hits_from(lines, blocks, name, k) == Some(Seq::<(int, int)>::empty()),
    ensures
        forall|m: int|
            k <= m < blocks.len() ==> (#[trigger] entry_name(
                lines.subrange(blocks[m].0 + 1, blocks[m].1),
            ) matches Some(n) && n != name),
    decreases blocks.len() - k,
{
    if k < blocks.len() {
        match entry_name(lines.subrange(blocks[k].0 + 1, blocks[k].1)) {
            Some(n) => {
                match hits_from(lines, blocks, name, k + 1) {
                    Some(rest) => {
                        if n == name {
                            assert((seq![blocks[k]] + rest).len() > 0);
                        } else {
                            lemma_no_hits(lines, blocks, name, k + 1);
                        }
                    },
                    None => {},
                }
            },
            None => {},
        }
    }
}

/// When only the last block is named `name` and the others name themselves plainly, the last
/// one is what a name picks out.
proof fn lemma_last_hit(lines: Seq<Seq<char>>, blocks: Seq<(int, int)>, name: Seq<char>, k: int)
    requires
        0 <= k < blocks.len(),
        forall|m: int|
            k <= m < blocks.len() - 1 ==> (#[trigger] entry_name(
                lines.subrange(blocks[m].0 + 1, blocks[m].1),
            ) matches Some(n) && n != name),
        entry_name(lines.subrange(blocks.last().0 + 1, blocks.last().1)) == Some(name),
    ensures
        hits_from(lines, blocks, name, k) == Some(seq![blocks.last()]),
    decreases blocks.len() - k,
{
    if k == blocks.len() - 1 {
        assert(hits_from(lines, blocks, name, k + 1) == Some(Seq::<(int, int)>::empty()));
        assert(seq![blocks[k]] + Seq::<(int, int)>::empty() =~= seq![blocks.last()]);
    } else {
        lemma_last_hit(lines, blocks, name, k + 1);
        assert(entry_name(lines.subrange(blocks[k].0 + 1, blocks[k].1)) matches Some(n)
            && n != name);
    }
}

/// A blank line at the end of a block changes nothing the loader reads from it.
proof fn lemma_read_field_blank(body: Seq<Seq<char>>, key: Seq<char>, j: int)
    requires
        0 <= j <= body.len(),
    ensures
        read_field_from(body.push(seq![]), key, j) == read_field_from(body, key, j),
    decreases body.len() - j,
{
    let longer = body.push(seq![]);
    if j < body.len() {
        assert(longer[j] == body[j]);
        lemma_read_field_blank(body, key, j + 1);
    } else {
        assert(longer[j] == Seq::<char>::empty());
        assert(trim(Space::Unicode, Seq::<char>::empty()) =~= Seq::<char>::empty());
        assert(field_of_line(Seq::<char>::empty(), key) is None);
        assert(read_field_from(longer, key, j + 1) is None);
    }
}

proof fn lemma_entry_name_blank(body: Seq<Seq<char>>)
    ensures
        entry_name(body.push(seq![])) == entry_name(body),
{
    lemma_read_field_blank(body, "name"@, 0);
    lemma_read_field_blank(body, "path"@, 0);
}

// ---------------------------------------------------------------------------------------
// The file around the appended block.

/// The header line opens a `[[subrepos]]` block; a blank line opens nothing.
proof fn lemma_header_lines()
    ensures
        is_header("[[subrepos]]"@),
        opens_table("[[subrepos]]"@),
        forall|i: int| 0 <= i < "[[subrepos]]"@.len() ==> #[trigger] "[[subrepos]]"@[i] != '\n',
        !is_header(Seq::<char>::empty()),
        !opens_table(Seq::<char>::empty()),
{
    reveal_strlit("[[subrepos]]");
    let h = "[[subrepos]]"@;
    lemma_trim_solid(h);
    lemma_trim_start_of_suffix(Space::Unicode, h, 0);
    assert(h.skip(0) =~= h);
    assert(trim(Space::Unicode, Seq::<char>::empty()) =~= Seq::<char>::empty());
    assert(trim_start(Space::Unicode, Seq::<char>::empty()) =~= Seq::<char>::empty());
}

/// The lines of a rendered entry hold no line feed, and all but the header open no table.
proof fn lemma_entry_lines_plain(
    name: Seq<char>,
    path: Seq<char>,
    remote: Seq<char>,
    branch: Seq<char>,
    upstream: Option<Seq<char>>,
    push_branch: Option<Seq<char>>,
)
    ensures
        ({
            let lines = entry_lines(name, path, remote, branch, upstream, push_branch);
            &&& lines.len() > 0
            &&& lines[0] == "[[subrepos]]"@
            &&& lines.drop_first() == entry_body(name, path, remote, branch, upstream, push_branch)
            &&& forall|k: int, i: int|
                0 <= k < lines.len() && 0 <= i < lines[k].len() ==> #[trigger] lines[k][i] != '\n'
            &&& forall|k: int| 1 <= k < lines.len() ==> !opens_table(#[trigger] lines[k])
        }),
{
    lemma_header_lines();
    let lines = entry_lines(name, path, remote, branch, upstream, push_branch);
    let body = entry_body(name, path, remote, branch, upstream, push_branch);
    lemma_entry_body_fields(name, path, remote, branch, upstream, push_branch);
    assert forall|k: int, i: int|
        0 <= k < lines.len() && 0 <= i < lines[k].len() implies #[trigger] lines[k][i] != '\n' by {
        if k > 0 {
            lemma_entry_body_reads(name, path, remote, branch, upstream, push_branch, k - 1, "name"@);
            assert(lines[k] == body[k - 1]);
        }
    }
    assert forall|k: int| 1 <= k < lines.len() implies !opens_table(#[trigger] lines[k]) by {
        lemma_entry_body_reads(name, path, remote, branch, upstream, push_branch, k - 1, "name"@);
        assert(lines[k] == body[k - 1]);
    }
}

/// The lines of the file once the block is appended: the old lines, a blank line, the block.
proof fn lemma_appended_lines(trimmed: Seq<char>, block_lines: Seq<Seq<char>>)
    requires
        block_lines.len() > 0,
        forall|k: int, i: int|
            0 <= k < block_lines.len() && 0 <= i < block_lines[k].len()
                ==> #[trigger] block_lines[k][i] != '\n',
    ensures
        file_lines(trimmed + seq!['\n', '\n'] + join(block_lines, "\n"@) + seq!['\n'])
            == split(trimmed, '\n') + seq![Seq::<char>::empty()] + block_lines,
        file_lines(join(block_lines, "\n"@) + seq!['\n']) == block_lines,
{
    reveal_strlit("\n");
    assert("\n"@ =~= seq!['\n']);
    let block = join(block_lines, "\n"@);
    lemma_split_join(block_lines, '\n');
    let e = Seq::<char>::empty();
    lemma_split_concat(block, '\n', e);
    assert(block + seq!['\n'] =~= block + seq!['\n'] + e);
    assert(split(e, '\n') == seq![e]);
    let tail = block + seq!['\n'];
    assert(split(tail, '\n') == block_lines + seq![e]);
    lemma_split_concat(e, '\n', tail);
    assert(e + seq!['\n'] + tail =~= seq!['\n'] + tail);
    let rest = seq!['\n'] + tail;
    lemma_split_concat(trimmed, '\n', rest);
    let whole = trimmed + seq!['\n', '\n'] + block + seq!['\n'];
    assert(whole =~= trimmed + seq!['\n'] + rest);
    assert(split(whole, '\n') =~= split(trimmed, '\n') + seq![e] + block_lines + seq![e]);
    assert(whole.last() == '\n');
    assert((split(trimmed, '\n') + seq![e] + block_lines + seq![e]).drop_last() =~= split(
        trimmed,
        '\n',
    ) + seq![e] + block_lines);
    assert(tail.last() == '\n');
    assert((block_lines + seq![e]).drop_last() =~= block_lines);
}

/// **Removing the entry that was just appended gives the file back, byte for byte.** The
/// file is empty, or holds some text and ends in exactly one line feed; every
/// `[[subrepos]]` block in it names itself plainly and none of them is named `name`; the
/// entry's path is normalized where its name is left to the path.
pub proof fn lemma_removing_an_inserted_entry_gives_the_file_back(
    source: Seq<char>,
    name: Seq<char>,
    path: Seq<char>,
    remote: Seq<char>,
    branch: Seq<char>,
    upstream: Option<Seq<char>>,
    push_branch: Option<Seq<char>>,
)
    requires
        name == basename_of(path) ==> normalized_path(path) == Ok::<Seq<char>, Seq<char>>(path),
        source.len() == 0 || (trim(Space::Unicode, source).len() > 0 && source == trim_newlines_end(
            source,
        ) + seq!['\n']),
        hits_from(file_lines(source), blocks_from(file_lines(source), 0, None), name, 0) == Some(
            Seq::<(int, int)>::empty(),
        ),
    ensures
        removed_entry(
            inserted_entry(
                source,
                join(entry_lines(name, path, remote, branch, upstream, push_branch), "\n"@),
            ),
            name,
        ) == Some(source),
{
    reveal_strlit("\n");
    let b = entry_lines(name, path, remote, branch, upstream, push_branch);
    let body = entry_body(name, path, remote, branch, upstream, push_branch);
    let block = join(b, "\n"@);
    let e = Seq::<char>::empty();
    lemma_entry_lines_plain(name, path, remote, branch, upstream, push_branch);
    lemma_header_lines();
    lemma_appended_lines(trim_newlines_end(source), b);
    lemma_rendered_entry_name(name, path, remote, branch, upstream, push_branch);
    if source.len() == 0 {
        assert(trim_newlines_end(source) == source);
        assert(trim(Space::Unicode, source) =~= e);
        assert(inserted_entry(source, block) == block + seq!['\n']);
        let lines = file_lines(block + seq!['\n']);
        assert(lines == b);
        assert(blocks_from(lines, 0, None) == blocks_from(lines, 1, Some(0int)));
        lemma_blocks_tail(lines, 1, 0);
        let blocks = blocks_from(lines, 0, None);
        assert(blocks == seq![(0int, lines.len() as int)]);
        assert(lines.subrange(1, lines.len() as int) =~= body);
        lemma_last_hit(lines, blocks, name, 0);
        assert(lines.take(0) + lines.skip(lines.len() as int) =~= Seq::<Seq<char>>::empty());
        assert(close_seam(Seq::<Seq<char>>::empty(), 0) == Seq::<Seq<char>>::empty());
        assert(join(Seq::<Seq<char>>::empty(), "\n"@) == e);
        assert(trim(Space::Unicode, e) =~= e);
    } else {
        let trimmed = trim_newlines_end(source);
        assert(source.drop_last() =~= trimmed);
        assert(trim_end(Space::Unicode, source) == trim_end(Space::Unicode, trimmed));
        assert(inserted_entry(source, block) == trimmed + seq!['\n', '\n'] + block + seq!['\n']);
        let a = split(trimmed, '\n');
        crate::text::lemma_split_from_nonempty(trimmed, '\n', seq![]);
        lemma_split_concat(trimmed, '\n', e);
        assert(source =~= trimmed + seq!['\n'] + e);
        assert(split(e, '\n') == seq![e]);
        assert(file_lines(source) =~= a);
        let c = seq![e] + b;
        let lines = a + c;
        assert(file_lines(trimmed + seq!['\n', '\n'] + block + seq!['\n']) =~= lines);
        let n = a.len() as int;
        lemma_blocks_split(a, c, 0, None);
        lemma_blocks_whole(a);
        lemma_blocks_bounds(a, 0, None);
        let closed = closed_in(a, 0, None);
        let oa = open_after(a, 0, None);
        assert(lines[n] == e);
        assert(lines[n + 1] == "[[subrepos]]"@);
        assert(blocks_from(lines, n, oa) == blocks_from(lines, n + 1, oa));
        assert forall|i: int| n + 2 <= i < lines.len() implies !opens_table(#[trigger] lines[i]) by {
            assert(lines[i] == b[i - n - 1]);
        }
        lemma_blocks_tail(lines, n + 2, n + 1);
        let last = (n + 1, lines.len() as int);
        let mid: Seq<(int, int)> = match oa {
            Some(h) => seq![(h, n + 1)],
            None => seq![],
        };
        let blocks = blocks_from(lines, 0, None);
        assert(blocks =~= closed + mid + seq![last]);
        let src_blocks = blocks_from(a, 0, None);
        lemma_no_hits(a, src_blocks, name, 0);
        assert forall|m: int| 0 <= m < blocks.len() - 1 implies (#[trigger] entry_name(
            lines.subrange(blocks[m].0 + 1, blocks[m].1),
        ) matches Some(x) && x != name) by {
            assert(0 <= m < src_blocks.len());
            assert(entry_name(a.subrange(src_blocks[m].0 + 1, src_blocks[m].1)) matches Some(x)
                && x != name);
            if m < closed.len() {
                assert(blocks[m] == closed[m]);
                assert(src_blocks[m] == closed[m]);
                assert(lines.subrange(blocks[m].0 + 1, blocks[m].1) =~= a.subrange(
                    blocks[m].0 + 1,
                    blocks[m].1,
                ));
            } else {
                assert(oa is Some);
                let h = oa->0;
                assert(blocks[m] == (h, n + 1));
                assert(src_blocks[m] == (h, n));
                assert(lines.subrange(h + 1, n + 1) =~= a.subrange(h + 1, n).push(e));
                lemma_entry_name_blank(a.subrange(h + 1, n));
            }
        }
        assert(lines.subrange(n + 2, lines.len() as int) =~= body);
        lemma_last_hit(lines, blocks, name, 0);
        assert(lines.take(n + 1) + lines.skip(lines.len() as int) =~= a + seq![e]);
        assert(close_seam(a + seq![e], n + 1) == a + seq![e]);
        assert((a + seq![e]).drop_last() =~= a);
        assert(join(a + seq![e], "\n"@) == join(a, "\n"@) + "\n"@ + e);
        lemma_join_split(trimmed, '\n');
        assert("\n"@ =~= seq!['\n']);
        assert(join(a + seq![e], "\n"@) =~= source);
    }
}

} // verus!
