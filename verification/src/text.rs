//! Character-level helpers. Strings are handled as sequences of `char`: every function
//! here states its result over `Seq<char>`, the view of `str` and `String`.

use vstd::prelude::*;

verus! {

/// `String::push` appends one character.
pub assume_specification[ String::push ](s: &mut String, ch: char)
    ensures
        final(s)@ == old(s)@.push(ch),
;

/// `String::push_str` appends a string slice.
pub assume_specification[ String::push_str ](s: &mut String, string: &str)
    ensures
        final(s)@ == old(s)@ + string@,
;

/// Which characters count as white space when trimming.
#[derive(Clone, Copy, PartialEq, Eq)]
pub enum Space {
    /// JavaScript's `\s`: WhiteSpace and LineTerminator.
    Js,
    /// Unicode `White_Space`, what `str::trim` uses.
    Unicode,
}

pub open spec fn spec_is_space(kind: Space, c: char) -> bool {
    let u = c as u32;
    ||| u == 0x20 || (0x09 <= u && u <= 0x0d)
    ||| u == 0xa0 || u == 0x1680 || (0x2000 <= u && u <= 0x200a)
    ||| u == 0x2028 || u == 0x2029 || u == 0x202f || u == 0x205f || u == 0x3000
    ||| (kind == Space::Js && u == 0xfeff)
    ||| (kind == Space::Unicode && u == 0x85)
}

pub fn is_space(kind: Space, c: char) -> (b: bool)
    ensures
        b == spec_is_space(kind, c),
{
    let u = c as u32;
    if u == 0x20 || (0x09 <= u && u <= 0x0d) {
        return true;
    }
    if u == 0xa0 || u == 0x1680 || (0x2000 <= u && u <= 0x200a) {
        return true;
    }
    if u == 0x2028 || u == 0x2029 || u == 0x202f || u == 0x205f || u == 0x3000 {
        return true;
    }
    match kind {
        Space::Js => u == 0xfeff,
        Space::Unicode => u == 0x85,
    }
}

/// `s` without its trailing white space.
pub open spec fn trim_end(kind: Space, s: Seq<char>) -> Seq<char>
    decreases s.len(),
{
    if s.len() > 0 && spec_is_space(kind, s.last()) {
        trim_end(kind, s.drop_last())
    } else {
        s
    }
}

/// `s` without its leading white space.
pub open spec fn trim_start(kind: Space, s: Seq<char>) -> Seq<char>
    decreases s.len(),
{
    if s.len() > 0 && spec_is_space(kind, s[0]) {
        trim_start(kind, s.drop_first())
    } else {
        s
    }
}

/// `s` without leading and trailing white space.
pub open spec fn trim(kind: Space, s: Seq<char>) -> Seq<char> {
    trim_start(kind, trim_end(kind, s))
}

/// `trim_end` keeps a prefix of its input.
pub proof fn lemma_trim_end_prefix(kind: Space, s: Seq<char>)
    ensures
        trim_end(kind, s).len() <= s.len(),
        trim_end(kind, s) == s.take(trim_end(kind, s).len() as int),
        trim_end(kind, s).len() > 0 ==> !spec_is_space(kind, trim_end(kind, s).last()),
        forall|i: int|
            trim_end(kind, s).len() <= i < s.len() ==> spec_is_space(kind, #[trigger] s[i]),
    decreases s.len(),
{
    if s.len() > 0 && spec_is_space(kind, s.last()) {
        lemma_trim_end_prefix(kind, s.drop_last());
        assert(s.drop_last().take(trim_end(kind, s).len() as int) =~= s.take(
            trim_end(kind, s).len() as int,
        ));
        assert forall|i: int| trim_end(kind, s).len() <= i < s.len() implies spec_is_space(
            kind,
            #[trigger] s[i],
        ) by {
            if i < s.len() - 1 {
                assert(s[i] == s.drop_last()[i]);
            }
        }
    } else {
        assert(s.take(s.len() as int) =~= s);
    }
}

/// `trim_start` keeps a suffix of its input.
pub proof fn lemma_trim_start_suffix(kind: Space, s: Seq<char>)
    ensures
        trim_start(kind, s).len() <= s.len(),
        trim_start(kind, s) == s.skip(s.len() - trim_start(kind, s).len()),
        trim_start(kind, s).len() > 0 ==> !spec_is_space(kind, trim_start(kind, s)[0]),
        forall|i: int|
            0 <= i < s.len() - trim_start(kind, s).len() ==> spec_is_space(kind, #[trigger] s[i]),
    decreases s.len(),
{
    if s.len() > 0 && spec_is_space(kind, s[0]) {
        lemma_trim_start_suffix(kind, s.drop_first());
        let n = s.len() - trim_start(kind, s).len();
        assert(s.drop_first().skip(n - 1) =~= s.skip(n));
        assert forall|i: int| 0 <= i < n implies spec_is_space(kind, #[trigger] s[i]) by {
            if i > 0 {
                assert(s[i] == s.drop_first()[i - 1]);
            }
        }
    } else {
        assert(s.skip(0) =~= s);
    }
}

/// A sequence whose last element is not white space is its own `trim_end`.
pub proof fn lemma_trim_end_of_prefix(kind: Space, s: Seq<char>, n: int)
    requires
        0 <= n <= s.len(),
        forall|i: int| n <= i < s.len() ==> spec_is_space(kind, #[trigger] s[i]),
        n > 0 ==> !spec_is_space(kind, s[n - 1]),
    ensures
        trim_end(kind, s) == s.take(n),
    decreases s.len(),
{
    if s.len() > n {
        assert(spec_is_space(kind, s[s.len() - 1]));
        lemma_trim_end_of_prefix(kind, s.drop_last(), n);
        assert(s.drop_last().take(n) =~= s.take(n));
    } else {
        assert(s.take(n) =~= s);
    }
}

/// A sequence whose first element is not white space is its own `trim_start`.
pub proof fn lemma_trim_start_of_suffix(kind: Space, s: Seq<char>, n: int)
    requires
        0 <= n <= s.len(),
        forall|i: int| 0 <= i < n ==> spec_is_space(kind, #[trigger] s[i]),
        n < s.len() ==> !spec_is_space(kind, s[n]),
    ensures
        trim_start(kind, s) == s.skip(n),
    decreases s.len(),
{
    if n > 0 {
        assert(spec_is_space(kind, s[0]));
        assert forall|i: int| 0 <= i < n - 1 implies spec_is_space(
            kind,
            #[trigger] s.drop_first()[i],
        ) by {
            assert(s.drop_first()[i] == s[i + 1]);
        }
        lemma_trim_start_of_suffix(kind, s.drop_first(), n - 1);
        assert(s.drop_first().skip(n - 1) =~= s.skip(n));
    } else {
        assert(s.skip(0) =~= s);
    }
}

/// The characters of a string slice, in order.
pub fn chars_of(s: &str) -> (v: Vec<char>)
    ensures
        v@ == s@,
{
    let mut v: Vec<char> = Vec::new();
    for c in it: s.chars()
        invariant
            v@ == it.seq().take(it.index() as int),
    {
        v.push(c);
    }
    v
}

/// A string holding exactly these characters.
pub fn string_of(v: &[char]) -> (s: String)
    ensures
        s@ == v@,
{
    let mut s = String::new();
    let mut i: usize = 0;
    while i < v.len()
        invariant
            i <= v@.len(),
            s@ == v@.take(i as int),
        decreases v@.len() - i,
    {
        s.push(v[i]);
        i = i + 1;
        assert(s@ =~= v@.take(i as int));
    }
    assert(v@.take(v@.len() as int) =~= v@);
    s
}

/// Append characters to a vector.
pub fn extend(out: &mut Vec<char>, more: &[char])
    ensures
        final(out)@ == old(out)@ + more@,
{
    let mut i: usize = 0;
    while i < more.len()
        invariant
            i <= more@.len(),
            out@ == old(out)@ + more@.take(i as int),
        decreases more@.len() - i,
    {
        out.push(more[i]);
        i = i + 1;
        assert(out@ =~= old(out)@ + more@.take(i as int));
    }
    assert(more@.take(more@.len() as int) =~= more@);
}

/// Append the characters of a string slice to a vector.
pub fn extend_str(out: &mut Vec<char>, more: &str)
    ensures
        final(out)@ == old(out)@ + more@,
{
    let cs = chars_of(more);
    extend(out, cs.as_slice());
}

/// Are two character sequences equal?
pub fn chars_eq(a: &[char], b: &[char]) -> (r: bool)
    ensures
        r == (a@ == b@),
{
    if a.len() != b.len() {
        return false;
    }
    let mut i: usize = 0;
    while i < a.len()
        invariant
            a@.len() == b@.len(),
            i <= a@.len(),
            a@.take(i as int) == b@.take(i as int),
        decreases a@.len() - i,
    {
        if a[i] != b[i] {
            assert(a@[i as int] != b@[i as int]);
            return false;
        }
        assert(a@.take(i + 1) =~= a@.take(i as int).push(a@[i as int]));
        assert(b@.take(i + 1) =~= b@.take(i as int).push(b@[i as int]));
        i = i + 1;
    }
    assert(a@.take(a@.len() as int) =~= a@);
    assert(b@.take(b@.len() as int) =~= b@);
    true
}

/// Are two string slices equal?
pub fn str_eq(a: &str, b: &str) -> (r: bool)
    ensures
        r == (a@ == b@),
{
    let ca = chars_of(a);
    let cb = chars_of(b);
    chars_eq(ca.as_slice(), cb.as_slice())
}

/// `s[lo..hi]` as a fresh vector.
pub fn slice_chars(s: &[char], lo: usize, hi: usize) -> (v: Vec<char>)
    requires
        lo <= hi <= s@.len(),
    ensures
        v@ == s@.subrange(lo as int, hi as int),
{
    let mut v: Vec<char> = Vec::new();
    let mut i = lo;
    while i < hi
        invariant
            lo <= i <= hi,
            hi <= s@.len(),
            v@ == s@.subrange(lo as int, i as int),
        decreases hi - i,
    {
        v.push(s[i]);
        i = i + 1;
        assert(v@ =~= s@.subrange(lo as int, i as int));
    }
    v
}

/// Index just past the last character that is not white space.
pub fn trim_end_len(kind: Space, s: &[char]) -> (n: usize)
    ensures
        n <= s@.len(),
        n as int == trim_end(kind, s@).len(),
        trim_end(kind, s@) == s@.take(n as int),
{
    let mut n = s.len();
    while n > 0 && is_space(kind, s[n - 1])
        invariant
            n <= s@.len(),
            forall|i: int| n <= i < s@.len() ==> spec_is_space(kind, #[trigger] s@[i]),
        decreases n,
    {
        n = n - 1;
    }
    proof {
        lemma_trim_end_of_prefix(kind, s@, n as int);
    }
    n
}

/// Index of the first character that is not white space.
pub fn trim_start_len(kind: Space, s: &[char]) -> (n: usize)
    ensures
        n <= s@.len(),
        trim_start(kind, s@) == s@.skip(n as int),
{
    let mut n: usize = 0;
    while n < s.len() && is_space(kind, s[n])
        invariant
            n <= s@.len(),
            forall|i: int| 0 <= i < n ==> spec_is_space(kind, #[trigger] s@[i]),
        decreases s@.len() - n,
    {
        n = n + 1;
    }
    proof {
        lemma_trim_start_of_suffix(kind, s@, n as int);
    }
    n
}

/// `s` with trailing white space removed.
pub fn trim_end_chars(kind: Space, s: &[char]) -> (v: Vec<char>)
    ensures
        v@ == trim_end(kind, s@),
{
    let n = trim_end_len(kind, s);
    slice_chars(s, 0, n)
}

/// `s` with leading and trailing white space removed.
pub fn trim_chars(kind: Space, s: &[char]) -> (v: Vec<char>)
    ensures
        v@ == trim(kind, s@),
{
    let e = trim_end_chars(kind, s);
    let n = trim_start_len(kind, e.as_slice());
    slice_chars(e.as_slice(), n, e.len())
}

/// Position of the first `c` in `s`.
pub open spec fn first_index(s: Seq<char>, c: char) -> Option<int>
    decreases s.len(),
{
    if s.len() == 0 {
        None
    } else if s[0] == c {
        Some(0)
    } else {
        match first_index(s.drop_first(), c) {
            Some(i) => Some(i + 1),
            None => None,
        }
    }
}

/// What `first_index` finds: the position of the first occurrence, or that there is none.
pub proof fn lemma_first_index(s: Seq<char>, c: char)
    ensures
        match first_index(s, c) {
            Some(i) => 0 <= i < s.len() && s[i] == c && forall|j: int| 0 <= j < i ==> s[j] != c,
            None => forall|j: int| 0 <= j < s.len() ==> s[j] != c,
        },
    decreases s.len(),
{
    if s.len() > 0 && s[0] != c {
        lemma_first_index(s.drop_first(), c);
        match first_index(s.drop_first(), c) {
            Some(i) => {
                assert forall|j: int| 0 <= j < i + 1 implies s[j] != c by {
                    if j > 0 {
                        assert(s[j] == s.drop_first()[j - 1]);
                    }
                }
            },
            None => {
                assert forall|j: int| 0 <= j < s.len() implies s[j] != c by {
                    if j > 0 {
                        assert(s[j] == s.drop_first()[j - 1]);
                    }
                }
            },
        }
    }
}

/// The position characterised by `lemma_first_index` is the one `first_index` names.
pub proof fn lemma_first_index_unique(s: Seq<char>, c: char, i: int)
    requires
        0 <= i < s.len(),
        s[i] == c,
        forall|j: int| 0 <= j < i ==> s[j] != c,
    ensures
        first_index(s, c) == Some(i),
{
    lemma_first_index(s, c);
}

/// `first_index` finds nothing when there is nothing to find.
pub proof fn lemma_first_index_none(s: Seq<char>, c: char)
    requires
        forall|j: int| 0 <= j < s.len() ==> s[j] != c,
    ensures
        first_index(s, c) is None,
{
    lemma_first_index(s, c);
}

/// Position of the first `c` in `s`, if any.
pub fn find_char(s: &[char], c: char) -> (r: Option<usize>)
    ensures
        match r {
            Some(i) => first_index(s@, c) == Some(i as int),
            None => first_index(s@, c) is None,
        },
{
    let mut i: usize = 0;
    while i < s.len()
        invariant
            i <= s@.len(),
            forall|j: int| 0 <= j < i ==> s@[j] != c,
        decreases s@.len() - i,
    {
        if s[i] == c {
            proof {
                lemma_first_index_unique(s@, c, i as int);
            }
            return Some(i);
        }
        i = i + 1;
    }
    proof {
        lemma_first_index_none(s@, c);
    }
    None
}

/// Pieces of `s` between occurrences of `sep`, as `str::split` yields them: an empty input
/// is one empty piece, and a trailing separator leaves an empty last piece.
pub open spec fn split_from(s: Seq<char>, sep: char, cur: Seq<char>) -> Seq<Seq<char>>
    decreases s.len(),
{
    if s.len() == 0 {
        seq![cur]
    } else if s[0] == sep {
        seq![cur] + split_from(s.drop_first(), sep, seq![])
    } else {
        split_from(s.drop_first(), sep, cur.push(s[0]))
    }
}

pub open spec fn split(s: Seq<char>, sep: char) -> Seq<Seq<char>> {
    split_from(s, sep, seq![])
}

/// Splitting never yields nothing.
pub proof fn lemma_split_from_nonempty(s: Seq<char>, sep: char, cur: Seq<char>)
    ensures
        split_from(s, sep, cur).len() >= 1,
    decreases s.len(),
{
    if s.len() > 0 {
        if s[0] == sep {
            lemma_split_from_nonempty(s.drop_first(), sep, seq![]);
        } else {
            lemma_split_from_nonempty(s.drop_first(), sep, cur.push(s[0]));
        }
    }
}

/// Splitting the rest of `s` from position `i`: one step of the walk.
pub proof fn lemma_split_step(s: Seq<char>, sep: char, cur: Seq<char>, i: int)
    requires
        0 <= i < s.len(),
    ensures
        split_from(s.skip(i), sep, cur) == (if s[i] == sep {
            seq![cur] + split_from(s.skip(i + 1), sep, seq![])
        } else {
            split_from(s.skip(i + 1), sep, cur.push(s[i]))
        }),
{
    assert(s.skip(i).drop_first() =~= s.skip(i + 1));
}

/// `split(s, sep)` as vectors of characters.
pub fn split_chars(s: &[char], sep: char) -> (v: Vec<Vec<char>>)
    ensures
        v.deep_view() == split(s@, sep),
{
    let mut out: Vec<Vec<char>> = Vec::new();
    let mut cur: Vec<char> = Vec::new();
    let mut i: usize = 0;
    assert(s@.skip(0) =~= s@);
    while i < s.len()
        invariant
            i <= s@.len(),
            split(s@, sep) == out.deep_view() + split_from(s@.skip(i as int), sep, cur@),
        decreases s@.len() - i,
    {
        proof {
            lemma_split_step(s@, sep, cur@, i as int);
        }
        if s[i] == sep {
            let ghost before = out.deep_view();
            let ghost piece = cur@;
            assert(cur.deep_view() =~= cur@);
            out.push(cur);
            cur = Vec::new();
            assert(out.deep_view() =~= before.push(piece));
            assert(out.deep_view() + split_from(s@.skip(i + 1), sep, cur@) =~= before + (seq![
                piece,
            ] + split_from(s@.skip(i + 1), sep, seq![])));
        } else {
            cur.push(s[i]);
        }
        i = i + 1;
    }
    let ghost before = out.deep_view();
    let ghost piece = cur@;
    assert(cur.deep_view() =~= cur@);
    out.push(cur);
    assert(out.deep_view() =~= before.push(piece));
    assert(s@.skip(s@.len() as int) =~= Seq::<char>::empty());
    assert(split_from(s@.skip(s@.len() as int), sep, piece) == seq![piece]);
    assert(out.deep_view() =~= before + seq![piece]);
    out
}

/// The hexadecimal digit for `d` (below 16), lower or upper case.
pub open spec fn hex_digit(d: u32, upper: bool) -> char {
    if d < 10 {
        ((d + 48) as u8) as char
    } else if upper {
        ((d + 55) as u8) as char
    } else {
        ((d + 87) as u8) as char
    }
}

pub fn hex_digit_of(d: u32, upper: bool) -> (c: char)
    requires
        d < 16,
    ensures
        c == hex_digit(d, upper),
{
    if d < 10 {
        ((d + 48) as u8) as char
    } else if upper {
        ((d + 55) as u8) as char
    } else {
        ((d + 87) as u8) as char
    }
}

/// Does `s` begin with `p`?
pub open spec fn starts_with(s: Seq<char>, p: Seq<char>) -> bool {
    p.len() <= s.len() && s.take(p.len() as int) == p
}

pub fn has_prefix(s: &[char], p: &[char]) -> (b: bool)
    ensures
        b == starts_with(s@, p@),
{
    if p.len() > s.len() {
        return false;
    }
    let head = slice_chars(s, 0, p.len());
    assert(head@ =~= s@.take(p@.len() as int));
    chars_eq(head.as_slice(), p)
}

/// Pieces joined by a separator.
pub open spec fn join(pieces: Seq<Seq<char>>, sep: Seq<char>) -> Seq<char>
    decreases pieces.len(),
{
    if pieces.len() == 0 {
        seq![]
    } else if pieces.len() == 1 {
        pieces[0]
    } else {
        join(pieces.drop_last(), sep) + sep + pieces.last()
    }
}

pub fn join_chars(pieces: &Vec<Vec<char>>, sep: &str) -> (r: Vec<char>)
    ensures
        r@ == join(pieces.deep_view(), sep@),
{
    let mut out: Vec<char> = Vec::new();
    let ghost all = pieces.deep_view();
    let mut i: usize = 0;
    while i < pieces.len()
        invariant
            i <= pieces@.len(),
            all == pieces.deep_view(),
            out@ == join(all.take(i as int), sep@),
        decreases pieces@.len() - i,
    {
        if i > 0 {
            extend_str(&mut out, sep);
        }
        extend(&mut out, pieces[i].as_slice());
        assert(pieces@[i as int]@ == all[i as int]);
        assert(all.take(i + 1).drop_last() =~= all.take(i as int));
        assert(all.take(i + 1).last() == all[i as int]);
        if i == 0 {
            assert(all.take(1) =~= seq![all[0]]);
            assert(out@ =~= all[0]);
        }
        i = i + 1;
    }
    assert(all.take(pieces@.len() as int) =~= all);
    out
}

/// Decimal digits of a natural number.
pub open spec fn decimal(n: nat) -> Seq<char>
    decreases n,
{
    if n < 10 {
        seq![hex_digit(n as u32, false)]
    } else {
        decimal(n / 10) + seq![hex_digit((n % 10) as u32, false)]
    }
}

pub fn decimal_of(n: usize) -> (r: Vec<char>)
    ensures
        r@ == decimal(n as nat),
    decreases n,
{
    if n < 10 {
        let mut v: Vec<char> = Vec::new();
        v.push(hex_digit_of(n as u32, false));
        v
    } else {
        let mut v = decimal_of(n / 10);
        v.push(hex_digit_of((n % 10) as u32, false));
        v
    }
}

/// Each piece as a `String`.
pub fn strings_of(pieces: &Vec<Vec<char>>) -> (r: Vec<String>)
    ensures
        r.deep_view() == pieces.deep_view(),
{
    let mut out: Vec<String> = Vec::new();
    let mut i: usize = 0;
    while i < pieces.len()
        invariant
            i <= pieces@.len(),
            out.deep_view() == pieces.deep_view().take(i as int),
        decreases pieces@.len() - i,
    {
        let ghost before = out.deep_view();
        assert(pieces@[i as int].deep_view() =~= pieces@[i as int]@);
        let s = string_of(pieces[i].as_slice());
        out.push(s);
        assert(out.deep_view() =~= before.push(pieces@[i as int]@));
        assert(pieces.deep_view().take(i + 1) =~= pieces.deep_view().take(i as int).push(
            pieces@[i as int]@,
        ));
        i = i + 1;
    }
    assert(pieces.deep_view().take(pieces@.len() as int) =~= pieces.deep_view());
    out
}

/// Each string as a vector of characters.
pub fn chars_of_all(strings: &[String]) -> (r: Vec<Vec<char>>)
    ensures
        r.deep_view() == strings@.map_values(|s: String| s@),
{
    let ghost want = strings@.map_values(|s: String| s@);
    let mut out: Vec<Vec<char>> = Vec::new();
    let mut i: usize = 0;
    while i < strings.len()
        invariant
            i <= strings@.len(),
            want == strings@.map_values(|s: String| s@),
            out.deep_view() == want.take(i as int),
        decreases strings@.len() - i,
    {
        let ghost before = out.deep_view();
        let c = chars_of(strings[i].as_str());
        assert(c.deep_view() =~= c@);
        out.push(c);
        assert(out.deep_view() =~= before.push(want[i as int]));
        assert(want.take(i + 1) =~= want.take(i as int).push(want[i as int]));
        i = i + 1;
    }
    assert(want.take(strings@.len() as int) =~= want);
    out
}

/// `split(s, sep)` as strings.
pub fn split_strings(s: &str, sep: char) -> (r: Vec<String>)
    ensures
        r.deep_view() == split(s@, sep),
{
    let cs = chars_of(s);
    let pieces = split_chars(cs.as_slice(), sep);
    strings_of(&pieces)
}

/// What `str::to_lowercase` makes of a string: Unicode's lower-case mapping, character by
/// character, which can change the length.
pub uninterp spec fn lower_case(s: Seq<char>) -> Seq<char>;

/// `str::to_lowercase`. Only that the result is the lower-case mapping of the argument is
/// claimed; the mapping itself is Unicode's and is not written out here.
#[verifier::external_body]
pub(crate) fn to_lowercase(s: &str) -> (r: String)
    ensures
        r@ == lower_case(s@),
{
    s.to_lowercase()
}

} // verus!
