//! Path helpers: subrepo path normalization and the config's `exclude` globs.

use vstd::prelude::*;

use crate::report::{json_quote, json_quoted};
use crate::text::{chars_of, slice_chars, split, split_chars, string_of};

verus! {

/// `s` without leading `c`s.
pub open spec fn strip_leading(s: Seq<char>, c: char) -> Seq<char>
    decreases s.len(),
{
    if s.len() > 0 && s[0] == c {
        strip_leading(s.drop_first(), c)
    } else {
        s
    }
}

/// `s` without trailing `c`s.
pub open spec fn strip_trailing(s: Seq<char>, c: char) -> Seq<char>
    decreases s.len(),
{
    if s.len() > 0 && s.last() == c {
        strip_trailing(s.drop_last(), c)
    } else {
        s
    }
}

/// Repeatedly drop a leading `./` together with the slashes that follow it.
pub open spec fn strip_dot_slashes(s: Seq<char>) -> Seq<char>
    decreases s.len(),
{
    if s.len() >= 2 && s[0] == '.' && s[1] == '/' {
        proof {
            lemma_strip_leading_shorter(s.skip(2), '/');
        }
        strip_dot_slashes(strip_leading(s.skip(2), '/'))
    } else {
        s
    }
}

pub proof fn lemma_strip_leading_shorter(s: Seq<char>, c: char)
    ensures
        strip_leading(s, c).len() <= s.len(),
    decreases s.len(),
{
    if s.len() > 0 && s[0] == c {
        lemma_strip_leading_shorter(s.drop_first(), c);
    }
}

/// The path with outer slashes and leading `./` prefixes removed.
pub open spec fn cleaned_path(p: Seq<char>) -> Seq<char> {
    strip_dot_slashes(strip_trailing(strip_leading(p, '/'), '/'))
}

/// A `.` or `..` path segment.
pub open spec fn dot_segment(seg: Seq<char>) -> bool {
    seg == seq!['.'] || seg == seq!['.', '.']
}

/// What `normalize_subrepo_path` answers: the cleaned path, or why it is refused.
pub open spec fn normalized_path(p: Seq<char>) -> Result<Seq<char>, Seq<char>> {
    let cleaned = cleaned_path(p);
    if cleaned.len() == 0 || cleaned == seq!['.'] {
        Err("subrepo path may not be the repo root: "@ + json_quoted(p))
    } else if exists|k: int|
        0 <= k < split(cleaned, '/').len() && dot_segment(#[trigger] split(cleaned, '/')[k]) {
        Err("subrepo path may not contain '.' or '..' segments: "@ + json_quoted(p))
    } else {
        Ok(cleaned)
    }
}

fn leading_run(s: &[char], from: usize, c: char) -> (n: usize)
    requires
        from <= s@.len(),
    ensures
        from <= n <= s@.len(),
        strip_leading(s@.skip(from as int), c) == s@.skip(n as int),
{
    let mut n = from;
    while n < s.len() && s[n] == c
        invariant
            from <= n <= s@.len(),
            strip_leading(s@.skip(from as int), c) == strip_leading(s@.skip(n as int), c),
        decreases s@.len() - n,
    {
        assert(s@.skip(n as int).drop_first() =~= s@.skip(n + 1));
        n = n + 1;
    }
    if n < s.len() {
        assert(s@.skip(n as int)[0] == s@[n as int]);
    }
    n
}

fn strip_outer_slashes(p: &[char]) -> (v: Vec<char>)
    ensures
        v@ == strip_trailing(strip_leading(p@, '/'), '/'),
{
    assert(p@.skip(0) =~= p@);
    let lo = leading_run(p, 0, '/');
    let mut hi = p.len();
    let ghost lead = p@.skip(lo as int);
    assert(p@.subrange(lo as int, hi as int) =~= lead);
    while hi > lo && p[hi - 1] == '/'
        invariant
            lo <= hi <= p@.len(),
            lead == p@.skip(lo as int),
            strip_trailing(lead, '/') == strip_trailing(p@.subrange(lo as int, hi as int), '/'),
        decreases hi,
    {
        assert(p@.subrange(lo as int, hi as int).drop_last() =~= p@.subrange(
            lo as int,
            hi - 1,
        ));
        hi = hi - 1;
    }
    slice_chars(p, lo, hi)
}

/// Normalize a configured subrepo path: strip leading and trailing slashes and leading `./`
/// prefixes, and refuse the repo root and paths with `.` or `..` segments. The refusal
/// quotes the original input as JSON.
pub fn normalize_subrepo_path(p: &str) -> (r: Result<String, String>)
    ensures
        match r {
            Ok(v) => normalized_path(p@) == Ok::<Seq<char>, Seq<char>>(v@),
            Err(e) => normalized_path(p@) == Err::<Seq<char>, Seq<char>>(e@),
        },
{
    let pc = chars_of(p);
    let mut cleaned = strip_outer_slashes(pc.as_slice());
    let ghost target = cleaned_path(p@);
    assert(target == strip_dot_slashes(cleaned@));
    while cleaned.len() >= 2 && cleaned[0] == '.' && cleaned[1] == '/'
        invariant
            target == strip_dot_slashes(cleaned@),
        decreases cleaned@.len(),
    {
        let n = leading_run(cleaned.as_slice(), 2, '/');
        let rest = slice_chars(cleaned.as_slice(), n, cleaned.len());
        assert(rest@ =~= cleaned@.skip(n as int));
        cleaned = rest;
    }
    assert(cleaned@ == target);
    if cleaned.len() == 0 || (cleaned.len() == 1 && cleaned[0] == '.') {
        if cleaned.len() == 1 {
            assert(cleaned@ =~= seq!['.']);
        }
        let mut msg = String::new();
        msg.push_str("subrepo path may not be the repo root: ");
        msg.push_str(json_quote(p).as_str());
        return Err(msg);
    }
    assert(cleaned@ != seq!['.']) by {
        if cleaned@.len() == 1 {
            assert(cleaned@[0] != '.');
        }
    }
    let segments = split_chars(cleaned.as_slice(), '/');
    let mut k: usize = 0;
    while k < segments.len()
        invariant
            k <= segments@.len(),
            segments.deep_view() == split(target, '/'),
            target == cleaned_path(p@),
            target.len() > 0,
            target != seq!['.'],
            forall|m: int| 0 <= m < k ==> !dot_segment(#[trigger] split(target, '/')[m]),
        decreases segments@.len() - k,
    {
        let seg = &segments[k];
        assert(seg@ == split(target, '/')[k as int]);
        let is_dot = (seg.len() == 1 && seg[0] == '.') || (seg.len() == 2 && seg[0] == '.'
            && seg[1] == '.');
        assert(is_dot == dot_segment(seg@)) by {
            if seg@.len() == 1 && seg@[0] == '.' {
                assert(seg@ =~= seq!['.']);
            }
            if seg@.len() == 2 && seg@[0] == '.' && seg@[1] == '.' {
                assert(seg@ =~= seq!['.', '.']);
            }
        }
        if is_dot {
            let mut msg = String::new();
            msg.push_str("subrepo path may not contain '.' or '..' segments: ");
            msg.push_str(json_quote(p).as_str());
            return Err(msg);
        }
        k = k + 1;
    }
    assert(segments.deep_view().len() == segments@.len());
    assert(!(exists|m: int|
        0 <= m < split(target, '/').len() && dot_segment(#[trigger] split(target, '/')[m])));
    assert(pc@ == p@);
    let out = string_of(cleaned.as_slice());
    assert(normalized_path(p@) == Ok::<Seq<char>, Seq<char>>(target));
    Ok(out)
}


// ---------------------------------------------------------------------------------------
// Normalizing is idempotent.

proof fn lemma_strip_leading_head(s: Seq<char>, c: char)
    ensures
        strip_leading(s, c).len() == 0 || strip_leading(s, c)[0] != c,
        exists|k: int| 0 <= k <= s.len() && strip_leading(s, c) == s.skip(k),
    decreases s.len(),
{
    if s.len() > 0 && s[0] == c {
        lemma_strip_leading_head(s.drop_first(), c);
        let k = choose|k: int|
            0 <= k <= s.drop_first().len() && strip_leading(s.drop_first(), c)
                == s.drop_first().skip(k);
        assert(s.drop_first().skip(k) =~= s.skip(k + 1));
    } else {
        assert(s.skip(0) =~= s);
    }
}

proof fn lemma_strip_trailing_tail(s: Seq<char>, c: char)
    ensures
        strip_trailing(s, c).len() == 0 || strip_trailing(s, c).last() != c,
        exists|k: int| 0 <= k <= s.len() && strip_trailing(s, c) == s.take(k),
    decreases s.len(),
{
    if s.len() > 0 && s.last() == c {
        lemma_strip_trailing_tail(s.drop_last(), c);
        let k = choose|k: int|
            0 <= k <= s.drop_last().len() && strip_trailing(s.drop_last(), c)
                == s.drop_last().take(k);
        assert(s.drop_last().take(k) =~= s.take(k));
    } else {
        assert(s.take(s.len() as int) =~= s);
    }
}

proof fn lemma_strip_dot_slashes_shape(s: Seq<char>)
    ensures
        !(strip_dot_slashes(s).len() >= 2 && strip_dot_slashes(s)[0] == '.'
            && strip_dot_slashes(s)[1] == '/'),
        (s.len() == 0 || s[0] != '/') ==> (strip_dot_slashes(s).len() == 0
            || strip_dot_slashes(s)[0] != '/'),
        exists|k: int| 0 <= k <= s.len() && strip_dot_slashes(s) == s.skip(k),
    decreases s.len(),
{
    if s.len() >= 2 && s[0] == '.' && s[1] == '/' {
        let rest = strip_leading(s.skip(2), '/');
        lemma_strip_leading_head(s.skip(2), '/');
        lemma_strip_leading_shorter(s.skip(2), '/');
        lemma_strip_dot_slashes_shape(rest);
        let j = choose|j: int| 0 <= j <= s.skip(2).len() && rest == s.skip(2).skip(j);
        let k = choose|k: int| 0 <= k <= rest.len() && strip_dot_slashes(rest) == rest.skip(k);
        assert(s.skip(2).skip(j).skip(k) =~= s.skip(2 + j + k));
    } else {
        assert(s.skip(0) =~= s);
    }
}

proof fn lemma_cleaned_path_fixed(p: Seq<char>)
    ensures
        cleaned_path(cleaned_path(p)) == cleaned_path(p),
{
    let a = strip_leading(p, '/');
    let b = strip_trailing(a, '/');
    let q = strip_dot_slashes(b);
    lemma_strip_leading_head(p, '/');
    lemma_strip_trailing_tail(a, '/');
    let kb = choose|k: int| 0 <= k <= a.len() && b == a.take(k);
    assert(b.len() == 0 || b[0] == a[0]);
    lemma_strip_dot_slashes_shape(b);
    let kq = choose|k: int| 0 <= k <= b.len() && q == b.skip(k);
    if q.len() > 0 {
        assert(q.last() == b.last());
    }
    assert(strip_leading(q, '/') == q);
    assert(strip_trailing(q, '/') == q);
    assert(strip_dot_slashes(q) == q);
}

/// A normalized path is not empty and does not end in `/`.
pub proof fn lemma_normalized_path_shape(p: Seq<char>)
    requires
        normalized_path(p) is Ok,
    ensures
        normalized_path(p)->Ok_0.len() > 0,
        normalized_path(p)->Ok_0.last() != '/',
{
    let a = strip_leading(p, '/');
    let b = strip_trailing(a, '/');
    let q = strip_dot_slashes(b);
    lemma_strip_trailing_tail(a, '/');
    lemma_strip_dot_slashes_shape(b);
    let kq = choose|k: int| 0 <= k <= b.len() && q == b.skip(k);
    assert(q.last() == b.last());
}

/// Normalizing a normalized path changes nothing: what `normalize_subrepo_path` accepts,
/// it accepts again as it is.
pub proof fn lemma_normalized_path_is_a_fixed_point(p: Seq<char>)
    requires
        normalized_path(p) is Ok,
    ensures
        normalized_path(normalized_path(p)->Ok_0) == normalized_path(p),
{
    lemma_cleaned_path_fixed(p);
}

// ---------------------------------------------------------------------------------------
// The config's `exclude` globs.

#[verifier::external_type_specification]
#[verifier::external_body]
pub struct ExGlobSet(globset::GlobSet);

/// What compiling one pattern with `globset` (`*` kept inside one path component) reports:
/// nothing when it compiles, else the error's text.
pub uninterp spec fn glob_error(pattern: Seq<char>) -> Option<Seq<char>>;

/// Whether the `globset` set built from these patterns, in order, matches the path.
pub uninterp spec fn glob_set_match(patterns: Seq<Seq<char>>, path: Seq<char>) -> bool;

/// What `GlobSet::new` reports for the globs these patterns compile to (each with `*` kept
/// inside one path component), in order: nothing when the set builds, else the error's text.
pub uninterp spec fn glob_set_error(patterns: Seq<Seq<char>>) -> Option<Seq<char>>;

/// `GlobBuilder::new(p).literal_separator(true).build()`. The contract names the outcome:
/// whether the pattern compiles, and the error's text when it does not. The compiled glob
/// itself is dropped; `glob_set_of` compiles the patterns again into the set.
#[verifier::external_body]
fn compile_glob(pattern: &str) -> (r: Result<(), String>)
    ensures
        match r {
            Ok(_) => glob_error(pattern@) is None,
            Err(e) => glob_error(pattern@) == Some(e@),
        },
{
    match globset::GlobBuilder::new(pattern).literal_separator(true).build() {
        Ok(_) => Ok(()),
        Err(e) => Err(e.to_string()),
    }
}

/// Each pattern compiled with `GlobBuilder::new(p).literal_separator(true).build()`, then
/// `GlobSet::new` over the globs, in order. Every pattern compiles (`requires`); the contract
/// names whether the set builds and the error's text when it does not.
#[verifier::external_body]
fn glob_set_of(patterns: &[String]) -> (r: Result<globset::GlobSet, String>)
    requires
        forall|i: int| 0 <= i < patterns@.len() ==> glob_error(#[trigger] patterns@[i]@) is None,
    ensures
        match r {
            Ok(_) => glob_set_error(patterns@.map_values(|p: String| p@)) is None,
            Err(e) => glob_set_error(patterns@.map_values(|p: String| p@)) == Some(e@),
        },
{
    let mut globs = Vec::new();
    for p in patterns {
        match globset::GlobBuilder::new(p).literal_separator(true).build() {
            Ok(g) => globs.push(g),
            Err(e) => return Err(e.to_string()),
        }
    }
    globset::GlobSet::new(globs).map_err(|e| e.to_string())
}

/// Matcher for the config's `exclude` globs. Paths are relative to the subrepo root (no
/// leading slash). Wildcards match dotfiles too, what users expect from `.gitignore`-shaped
/// globs.
pub struct Excluder {
    patterns: Vec<String>,
    /// `None` exactly when no patterns were configured: matches nothing at all.
    set: Option<globset::GlobSet>,
}

impl View for Excluder {
    type V = Seq<Seq<char>>;

    /// The patterns the matcher was built from.
    closed spec fn view(&self) -> Seq<Seq<char>> {
        self.patterns.deep_view()
    }
}

impl Excluder {
    #[verifier::type_invariant]
    closed spec fn built_iff_patterns(self) -> bool {
        self.set is Some <==> self.patterns@.len() > 0
    }

    /// `GlobSet::is_match` on the set this matcher was built with, which `make_excluder`
    /// compiled from exactly `self@`, in order.
    #[verifier::external_body]
    fn set_matches(&self, rel_path: &str) -> (r: bool)
        requires
            self@.len() > 0,
        ensures
            r == glob_set_match(self@, rel_path@),
    {
        match &self.set {
            Some(set) => set.is_match(rel_path),
            None => false,
        }
    }

    /// Does any exclude pattern match this path?
    pub fn matches(&self, rel_path: &str) -> (r: bool)
        ensures
            r == (self@.len() > 0 && glob_set_match(self@, rel_path@)),
    {
        proof {
            use_type_invariant(self);
        }
        if self.patterns.len() == 0 {
            false
        } else {
            self.set_matches(rel_path)
        }
    }
}

/// The first pattern (from `i` on) that does not compile, with the message naming it.
pub open spec fn first_glob_error(patterns: Seq<Seq<char>>, i: int) -> Option<Seq<char>>
    decreases patterns.len() - i,
{
    if i < 0 || i >= patterns.len() {
        None
    } else {
        match glob_error(patterns[i]) {
            Some(e) => Some("invalid exclude pattern "@ + json_quoted(patterns[i]) + ": "@ + e),
            None => first_glob_error(patterns, i + 1),
        }
    }
}

/// Build a matcher for the config's `exclude` globs: `*` stays inside one path component,
/// `**` spans components. A pattern that does not compile is named in the error; with none
/// configured the matcher matches nothing.
pub fn make_excluder(patterns: &[String]) -> (r: Result<Excluder, String>)
    ensures
        patterns@.len() == 0 ==> (r matches Ok(e) && e@ == Seq::<Seq<char>>::empty()),
        first_glob_error(patterns@.map_values(|p: String| p@), 0) matches Some(m) ==> (r
            matches Err(e) && e@ == m),
        patterns@.len() > 0 && first_glob_error(patterns@.map_values(|p: String| p@), 0) is None
            ==> match glob_set_error(patterns@.map_values(|p: String| p@)) {
            None => r matches Ok(e) && e@ == patterns@.map_values(|p: String| p@),
            Some(d) => r matches Err(e) && e@ == "invalid exclude patterns: "@ + d,
        },
{
    let ghost pv = patterns@.map_values(|p: String| p@);
    if patterns.len() == 0 {
        let e = Excluder { patterns: Vec::new(), set: None };
        assert(e@ =~= Seq::<Seq<char>>::empty());
        return Ok(e);
    }
    let mut kept: Vec<String> = Vec::new();
    let mut i: usize = 0;
    while i < patterns.len()
        invariant
            i <= patterns@.len(),
            pv == patterns@.map_values(|p: String| p@),
            first_glob_error(pv, 0) == first_glob_error(pv, i as int),
            kept.deep_view() == pv.take(i as int),
            forall|j: int| 0 <= j < i ==> glob_error(#[trigger] pv[j]) is None,
        decreases patterns@.len() - i,
    {
        let p = &patterns[i];
        assert(pv[i as int] == p@);
        match compile_glob(p.as_str()) {
            Ok(()) => {
                let ghost before = kept.deep_view();
                kept.push(p.clone());
                assert(kept.deep_view() =~= before.push(pv[i as int]));
                assert(pv.take(i + 1) =~= pv.take(i as int).push(pv[i as int]));
            },
            Err(e) => {
                let mut m = String::new();
                m.push_str("invalid exclude pattern ");
                m.push_str(json_quote(p.as_str()).as_str());
                m.push_str(": ");
                m.push_str(e.as_str());
                return Err(m);
            },
        }
        i = i + 1;
    }
    assert(pv.take(patterns@.len() as int) =~= pv);
    assert forall|j: int| 0 <= j < patterns@.len() implies glob_error(#[trigger] patterns@[j]@)
        is None by {
        assert(pv[j] == patterns@[j]@);
    }
    match glob_set_of(patterns) {
        Ok(set) => Ok(Excluder { patterns: kept, set: Some(set) }),
        Err(e) => {
            let mut m = String::new();
            m.push_str("invalid exclude patterns: ");
            m.push_str(e.as_str());
            assert(m@ == "invalid exclude patterns: "@ + e@);
            Err(m)
        },
    }
}

} // verus!
