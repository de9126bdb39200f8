//! `monosplice.toml`: the subrepos it configures, and the refusals that keep a broken
//! config from being acted on.

use vstd::prelude::*;

use crate::paths::{
    lemma_normalized_path_is_a_fixed_point, lemma_normalized_path_shape, normalize_subrepo_path,
    normalized_path,
};
use crate::report::{json_quote, json_quoted};
use crate::vendor::{string_entry, toml_quoted};
use crate::text::{
    chars_of, decimal, decimal_of, extend, extend_str, join, join_chars, split, split_chars,
    first_index, split_from, string_of, trim_end, trim_end_chars, Space,
};

verus! {

pub const CONFIG_FILENAME: &'static str = "monosplice.toml";

/// Config files from the JavaScript era. Finding one of these with no `monosplice.toml`
/// beside it is a repo that has not been migrated yet.
pub const LEGACY_CONFIG_FILENAMES: [&'static str; 5] = [
    "monosplice.config.ts",
    "monosplice.config.mts",
    "monosplice.config.js",
    "monosplice.config.mjs",
    "monosplice.config.cjs",
];

/// A subrepo with every default filled in.
#[derive(Debug, Clone)]
pub struct ResolvedSubrepo {
    pub name: String,
    pub path: String,
    pub remote: String,
    pub upstream: Option<String>,
    pub branch: String,
    /// Equals `branch` unless the config says otherwise; only meaningful with `upstream`.
    pub push_branch: String,
    pub exclude: Vec<String>,
    /// Shell commands run per exported commit.
    pub rewrite_message: Option<String>,
    pub transform: Option<String>,
    pub scan: Option<String>,
}

/// A subrepo as text.
pub struct SubrepoView {
    pub name: Seq<char>,
    pub path: Seq<char>,
    pub remote: Seq<char>,
    pub upstream: Option<Seq<char>>,
    pub branch: Seq<char>,
    pub push_branch: Seq<char>,
    pub exclude: Seq<Seq<char>>,
    pub rewrite_message: Option<Seq<char>>,
    pub transform: Option<Seq<char>>,
    pub scan: Option<Seq<char>>,
}

impl View for ResolvedSubrepo {
    type V = SubrepoView;

    open spec fn view(&self) -> SubrepoView {
        SubrepoView {
            name: self.name@,
            path: self.path@,
            remote: self.remote@,
            upstream: self.upstream.deep_view(),
            branch: self.branch@,
            push_branch: self.push_branch@,
            exclude: self.exclude.deep_view(),
            rewrite_message: self.rewrite_message.deep_view(),
            transform: self.transform.deep_view(),
            scan: self.scan.deep_view(),
        }
    }
}

/// The project: where the config lives and what it configures.
#[derive(Debug)]
pub struct Project {
    /// Directory containing monosplice.toml (the monorepo root).
    pub root: String,
    pub config_path: String,
    pub subrepos: Vec<ResolvedSubrepo>,
}

/// The subrepos of a project, as text.
pub open spec fn subrepo_views(subrepos: Seq<ResolvedSubrepo>) -> Seq<SubrepoView> {
    subrepos.map_values(|s: ResolvedSubrepo| s@)
}

/// A config monosplice will not act on. The message is the whole user-facing text.
#[derive(Debug)]
pub struct ConfigError(pub String);

/// `Invalid config at <path>:\n<detail>`.
pub open spec fn config_error_text(config_path: Seq<char>, detail: Seq<char>) -> Seq<char> {
    "Invalid config at "@ + config_path + ":\n"@ + detail
}

impl ConfigError {
    /// `Invalid config at <path>:\n<detail>`; the detail carries its own indentation.
    pub fn at(config_path: &str, detail: &str) -> (e: ConfigError)
        ensures
            e.0@ == config_error_text(config_path@, detail@),
    {
        let mut s = String::new();
        s.push_str("Invalid config at ");
        s.push_str(config_path);
        s.push_str(":\n");
        s.push_str(detail);
        ConfigError(s)
    }

    /// A directory holds a JavaScript-era config and no `monosplice.toml`: not "no config",
    /// but a repo that has not been migrated, which every command must stop at.
    pub fn legacy(legacy_file: &str, dir: &str) -> (e: ConfigError)
        ensures
            e.0@ == "Found "@ + legacy_file@ + " but no "@ + CONFIG_FILENAME@
                + " beside it.\nmonosplice is now configured by "@ + CONFIG_FILENAME@
                + ", not by JavaScript or TypeScript config files. Nothing was changed. Translate that file into a "@
                + CONFIG_FILENAME@ + " in "@ + dir@
                + " — the migration section of docs/reference.md shows the key-by-key equivalent — then run the command again."@,
    {
        let mut s = String::new();
        s.push_str("Found ");
        s.push_str(legacy_file);
        s.push_str(" but no ");
        s.push_str(CONFIG_FILENAME);
        s.push_str(" beside it.\nmonosplice is now configured by ");
        s.push_str(CONFIG_FILENAME);
        s.push_str(
            ", not by JavaScript or TypeScript config files. Nothing was changed. Translate that file into a ",
        );
        s.push_str(CONFIG_FILENAME);
        s.push_str(" in ");
        s.push_str(dir);
        s.push_str(
            " — the migration section of docs/reference.md shows the key-by-key equivalent — then run the command again.",
        );
        ConfigError(s)
    }

    /// The config file exists but could not be read.
    pub fn unreadable(config_path: &str, err: &str) -> (e: ConfigError)
        ensures
            e.0@ == config_error_text(config_path@, "  failed to read: "@ + err@),
    {
        let mut d = String::new();
        d.push_str("  failed to read: ");
        d.push_str(err);
        ConfigError::at(config_path, d.as_str())
    }
}

/// Last segment of a `/`-separated path.
pub open spec fn basename_of(path: Seq<char>) -> Seq<char> {
    split(path, '/').last()
}

pub fn basename(path: &str) -> (r: String)
    ensures
        r@ == basename_of(path@),
{
    let cs = crate::text::chars_of(path);
    let pieces = crate::text::split_chars(cs.as_slice(), '/');
    proof {
        crate::text::lemma_split_from_nonempty(cs@, '/', seq![]);
    }
    let last = pieces.len() - 1;
    assert(pieces@[last as int]@ == pieces.deep_view().last());
    string_of(pieces[last].as_slice())
}

// ---------------------------------------------------------------------------------------
// The TOML document, as plain data.

/// A TOML value. Scalars other than strings are carried as their text, for messages.
#[derive(Debug)]
pub enum TomlValue {
    Str(String),
    Integer(String),
    Float(String),
    Boolean(bool),
    Datetime(String),
    Array(Vec<TomlValue>),
    Table(Vec<(String, TomlValue)>),
}

#[verifier::external_type_specification]
#[verifier::external_body]
pub struct ExTomlValue(toml::Value);

/// What `toml` parses a document into (its top-level table, key by key), or its error text.
pub uninterp spec fn toml_table(text: Seq<char>) -> Result<Vec<(String, TomlValue)>, String>;

/// One `toml::Value` as plain data, variant for variant.
#[verifier::external_body]
fn toml_value_of(v: toml::Value) -> TomlValue {
    match v {
        toml::Value::String(s) => TomlValue::Str(s),
        toml::Value::Integer(i) => TomlValue::Integer(i.to_string()),
        toml::Value::Float(f) => TomlValue::Float(f.to_string()),
        toml::Value::Boolean(b) => TomlValue::Boolean(b),
        toml::Value::Datetime(d) => TomlValue::Datetime(d.to_string()),
        toml::Value::Array(a) => TomlValue::Array(a.into_iter().map(toml_value_of).collect()),
        toml::Value::Table(t) => TomlValue::Table(t.into_iter().map(|(k, v)| (k, toml_value_of(v))).collect()),
    }
}

/// Parse a TOML document with the `toml` crate (`str::parse::<toml::Table>`). The contract
/// names the result: its entries in the table's order, or the parser's error message. It also
/// states one fact of the parser: a one-line document `v = "…"` whose basic string escapes
/// the quote, the backslash and the control characters (as `toml_quoted` does) parses, and
/// `v` holds the text that was quoted.
#[verifier::external_body]
pub(crate) fn parse_toml_table(text: &str) -> (r: Result<Vec<(String, TomlValue)>, String>)
    ensures
        r == toml_table(text@),
        forall|x: Seq<char>|
            #![trigger toml_quoted(x)]
            text@ == "v = "@ + toml_quoted(x) ==> (r is Ok && string_entry(r->Ok_0@, "v"@) == Some(
                x,
            )),
{
    match text.parse::<toml::Table>() {
        Ok(table) => Ok(table.into_iter().map(|(k, v)| (k, toml_value_of(v))).collect()),
        Err(err) => Err(err.to_string()),
    }
}

// ---------------------------------------------------------------------------------------
// The schema: which keys a config may hold, and what their values must be.

/// A `[[subrepos]]` table as written, nothing defaulted yet.
#[derive(Debug)]
pub struct RawSubrepo {
    pub name: Option<String>,
    pub path: Option<String>,
    pub remote: Option<String>,
    pub upstream: Option<String>,
    pub branch: Option<String>,
    pub push_branch: Option<String>,
    pub exclude: Option<Vec<String>>,
    pub rewrite_message: Option<String>,
    pub transform: Option<String>,
    pub scan: Option<String>,
}

pub struct RawView {
    pub name: Option<Seq<char>>,
    pub path: Option<Seq<char>>,
    pub remote: Option<Seq<char>>,
    pub upstream: Option<Seq<char>>,
    pub branch: Option<Seq<char>>,
    pub push_branch: Option<Seq<char>>,
    pub exclude: Option<Seq<Seq<char>>>,
    pub rewrite_message: Option<Seq<char>>,
    pub transform: Option<Seq<char>>,
    pub scan: Option<Seq<char>>,
}

impl View for RawSubrepo {
    type V = RawView;

    open spec fn view(&self) -> RawView {
        RawView {
            name: self.name.deep_view(),
            path: self.path.deep_view(),
            remote: self.remote.deep_view(),
            upstream: self.upstream.deep_view(),
            branch: self.branch.deep_view(),
            push_branch: self.push_branch.deep_view(),
            exclude: self.exclude.deep_view(),
            rewrite_message: self.rewrite_message.deep_view(),
            transform: self.transform.deep_view(),
            scan: self.scan.deep_view(),
        }
    }
}

pub open spec fn empty_raw() -> RawView {
    RawView {
        name: None,
        path: None,
        remote: None,
        upstream: None,
        branch: None,
        push_branch: None,
        exclude: None,
        rewrite_message: None,
        transform: None,
        scan: None,
    }
}

/// What `{:?}` writes for a string: Rust's `Debug` quoting, which escapes the quote, the
/// backslash and the characters it does not print as they are.
pub uninterp spec fn debug_quoted(s: Seq<char>) -> Seq<char>;

/// `format!("{:?}", s)` on a string slice. The contract names the result.
#[verifier::external_body]
fn debug_quote(s: &str) -> (r: String)
    ensures
        r@ == debug_quoted(s@),
{
    format!("{:?}", s)
}

/// A float's text as serde shows it: a finite number always carries a decimal point.
pub open spec fn float_text(t: Seq<char>) -> Seq<char> {
    if first_index(t, '.') is Some || t == "inf"@ || t == "-inf"@ || t == "NaN"@ {
        t
    } else {
        t + ".0"@
    }
}

/// How a value reads in a type error, the way serde words it. A datetime reaches serde as
/// a map.
pub open spec fn unexpected(v: TomlValue) -> Seq<char> {
    match v {
        TomlValue::Str(s) => "string "@ + debug_quoted(s@),
        TomlValue::Integer(t) => "integer `"@ + t@ + "`"@,
        TomlValue::Float(t) => "floating point `"@ + float_text(t@) + "`"@,
        TomlValue::Boolean(b) => if b {
            "boolean `true`"@
        } else {
            "boolean `false`"@
        },
        TomlValue::Datetime(_) => "map"@,
        TomlValue::Array(_) => "sequence"@,
        TomlValue::Table(_) => "map"@,
    }
}

pub open spec fn invalid_type(v: TomlValue, expected: Seq<char>) -> Seq<char> {
    "invalid type: "@ + unexpected(v) + ", expected "@ + expected
}

pub const SUBREPO_FIELDS: &'static str = "`name`, `path`, `remote`, `upstream`, `branch`, `push-branch`, `exclude`, `rewrite-message`, `transform`, `scan`";

pub open spec fn string_value(v: TomlValue) -> Result<Seq<char>, Seq<char>> {
    match v {
        TomlValue::Str(s) => Ok(s@),
        _ => Err(invalid_type(v, "a string"@)),
    }
}

pub open spec fn string_list_from(items: Seq<TomlValue>) -> Result<Seq<Seq<char>>, Seq<char>>
    decreases items.len(),
{
    if items.len() == 0 {
        Ok(seq![])
    } else {
        match string_value(items[0]) {
            Err(e) => Err(e),
            Ok(s) => match string_list_from(items.drop_first()) {
                Err(e) => Err(e),
                Ok(rest) => Ok(seq![s] + rest),
            },
        }
    }
}

pub open spec fn string_list(v: TomlValue) -> Result<Seq<Seq<char>>, Seq<char>> {
    match v {
        TomlValue::Array(items) => string_list_from(items@),
        _ => Err(invalid_type(v, "a sequence"@)),
    }
}

/// Store one `key = value` of a `[[subrepos]]` table.
pub open spec fn set_field(acc: RawView, key: Seq<char>, v: TomlValue) -> Result<RawView, Seq<char>> {
    if key == "exclude"@ {
        match string_list(v) {
            Ok(l) => Ok(RawView { exclude: Some(l), ..acc }),
            Err(e) => Err(e),
        }
    } else if key == "name"@ || key == "path"@ || key == "remote"@ || key == "upstream"@ || key
        == "branch"@ || key == "push-branch"@ || key == "rewrite-message"@ || key == "transform"@
        || key == "scan"@ {
        match string_value(v) {
            Err(e) => Err(e),
            Ok(s) => Ok(
                if key == "name"@ {
                    RawView { name: Some(s), ..acc }
                } else if key == "path"@ {
                    RawView { path: Some(s), ..acc }
                } else if key == "remote"@ {
                    RawView { remote: Some(s), ..acc }
                } else if key == "upstream"@ {
                    RawView { upstream: Some(s), ..acc }
                } else if key == "branch"@ {
                    RawView { branch: Some(s), ..acc }
                } else if key == "push-branch"@ {
                    RawView { push_branch: Some(s), ..acc }
                } else if key == "rewrite-message"@ {
                    RawView { rewrite_message: Some(s), ..acc }
                } else if key == "transform"@ {
                    RawView { transform: Some(s), ..acc }
                } else {
                    RawView { scan: Some(s), ..acc }
                },
            ),
        }
    } else {
        Err("unknown field `"@ + key + "`, expected one of "@ + SUBREPO_FIELDS@)
    }
}

pub open spec fn read_fields(entries: Seq<(String, TomlValue)>, acc: RawView) -> Result<
    RawView,
    Seq<char>,
>
    decreases entries.len(),
{
    if entries.len() == 0 {
        Ok(acc)
    } else {
        match set_field(acc, entries[0].0@, entries[0].1) {
            Err(e) => Err(e),
            Ok(next) => read_fields(entries.drop_first(), next),
        }
    }
}

/// One element of `subrepos`: a table with at least `path` and `remote`.
pub open spec fn raw_subrepo(v: TomlValue) -> Result<RawView, Seq<char>> {
    match v {
        TomlValue::Table(entries) => match read_fields(entries@, empty_raw()) {
            Err(e) => Err(e),
            Ok(r) => if r.path is None {
                Err("missing field `path`"@)
            } else if r.remote is None {
                Err("missing field `remote`"@)
            } else {
                Ok(r)
            },
        },
        _ => Err(invalid_type(v, "struct RawSubrepo"@)),
    }
}

pub open spec fn raw_subrepos_from(items: Seq<TomlValue>) -> Result<Seq<RawView>, Seq<char>>
    decreases items.len(),
{
    if items.len() == 0 {
        Ok(seq![])
    } else {
        match raw_subrepo(items[0]) {
            Err(e) => Err(e),
            Ok(r) => match raw_subrepos_from(items.drop_first()) {
                Err(e) => Err(e),
                Ok(rest) => Ok(seq![r] + rest),
            },
        }
    }
}

/// The top level: only `subrepos`, an array of tables, which defaults to empty.
pub open spec fn raw_config_from(entries: Seq<(String, TomlValue)>, acc: Seq<RawView>) -> Result<
    Seq<RawView>,
    Seq<char>,
>
    decreases entries.len(),
{
    if entries.len() == 0 {
        Ok(acc)
    } else if entries[0].0@ == "subrepos"@ {
        match entries[0].1 {
            TomlValue::Array(items) => match raw_subrepos_from(items@) {
                Err(e) => Err(e),
                Ok(r) => raw_config_from(entries.drop_first(), r),
            },
            _ => Err(invalid_type(entries[0].1, "a sequence"@)),
        }
    } else {
        Err("unknown field `"@ + entries[0].0@ + "`, expected `subrepos`"@)
    }
}

// ---------------------------------------------------------------------------------------
// Validation: values a config may hold but monosplice will not act on.

pub open spec fn empty_issue(idx: nat, field: Seq<char>) -> Seq<char> {
    "  subrepos["@ + decimal(idx) + "]."@ + field + " — "@ + field + " may not be empty"@
}

/// The issue for `field` when it is set to the empty string, else none.
pub open spec fn optional_issue(idx: nat, field: Seq<char>, value: Option<Seq<char>>) -> Seq<
    Seq<char>,
> {
    match value {
        Some(v) if v.len() == 0 => seq![empty_issue(idx, field)],
        _ => seq![],
    }
}

pub open spec fn exclude_issue(idx: nat, i: nat) -> Seq<char> {
    "  subrepos["@ + decimal(idx) + "].exclude["@ + decimal(i) + "] — exclude patterns may not be empty"@
}

pub open spec fn exclude_issues_from(idx: nat, patterns: Seq<Seq<char>>, i: nat) -> Seq<Seq<char>>
    decreases patterns.len() - i,
{
    if i >= patterns.len() {
        seq![]
    } else {
        (if patterns[i as int].len() == 0 {
            seq![exclude_issue(idx, i)]
        } else {
            seq![]
        }) + exclude_issues_from(idx, patterns, i + 1)
    }
}

/// Every empty string in one `[[subrepos]]` table, in field order.
pub open spec fn raw_issues(idx: nat, r: RawView) -> Seq<Seq<char>> {
    optional_issue(idx, "name"@, r.name) + optional_issue(idx, "path"@, r.path) + optional_issue(
        idx,
        "remote"@,
        r.remote,
    ) + optional_issue(idx, "upstream"@, r.upstream) + optional_issue(idx, "branch"@, r.branch)
        + optional_issue(idx, "push-branch"@, r.push_branch) + exclude_issues_from(
        idx,
        match r.exclude {
            Some(l) => l,
            None => seq![],
        },
        0,
    )
}

pub open spec fn issues_from(raws: Seq<RawView>, idx: nat) -> Seq<Seq<char>>
    decreases raws.len() - idx,
{
    if idx >= raws.len() {
        seq![]
    } else {
        raw_issues(idx, raws[idx as int]) + issues_from(raws, idx + 1)
    }
}

// ---------------------------------------------------------------------------------------
// Resolution: defaults filled in, paths normalized, triangles checked.

pub open spec fn push_branch_issue(idx: nat) -> Seq<char> {
    "  subrepos["@ + decimal(idx)
        + "].push-branch — push-branch requires upstream: it names the branch monosplice pushes on your fork, and without `upstream` there is no fork/upstream split. Drop push-branch, or set `upstream` to the repository you pull from."@
}

pub open spec fn same_upstream_issue(idx: nat, remote: Seq<char>) -> Seq<char> {
    "  subrepos["@ + decimal(idx) + "].upstream — upstream and remote are the same repository ("@
        + remote
        + "), so there is no triangle. Drop `upstream`, or point it at the repository you pull from."@
}

/// One raw subrepo with its defaults, or the detail of why it cannot be one.
pub open spec fn resolve_raw(idx: nat, r: RawView) -> Result<SubrepoView, Seq<char>> {
    let path = match r.path {
        Some(p) => p,
        None => seq![],
    };
    let remote = match r.remote {
        Some(p) => p,
        None => seq![],
    };
    match normalized_path(path) {
        Err(m) => Err("  subrepos["@ + decimal(idx) + "].path — "@ + m),
        Ok(norm) => if r.push_branch is Some && r.upstream is None {
            Err(push_branch_issue(idx))
        } else if r.upstream == Some(remote) {
            Err(same_upstream_issue(idx, remote))
        } else {
            let branch = match r.branch {
                Some(b) => b,
                None => "main"@,
            };
            Ok(
                SubrepoView {
                    name: match r.name {
                        Some(n) => n,
                        None => basename_of(norm),
                    },
                    path: norm,
                    remote: remote,
                    upstream: r.upstream,
                    branch: branch,
                    push_branch: match r.push_branch {
                        Some(p) => p,
                        None => branch,
                    },
                    exclude: match r.exclude {
                        Some(l) => l,
                        None => seq![],
                    },
                    rewrite_message: r.rewrite_message,
                    transform: r.transform,
                    scan: r.scan,
                },
            )
        },
    }
}

pub open spec fn resolve_from(raws: Seq<RawView>, idx: nat) -> Result<Seq<SubrepoView>, Seq<char>>
    decreases raws.len() - idx,
{
    if idx >= raws.len() {
        Ok(seq![])
    } else {
        match resolve_raw(idx, raws[idx as int]) {
            Err(d) => Err(d),
            Ok(s) => match resolve_from(raws, idx + 1) {
                Err(d) => Err(d),
                Ok(rest) => Ok(seq![s] + rest),
            },
        }
    }
}

/// `a` lies strictly inside directory `b`.
pub open spec fn nested_in(a: Seq<char>, b: Seq<char>) -> bool {
    crate::text::starts_with(a, b + seq!['/'])
}

/// The first earlier path (from `i` on) that `path` nests in or under.
pub open spec fn first_nesting(subs: Seq<SubrepoView>, j: int, i: int) -> Option<int>
    decreases j - i,
{
    if i >= j || i < 0 {
        None
    } else if nested_in(subs[j].path, subs[i].path) || nested_in(subs[i].path, subs[j].path) {
        Some(i)
    } else {
        first_nesting(subs, j, i + 1)
    }
}

/// Why subrepo `j` clashes with one before it, if it does.
pub open spec fn clash_at(subs: Seq<SubrepoView>, j: int) -> Option<Seq<char>> {
    if exists|i: int| 0 <= i < j && (#[trigger] subs[i]).name == subs[j].name {
        Some("  duplicate subrepo name: "@ + subs[j].name)
    } else if exists|i: int| 0 <= i < j && (#[trigger] subs[i]).path == subs[j].path {
        Some("  duplicate subrepo path: "@ + subs[j].path)
    } else {
        match first_nesting(subs, j, 0) {
            Some(i) => Some("  subrepo paths may not nest: "@ + subs[i].path + " vs "@ + subs[j].path),
            None => None,
        }
    }
}

pub open spec fn first_clash_from(subs: Seq<SubrepoView>, j: int) -> Option<Seq<char>>
    decreases subs.len() - j,
{
    if j >= subs.len() || j < 0 {
        None
    } else {
        match clash_at(subs, j) {
            Some(d) => Some(d),
            None => first_clash_from(subs, j + 1),
        }
    }
}

/// `text` with trailing white space dropped and every line indented by two spaces.
pub open spec fn indent_text(text: Seq<char>) -> Seq<char> {
    let t = trim_end(Space::Unicode, text);
    if t.len() == 0 {
        seq![]
    } else {
        join(split(t, '\n').map_values(|l: Seq<char>| "  "@ + strip_cr(l)), "\n"@)
    }
}

/// A line without its trailing carriage return, as `str::lines` yields it.
pub open spec fn strip_cr(l: Seq<char>) -> Seq<char> {
    if l.len() > 0 && l.last() == '\r' {
        l.drop_last()
    } else {
        l
    }
}

/// What a parsed config table resolves to: its subrepos, or the whole message refusing it.
pub open spec fn resolved_table(entries: Seq<(String, TomlValue)>, config_path: Seq<char>) -> Result<
    Seq<SubrepoView>,
    Seq<char>,
> {
    match raw_config_from(entries, seq![]) {
        Err(e) => Err(config_error_text(config_path, indent_text(e))),
        Ok(raws) => {
            let issues = issues_from(raws, 0);
            if issues.len() > 0 {
                Err(config_error_text(config_path, join(issues, "\n"@)))
            } else {
                match resolve_from(raws, 0) {
                    Err(d) => Err(config_error_text(config_path, d)),
                    Ok(subs) => match first_clash_from(subs, 0) {
                        Some(d) => Err(config_error_text(config_path, d)),
                        None => Ok(subs),
                    },
                }
            }
        },
    }
}

/// What a config text resolves to: its subrepos, or the whole message refusing it.
pub open spec fn resolved_config(text: Seq<char>, config_path: Seq<char>) -> Result<
    Seq<SubrepoView>,
    Seq<char>,
> {
    match toml_table(text) {
        Err(e) => Err(config_error_text(config_path, indent_text(e@))),
        Ok(entries) => resolved_table(entries@, config_path),
    }
}

// ---------------------------------------------------------------------------------------
// The code.

/// `text` with trailing white space dropped and every line indented by two spaces.
pub fn indent(text: &str) -> (r: String)
    ensures
        r@ == indent_text(text@),
{
    let cs = chars_of(text);
    let t = trim_end_chars(Space::Unicode, cs.as_slice());
    if t.len() == 0 {
        return String::new();
    }
    let lines = split_chars(t.as_slice(), '\n');
    let ghost all = split(t@, '\n');
    let mut out: Vec<Vec<char>> = Vec::new();
    let mut i: usize = 0;
    while i < lines.len()
        invariant
            i <= lines@.len(),
            lines.deep_view() == all,
            out.deep_view() == all.take(i as int).map_values(|l: Seq<char>| "  "@ + strip_cr(l)),
        decreases lines@.len() - i,
    {
        let line = &lines[i];
        assert(line@ == all[i as int]);
        let mut piece: Vec<char> = Vec::new();
        extend_str(&mut piece, "  ");
        let n = if line.len() > 0 && line[line.len() - 1] == '\r' {
            line.len() - 1
        } else {
            line.len()
        };
        let body = crate::text::slice_chars(line.as_slice(), 0, n);
        extend(&mut piece, body.as_slice());
        assert(piece@ =~= "  "@ + strip_cr(all[i as int])) by {
            if line@.len() > 0 && line@.last() == '\r' {
                assert(body@ =~= line@.drop_last());
            } else {
                assert(body@ =~= line@);
            }
        }
        let ghost before = out.deep_view();
        assert(piece.deep_view() =~= piece@);
        out.push(piece);
        assert(out.deep_view() =~= before.push("  "@ + strip_cr(all[i as int])));
        assert(all.take(i + 1).map_values(|l: Seq<char>| "  "@ + strip_cr(l)) =~= all.take(
            i as int,
        ).map_values(|l: Seq<char>| "  "@ + strip_cr(l)).push("  "@ + strip_cr(all[i as int])));
        i = i + 1;
    }
    assert(all.take(lines@.len() as int) =~= all);
    let joined = join_chars(&out, "\n");
    string_of(joined.as_slice())
}

fn unexpected_of(v: &TomlValue) -> (r: Vec<char>)
    ensures
        r@ == unexpected(*v),
{
    let mut out: Vec<char> = Vec::new();
    match v {
        TomlValue::Str(s) => {
            extend_str(&mut out, "string ");
            extend_str(&mut out, debug_quote(s.as_str()).as_str());
        },
        TomlValue::Integer(t) => {
            extend_str(&mut out, "integer `");
            extend_str(&mut out, t.as_str());
            extend_str(&mut out, "`");
        },
        TomlValue::Float(t) => {
            extend_str(&mut out, "floating point `");
            let tc = chars_of(t.as_str());
            extend_str(&mut out, t.as_str());
            let has_point = match crate::text::find_char(tc.as_slice(), '.') {
                Some(_) => true,
                None => false,
            };
            let special = crate::text::str_eq(t.as_str(), "inf") || crate::text::str_eq(
                t.as_str(),
                "-inf",
            ) || crate::text::str_eq(t.as_str(), "NaN");
            let whole = !has_point && !special;
            if whole {
                extend_str(&mut out, ".0");
            }
            extend_str(&mut out, "`");
        },
        TomlValue::Boolean(b) => {
            if *b {
                extend_str(&mut out, "boolean `true`");
            } else {
                extend_str(&mut out, "boolean `false`");
            }
        },
        TomlValue::Datetime(_) => {
            extend_str(&mut out, "map");
        },
        TomlValue::Array(_) => {
            extend_str(&mut out, "sequence");
        },
        TomlValue::Table(_) => {
            extend_str(&mut out, "map");
        },
    }
    assert(out@ =~= unexpected(*v));
    out
}

fn invalid_type_of(v: &TomlValue, expected: &str) -> (r: Vec<char>)
    ensures
        r@ == invalid_type(*v, expected@),
{
    let mut out: Vec<char> = Vec::new();
    extend_str(&mut out, "invalid type: ");
    let u = unexpected_of(v);
    extend(&mut out, u.as_slice());
    extend_str(&mut out, ", expected ");
    extend_str(&mut out, expected);
    assert(out@ =~= invalid_type(*v, expected@));
    out
}

fn string_value_of(v: &TomlValue) -> (r: Result<String, Vec<char>>)
    ensures
        match r {
            Ok(s) => string_value(*v) == Ok::<Seq<char>, Seq<char>>(s@),
            Err(e) => string_value(*v) == Err::<Seq<char>, Seq<char>>(e@),
        },
{
    match v {
        TomlValue::Str(s) => Ok(s.clone()),
        _ => Err(invalid_type_of(v, "a string")),
    }
}

fn string_list_of(v: &TomlValue) -> (r: Result<Vec<String>, Vec<char>>)
    ensures
        match r {
            Ok(l) => string_list(*v) == Ok::<Seq<Seq<char>>, Seq<char>>(l.deep_view()),
            Err(e) => string_list(*v) == Err::<Seq<Seq<char>>, Seq<char>>(e@),
        },
{
    match v {
        TomlValue::Array(items) => {
            let mut out: Vec<String> = Vec::new();
            let mut i: usize = 0;
            assert(items@.skip(0) =~= items@);
            while i < items.len()
                invariant
                    i <= items@.len(),
                    *v == TomlValue::Array(*items),
                    string_list(*v) == (match string_list_from(items@.skip(i as int)) {
                        Ok(rest) => Ok::<Seq<Seq<char>>, Seq<char>>(out.deep_view() + rest),
                        Err(e) => Err(e),
                    }),
                decreases items@.len() - i,
            {
                assert(items@.skip(i as int)[0] == items@[i as int]);
                assert(items@.skip(i as int).drop_first() =~= items@.skip(i + 1));
                match string_value_of(&items[i]) {
                    Err(e) => {
                        return Err(e);
                    },
                    Ok(s) => {
                        let ghost before = out.deep_view();
                        let ghost sv = s@;
                        out.push(s);
                        assert(out.deep_view() =~= before.push(sv));
                        assert forall|rest: Seq<Seq<char>>|
                            #![auto]
                            before + (seq![sv] + rest) =~= out.deep_view() + rest by {}
                    },
                }
                i = i + 1;
            }
            assert(items@.skip(items@.len() as int) =~= Seq::<TomlValue>::empty());
            assert(out.deep_view() + Seq::<Seq<char>>::empty() =~= out.deep_view());
            Ok(out)
        },
        _ => Err(invalid_type_of(v, "a sequence")),
    }
}

fn unknown_subrepo_field(key: &str) -> (r: Vec<char>)
    ensures
        r@ == "unknown field `"@ + key@ + "`, expected one of "@ + SUBREPO_FIELDS@,
{
    let mut out: Vec<char> = Vec::new();
    extend_str(&mut out, "unknown field `");
    extend_str(&mut out, key);
    extend_str(&mut out, "`, expected one of ");
    extend_str(&mut out, SUBREPO_FIELDS);
    assert(out@ =~= "unknown field `"@ + key@ + "`, expected one of "@ + SUBREPO_FIELDS@);
    out
}

fn set_field_of(acc: &mut RawSubrepo, key: &String, v: &TomlValue) -> (r: Result<(), Vec<char>>)
    ensures
        match r {
            Ok(()) => set_field(old(acc)@, key@, *v) == Ok::<RawView, Seq<char>>(final(acc)@),
            Err(e) => set_field(old(acc)@, key@, *v) == Err::<RawView, Seq<char>>(e@),
        },
{
    let k = key.as_str();
    if crate::text::str_eq(k, "exclude") {
        match string_list_of(v) {
            Ok(l) => {
                acc.exclude = Some(l);
                return Ok(());
            },
            Err(e) => {
                return Err(e);
            },
        }
    }
    let is_name = crate::text::str_eq(k, "name");
    let is_path = crate::text::str_eq(k, "path");
    let is_remote = crate::text::str_eq(k, "remote");
    let is_upstream = crate::text::str_eq(k, "upstream");
    let is_branch = crate::text::str_eq(k, "branch");
    let is_push_branch = crate::text::str_eq(k, "push-branch");
    let is_rewrite = crate::text::str_eq(k, "rewrite-message");
    let is_transform = crate::text::str_eq(k, "transform");
    let is_scan = crate::text::str_eq(k, "scan");
    if !(is_name || is_path || is_remote || is_upstream || is_branch || is_push_branch || is_rewrite
        || is_transform || is_scan) {
        return Err(unknown_subrepo_field(k));
    }
    let s = match string_value_of(v) {
        Ok(s) => s,
        Err(e) => {
            return Err(e);
        },
    };
    if is_name {
        acc.name = Some(s);
    } else if is_path {
        acc.path = Some(s);
    } else if is_remote {
        acc.remote = Some(s);
    } else if is_upstream {
        acc.upstream = Some(s);
    } else if is_branch {
        acc.branch = Some(s);
    } else if is_push_branch {
        acc.push_branch = Some(s);
    } else if is_rewrite {
        acc.rewrite_message = Some(s);
    } else if is_transform {
        acc.transform = Some(s);
    } else {
        acc.scan = Some(s);
    }
    Ok(())
}

fn raw_subrepo_of(v: &TomlValue) -> (r: Result<RawSubrepo, Vec<char>>)
    ensures
        match r {
            Ok(raw) => raw_subrepo(*v) == Ok::<RawView, Seq<char>>(raw@),
            Err(e) => raw_subrepo(*v) == Err::<RawView, Seq<char>>(e@),
        },
{
    match v {
        TomlValue::Table(entries) => {
            let mut acc = RawSubrepo {
                name: None,
                path: None,
                remote: None,
                upstream: None,
                branch: None,
                push_branch: None,
                exclude: None,
                rewrite_message: None,
                transform: None,
                scan: None,
            };
            assert(acc@ == empty_raw());
            let mut i: usize = 0;
            assert(entries@.skip(0) =~= entries@);
            while i < entries.len()
                invariant
                    i <= entries@.len(),
                    *v == TomlValue::Table(*entries),
                    read_fields(entries@, empty_raw()) == read_fields(
                        entries@.skip(i as int),
                        acc@,
                    ),
                decreases entries@.len() - i,
            {
                assert(entries@.skip(i as int)[0] == entries@[i as int]);
                assert(entries@.skip(i as int).drop_first() =~= entries@.skip(i + 1));
                let entry = &entries[i];
                match set_field_of(&mut acc, &entry.0, &entry.1) {
                    Err(e) => {
                        return Err(e);
                    },
                    Ok(()) => {},
                }
                i = i + 1;
            }
            assert(entries@.skip(entries@.len() as int) =~= Seq::<(String, TomlValue)>::empty());
            if acc.path.is_none() {
                return Err(chars_of("missing field `path`"));
            }
            if acc.remote.is_none() {
                return Err(chars_of("missing field `remote`"));
            }
            Ok(acc)
        },
        _ => Err(invalid_type_of(v, "struct RawSubrepo")),
    }
}

/// The raw subrepos of a parsed document, or the schema error.
fn raw_config_of(entries: &Vec<(String, TomlValue)>) -> (r: Result<Vec<RawSubrepo>, Vec<char>>)
    ensures
        match r {
            Ok(raws) => raw_config_from(entries@, seq![]) == Ok::<Seq<RawView>, Seq<char>>(
                raws@.map_values(|x: RawSubrepo| x@),
            ),
            Err(e) => raw_config_from(entries@, seq![]) == Err::<Seq<RawView>, Seq<char>>(e@),
        },
{
    let mut acc: Vec<RawSubrepo> = Vec::new();
    let mut i: usize = 0;
    assert(entries@.skip(0) =~= entries@);
    assert(acc@.map_values(|x: RawSubrepo| x@) =~= Seq::<RawView>::empty());
    while i < entries.len()
        invariant
            i <= entries@.len(),
            raw_config_from(entries@, seq![]) == raw_config_from(
                entries@.skip(i as int),
                acc@.map_values(|x: RawSubrepo| x@),
            ),
        decreases entries@.len() - i,
    {
        assert(entries@.skip(i as int)[0] == entries@[i as int]);
        assert(entries@.skip(i as int).drop_first() =~= entries@.skip(i + 1));
        let entry = &entries[i];
        if !crate::text::str_eq(entry.0.as_str(), "subrepos") {
            let mut out: Vec<char> = Vec::new();
            extend_str(&mut out, "unknown field `");
            extend_str(&mut out, entry.0.as_str());
            extend_str(&mut out, "`, expected `subrepos`");
            assert(out@ =~= "unknown field `"@ + entry.0@ + "`, expected `subrepos`"@);
            return Err(out);
        }
        match &entry.1 {
            TomlValue::Array(items) => {
                let mut raws: Vec<RawSubrepo> = Vec::new();
                let mut j: usize = 0;
                assert(items@.skip(0) =~= items@);
                while j < items.len()
                    invariant
                        j <= items@.len(),
                        i < entries@.len(),
                        raw_config_from(entries@, seq![]) == raw_config_from(
                            entries@.skip(i as int),
                            acc@.map_values(|x: RawSubrepo| x@),
                        ),
                        entries@.skip(i as int)[0] == entries@[i as int],
                        entries@[i as int].0@ == "subrepos"@,
                        entries@[i as int].1 == TomlValue::Array(*items),
                        raw_subrepos_from(items@) == (match raw_subrepos_from(
                            items@.skip(j as int),
                        ) {
                            Ok(rest) => Ok::<Seq<RawView>, Seq<char>>(
                                raws@.map_values(|x: RawSubrepo| x@) + rest,
                            ),
                            Err(e) => Err(e),
                        }),
                    decreases items@.len() - j,
                {
                    assert(items@.skip(j as int)[0] == items@[j as int]);
                    assert(items@.skip(j as int).drop_first() =~= items@.skip(j + 1));
                    match raw_subrepo_of(&items[j]) {
                        Err(e) => {
                            return Err(e);
                        },
                        Ok(raw) => {
                            let ghost before = raws@.map_values(|x: RawSubrepo| x@);
                            let ghost rv = raw@;
                            raws.push(raw);
                            assert(raws@.map_values(|x: RawSubrepo| x@) =~= before.push(rv));
                            assert forall|rest: Seq<RawView>|
                                #![auto]
                                before + (seq![rv] + rest) =~= raws@.map_values(
                                    |x: RawSubrepo| x@,
                                ) + rest by {}
                        },
                    }
                    j = j + 1;
                }
                assert(items@.skip(items@.len() as int) =~= Seq::<TomlValue>::empty());
                assert(raws@.map_values(|x: RawSubrepo| x@) + Seq::<RawView>::empty()
                    =~= raws@.map_values(|x: RawSubrepo| x@));
                acc = raws;
            },
            _ => {
                return Err(invalid_type_of(&entry.1, "a sequence"));
            },
        }
        i = i + 1;
    }
    assert(entries@.skip(entries@.len() as int) =~= Seq::<(String, TomlValue)>::empty());
    Ok(acc)
}

fn subrepos_prefix(idx: usize) -> (r: Vec<char>)
    ensures
        r@ == "  subrepos["@ + decimal(idx as nat),
{
    let mut out: Vec<char> = Vec::new();
    extend_str(&mut out, "  subrepos[");
    let d = decimal_of(idx);
    extend(&mut out, d.as_slice());
    out
}

fn push_optional_issue(
    out: &mut Vec<Vec<char>>,
    idx: usize,
    field: &str,
    value: &Option<String>,
)
    ensures
        final(out).deep_view() == old(out).deep_view() + optional_issue(
            idx as nat,
            field@,
            value.deep_view(),
        ),
{
    let is_empty = match value {
        Some(v) => chars_of(v.as_str()).len() == 0,
        None => false,
    };
    if is_empty {
        let mut issue = subrepos_prefix(idx);
        extend_str(&mut issue, "].");
        extend_str(&mut issue, field);
        extend_str(&mut issue, " — ");
        extend_str(&mut issue, field);
        extend_str(&mut issue, " may not be empty");
        assert(issue@ =~= empty_issue(idx as nat, field@));
        let ghost before = out.deep_view();
        let ghost iv = issue@;
        assert(issue.deep_view() =~= issue@);
        out.push(issue);
        assert(out.deep_view() =~= before + seq![iv]);
    } else {
        assert(optional_issue(idx as nat, field@, value.deep_view()) =~= Seq::<Seq<char>>::empty());
        assert(out.deep_view() =~= old(out).deep_view() + Seq::<Seq<char>>::empty());
    }
}

fn push_exclude_issues(out: &mut Vec<Vec<char>>, idx: usize, patterns: &Option<Vec<String>>)
    ensures
        final(out).deep_view() == old(out).deep_view() + exclude_issues_from(
            idx as nat,
            match patterns.deep_view() {
                Some(l) => l,
                None => seq![],
            },
            0,
        ),
{
    let ghost pats: Seq<Seq<char>> = match patterns.deep_view() {
        Some(l) => l,
        None => seq![],
    };
    match patterns {
        None => {
            assert(exclude_issues_from(idx as nat, pats, 0) =~= Seq::<Seq<char>>::empty());
            assert(out.deep_view() =~= old(out).deep_view() + Seq::<Seq<char>>::empty());
        },
        Some(list) => {
            assert(list.deep_view() == pats);
            let mut i: usize = 0;
            while i < list.len()
                invariant
                    i <= list@.len(),
                    list.deep_view() == pats,
                    old(out).deep_view() + exclude_issues_from(idx as nat, pats, 0)
                        == out.deep_view() + exclude_issues_from(idx as nat, pats, i as nat),
                decreases list@.len() - i,
            {
                let is_empty = chars_of(list[i].as_str()).len() == 0;
                assert(list@[i as int]@ == pats[i as int]);
                let ghost before = out.deep_view();
                if is_empty {
                    let mut issue = subrepos_prefix(idx);
                    extend_str(&mut issue, "].exclude[");
                    let d = decimal_of(i);
                    extend(&mut issue, d.as_slice());
                    extend_str(&mut issue, "] — exclude patterns may not be empty");
                    assert(issue@ =~= exclude_issue(idx as nat, i as nat));
                    assert(issue.deep_view() =~= issue@);
                    out.push(issue);
                    assert(out.deep_view() =~= before + seq![exclude_issue(idx as nat, i as nat)]);
                    assert(before + exclude_issues_from(idx as nat, pats, i as nat) =~= out.deep_view()
                        + exclude_issues_from(idx as nat, pats, (i + 1) as nat));
                } else {
                    assert(before + exclude_issues_from(idx as nat, pats, i as nat) =~= out.deep_view()
                        + exclude_issues_from(idx as nat, pats, (i + 1) as nat));
                }
                i = i + 1;
            }
            assert(exclude_issues_from(idx as nat, pats, i as nat) =~= Seq::<Seq<char>>::empty());
            assert(out.deep_view() + Seq::<Seq<char>>::empty() =~= out.deep_view());
        },
    }
}

#[verifier::rlimit(40)]
fn push_raw_issues(out: &mut Vec<Vec<char>>, idx: usize, r: &RawSubrepo)
    ensures
        final(out).deep_view() == old(out).deep_view() + raw_issues(idx as nat, r@),
{
    push_optional_issue(out, idx, "name", &r.name);
    push_optional_issue(out, idx, "path", &r.path);
    push_optional_issue(out, idx, "remote", &r.remote);
    push_optional_issue(out, idx, "upstream", &r.upstream);
    push_optional_issue(out, idx, "branch", &r.branch);
    push_optional_issue(out, idx, "push-branch", &r.push_branch);
    push_exclude_issues(out, idx, &r.exclude);
    assert(final(out).deep_view() =~= old(out).deep_view() + raw_issues(idx as nat, r@));
}

#[verifier::spinoff_prover]
#[verifier::rlimit(40)]
fn issues_of(raws: &Vec<RawSubrepo>) -> (r: Vec<Vec<char>>)
    ensures
        r.deep_view() == issues_from(raws@.map_values(|x: RawSubrepo| x@), 0),
{
    let ghost rv = raws@.map_values(|x: RawSubrepo| x@);
    let mut out: Vec<Vec<char>> = Vec::new();
    let mut idx: usize = 0;
    assert(out.deep_view() + issues_from(rv, 0) =~= issues_from(rv, 0));
    while idx < raws.len()
        invariant
            idx <= raws@.len(),
            rv == raws@.map_values(|x: RawSubrepo| x@),
            issues_from(rv, 0) == out.deep_view() + issues_from(rv, idx as nat),
        decreases raws@.len() - idx,
    {
        let r = &raws[idx];
        assert(rv[idx as int] == r@);
        let ghost before = out.deep_view();
        push_raw_issues(&mut out, idx, r);
        assert(issues_from(rv, idx as nat) =~= raw_issues(idx as nat, rv[idx as int]) + issues_from(
            rv,
            (idx + 1) as nat,
        ));
        idx = idx + 1;
    }
    assert(issues_from(rv, idx as nat) =~= Seq::<Seq<char>>::empty());
    assert(out.deep_view() + Seq::<Seq<char>>::empty() =~= out.deep_view());
    out
}

fn clone_opt(v: &Option<String>) -> (r: Option<String>)
    ensures
        r.deep_view() == v.deep_view(),
{
    match v {
        Some(s) => Some(s.clone()),
        None => None,
    }
}

pub fn clone_strings(v: &Vec<String>) -> (r: Vec<String>)
    ensures
        r.deep_view() == v.deep_view(),
{
    let mut out: Vec<String> = Vec::new();
    let mut i: usize = 0;
    while i < v.len()
        invariant
            i <= v@.len(),
            out.deep_view() == v.deep_view().take(i as int),
        decreases v@.len() - i,
    {
        let ghost before = out.deep_view();
        out.push(v[i].clone());
        assert(out.deep_view() =~= before.push(v@[i as int]@));
        assert(v.deep_view().take(i + 1) =~= v.deep_view().take(i as int).push(v@[i as int]@));
        i = i + 1;
    }
    assert(v.deep_view().take(v@.len() as int) =~= v.deep_view());
    out
}

fn resolve_raw_of(idx: usize, r: &RawSubrepo) -> (res: Result<ResolvedSubrepo, Vec<char>>)
    ensures
        match res {
            Ok(s) => resolve_raw(idx as nat, r@) == Ok::<SubrepoView, Seq<char>>(s@),
            Err(d) => resolve_raw(idx as nat, r@) == Err::<SubrepoView, Seq<char>>(d@),
        },
{
    let empty = String::new();
    let path: &str = match &r.path {
        Some(p) => p.as_str(),
        None => empty.as_str(),
    };
    let remote: &str = match &r.remote {
        Some(p) => p.as_str(),
        None => empty.as_str(),
    };
    let norm = match normalize_subrepo_path(path) {
        Err(m) => {
            let mut d = subrepos_prefix(idx);
            extend_str(&mut d, "].path — ");
            extend_str(&mut d, m.as_str());
            assert(d@ =~= "  subrepos["@ + decimal(idx as nat) + "].path — "@ + m@);
            return Err(d);
        },
        Ok(n) => n,
    };
    if r.push_branch.is_some() && r.upstream.is_none() {
        let mut d = subrepos_prefix(idx);
        extend_str(
            &mut d,
            "].push-branch — push-branch requires upstream: it names the branch monosplice pushes on your fork, and without `upstream` there is no fork/upstream split. Drop push-branch, or set `upstream` to the repository you pull from.",
        );
        assert(d@ =~= push_branch_issue(idx as nat));
        return Err(d);
    }
    let same = match &r.upstream {
        Some(u) => crate::text::str_eq(u.as_str(), remote),
        None => false,
    };
    assert(same == (r@.upstream == Some(remote@)));
    if same {
        let mut d = subrepos_prefix(idx);
        extend_str(&mut d, "].upstream — upstream and remote are the same repository (");
        extend_str(&mut d, remote);
        extend_str(
            &mut d,
            "), so there is no triangle. Drop `upstream`, or point it at the repository you pull from.",
        );
        assert(d@ =~= same_upstream_issue(idx as nat, remote@));
        return Err(d);
    }
    let branch = match &r.branch {
        Some(b) => b.clone(),
        None => string_of(chars_of("main").as_slice()),
    };
    let name = match &r.name {
        Some(n) => n.clone(),
        None => basename(norm.as_str()),
    };
    let push_branch = match &r.push_branch {
        Some(p) => p.clone(),
        None => branch.clone(),
    };
    let exclude = match &r.exclude {
        Some(l) => clone_strings(l),
        None => Vec::new(),
    };
    proof {
        if r.exclude is None {
            assert(exclude.deep_view() =~= Seq::<Seq<char>>::empty());
        }
    }
    Ok(
        ResolvedSubrepo {
            name,
            path: norm,
            remote: string_of(chars_of(remote).as_slice()),
            upstream: clone_opt(&r.upstream),
            branch,
            push_branch,
            exclude,
            rewrite_message: clone_opt(&r.rewrite_message),
            transform: clone_opt(&r.transform),
            scan: clone_opt(&r.scan),
        },
    )
}

fn resolve_all(raws: &Vec<RawSubrepo>) -> (r: Result<Vec<ResolvedSubrepo>, Vec<char>>)
    ensures
        match r {
            Ok(subs) => resolve_from(raws@.map_values(|x: RawSubrepo| x@), 0) == Ok::<
                Seq<SubrepoView>,
                Seq<char>,
            >(subrepo_views(subs@)),
            Err(d) => resolve_from(raws@.map_values(|x: RawSubrepo| x@), 0) == Err::<
                Seq<SubrepoView>,
                Seq<char>,
            >(d@),
        },
{
    let ghost rv = raws@.map_values(|x: RawSubrepo| x@);
    let mut out: Vec<ResolvedSubrepo> = Vec::new();
    let mut idx: usize = 0;
    while idx < raws.len()
        invariant
            idx <= raws@.len(),
            rv == raws@.map_values(|x: RawSubrepo| x@),
            resolve_from(rv, 0) == (match resolve_from(rv, idx as nat) {
                Ok(rest) => Ok::<Seq<SubrepoView>, Seq<char>>(subrepo_views(out@) + rest),
                Err(d) => Err(d),
            }),
        decreases raws@.len() - idx,
    {
        assert(rv[idx as int] == raws@[idx as int]@);
        match resolve_raw_of(idx, &raws[idx]) {
            Err(d) => {
                return Err(d);
            },
            Ok(s) => {
                let ghost before = subrepo_views(out@);
                let ghost sv = s@;
                out.push(s);
                assert(subrepo_views(out@) =~= before.push(sv));
                assert forall|rest: Seq<SubrepoView>|
                    #![auto]
                    before + (seq![sv] + rest) =~= subrepo_views(out@) + rest by {}
            },
        }
        idx = idx + 1;
    }
    assert(subrepo_views(out@) + Seq::<SubrepoView>::empty() =~= subrepo_views(out@));
    Ok(out)
}

fn is_nested_in(a: &str, b: &str) -> (r: bool)
    ensures
        r == nested_in(a@, b@),
{
    let ac = chars_of(a);
    let mut bc = chars_of(b);
    bc.push('/');
    assert(bc@ =~= b@ + seq!['/']);
    crate::text::has_prefix(ac.as_slice(), bc.as_slice())
}

fn clash_at_of(subs: &Vec<ResolvedSubrepo>, j: usize) -> (r: Option<Vec<char>>)
    requires
        j < subs@.len(),
    ensures
        match r {
            Some(d) => clash_at(subrepo_views(subs@), j as int) == Some(d@),
            None => clash_at(subrepo_views(subs@), j as int) is None,
        },
{
    let ghost sv = subrepo_views(subs@);
    let mut i: usize = 0;
    while i < j
        invariant
            i <= j < subs@.len(),
            sv == subrepo_views(subs@),
            forall|k: int| 0 <= k < i ==> (#[trigger] sv[k]).name != sv[j as int].name,
        decreases j - i,
    {
        if crate::text::str_eq(subs[i].name.as_str(), subs[j].name.as_str()) {
            let mut d: Vec<char> = Vec::new();
            extend_str(&mut d, "  duplicate subrepo name: ");
            extend_str(&mut d, subs[j].name.as_str());
            assert(sv[i as int].name == sv[j as int].name);
            return Some(d);
        }
        i = i + 1;
    }
    let mut i: usize = 0;
    while i < j
        invariant
            i <= j < subs@.len(),
            sv == subrepo_views(subs@),
            !(exists|k: int| 0 <= k < j && (#[trigger] sv[k]).name == sv[j as int].name),
            forall|k: int| 0 <= k < i ==> (#[trigger] sv[k]).path != sv[j as int].path,
        decreases j - i,
    {
        if crate::text::str_eq(subs[i].path.as_str(), subs[j].path.as_str()) {
            let mut d: Vec<char> = Vec::new();
            extend_str(&mut d, "  duplicate subrepo path: ");
            extend_str(&mut d, subs[j].path.as_str());
            assert(sv[i as int].path == sv[j as int].path);
            return Some(d);
        }
        i = i + 1;
    }
    let mut i: usize = 0;
    while i < j
        invariant
            i <= j < subs@.len(),
            sv == subrepo_views(subs@),
            !(exists|k: int| 0 <= k < j && (#[trigger] sv[k]).name == sv[j as int].name),
            !(exists|k: int| 0 <= k < j && (#[trigger] sv[k]).path == sv[j as int].path),
            first_nesting(sv, j as int, 0) == first_nesting(sv, j as int, i as int),
        decreases j - i,
    {
        let nested = is_nested_in(subs[j].path.as_str(), subs[i].path.as_str()) || is_nested_in(
            subs[i].path.as_str(),
            subs[j].path.as_str(),
        );
        if nested {
            let mut d: Vec<char> = Vec::new();
            extend_str(&mut d, "  subrepo paths may not nest: ");
            extend_str(&mut d, subs[i].path.as_str());
            extend_str(&mut d, " vs ");
            extend_str(&mut d, subs[j].path.as_str());
            return Some(d);
        }
        i = i + 1;
    }
    None
}

fn first_clash_of(subs: &Vec<ResolvedSubrepo>) -> (r: Option<Vec<char>>)
    ensures
        match r {
            Some(d) => first_clash_from(subrepo_views(subs@), 0) == Some(d@),
            None => first_clash_from(subrepo_views(subs@), 0) is None,
        },
{
    let ghost sv = subrepo_views(subs@);
    let mut j: usize = 0;
    while j < subs.len()
        invariant
            j <= subs@.len(),
            sv == subrepo_views(subs@),
            first_clash_from(sv, 0) == first_clash_from(sv, j as int),
        decreases subs@.len() - j,
    {
        match clash_at_of(subs, j) {
            Some(d) => {
                return Some(d);
            },
            None => {},
        }
        j = j + 1;
    }
    None
}

/// Validate a parsed config table: schema, empty strings, paths, triangles and clashes, each
/// refusal under the `Invalid config at <path>:` header.
pub fn resolve_table(entries: &Vec<(String, TomlValue)>, config_path: &str) -> (r: Result<
    Vec<ResolvedSubrepo>,
    ConfigError,
>)
    ensures
        match r {
            Ok(subs) => resolved_table(entries@, config_path@) == Ok::<Seq<SubrepoView>, Seq<char>>(
                subrepo_views(subs@),
            ),
            Err(e) => resolved_table(entries@, config_path@) == Err::<Seq<SubrepoView>, Seq<char>>(
                e.0@,
            ),
        },
{
    let raws = match raw_config_of(entries) {
        Err(e) => {
            let text = string_of(e.as_slice());
            let detail = indent(text.as_str());
            return Err(ConfigError::at(config_path, detail.as_str()));
        },
        Ok(raws) => raws,
    };
    let issues = issues_of(&raws);
    if issues.len() > 0 {
        let joined = join_chars(&issues, "\n");
        let detail = string_of(joined.as_slice());
        return Err(ConfigError::at(config_path, detail.as_str()));
    }
    let subs = match resolve_all(&raws) {
        Err(d) => {
            let detail = string_of(d.as_slice());
            return Err(ConfigError::at(config_path, detail.as_str()));
        },
        Ok(subs) => subs,
    };
    match first_clash_of(&subs) {
        Some(d) => {
            let detail = string_of(d.as_slice());
            Err(ConfigError::at(config_path, detail.as_str()))
        },
        None => Ok(subs),
    }
}

/// Parse TOML text and validate it: a parse error is refused under the `Invalid config at
/// <path>:` header, indented; a parsed table goes through `resolve_table`. A table without the
/// config's shape is refused naming the field in serde's words, without the line and column
/// that a serde reading of the text adds.
pub fn resolve_config(raw: &str, config_path: &str) -> (r: Result<Vec<ResolvedSubrepo>, ConfigError>)
    ensures
        match r {
            Ok(subs) => resolved_config(raw@, config_path@) == Ok::<Seq<SubrepoView>, Seq<char>>(
                subrepo_views(subs@),
            ),
            Err(e) => resolved_config(raw@, config_path@) == Err::<Seq<SubrepoView>, Seq<char>>(
                e.0@,
            ),
        },
{
    match parse_toml_table(raw) {
        Err(e) => {
            let detail = indent(e.as_str());
            Err(ConfigError::at(config_path, detail.as_str()))
        },
        Ok(entries) => resolve_table(&entries, config_path),
    }
}

// ---------------------------------------------------------------------------------------
// What every resolved config satisfies.

/// The last piece of a split is not empty when the text ends in something other than the
/// separator.
proof fn lemma_split_last_nonempty(s: Seq<char>, sep: char, cur: Seq<char>)
    requires
        (s.len() > 0 && s.last() != sep) || (s.len() == 0 && cur.len() > 0),
    ensures
        split_from(s, sep, cur).last().len() > 0,
    decreases s.len(),
{
    crate::text::lemma_split_from_nonempty(s, sep, cur);
    if s.len() > 0 {
        if s.drop_first().len() > 0 {
            assert(s.drop_first().last() == s.last());
        }
        if s[0] == sep {
            lemma_split_last_nonempty(s.drop_first(), sep, seq![]);
            crate::text::lemma_split_from_nonempty(s.drop_first(), sep, seq![]);
        } else {
            lemma_split_last_nonempty(s.drop_first(), sep, cur.push(s[0]));
        }
    }
}

/// Resolving the tables one by one: each resolved subrepo is its table's.
proof fn lemma_resolve_from_each(raws: Seq<RawView>, k: nat)
    requires
        resolve_from(raws, k) is Ok,
    ensures
        resolve_from(raws, k)->Ok_0.len() == if k <= raws.len() {
            raws.len() - k
        } else {
            0
        },
        forall|i: int|
            0 <= i < resolve_from(raws, k)->Ok_0.len() ==> resolve_raw((k + i) as nat, raws[k + i])
                == Ok::<SubrepoView, Seq<char>>(#[trigger] resolve_from(raws, k)->Ok_0[i]),
    decreases raws.len() - k,
{
    if k < raws.len() {
        lemma_resolve_from_each(raws, k + 1);
        let rest = resolve_from(raws, k + 1)->Ok_0;
        let all = resolve_from(raws, k)->Ok_0;
        assert forall|i: int| 0 <= i < all.len() implies resolve_raw((k + i) as nat, raws[k + i])
            == Ok::<SubrepoView, Seq<char>>(#[trigger] all[i]) by {
            if i > 0 {
                assert(all[i] == rest[i - 1]);
                assert((k + 1 + (i - 1)) as nat == (k + i) as nat);
            }
        }
    }
}

/// No issue from `k` on means no table from `k` on sets a field to the empty string.
proof fn lemma_no_issues(raws: Seq<RawView>, k: nat)
    requires
        issues_from(raws, k).len() == 0,
    ensures
        forall|i: int| k <= i < raws.len() ==> #[trigger] raw_issues(i as nat, raws[i]).len() == 0,
    decreases raws.len() - k,
{
    if k < raws.len() {
        lemma_no_issues(raws, k + 1);
    }
}

/// No clash from `j` on: no two subrepos share a name or a path, and no path nests in
/// another.
proof fn lemma_no_clash(subs: Seq<SubrepoView>, j: int)
    requires
        0 <= j,
        first_clash_from(subs, j) is None,
    ensures
        forall|a: int, b: int|
            0 <= a < b < subs.len() && j <= b ==> {
                &&& (#[trigger] subs[a]).name != (#[trigger] subs[b]).name
                &&& subs[a].path != subs[b].path
                &&& !nested_in(subs[a].path, subs[b].path)
                &&& !nested_in(subs[b].path, subs[a].path)
            },
    decreases subs.len() - j,
{
    if j < subs.len() {
        lemma_no_clash(subs, j + 1);
        assert(clash_at(subs, j) is None);
        assert forall|a: int| 0 <= a < j implies !nested_in(#[trigger] subs[a].path, subs[j].path)
            && !nested_in(subs[j].path, subs[a].path) by {
            lemma_no_nesting(subs, j, 0, a);
        }
    }
}

proof fn lemma_no_nesting(subs: Seq<SubrepoView>, j: int, i: int, a: int)
    requires
        0 <= i <= a < j,
        first_nesting(subs, j, i) is None,
    ensures
        !nested_in(subs[a].path, subs[j].path) && !nested_in(subs[j].path, subs[a].path),
    decreases a - i,
{
    if i < a {
        lemma_no_nesting(subs, j, i + 1, a);
    }
}

/// **Every config that resolves is consistent.** No two subrepos share a name or a path, no
/// path lies inside another, every path is normalized (normalizing it again changes
/// nothing), every name has something in it, `upstream` is never the `remote` itself, and
/// without `upstream` the push branch is the branch.
pub proof fn lemma_a_resolved_config_is_consistent(
    entries: Seq<(String, TomlValue)>,
    config_path: Seq<char>,
)
    requires
        resolved_table(entries, config_path) is Ok,
    ensures
        ({
            let subs = resolved_table(entries, config_path)->Ok_0;
            &&& forall|a: int, b: int|
                0 <= a < b < subs.len() ==> {
                    &&& (#[trigger] subs[a]).name != (#[trigger] subs[b]).name
                    &&& subs[a].path != subs[b].path
                    &&& !nested_in(subs[a].path, subs[b].path)
                    &&& !nested_in(subs[b].path, subs[a].path)
                }
            &&& forall|i: int|
                0 <= i < subs.len() ==> {
                    &&& normalized_path((#[trigger] subs[i]).path) == Ok::<
                        Seq<char>,
                        Seq<char>,
                    >(subs[i].path)
                    &&& subs[i].name.len() > 0
                    &&& subs[i].upstream != Some(subs[i].remote)
                    &&& (subs[i].upstream is None ==> subs[i].push_branch == subs[i].branch)
                }
        }),
{
    let raws = raw_config_from(entries, seq![])->Ok_0;
    let subs = resolved_table(entries, config_path)->Ok_0;
    assert(issues_from(raws, 0).len() == 0);
    assert(resolve_from(raws, 0) == Ok::<Seq<SubrepoView>, Seq<char>>(subs));
    assert(first_clash_from(subs, 0) is None);
    lemma_no_clash(subs, 0);
    lemma_resolve_from_each(raws, 0);
    lemma_no_issues(raws, 0);
    assert forall|i: int| 0 <= i < subs.len() implies {
        &&& normalized_path((#[trigger] subs[i]).path) == Ok::<Seq<char>, Seq<char>>(
            subs[i].path,
        )
        &&& subs[i].name.len() > 0
        &&& subs[i].upstream != Some(subs[i].remote)
        &&& (subs[i].upstream is None ==> subs[i].push_branch == subs[i].branch)
    } by {
        let r = raws[i];
        assert(resolve_raw(i as nat, r) == Ok::<SubrepoView, Seq<char>>(subs[i]));
        let path = match r.path {
            Some(p) => p,
            None => seq![],
        };
        assert(normalized_path(path) is Ok);
        lemma_normalized_path_is_a_fixed_point(path);
        lemma_normalized_path_shape(path);
        let q = normalized_path(path)->Ok_0;
        assert(subs[i].path == q);
        assert(raw_issues(i as nat, r).len() == 0);
        assert(optional_issue(i as nat, "name"@, r.name).len() == 0);
        if r.name is None {
            lemma_split_last_nonempty(q, '/', seq![]);
        }
    }
}

/// The same of a config text: what `resolve_config` accepts is consistent.
pub proof fn lemma_a_resolved_config_text_is_consistent(text: Seq<char>, config_path: Seq<char>)
    requires
        resolved_config(text, config_path) is Ok,
    ensures
        ({
            let subs = resolved_config(text, config_path)->Ok_0;
            &&& forall|a: int, b: int|
                0 <= a < b < subs.len() ==> {
                    &&& (#[trigger] subs[a]).name != (#[trigger] subs[b]).name
                    &&& subs[a].path != subs[b].path
                    &&& !nested_in(subs[a].path, subs[b].path)
                    &&& !nested_in(subs[b].path, subs[a].path)
                }
            &&& forall|i: int|
                0 <= i < subs.len() ==> {
                    &&& normalized_path((#[trigger] subs[i]).path) == Ok::<
                        Seq<char>,
                        Seq<char>,
                    >(subs[i].path)
                    &&& subs[i].name.len() > 0
                    &&& subs[i].upstream != Some(subs[i].remote)
                    &&& (subs[i].upstream is None ==> subs[i].push_branch == subs[i].branch)
                }
        }),
{
    let entries = toml_table(text)->Ok_0;
    lemma_a_resolved_config_is_consistent(entries@, config_path);
}


// ---------------------------------------------------------------------------------------
// A resolved subrepo is the table it was written as.

/// The value written under `key` in a TOML table: the last one, since a later key takes over
/// from an earlier one.
pub open spec fn table_value(entries: Seq<(String, TomlValue)>, key: Seq<char>) -> Option<TomlValue>
    decreases entries.len(),
{
    if entries.len() == 0 {
        None
    } else {
        match table_value(entries.drop_first(), key) {
            Some(v) => Some(v),
            None => if entries[0].0@ == key {
                Some(entries[0].1)
            } else {
                None
            },
        }
    }
}

/// The string written under `key`, when a string is written there.
pub open spec fn text_value(entries: Seq<(String, TomlValue)>, key: Seq<char>) -> Option<
    Seq<char>,
> {
    match table_value(entries, key) {
        Some(TomlValue::Str(s)) => Some(s@),
        _ => None,
    }
}

/// What reading a table did to one string field: the string written, else what was there.
spec fn read_text(t: Option<TomlValue>, before: Option<Seq<char>>, after: Option<Seq<char>>) -> bool {
    match t {
        Some(v) => v matches TomlValue::Str(s) && after == Some(s@),
        None => after == before,
    }
}

/// What reading a table did to the exclude list: the strings of the array written, in order,
/// else what was there.
spec fn read_list(t: Option<TomlValue>, before: Option<Seq<Seq<char>>>, after: Option<
    Seq<Seq<char>>,
>) -> bool {
    match t {
        Some(v) => v matches TomlValue::Array(ps) && after is Some && ps@.len() == after->0.len()
            && forall|j: int|
            0 <= j < ps@.len() ==> ((#[trigger] ps@[j]) matches TomlValue::Str(x) && x@ == after->0[j]),
        None => after == before,
    }
}

/// The keys of a `[[subrepos]]` table are different words.
proof fn lemma_subrepo_keys_differ()
    ensures
        "name"@ != "path"@,
        "name"@ != "scan"@,
        "path"@ != "scan"@,
        "remote"@ != "branch"@,
        "name"@.len() == 4 && "path"@.len() == 4 && "scan"@.len() == 4,
        "remote"@.len() == 6 && "branch"@.len() == 6,
        "upstream"@.len() == 8,
        "push-branch"@.len() == 11,
        "exclude"@.len() == 7,
        "rewrite-message"@.len() == 15,
        "transform"@.len() == 9,
{
    reveal_strlit("name");
    reveal_strlit("path");
    reveal_strlit("scan");
    reveal_strlit("remote");
    reveal_strlit("branch");
    reveal_strlit("upstream");
    reveal_strlit("push-branch");
    reveal_strlit("exclude");
    reveal_strlit("rewrite-message");
    reveal_strlit("transform");
    assert("name"@[0] != "path"@[0]);
    assert("name"@[0] != "scan"@[0]);
    assert("path"@[0] != "scan"@[0]);
    assert("remote"@[0] != "branch"@[0]);
}

/// An array of strings reads as those strings, in order.
proof fn lemma_string_list_from(items: Seq<TomlValue>)
    requires
        string_list_from(items) is Ok,
    ensures
        string_list_from(items)->Ok_0.len() == items.len(),
        forall|j: int|
            0 <= j < items.len() ==> ((#[trigger] items[j]) matches TomlValue::Str(x) && x@
                == string_list_from(items)->Ok_0[j]),
    decreases items.len(),
{
    if items.len() > 0 {
        lemma_string_list_from(items.drop_first());
        let l = string_list_from(items)->Ok_0;
        let rest = string_list_from(items.drop_first())->Ok_0;
        assert forall|j: int| 0 <= j < items.len() implies (#[trigger] items[j]) matches TomlValue::Str(
            x,
        ) && x@ == l[j] by {
            if j > 0 {
                assert(items[j] == items.drop_first()[j - 1]);
                assert(l[j] == rest[j - 1]);
            }
        }
    }
}

/// Reading a table's fields one after another: each field ends up as the value last written
/// under its key, or as it was when the key is absent.
#[verifier::rlimit(60)]
proof fn lemma_read_fields(fields: Seq<(String, TomlValue)>, acc: RawView)
    requires
        read_fields(fields, acc) is Ok,
    ensures
        ({
            let r = read_fields(fields, acc)->Ok_0;
            &&& read_text(table_value(fields, "name"@), acc.name, r.name)
            &&& read_text(table_value(fields, "path"@), acc.path, r.path)
            &&& read_text(table_value(fields, "remote"@), acc.remote, r.remote)
            &&& read_text(table_value(fields, "upstream"@), acc.upstream, r.upstream)
            &&& read_text(table_value(fields, "branch"@), acc.branch, r.branch)
            &&& read_text(table_value(fields, "push-branch"@), acc.push_branch, r.push_branch)
            &&& read_text(
                table_value(fields, "rewrite-message"@),
                acc.rewrite_message,
                r.rewrite_message,
            )
            &&& read_text(table_value(fields, "transform"@), acc.transform, r.transform)
            &&& read_text(table_value(fields, "scan"@), acc.scan, r.scan)
            &&& read_list(table_value(fields, "exclude"@), acc.exclude, r.exclude)
        }),
    decreases fields.len(),
{
    if fields.len() > 0 {
        lemma_subrepo_keys_differ();
        let k = fields[0].0@;
        let v = fields[0].1;
        let next = set_field(acc, k, v)->Ok_0;
        lemma_read_fields(fields.drop_first(), next);
        if k == "exclude"@ {
            if let TomlValue::Array(ps) = v {
                lemma_string_list_from(ps@);
            }
        }
    }
}

/// The subrepo tables read one after another: the i-th read is the i-th table's.
proof fn lemma_raw_subrepos_from(items: Seq<TomlValue>)
    requires
        raw_subrepos_from(items) is Ok,
    ensures
        raw_subrepos_from(items)->Ok_0.len() == items.len(),
        forall|i: int|
            0 <= i < items.len() ==> raw_subrepo(#[trigger] items[i]) == Ok::<RawView, Seq<char>>(
                raw_subrepos_from(items)->Ok_0[i],
            ),
    decreases items.len(),
{
    if items.len() > 0 {
        lemma_raw_subrepos_from(items.drop_first());
        let all = raw_subrepos_from(items)->Ok_0;
        let rest = raw_subrepos_from(items.drop_first())->Ok_0;
        assert forall|i: int| 0 <= i < items.len() implies raw_subrepo(#[trigger] items[i]) == Ok::<
            RawView,
            Seq<char>,
        >(all[i]) by {
            if i > 0 {
                assert(items[i] == items.drop_first()[i - 1]);
                assert(all[i] == rest[i - 1]);
            }
        }
    }
}

/// The top level read: the subrepos are those of the array last written under `subrepos`.
proof fn lemma_raw_config_from(entries: Seq<(String, TomlValue)>, acc: Seq<RawView>)
    requires
        raw_config_from(entries, acc) is Ok,
    ensures
        match table_value(entries, "subrepos"@) {
            Some(TomlValue::Array(items)) => raw_subrepos_from(items@) == Ok::<
                Seq<RawView>,
                Seq<char>,
            >(raw_config_from(entries, acc)->Ok_0),
            Some(_) => false,
            None => raw_config_from(entries, acc)->Ok_0 == acc,
        },
    decreases entries.len(),
{
    if entries.len() > 0 {
        match entries[0].1 {
            TomlValue::Array(items) => {
                let r = raw_subrepos_from(items@)->Ok_0;
                lemma_raw_config_from(entries.drop_first(), r);
            },
            _ => {},
        }
    }
}

/// **A resolved subrepo is the table it was written as.** In a config that resolves, the
/// i-th `[[subrepos]]` table gives the i-th subrepo: its `remote`, `upstream` and hook
/// commands as written; its path as written, normalized; its name as written, else the last
/// piece of that path; its branch as written, else `main`; its push branch as written, else
/// the branch; and its exclude list exactly the array written, every pattern in order, or
/// none when the table has no `exclude`.
pub proof fn lemma_a_resolved_subrepo_is_its_table(
    entries: Seq<(String, TomlValue)>,
    config_path: Seq<char>,
    items: Seq<TomlValue>,
    i: int,
    fields: Seq<(String, TomlValue)>,
)
    requires
        resolved_table(entries, config_path) is Ok,
        table_value(entries, "subrepos"@) matches Some(TomlValue::Array(a)) && a@ == items,
        0 <= i < items.len(),
        items[i] matches TomlValue::Table(t) && t@ == fields,
    ensures
        ({
            let subs = resolved_table(entries, config_path)->Ok_0;
            let s = subs[i];
            &&& subs.len() == items.len()
            &&& text_value(fields, "remote"@) == Some(s.remote)
            &&& text_value(fields, "path"@) matches Some(p) && normalized_path(p) == Ok::<
                Seq<char>,
                Seq<char>,
            >(s.path)
            &&& s.name == match text_value(fields, "name"@) {
                Some(n) => n,
                None => basename_of(s.path),
            }
            &&& s.branch == match text_value(fields, "branch"@) {
                Some(b) => b,
                None => "main"@,
            }
            &&& s.push_branch == match text_value(fields, "push-branch"@) {
                Some(b) => b,
                None => s.branch,
            }
            &&& s.upstream == text_value(fields, "upstream"@)
            &&& s.rewrite_message == text_value(fields, "rewrite-message"@)
            &&& s.transform == text_value(fields, "transform"@)
            &&& s.scan == text_value(fields, "scan"@)
            &&& match table_value(fields, "exclude"@) {
                None => s.exclude.len() == 0,
                Some(v) => v matches TomlValue::Array(ps) && ps@.len() == s.exclude.len() && forall|
                    j: int,
                |
                    0 <= j < ps@.len() ==> ((#[trigger] ps@[j]) matches TomlValue::Str(x) && x@
                        == s.exclude[j]),
            }
        }),
{
    let raws = raw_config_from(entries, seq![])->Ok_0;
    let subs = resolved_table(entries, config_path)->Ok_0;
    assert(resolve_from(raws, 0) == Ok::<Seq<SubrepoView>, Seq<char>>(subs));
    lemma_raw_config_from(entries, seq![]);
    lemma_raw_subrepos_from(items);
    lemma_resolve_from_each(raws, 0);
    let r = raws[i];
    assert(raw_subrepo(items[i]) == Ok::<RawView, Seq<char>>(r));
    assert(read_fields(fields, empty_raw()) == Ok::<RawView, Seq<char>>(r));
    lemma_read_fields(fields, empty_raw());
    assert(resolve_raw((0 + i) as nat, raws[0 + i]) == Ok::<SubrepoView, Seq<char>>(subs[i]));
    assert(resolve_raw(i as nat, r) == Ok::<SubrepoView, Seq<char>>(subs[i]));
}

} // verus!
