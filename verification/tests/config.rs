use monosplice::config::{resolve_config, resolve_table, ConfigError, ResolvedSubrepo, TomlValue};

const CONFIG_PATH: &str = "/repo/monosplice.toml";

fn resolve(raw: &str) -> Result<Vec<ResolvedSubrepo>, ConfigError> {
    resolve_config(raw, CONFIG_PATH)
}

fn err(raw: &str) -> String {
    resolve(raw).expect_err("expected a config error").0
}

#[test]
fn applies_defaults_name_from_path_basename_and_branch_main() {
    let subrepos =
        resolve("[[subrepos]]\npath = \"packages/taka-core\"\nremote = \"git@github.com:me/taka-core.git\"\n")
            .unwrap();
    let s = &subrepos[0];
    assert_eq!(s.name, "taka-core");
    assert_eq!(s.path, "packages/taka-core");
    assert_eq!(s.branch, "main");
    assert_eq!(s.push_branch, "main");
    assert_eq!(s.upstream, None);
    assert!(s.exclude.is_empty());
}

#[test]
fn an_empty_config_resolves_to_no_subrepos() {
    assert!(resolve("").unwrap().is_empty());
    assert!(resolve("# nothing attached yet\n").unwrap().is_empty());
}

#[test]
fn normalizes_the_path_and_keeps_hook_commands() {
    let subrepos = resolve(
        "[[subrepos]]\npath = \"./core/\"\nremote = \"r\"\nexclude = [\"**/*.secret\"]\nrewrite-message = \"cat\"\ntransform = \"true\"\nscan = \"grep -q x\"\n",
    )
    .unwrap();
    let s = &subrepos[0];
    assert_eq!(s.path, "core");
    assert_eq!(s.exclude, vec!["**/*.secret".to_string()]);
    assert_eq!(s.rewrite_message.as_deref(), Some("cat"));
    assert_eq!(s.transform.as_deref(), Some("true"));
    assert_eq!(s.scan.as_deref(), Some("grep -q x"));
}

#[test]
fn names_the_offending_field_on_validation_errors() {
    let missing_remote = err("[[subrepos]]\npath = \"core\"\n");
    assert!(missing_remote.starts_with(&format!("Invalid config at {CONFIG_PATH}:")));
    assert!(missing_remote.contains("remote"), "{missing_remote}");

    let empty_path = err("[[subrepos]]\npath = \"\"\nremote = \"x\"\n");
    assert!(
        empty_path.contains("subrepos[0].path — path may not be empty"),
        "{empty_path}"
    );

    let escaping = err("[[subrepos]]\npath = \"../outside\"\nremote = \"x\"\n");
    assert!(escaping.contains("subrepos[0].path"), "{escaping}");
    assert!(escaping.contains("'..'"), "{escaping}");
}

#[test]
fn rejects_unknown_keys_and_syntax_errors_under_the_same_header() {
    let typo = err("[[subrepos]]\npath = \"core\"\nremote = \"r\"\nbrunch = \"main\"\n");
    assert!(typo.starts_with(&format!("Invalid config at {CONFIG_PATH}:")));
    assert!(typo.contains("unknown field"), "{typo}");
    assert!(typo.contains("brunch"), "{typo}");

    // A camelCase leftover from the JS config is an unknown key, not a silent no-op.
    let camel = err("[[subrepos]]\npath = \"core\"\nremote = \"r\"\npushBranch = \"p\"\n");
    assert!(camel.contains("unknown field"), "{camel}");

    let syntax = err("[[subrepos]\npath = \"core\"\n");
    assert!(syntax.starts_with(&format!("Invalid config at {CONFIG_PATH}:")));
    assert!(syntax.contains("TOML parse error"), "{syntax}");

    let top_level = err("subrepo = []\n");
    assert!(top_level.contains("unknown field"), "{top_level}");
}

#[test]
fn rejects_duplicates_and_nested_subrepo_paths() {
    let dup_path =
        err("[[subrepos]]\npath = \"core\"\nremote = \"a\"\n\n[[subrepos]]\npath = \"core\"\nremote = \"b\"\n");
    assert!(dup_path.contains("duplicate"), "{dup_path}");

    let dup_name = err(
        "[[subrepos]]\nname = \"core\"\npath = \"a\"\nremote = \"a\"\n\n[[subrepos]]\nname = \"core\"\npath = \"b\"\nremote = \"b\"\n",
    );
    assert!(
        dup_name.contains("duplicate subrepo name: core"),
        "{dup_name}"
    );

    let nested =
        err("[[subrepos]]\npath = \"core\"\nremote = \"a\"\n\n[[subrepos]]\npath = \"core/sub\"\nremote = \"b\"\n");
    assert!(nested.contains("nest"), "{nested}");

    // A shared prefix is not nesting.
    assert_eq!(
        resolve("[[subrepos]]\npath = \"core\"\nremote = \"a\"\n\n[[subrepos]]\npath = \"core-tools\"\nremote = \"b\"\n")
            .unwrap()
            .len(),
        2
    );
}

#[test]
fn defaults_push_branch_to_branch_and_leaves_upstream_unset() {
    let plain = resolve("[[subrepos]]\npath = \"core\"\nremote = \"fork\"\n").unwrap();
    assert_eq!(plain[0].branch, "main");
    assert_eq!(plain[0].push_branch, "main");
    assert_eq!(plain[0].upstream, None);

    let tri = resolve(
        "[[subrepos]]\npath = \"vendor/lodash\"\nremote = \"fork\"\nupstream = \"upstream\"\nbranch = \"4.x\"\n",
    )
    .unwrap();
    assert_eq!(tri[0].upstream.as_deref(), Some("upstream"));
    assert_eq!(tri[0].branch, "4.x");
    assert_eq!(tri[0].push_branch, "4.x");
}

#[test]
fn keeps_an_explicit_push_branch() {
    let s = resolve(
        "[[subrepos]]\npath = \"vendor/lodash\"\nremote = \"fork\"\nupstream = \"up\"\npush-branch = \"patches\"\n",
    )
    .unwrap();
    assert_eq!(s[0].branch, "main");
    assert_eq!(s[0].push_branch, "patches");
}

#[test]
fn rejects_push_branch_without_upstream() {
    let message =
        err("[[subrepos]]\npath = \"core\"\nremote = \"fork\"\npush-branch = \"patches\"\n");
    assert!(
        message.contains("push-branch requires upstream"),
        "{message}"
    );
    assert!(message.contains("subrepos[0].push-branch"), "{message}");
}

#[test]
fn rejects_an_upstream_equal_to_remote() {
    let message =
        err("[[subrepos]]\npath = \"core\"\nremote = \"same\"\nupstream = \"same\"\n");
    assert!(message.contains("subrepos[0].upstream"), "{message}");
    assert!(message.contains("there is no triangle"), "{message}");
}

#[test]
fn rejects_an_empty_upstream() {
    let message = err("[[subrepos]]\npath = \"core\"\nremote = \"fork\"\nupstream = \"\"\n");
    assert!(message.contains("upstream"), "{message}");
}

fn table(pairs: Vec<(&str, TomlValue)>) -> Vec<(String, TomlValue)> {
    pairs.into_iter().map(|(k, v)| (k.to_string(), v)).collect()
}

#[test]
fn a_parsed_table_resolves_the_same_way_the_text_does() {
    let entry = TomlValue::Table(table(vec![
        ("path", TomlValue::Str("packages/taka-core".to_string())),
        ("remote", TomlValue::Str("git@github.com:me/taka-core.git".to_string())),
    ]));
    let entries = table(vec![("subrepos", TomlValue::Array(vec![entry]))]);
    let from_table = resolve_table(&entries, CONFIG_PATH).unwrap();
    let from_text = resolve(
        "[[subrepos]]\npath = \"packages/taka-core\"\nremote = \"git@github.com:me/taka-core.git\"\n",
    )
    .unwrap();
    assert_eq!(from_table.len(), 1);
    assert_eq!(from_table[0].name, "taka-core");
    assert_eq!(from_table[0].name, from_text[0].name);
    assert_eq!(from_table[0].branch, "main");
    assert!(resolve_table(&Vec::new(), CONFIG_PATH).unwrap().is_empty());
}

#[test]
fn a_parsed_table_with_a_wrong_type_is_refused_under_the_header() {
    let entries = table(vec![("subrepos", TomlValue::Integer("3".to_string()))]);
    let message = resolve_table(&entries, CONFIG_PATH).unwrap_err().0;
    assert!(message.starts_with(&format!("Invalid config at {CONFIG_PATH}:")), "{message}");
    assert_eq!(message, err("subrepos = 3\n"));
}

#[test]
fn a_resolved_config_has_distinct_normalized_paths_and_consistent_branches() {
    let subrepos = resolve(
        "[[subrepos]]\npath = \"./packages/core/\"\nremote = \"r1\"\n\n[[subrepos]]\nname = \"web\"\npath = \"apps/site\"\nremote = \"r2\"\nbranch = \"dev\"\n\n[[subrepos]]\npath = \"vendor/lib\"\nremote = \"fork\"\nupstream = \"up\"\npush-branch = \"patches\"\n",
    )
    .unwrap();
    assert_eq!(subrepos.len(), 3);
    for (i, a) in subrepos.iter().enumerate() {
        assert!(!a.name.is_empty());
        assert!(!a.path.ends_with('/') && !a.path.starts_with("./"));
        assert_ne!(a.upstream.as_deref(), Some(a.remote.as_str()));
        if a.upstream.is_none() {
            assert_eq!(a.push_branch, a.branch);
        }
        for b in &subrepos[i + 1..] {
            assert_ne!(a.name, b.name);
            assert_ne!(a.path, b.path);
            assert!(!b.path.starts_with(&format!("{}/", a.path)));
            assert!(!a.path.starts_with(&format!("{}/", b.path)));
        }
    }
    assert!(err("[[subrepos]]\npath = \"a\"\nremote = \"r\"\n\n[[subrepos]]\npath = \"a/b\"\nremote = \"s\"\n").contains("may not nest"));
}

#[test]
fn type_errors_describe_the_value_as_serde_does() {
    let float = err("[[subrepos]]\npath = 3.0\nremote = \"r\"\n");
    assert!(float.contains("invalid type: floating point `3.0`, expected a string"), "{float}");
    let fraction = err("[[subrepos]]\npath = 2.5\nremote = \"r\"\n");
    assert!(fraction.contains("invalid type: floating point `2.5`, expected a string"), "{fraction}");
    let date = err("[[subrepos]]\npath = 1979-05-27\nremote = \"r\"\n");
    assert!(date.contains("invalid type: map, expected a string"), "{date}");
    let control = err("[[subrepos]]\npath = \"a\"\nremote = \"r\"\nexclude = \"a\\u007Fb\"\n");
    assert!(control.contains("invalid type: string \"a\\u{7f}b\", expected a sequence"), "{control}");
}

#[test]
fn the_first_problem_in_document_order_is_the_one_reported() {
    let message = err("[[subrepos]]\nremote = 1\npath = 2\n");
    assert!(message.contains("invalid type: integer `1`, expected a string"), "{message}");
    let message = err("[[subrepos]]\npath = 2\nremote = 1\n");
    assert!(message.contains("invalid type: integer `2`, expected a string"), "{message}");
}
