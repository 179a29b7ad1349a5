use nsh::alias::{parse_alias, AliasStore};
use nsh::shift;
use nsh::status::ExitStatus;

fn strings(v: &[&str]) -> Vec<String> {
    v.iter().map(|s| s.to_string()).collect()
}

#[test]
fn parse_alias_splits_name_and_words() {
    let alias = parse_alias("ll=ls -la").unwrap();
    assert_eq!(alias.name, "ll");
    assert_eq!(alias.words, strings(&["ls", "-la"]));
}

#[test]
fn parse_alias_rejects_missing_equals_and_empty_name() {
    assert!(parse_alias("noequals").is_err());
    assert!(parse_alias("=x").is_err());
    assert!(parse_alias("").is_err());
}

#[test]
fn parse_alias_skips_repeated_spaces() {
    let alias = parse_alias("g=git  status").unwrap();
    assert_eq!(alias.words, strings(&["git", "status"]));
}

#[test]
fn later_definition_overwrites_earlier_one() {
    let mut store = AliasStore::new();
    store.add_alias("foo=bar");
    store.add_alias("foo=baz");
    assert_eq!(store.lookup_alias("foo"), Some(strings(&["baz"])));
}

#[test]
fn lookup_is_exact_match() {
    let mut store = AliasStore::new();
    store.add_alias("foo=bar");
    assert_eq!(store.lookup_alias("foo"), Some(strings(&["bar"])));
    assert_eq!(store.lookup_alias("fo"), None);
    assert_eq!(store.lookup_alias("foox"), None);
}

#[test]
fn failed_parse_is_silently_ignored() {
    let mut store = AliasStore::new();
    store.add_alias("foo=bar");
    store.add_alias("nonsense");
    assert_eq!(store.lookup_alias("foo"), Some(strings(&["bar"])));
    assert_eq!(store.lookup_alias("nonsense"), None);
}

#[test]
fn alias_command_defines_from_first_argument() {
    let mut store = AliasStore::new();
    let status = store.alias_command(&strings(&["alias", "ll=ls -la"]));
    assert_eq!(status, ExitStatus::ExitedWith(0));
    assert_eq!(store.lookup_alias("ll"), Some(strings(&["ls", "-la"])));
}

#[test]
fn alias_command_without_argument_changes_nothing() {
    let mut store = AliasStore::new();
    let status = store.alias_command(&strings(&["alias"]));
    assert_eq!(status, ExitStatus::ExitedWith(0));
    assert_eq!(store.lookup_alias("alias"), None);
}

#[test]
fn shift_drops_one_parameter_by_default() {
    let mut params = strings(&["a", "b", "c"]);
    let status = shift::command(&mut params, Ok(None));
    assert_eq!(status, ExitStatus::ExitedWith(0));
    assert_eq!(params, strings(&["b", "c"]));
}

#[test]
fn shift_drops_n_parameters_and_renumbers() {
    let mut params = strings(&["a", "b", "c"]);
    let status = shift::command(&mut params, Ok(Some(2)));
    assert_eq!(status, ExitStatus::ExitedWith(0));
    assert_eq!(params, strings(&["c"]));
}

#[test]
fn shift_past_the_end_leaves_nothing() {
    let mut params = strings(&["a", "b"]);
    let status = shift::command(&mut params, Ok(Some(5)));
    assert_eq!(status, ExitStatus::ExitedWith(0));
    assert_eq!(params, Vec::<String>::new());
}

#[test]
fn malformed_shift_arguments_report_usage_error() {
    let mut params = strings(&["a", "b"]);
    let status = shift::command(&mut params, Err(()));
    assert_eq!(status, ExitStatus::ExitedWith(1));
    assert_eq!(params, strings(&["a", "b"]));
}
