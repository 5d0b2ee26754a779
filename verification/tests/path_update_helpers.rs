use mcfly::path_update_helpers::{is_usable_cwd, normalize_path, parse_mv_command};
use std::path::PathBuf;

fn home() -> String {
    String::from("/home/tester")
}

#[test]
fn path_update_helpers_normalize_path_works_absolute_paths() {
    let h = home();
    assert_eq!(normalize_path("/foo/bar/baz", Some(&h), "/tmp"), String::from("/foo/bar/baz"));
    assert_eq!(normalize_path("/", Some(&h), "/tmp"), String::from("/"));
    assert_eq!(normalize_path("////", Some(&h), "/tmp"), String::from("/"));
}

#[test]
fn path_update_helpers_normalize_path_works_with_tilda() {
    let h = home();
    assert_eq!(normalize_path("~/", Some(&h), "/tmp"), h);
    assert_eq!(
        normalize_path("~/foo", Some(&h), "/tmp"),
        PathBuf::from(&h).join("foo").to_string_lossy()
    );
}

#[test]
fn path_update_helpers_normalize_path_works_with_double_dots() {
    let h = home();
    assert_eq!(normalize_path("/foo/bar/../baz", Some(&h), "/tmp"), String::from("/foo/baz"));
    assert_eq!(normalize_path("/foo/bar/../../baz", Some(&h), "/tmp"), String::from("/baz"));
    assert_eq!(normalize_path("/foo/bar/../../", Some(&h), "/tmp"), String::from("/"));
    assert_eq!(normalize_path("/foo/bar/../..", Some(&h), "/tmp"), String::from("/"));
    assert_eq!(
        normalize_path("~/foo/bar/../baz", Some(&h), "/tmp"),
        PathBuf::from(&h).join("foo/baz").to_string_lossy()
    );
    assert_eq!(normalize_path("~/foo/bar/../..", Some(&h), "/tmp"), h);
}

#[test]
fn normalize_path_uses_the_working_directory_and_no_home() {
    assert_eq!(normalize_path("foo/../bar", None, "/work/dir"), String::from("/work/dir/bar"));
    assert_eq!(normalize_path("~/foo", None, "/work"), String::from("/work/~/foo"));
    assert_eq!(normalize_path("~other/x", Some("/home/me"), "/w"), String::from("/w/~other/x"));
}

#[test]
fn parse_mv_command_works_in_the_basic_case() {
    assert_eq!(
        parse_mv_command("mv foo bar"),
        vec!["foo".to_string(), "bar".to_string()]
    );
}

#[test]
fn parse_mv_command_works_with_options() {
    assert_eq!(
        parse_mv_command("mv -v foo bar"),
        vec!["foo".to_string(), "bar".to_string()]
    );
}

#[test]
fn parse_mv_command_works_with_escaped_strings() {
    assert_eq!(
        parse_mv_command("mv \"foo baz\" 'bar bing'"),
        vec!["foo baz".to_string(), "bar bing".to_string()]
    );
    assert_eq!(
        parse_mv_command("mv -v \"foo\" 'bar'"),
        vec!["foo".to_string(), "bar".to_string()]
    );
}

#[test]
fn parse_mv_command_works_with_escaping() {
    assert_eq!(
        parse_mv_command("mv \\foo bar"),
        vec!["foo".to_string(), "bar".to_string()]
    );
    assert_eq!(
        parse_mv_command("mv foo\\ bar bing"),
        vec!["foo bar".to_string(), "bing".to_string()]
    );
    assert_eq!(
        parse_mv_command("mv \"foo\\ bar\" bing"),
        vec!["foo bar".to_string(), "bing".to_string()]
    );
    assert_eq!(
        parse_mv_command("mv \"'foo\\' bar\" bing"),
        vec!["'foo' bar".to_string(), "bing".to_string()]
    );
    assert_eq!(
        parse_mv_command("mv \"\\\"foo\" bar"),
        vec!["\"foo".to_string(), "bar".to_string()]
    );
}

#[test]
fn parse_mv_command_edge_cases() {
    assert_eq!(parse_mv_command(""), Vec::<String>::new());
    assert_eq!(parse_mv_command("mv"), Vec::<String>::new());
    assert_eq!(parse_mv_command("mv  a   b "), vec!["a".to_string(), "b".to_string()]);
    assert_eq!(parse_mv_command("mv '' b"), vec!["b".to_string()]);
}

#[test]
fn usable_current_directories() {

    assert!(is_usable_cwd("/"));
    assert!(is_usable_cwd("/home/tester"));
    assert!(is_usable_cwd("/./a/"));
    assert!(!is_usable_cwd(""));
    assert!(!is_usable_cwd("relative/dir"));
    assert!(!is_usable_cwd("//"));
    assert!(!is_usable_cwd("/./"));
}
