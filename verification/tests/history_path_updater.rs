use mcfly::history_path_updater::{lookup_var, normalize_path, try_normalize_path};
use std::path::PathBuf;

const HOME: &str = "/home/tester";

fn normalized(path: &str) -> PathBuf {
    PathBuf::from(normalize_path(path, Some(HOME), &vec![], "/work"))
}

#[test]
fn history_path_updater_normalize_path_works_absolute_paths() {
    assert_eq!(normalized("/foo/bar/baz"), PathBuf::from("/foo/bar/baz"));
    assert_eq!(normalized("/"), PathBuf::from("/"));
    assert_eq!(normalized("////"), PathBuf::from("/"));
}

#[test]
fn history_path_updater_normalize_path_works_with_tilda() {
    assert_eq!(normalized("~/"), PathBuf::from(HOME));
    assert_eq!(normalized("~/foo"), PathBuf::from(format!("{HOME}/foo")));
}

#[test]
fn history_path_updater_normalize_path_works_with_double_dots() {
    assert_eq!(normalized("/foo/bar/../baz"), PathBuf::from("/foo/baz"));
    assert_eq!(normalized("/foo/bar/../../baz"), PathBuf::from("/baz"));
    assert_eq!(normalized("/foo/bar/../../"), PathBuf::from("/"));
    assert_eq!(normalized("/foo/bar/../.."), PathBuf::from("/"));
    assert_eq!(normalized("~/foo/bar/../baz"), PathBuf::from(format!("{HOME}/foo/baz")));
    assert_eq!(normalized("~/foo/bar/../.."), PathBuf::from(HOME));
}

#[test]
fn relative_paths_are_joined_to_the_current_directory() {
    assert_eq!(normalized("foo/../bar"), PathBuf::from("/work/bar"));
    assert_eq!(normalized("."), PathBuf::from("/work"));
}

#[test]
fn variables_are_expanded_from_the_given_environment() {
    let vars = vec![(String::from("PROJECT"), String::from("/src/app"))];
    assert_eq!(
        PathBuf::from(normalize_path("$PROJECT/lib/..", None, &vars, "/")),
        PathBuf::from("/src/app")
    );
    assert_eq!(lookup_var(&vars, "PROJECT"), Some(String::from("/src/app")));
    assert_eq!(lookup_var(&vars, "OTHER"), None);
}

#[test]
fn unset_variables_are_refused() {
    assert_eq!(try_normalize_path("$MISSING/x", None, &vec![], "/"), None);
    assert_eq!(
        try_normalize_path("/x/./y", None, &vec![], "/").map(PathBuf::from),
        Some(PathBuf::from("/x/y"))
    );
}
