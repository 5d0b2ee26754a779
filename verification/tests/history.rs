use mcfly::history::{is_ignored_command, moved_paths, padded_templates, path_update, should_add};
use mcfly::init::Init;
use mcfly::settings::InitMode;

#[test]
fn commands_that_are_not_recorded() {
    assert!(!should_add("", None));
    assert!(!should_add("#mcfly: ls", None));
    assert!(!should_add(" secret", None));
    assert!(!should_add("cd ..", None));
    assert!(!should_add("git status", Some("git status")));
    assert!(should_add("git status", Some("git push")));
    assert!(should_add("make", None));
    assert!(is_ignored_command("mcfly search"));
    assert!(!is_ignored_command("mcfly"));
}

#[test]
fn moves_are_recognised() {
    assert_eq!(
        moved_paths("mv foo bar", None),
        Some(("foo".to_string(), "bar".to_string()))
    );
    assert_eq!(
        moved_paths("MV -v foo bar", Some(0)),
        Some(("foo".to_string(), "bar".to_string()))
    );
    assert_eq!(moved_paths("mv foo bar", Some(1)), None);
    assert_eq!(moved_paths("mv *.txt dir", None), None);
    assert_eq!(moved_paths("mv a b c", None), None);
    assert_eq!(moved_paths("cp a b", None), None);
}

#[test]
fn path_updates() {
    let u = path_update("/old/dir", "/new").unwrap();
    assert_eq!(u.like_query, "/old/dir/%");
    assert_eq!(u.length, 9);
    assert!(path_update("/", "/new").is_none());
    assert!(path_update("/old", "/").is_none());
}

#[test]
fn templates_are_padded() {
    assert_eq!(
        padded_templates(vec!["ls".to_string()], 3),
        vec!["ls".to_string(), String::new(), String::new()]
    );
    assert_eq!(padded_templates(vec!["a".to_string(), "b".to_string()], 1).len(), 2);
}

#[test]
fn init_chooses_the_shell() {
    assert!(matches!(Init::new(&InitMode::Fish).shell, InitMode::Fish));
}
