use mcfly::bash_history::{
    delete_last_history_entry_if_search, delete_lines, full_history, has_leading_timestamp,
    last_history_line,
};

#[test]
fn bash_history_has_leading_timestamp_works() {
    assert_eq!(false, has_leading_timestamp("abc"));
    assert_eq!(false, has_leading_timestamp("#abc"));
    assert_eq!(false, has_leading_timestamp("#123456"));
    assert_eq!(true, has_leading_timestamp("#1234567890"));
    assert_eq!(false, has_leading_timestamp("#123456789"));
    assert_eq!(false, has_leading_timestamp("# 1234567890"));
    assert_eq!(false, has_leading_timestamp("1234567890"));
    assert_eq!(false, has_leading_timestamp("hello 1234567890"));
}

#[test]
fn bash_full_history_skips_timestamps_and_blank_lines() {
    assert_eq!(
        full_history("#1600000000\nls\n\ncd /tmp\n"),
        vec!["ls".to_string(), "cd /tmp".to_string()]
    );
    assert_eq!(last_history_line("ls\n cd /tmp \n"), Some("cd /tmp".to_string()));
    assert_eq!(last_history_line(""), None);
}

#[test]
fn bash_search_entry_is_deleted() {
    assert_eq!(
        delete_last_history_entry_if_search("ls\n#1600000000\n#mcfly: foo\n"),
        Some("ls\n".to_string())
    );
    assert_eq!(delete_last_history_entry_if_search("ls\npwd\n"), None);
    assert_eq!(delete_last_history_entry_if_search(""), None);
}

#[test]
fn bash_lines_are_deleted() {
    assert_eq!(delete_lines("ls\nrm x\npwd\nrm x", "rm x"), "ls\npwd");
    assert_eq!(delete_lines("", "x"), "");
}
