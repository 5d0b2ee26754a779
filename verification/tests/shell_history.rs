use mcfly::settings::HistoryFormat;
use mcfly::shell_history::{
    decode_history_bytes, delete_lines, full_history, has_leading_timestamp, history_file_text,
    last_history_line, unmetafy, without_last_search_entry, HistoryCommand, HistoryError,
};

#[test]
fn shell_history_has_leading_timestamp_works() {
    assert_eq!(false, has_leading_timestamp("abc"));
    assert_eq!(false, has_leading_timestamp("#abc"));
    assert_eq!(false, has_leading_timestamp("#123456"));
    assert_eq!(true, has_leading_timestamp("#1234567890"));
    assert_eq!(false, has_leading_timestamp("#123456789"));
    assert_eq!(false, has_leading_timestamp("# 1234567890"));
    assert_eq!(false, has_leading_timestamp("1234567890"));
    assert_eq!(false, has_leading_timestamp("hello 1234567890"));
}

fn commands(v: &[HistoryCommand]) -> Vec<(String, i64)> {
    v.iter().map(|c| (c.command.clone(), c.when)).collect()
}

#[test]
fn bash_history_is_read_line_by_line() {
    let text = "ls -la\n#1600000000\ngit status\n\necho hi\n";
    let v = full_history(text, HistoryFormat::Bash, 42).unwrap();
    assert_eq!(
        commands(&v),
        vec![("ls -la".to_string(), 42), ("git status".to_string(), 42), ("echo hi".to_string(), 42)]
    );
}

#[test]
fn zsh_extended_timestamps_are_stripped() {
    let text = ": 1600000000:0;make test\n: 1600000001:12;cargo build\nplain\n";
    let format = HistoryFormat::Zsh { extended_history: true };
    let v = full_history(text, format, 7).unwrap();
    assert_eq!(
        commands(&v),
        vec![("make test".to_string(), 7), ("cargo build".to_string(), 7), ("plain".to_string(), 7)]
    );
}

#[test]
fn fish_history_is_parsed() {
    let text = "- cmd: ls\n  when: 1600000000\n  paths:\n    - foo\n- cmd: echo a\n  when: 1600000005\n";
    let v = full_history(text, HistoryFormat::Fish, 0).unwrap();
    assert_eq!(
        commands(&v),
        vec![("ls".to_string(), 1600000000), ("echo a".to_string(), 1600000005)]
    );
}

#[test]
fn fish_history_errors() {
    match full_history("- cmd: ls\n  when: soon\n", HistoryFormat::Fish, 0) {
        Err(HistoryError::InvalidWhen(s)) => assert_eq!(s, "soon"),
        other => panic!("unexpected {:?}", other),
    }
    match full_history("  when: 12\n", HistoryFormat::Fish, 0) {
        Err(HistoryError::WhenWithoutCmd(w)) => assert_eq!(w, 12),
        other => panic!("unexpected {:?}", other),
    }
}

#[test]
fn last_history_line_is_trimmed() {
    let line = last_history_line("a\n  b c  \n", HistoryFormat::Bash, 0).unwrap();
    assert_eq!(line, Some("b c".to_string()));
    let none = last_history_line("\n\n", HistoryFormat::Bash, 0).unwrap();
    assert_eq!(none, None);
}

#[test]
fn entries_are_written_in_their_format() {
    let zsh = HistoryCommand::new("ls", 1600000000, HistoryFormat::Zsh { extended_history: true });
    assert_eq!(zsh.to_display_string(), ": 1600000000:0;ls");
    let fish = HistoryCommand::new("ls", -5, HistoryFormat::Fish);
    assert_eq!(fish.to_display_string(), "- cmd: ls\n  when: -5\n");
    let bash = HistoryCommand::new("ls", 3, HistoryFormat::Bash);
    assert_eq!(bash.to_display_string(), "ls");
    assert_eq!(history_file_text(&vec![bash]), "ls\n");
}

#[test]
fn fish_history_written_then_read_gives_the_same_entries() {
    let entries = vec![
        HistoryCommand::new("cargo test", 1700000000, HistoryFormat::Fish),
        HistoryCommand::new("echo -1", -9223372036854775808, HistoryFormat::Fish),
    ];
    let text = history_file_text(&entries);
    let back = full_history(&text, HistoryFormat::Fish, 0).unwrap();
    assert_eq!(commands(&back), commands(&entries));
}

#[test]
fn search_entries_are_removed() {
    let v = full_history("ls\n#1600000000\n#mcfly: git\n", HistoryFormat::Bash, 1).unwrap();
    let (rest, removed) = without_last_search_entry(v).unwrap().unwrap();
    assert_eq!(removed.command, "#mcfly: git");
    assert_eq!(commands(&rest), vec![("ls".to_string(), 1)]);
    let v = full_history("ls\n", HistoryFormat::Bash, 1).unwrap();
    assert!(without_last_search_entry(v).unwrap().is_none());
    let format = HistoryFormat::Zsh { extended_history: true };
    let v = full_history(": 1:0;ls\n: 2:0;#mcfly: x\n", format, 1).unwrap();
    assert!(without_last_search_entry(v).unwrap().is_some());
}

#[test]
fn deleting_lines_keeps_the_others() {
    let format = HistoryFormat::Zsh { extended_history: false };
    let v = full_history("ls\n: 12:0;rm x\nrm x\npwd\n", format, 1).unwrap();
    let text = delete_lines(v, "rm x").unwrap();
    assert_eq!(text, "ls\npwd\n");
}

#[test]
fn zsh_bytes_are_unmetafied() {
    assert_eq!(unmetafy(&vec![b'a', 0x83, b'b' ^ 32, b'c']), vec![b'a', b'b', b'c']);
    assert_eq!(unmetafy(&vec![0x83, 0x83, b'x']), vec![b'x']);
    assert_eq!(unmetafy(&vec![]), Vec::<u8>::new());
    let text = decode_history_bytes(&vec![b'l', 0x83, b's' ^ 32, b'\n'], HistoryFormat::Zsh { extended_history: false });
    assert_eq!(text, "ls\n");
    let lossy = decode_history_bytes(&vec![0xff, b'a'], HistoryFormat::Bash);
    assert_eq!(lossy, "\u{fffd}a");
}
