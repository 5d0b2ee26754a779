use mcfly::cli;
use mcfly::settings::{
    add_mode_dir, command_from_words, fuzzy_setting, history_format_from_cli, history_limit_setting,
    init_mode_from_cli, interface_view_setting, is_env_var_truthy, key_scheme_setting,
    prompt_setting, result_filter_setting, setting_with_fallback, result_sort_setting, results_setting,
    search_command_from_last_line, HistoryFormat, InitMode, InterfaceView, KeyScheme,
    ResultFilter, ResultSort, TimeRange,
};

#[test]
fn truthy_values() {
    assert!(is_env_var_truthy(Some("TRUE")));
    assert!(is_env_var_truthy(Some("1")));
    assert!(is_env_var_truthy(Some("")));
    for v in ["F", "f", "false", "False", "FALSE", "0"] {
        assert!(!is_env_var_truthy(Some(v)));
    }
    assert!(!is_env_var_truthy(None));
}

#[test]
fn views_sorts_filters_and_keys() {
    assert_eq!(interface_view_setting(Some("bottom")), InterfaceView::Bottom);
    assert_eq!(interface_view_setting(Some("TOP")), InterfaceView::Top);
    assert_eq!(interface_view_setting(Some("side")), InterfaceView::Top);
    assert_eq!(interface_view_setting(None), InterfaceView::Top);
    assert_eq!(result_sort_setting(Some("last_run")), ResultSort::LastRun);
    assert_eq!(result_sort_setting(Some("RANK")), ResultSort::Rank);
    assert_eq!(result_filter_setting(Some("current_directory")), ResultFilter::CurrentDirectory);
    assert_eq!(result_filter_setting(None), ResultFilter::Global);
    assert_eq!(key_scheme_setting(Some("vim")), KeyScheme::Vim);
    assert_eq!(key_scheme_setting(Some("VIM")), KeyScheme::Emacs);
}

#[test]
fn numbers_from_the_environment() {
    assert_eq!(results_setting(Some("50"), None, 10), 50);
    assert_eq!(results_setting(Some("x"), None, 10), 10);
    assert_eq!(results_setting(Some("70000"), None, 10), 10);
    assert_eq!(results_setting(Some("50"), Some(3), 10), 3);
    assert_eq!(fuzzy_setting(Some("2"), None, 0), 2);
    assert_eq!(fuzzy_setting(Some("-4"), None, 0), -4);
    assert_eq!(fuzzy_setting(Some("FALSE"), None, 0), 0);
    assert_eq!(fuzzy_setting(Some("yes"), None, 0), 2);
    assert_eq!(fuzzy_setting(Some("yes"), Some(5), 0), 5);
    assert_eq!(history_limit_setting(Some("10000")), Some(10000));
    assert_eq!(history_limit_setting(Some("+7")), Some(7));
    assert_eq!(history_limit_setting(Some(" 7")), None);
    assert_eq!(history_limit_setting(Some("9223372036854775808")), None);
    assert_eq!(history_limit_setting(Some("-9223372036854775808")), Some(i64::MIN));
    assert_eq!(history_limit_setting(None), None);
}

#[test]
fn prompts_are_single_characters() {
    assert_eq!(prompt_setting(Some("❯"), "$"), "❯");
    assert_eq!(prompt_setting(Some("<str>"), "$"), "$");
    assert_eq!(prompt_setting(None, "$"), "$");
}

#[test]
fn directory_changes_are_recorded_where_they_started() {
    assert_eq!(add_mode_dir("cd /tmp", "/tmp", Some("/home")), "/home");
    assert_eq!(add_mode_dir("pushd x", "/x", None), "/x");
    assert_eq!(add_mode_dir("j proj", "/p", Some("/q")), "/q");
    assert_eq!(add_mode_dir("ls", "/x", Some("/y")), "/x");
}

#[test]
fn search_text_and_words() {
    assert_eq!(search_command_from_last_line(Some("#mcfly: git")), "git");
    assert_eq!(search_command_from_last_line(Some("#mcfly:#mcfly: git")), " git");
    assert_eq!(search_command_from_last_line(Some("#mcfly: #mcfly: ls")), "ls");
    assert_eq!(search_command_from_last_line(None), "");
    assert_eq!(
        command_from_words(&vec!["git".to_string(), "commit".to_string()]),
        "git commit"
    );
}

#[test]
fn command_line_choices() {
    assert_eq!(history_format_from_cli(cli::HistoryFormat::ZshExtended), HistoryFormat::Zsh { extended_history: true });
    assert_eq!(history_format_from_cli(cli::HistoryFormat::Fish), HistoryFormat::Fish);
    assert_eq!(init_mode_from_cli(cli::InitMode::Powershell), InitMode::Powershell);
    assert_eq!(cli::SortOrder::Desc.to_str(), "DESC");
    assert_eq!(cli::SortOrder::default().to_str(), "ASC");
    assert_eq!(cli::DumpFormat::default(), cli::DumpFormat::Json);
    assert_eq!(cli::HistoryFormat::default(), cli::HistoryFormat::Bash);
}

#[test]
fn time_ranges() {
    assert!(TimeRange::default().is_full());
    assert!(!TimeRange { since: Some(1), before: None }.is_full());
}

#[test]
fn command_line_values_come_before_the_environment() {
    assert_eq!(setting_with_fallback(Some("cli"), Some("env"), false), "cli");
    assert_eq!(setting_with_fallback(None, Some("env"), false), "env");
    assert_eq!(setting_with_fallback(None, None, true), "");
}
