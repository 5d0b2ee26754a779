use mcfly::interface::selection_output;
use mcfly::command_input::CommandInput;
use mcfly::interface::{
    command_line_index, info_line_index, prompt_line_index, result_top_index, selection_result,
    Effect, Event, InterfaceConfig, InterfaceState, KeyCode, KeyEvent, MenuMode, ALT, CONTROL,
};
use mcfly::settings::{InterfaceView, KeyScheme, ResultFilter, ResultSort};

fn config(key_scheme: KeyScheme) -> InterfaceConfig {
    InterfaceConfig {
        key_scheme,
        disable_run_command: false,
        delete_without_confirm: false,
        interface_view: InterfaceView::Top,
    }
}

fn state(command: &str) -> InterfaceState {
    let mut s = InterfaceState::new(command, ResultSort::Rank, ResultFilter::Global);
    s.set_matches(vec!["git status".to_string(), "git push".to_string()]);
    s
}

fn key(code: KeyCode) -> Event {
    Event::Key(KeyEvent { code, modifiers: 0, is_press: true })
}

fn ctrl(c: char) -> Event {
    Event::Key(KeyEvent { code: KeyCode::Char(c), modifiers: CONTROL, is_press: true })
}

#[test]
fn typing_refreshes_the_matches() {
    let cfg = config(KeyScheme::Emacs);
    let mut s = state("gi");
    s.selection = 1;
    let out = s.handle_event(&cfg, key(KeyCode::Char('t')));
    assert!(!out.done);
    assert_eq!(out.effect, Effect::RefreshMatches);
    assert_eq!(s.input.command, "git");
    assert_eq!(s.selection, 0);
}

#[test]
fn enter_accepts_the_selection_and_runs() {
    let cfg = config(KeyScheme::Emacs);
    let mut s = state("git");
    s.handle_event(&cfg, key(KeyCode::Down));
    assert_eq!(s.selection, 1);
    let out = s.handle_event(&cfg, key(KeyCode::Enter));
    assert!(out.done);
    assert!(s.run);
    assert_eq!(s.input.command, "git push");
    let r = selection_result(&s.input.command, s.run, vec![]);
    assert_eq!(r.selection, Some("git push".to_string()));
}

#[test]
fn tab_edits_and_escape_abandons() {
    let cfg = config(KeyScheme::Emacs);
    let mut s = state("git");
    let out = s.handle_event(&cfg, key(KeyCode::Tab));
    assert!(out.done);
    assert!(!s.run);
    assert_eq!(s.input.command, "git status");
    let mut t = state("git");
    let out = t.handle_event(&cfg, key(KeyCode::Esc));
    assert!(out.done);
    assert_eq!(t.input.command, "");
    assert!(selection_result(&t.input.command, t.run, vec![]).selection.is_none());
}

#[test]
fn disabled_running_never_runs() {
    let mut cfg = config(KeyScheme::Emacs);
    cfg.disable_run_command = true;
    let mut s = state("git");
    s.handle_event(&cfg, key(KeyCode::Enter));
    assert!(!s.run);
}

#[test]
fn deletion_asks_for_confirmation() {
    let cfg = config(KeyScheme::Emacs);
    let mut s = state("git");
    let out = s.handle_event(&cfg, key(KeyCode::F(2)));
    assert_eq!(out.effect, Effect::Nothing);
    assert_eq!(s.menu_mode, MenuMode::ConfirmDelete);
    let out = s.handle_event(&cfg, key(KeyCode::Char('y')));
    assert_eq!(out.effect, Effect::DeleteSelection);
    assert_eq!(s.menu_mode, MenuMode::Normal);
    s.handle_event(&cfg, key(KeyCode::F(2)));
    let out = s.handle_event(&cfg, key(KeyCode::Char('n')));
    assert_eq!(out.effect, Effect::Nothing);
    assert_eq!(s.menu_mode, MenuMode::Normal);
    let mut direct = config(KeyScheme::Emacs);
    direct.delete_without_confirm = true;
    let out = s.handle_event(&direct, key(KeyCode::F(2)));
    assert_eq!(out.effect, Effect::DeleteSelection);
}

#[test]
fn function_keys_switch_sort_and_filter() {
    let cfg = config(KeyScheme::Emacs);
    let mut s = state("");
    s.handle_event(&cfg, key(KeyCode::F(1)));
    assert_eq!(s.result_sort, ResultSort::LastRun);
    let out = s.handle_event(&cfg, key(KeyCode::F(3)));
    assert_eq!(out.effect, Effect::RebuildAndRefresh);
    assert_eq!(s.result_filter, ResultFilter::CurrentDirectory);
    s.handle_event(&cfg, key(KeyCode::F(1)));
    s.handle_event(&cfg, key(KeyCode::F(3)));
    assert_eq!(s.result_sort, ResultSort::Rank);
    assert_eq!(s.result_filter, ResultFilter::Global);
}

#[test]
fn emacs_control_keys_edit() {
    let cfg = config(KeyScheme::Emacs);
    let mut s = state("abc");
    s.handle_event(&cfg, ctrl('a'));
    assert_eq!(s.input.cursor, 0);
    s.handle_event(&cfg, ctrl('k'));
    assert_eq!(s.input.command, "");
    let mut t = state("abc");
    t.handle_event(&cfg, ctrl('h'));
    assert_eq!(t.input.command, "ab");
    t.handle_event(&cfg, ctrl('v'));
    assert!(t.debug);
    t.handle_event(&cfg, Event::Paste("xy".to_string()));
    assert_eq!(t.input.command, "abxy");
    let released = Event::Key(KeyEvent { code: KeyCode::Char('z'), modifiers: 0, is_press: false });
    t.handle_event(&cfg, released);
    assert_eq!(t.input.command, "abxy");
    let alt_b = Event::Key(KeyEvent { code: KeyCode::Char('b'), modifiers: ALT, is_press: true });
    t.handle_event(&cfg, alt_b);
    assert_eq!(t.input.cursor, 4);
}

#[test]
fn vim_modes() {
    let cfg = config(KeyScheme::Vim);
    let mut s = state("abc");
    s.handle_event(&cfg, key(KeyCode::Char('h')));
    assert_eq!(s.input.command, "abch");
    s.handle_event(&cfg, key(KeyCode::Esc));
    assert!(!s.in_vim_insert_mode);
    s.handle_event(&cfg, key(KeyCode::Char('0')));
    assert_eq!(s.input.cursor, 0);
    s.handle_event(&cfg, key(KeyCode::Char('x')));
    assert_eq!(s.input.command, "bch");
    s.handle_event(&cfg, key(KeyCode::Char('j')));
    assert_eq!(s.selection, 1);
    s.handle_event(&cfg, key(KeyCode::Char('i')));
    assert!(s.in_vim_insert_mode);
    let out = s.handle_event(&cfg, ctrl('c'));
    assert!(out.done);
    assert_eq!(s.input.command, "");
}

#[test]
fn bottom_view_reverses_selection_moves() {
    let mut cfg = config(KeyScheme::Emacs);
    cfg.interface_view = InterfaceView::Bottom;
    let mut s = state("");
    s.handle_event(&cfg, key(KeyCode::Up));
    assert_eq!(s.selection, 1);
    s.handle_event(&cfg, key(KeyCode::Up));
    assert_eq!(s.selection, 2);
    s.clamp_selection();
    assert_eq!(s.selection, 1);
    s.handle_event(&cfg, key(KeyCode::Down));
    assert_eq!(s.selection, 0);
    s.handle_event(&cfg, key(KeyCode::Down));
    assert_eq!(s.selection, 0);
}

#[test]
fn menu_text_and_layout() {
    let cfg = config(KeyScheme::Emacs);
    let s = state("");
    assert_eq!(
        MenuMode::Normal.text(&s, &cfg),
        "McFly | ESC - Exit | ⏎ - Run | TAB - Edit | F1 - Rank Sort | F2 - Delete | F3 - All Directories"
    );
    assert_eq!(
        MenuMode::ConfirmDelete.text(&s, &cfg),
        "Delete selected command from the history? (Y/N)"
    );
    let vim = config(KeyScheme::Vim);
    assert!(MenuMode::Normal.text(&s, &vim).starts_with("McFly (Ins) | ESC - Cmd | "));
    assert_eq!(result_top_index(false, 40), 5);
    assert_eq!(result_top_index(true, 40), 35);
    assert_eq!(prompt_line_index(true, 40), 37);
    assert_eq!(info_line_index(true, 40), 40);
    assert_eq!(info_line_index(false, 40), 1);
    assert_eq!(command_line_index(true, 3), -3);
    assert_eq!(command_line_index(false, 3), 3);
    let _ = CommandInput::from("");
}

#[test]
fn blank_selection_is_none() {
    let r = selection_result(" \t\u{3000}", true, vec!["x".to_string()]);
    assert!(r.selection.is_none());
    assert!(r.run);
    assert_eq!(r.delete_requests, vec!["x".to_string()]);
}

#[test]
fn selection_output_lists_mode_command_and_deletions() {
    assert_eq!(
        selection_output(true, "ls -la", &vec![String::from("rm x"), String::from("rm y")]),
        "mode run\ncommandline ls -la\ndelete rm x\ndelete rm y\n"
    );
    assert_eq!(selection_output(false, "git", &vec![]), "mode display\ncommandline git\n");
}
