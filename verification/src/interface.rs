use crate::command_input::{
    after_delete, after_insert, cluster_count, moved_cursor, CommandInput, Move, WordLocation,
};
use crate::settings::{InterfaceView, KeyScheme, ResultFilter, ResultSort};
use crate::text::{char_is_whitespace, chars_of, is_white_space};
use vstd::prelude::*;

verus! {

/// What the user chose in the search interface.
pub struct SelectionResult {
    /// Whether the user requested to run the resulting command immediately.
    pub run: bool,
    /// The command string the user selected, if any.
    pub selection: Option<String>,
    /// Commands the user has requested be deleted from shell history.
    pub delete_requests: Vec<String>,
}

pub enum MoveSelection {
    Up,
    Down,
}

#[derive(Debug, Clone, Copy, PartialEq, Eq, Structural)]
pub enum MenuMode {
    Normal,
    ConfirmDelete,
}

/// A key, as the terminal reports it.
#[derive(Debug, Clone, Copy, PartialEq, Eq, Structural)]
pub enum KeyCode {
    Backspace,
    Enter,
    Left,
    Right,
    Up,
    Down,
    Home,
    End,
    PageUp,
    PageDown,
    Tab,
    Delete,
    Esc,
    F(u8),
    Char(char),
    Other,
}

/// The modifier bit of the shift key.
pub const SHIFT: u8 = 1;

/// The modifier bit of the control key.
pub const CONTROL: u8 = 2;

/// The modifier bit of the alt key.
pub const ALT: u8 = 4;

/// A key press (or repeat or release) with the modifier keys held, as bits.
#[derive(Debug, Clone, Copy, PartialEq, Eq, Structural)]
pub struct KeyEvent {
    pub code: KeyCode,
    pub modifiers: u8,
    pub is_press: bool,
}

/// An input event of the terminal.
pub enum Event {
    Key(KeyEvent),
    Paste(String),
    Other,
}

/// What the interface has to do after an event, besides the state change.
#[derive(Debug, Clone, Copy, PartialEq, Eq, Structural)]
pub enum Effect {
    Nothing,
    /// Search the history again for the current input.
    RefreshMatches,
    /// Rebuild the ranking table (the filter changed), then search again.
    RebuildAndRefresh,
    /// Delete the selected command from the history, rebuild the table and search again
    /// without moving the selection.
    DeleteSelection,
}

/// The outcome of one event: whether the interface is done, and what to do.
#[derive(Debug, Clone, Copy, PartialEq, Eq, Structural)]
pub struct EventOutcome {
    pub done: bool,
    pub effect: Effect,
}

/// The settings that the interface reads while handling events.
#[derive(Debug, Clone, Copy, PartialEq, Eq, Structural)]
pub struct InterfaceConfig {
    pub key_scheme: KeyScheme,
    pub disable_run_command: bool,
    pub delete_without_confirm: bool,
    pub interface_view: InterfaceView,
}

/// The state of the search interface that key handling changes.
pub struct InterfaceState {
    pub input: CommandInput,
    pub selection: usize,
    /// The commands of the current matches, best first.
    pub matches: Vec<String>,
    pub debug: bool,
    pub run: bool,
    pub menu_mode: MenuMode,
    pub in_vim_insert_mode: bool,
    pub result_sort: ResultSort,
    pub result_filter: ResultFilter,
}

/// The interface state as values.
pub ghost struct UiModel {
    pub command: Seq<char>,
    pub cursor: int,
    pub selection: int,
    pub matches: Seq<Seq<char>>,
    pub debug: bool,
    pub run: bool,
    pub menu_mode: MenuMode,
    pub insert_mode: bool,
    pub sort: ResultSort,
    pub filter: ResultFilter,
}

pub open spec fn with_input(m: UiModel, p: (Seq<char>, int)) -> UiModel {
    UiModel { command: p.0, cursor: p.1, ..m }
}

pub open spec fn moved(m: UiModel, d: Move) -> UiModel {
    with_input(m, (m.command, moved_cursor(m.cursor, cluster_count(m.command), d)))
}

pub open spec fn deleted(m: UiModel, d: Move) -> UiModel {
    with_input(m, after_delete(m.command, m.cursor, d))
}

pub open spec fn inserted(m: UiModel, c: char) -> UiModel {
    with_input(m, after_insert(m.command, m.cursor, c))
}

/// The input after pasting `cs`, one character at a time.
pub open spec fn pasted_input(command: Seq<char>, cursor: int, cs: Seq<char>) -> (Seq<char>, int)
    decreases cs.len(),
{
    if cs.len() == 0 {
        (command, cursor)
    } else {
        let p = pasted_input(command, cursor, cs.drop_last());
        after_insert(p.0, p.1, cs.last())
    }
}

/// The selected match becomes the input, with the cursor at its end.
pub open spec fn accepted(m: UiModel) -> UiModel {
    if m.matches.len() > 0 {
        with_input(m, (m.matches[m.selection], cluster_count(m.matches[m.selection])))
    } else {
        m
    }
}

pub open spec fn cleared(m: UiModel) -> UiModel {
    with_input(m, (Seq::empty(), m.cursor))
}

pub open spec fn refreshed(m: UiModel) -> UiModel {
    UiModel { selection: 0, ..m }
}

/// The selection after moving `up` (or down); in the bottom view the list grows upwards.
pub open spec fn selection_moved(m: UiModel, up: bool, bottom: bool) -> UiModel {
    let s = m.selection;
    let ns = if up == bottom {
        s + 1
    } else if s > 0 {
        s - 1
    } else {
        s
    };
    UiModel { selection: ns, ..m }
}

pub open spec fn quiet(m: UiModel) -> (UiModel, bool, Effect) {
    (m, false, Effect::Nothing)
}

pub open spec fn edited(m: UiModel) -> (UiModel, bool, Effect) {
    (refreshed(m), false, Effect::RefreshMatches)
}

pub open spec fn toggled_sort(s: ResultSort) -> ResultSort {
    match s {
        ResultSort::Rank => ResultSort::LastRun,
        ResultSort::LastRun => ResultSort::Rank,
    }
}

pub open spec fn toggled_filter(f: ResultFilter) -> ResultFilter {
    match f {
        ResultFilter::Global => ResultFilter::CurrentDirectory,
        ResultFilter::CurrentDirectory => ResultFilter::Global,
    }
}

/// F1, F2 and F3: switch the sort, ask to delete the selection, switch the filter.
pub open spec fn function_key(m: UiModel, cfg: InterfaceConfig, n: u8) -> (UiModel, bool, Effect) {
    if n == 1 {
        edited(UiModel { sort: toggled_sort(m.sort), ..m })
    } else if n == 2 {
        if m.matches.len() > 0 {
            if cfg.delete_without_confirm {
                (m, false, Effect::DeleteSelection)
            } else {
                quiet(UiModel { menu_mode: MenuMode::ConfirmDelete, ..m })
            }
        } else {
            quiet(m)
        }
    } else if n == 3 {
        (
            refreshed(UiModel { filter: toggled_filter(m.filter), ..m }),
            false,
            Effect::RebuildAndRefresh,
        )
    } else {
        quiet(m)
    }
}

pub open spec fn is_bottom(cfg: InterfaceConfig) -> bool {
    cfg.interface_view == InterfaceView::Bottom
}

/// Enter (run unless running is disabled) or Tab (edit): the selection is accepted.
pub open spec fn finished(m: UiModel, run: bool) -> (UiModel, bool, Effect) {
    (accepted(UiModel { run, ..m }), true, Effect::Nothing)
}

/// Leaving without a selection.
pub open spec fn aborted(m: UiModel) -> (UiModel, bool, Effect) {
    (cleared(UiModel { run: false, ..m }), true, Effect::Nothing)
}

/// A key in the emacs key scheme.
pub open spec fn emacs_key(m: UiModel, cfg: InterfaceConfig, k: KeyEvent) -> (UiModel, bool, Effect) {
    let bottom = is_bottom(cfg);
    if !k.is_press {
        quiet(m)
    } else if k.code == KeyCode::Enter || k.code == KeyCode::Char('\r') || k.code == KeyCode::Char(
        '\n',
    ) || (k.modifiers == CONTROL && k.code == KeyCode::Char('j')) {
        finished(m, !cfg.disable_run_command)
    } else if k.code == KeyCode::Tab {
        finished(m, false)
    } else if (k.modifiers == CONTROL && (k.code == KeyCode::Char('c') || k.code == KeyCode::Char(
        'g',
    ) || k.code == KeyCode::Char('z') || k.code == KeyCode::Char('r'))) || k.code
        == KeyCode::Esc {
        aborted(m)
    } else if k.modifiers == CONTROL {
        match k.code {
            KeyCode::Char('b') => quiet(moved(m, Move::Backward)),
            KeyCode::Char('f') => quiet(moved(m, Move::Forward)),
            KeyCode::Char('a') => quiet(moved(m, Move::BOL)),
            KeyCode::Char('e') => quiet(moved(m, Move::EOL)),
            KeyCode::Char('v') => quiet(UiModel { debug: !m.debug, ..m }),
            KeyCode::Char('k') => edited(deleted(m, Move::EOL)),
            KeyCode::Char('u') => edited(deleted(m, Move::BOL)),
            KeyCode::Char('p') => quiet(selection_moved(m, true, bottom)),
            KeyCode::Char('n') => quiet(selection_moved(m, false, bottom)),
            KeyCode::Char('h') => edited(deleted(m, Move::Backward)),
            KeyCode::Char('d') => edited(deleted(m, Move::Forward)),
            _ => quiet(m),
        }
    } else if k.modifiers == ALT {
        match k.code {
            KeyCode::Char('b') => quiet(moved(m, Move::BackwardWord)),
            KeyCode::Char('f') => quiet(moved(m, Move::ForwardWord(WordLocation::Start))),
            _ => quiet(m),
        }
    } else {
        match k.code {
            KeyCode::Left => quiet(moved(m, Move::Backward)),
            KeyCode::Right => quiet(moved(m, Move::Forward)),
            KeyCode::Up | KeyCode::PageUp => quiet(selection_moved(m, true, bottom)),
            KeyCode::Down | KeyCode::PageDown => quiet(selection_moved(m, false, bottom)),
            KeyCode::Backspace => edited(deleted(m, Move::Backward)),
            KeyCode::Delete => edited(deleted(m, Move::Forward)),
            KeyCode::Home => quiet(moved(m, Move::BOL)),
            KeyCode::End => quiet(moved(m, Move::EOL)),
            KeyCode::Char(c) => edited(inserted(m, c)),
            KeyCode::F(n) => function_key(m, cfg, n),
            _ => quiet(m),
        }
    }
}

/// A key in the insert mode of the vim key scheme.
pub open spec fn vim_insert_key(m: UiModel, cfg: InterfaceConfig, k: KeyEvent) -> (
    UiModel,
    bool,
    Effect,
) {
    let bottom = is_bottom(cfg);
    if k.code == KeyCode::Tab {
        finished(m, false)
    } else if k.code == KeyCode::Enter || (k.modifiers == CONTROL && k.code == KeyCode::Char('j')) {
        finished(m, !cfg.disable_run_command)
    } else if k.modifiers == CONTROL && (k.code == KeyCode::Char('c') || k.code == KeyCode::Char(
        'g',
    ) || k.code == KeyCode::Char('z') || k.code == KeyCode::Char('r')) {
        aborted(m)
    } else if k.code == KeyCode::Left {
        quiet(moved(m, Move::Backward))
    } else if k.code == KeyCode::Right {
        quiet(moved(m, Move::Forward))
    } else if k.code == KeyCode::Up || k.code == KeyCode::PageUp || (k.modifiers == CONTROL && (
    k.code == KeyCode::Char('u') || k.code == KeyCode::Char('p'))) {
        quiet(selection_moved(m, true, bottom))
    } else if k.code == KeyCode::Down || k.code == KeyCode::PageDown || (k.modifiers == CONTROL && (
    k.code == KeyCode::Char('d') || k.code == KeyCode::Char('n'))) {
        quiet(selection_moved(m, false, bottom))
    } else {
        match k.code {
            KeyCode::Esc => quiet(UiModel { insert_mode: false, ..m }),
            KeyCode::Backspace => edited(deleted(m, Move::Backward)),
            KeyCode::Delete => edited(deleted(m, Move::Forward)),
            KeyCode::Home => quiet(moved(m, Move::BOL)),
            KeyCode::End => quiet(moved(m, Move::EOL)),
            KeyCode::Char(c) => edited(inserted(m, c)),
            KeyCode::F(n) => function_key(m, cfg, n),
            _ => quiet(m),
        }
    }
}

/// A key in the command mode of the vim key scheme.
pub open spec fn vim_command_key(m: UiModel, cfg: InterfaceConfig, k: KeyEvent) -> (
    UiModel,
    bool,
    Effect,
) {
    let bottom = is_bottom(cfg);
    if k.code == KeyCode::Tab {
        finished(m, false)
    } else if k.code == KeyCode::Enter || (k.modifiers == CONTROL && k.code == KeyCode::Char('j')) {
        finished(m, !cfg.disable_run_command)
    } else if (k.modifiers == CONTROL && (k.code == KeyCode::Char('c') || k.code == KeyCode::Char(
        'g',
    ) || k.code == KeyCode::Char('z') || k.code == KeyCode::Char('r'))) || k.code
        == KeyCode::Esc {
        aborted(m)
    } else if k.code == KeyCode::Left || k.code == KeyCode::Char('h') {
        quiet(moved(m, Move::Backward))
    } else if k.code == KeyCode::Right || k.code == KeyCode::Char('l') {
        quiet(moved(m, Move::Forward))
    } else if k.code == KeyCode::Up || k.code == KeyCode::PageUp || k.code == KeyCode::Char('k') || (
    k.modifiers == CONTROL && k.code == KeyCode::Char('u')) {
        quiet(selection_moved(m, true, bottom))
    } else if k.code == KeyCode::Down || k.code == KeyCode::PageDown || k.code == KeyCode::Char('j')
        || (k.modifiers == CONTROL && k.code == KeyCode::Char('d')) {
        quiet(selection_moved(m, false, bottom))
    } else {
        match k.code {
            KeyCode::Char('b') | KeyCode::Char('e') => quiet(moved(m, Move::BackwardWord)),
            KeyCode::Char('w') => quiet(moved(m, Move::ForwardWord(WordLocation::Start))),
            KeyCode::Char('0') | KeyCode::Char('^') => quiet(moved(m, Move::BOL)),
            KeyCode::Char('$') => quiet(moved(m, Move::EOL)),
            KeyCode::Char('i') | KeyCode::Char('a') => quiet(UiModel { insert_mode: true, ..m }),
            KeyCode::Backspace => edited(deleted(m, Move::Backward)),
            KeyCode::Delete | KeyCode::Char('x') => edited(deleted(m, Move::Forward)),
            KeyCode::Home => quiet(moved(m, Move::BOL)),
            KeyCode::End => quiet(moved(m, Move::EOL)),
            KeyCode::F(n) => function_key(m, cfg, n),
            _ => quiet(m),
        }
    }
}

/// A key in the vim key scheme.
pub open spec fn vim_key(m: UiModel, cfg: InterfaceConfig, k: KeyEvent) -> (UiModel, bool, Effect) {
    if !k.is_press {
        quiet(m)
    } else if m.insert_mode {
        vim_insert_key(m, cfg, k)
    } else {
        vim_command_key(m, cfg, k)
    }
}

/// A key while the deletion of the selection waits for confirmation.
pub open spec fn confirm_key(m: UiModel, k: KeyEvent) -> (UiModel, bool, Effect) {
    let normal = UiModel { menu_mode: MenuMode::Normal, ..m };
    if k.modifiers == CONTROL && (k.code == KeyCode::Char('c') || k.code == KeyCode::Char('d')
        || k.code == KeyCode::Char('g') || k.code == KeyCode::Char('z') || k.code == KeyCode::Char(
        'r',
    )) {
        aborted(m)
    } else if k.code == KeyCode::Char('y') || k.code == KeyCode::Char('Y') {
        (normal, false, if m.matches.len() > 0 {
            Effect::DeleteSelection
        } else {
            Effect::Nothing
        })
    } else if k.code == KeyCode::Char('n') || k.code == KeyCode::Char('N') || k.code
        == KeyCode::Esc {
        quiet(normal)
    } else {
        quiet(m)
    }
}

/// The new state, whether the interface is done, and what it has to do after `ev`.
pub open spec fn ui_event(m: UiModel, cfg: InterfaceConfig, ev: Event) -> (UiModel, bool, Effect) {
    match m.menu_mode {
        MenuMode::Normal => match cfg.key_scheme {
            KeyScheme::Emacs => match ev {
                Event::Key(k) => emacs_key(m, cfg, k),
                Event::Paste(s) => edited(with_input(m, pasted_input(m.command, m.cursor, s@))),
                Event::Other => quiet(m),
            },
            KeyScheme::Vim => match ev {
                Event::Key(k) => vim_key(m, cfg, k),
                _ => quiet(m),
            },
        },
        MenuMode::ConfirmDelete => match ev {
            Event::Key(k) => confirm_key(m, k),
            _ => quiet(m),
        },
    }
}

/// The emacs word edits (ctrl-w, alt-backspace, alt-d) ask the command input to delete a
/// word, which it cannot do: they end the program.
pub open spec fn word_edit_panics(menu_mode: MenuMode, cfg: InterfaceConfig, ev: Event) -> bool {
    &&& menu_mode == MenuMode::Normal
    &&& cfg.key_scheme == KeyScheme::Emacs
    &&& ev matches Event::Key(k)
    &&& word_edit_key(k)
}

/// Whether the emacs scheme reads a key as a word deletion, which editing does not support.
pub open spec fn word_edit_key(k: KeyEvent) -> bool {
    &&& k.is_press
    &&& !(k.code == KeyCode::Enter || k.code == KeyCode::Char('\r') || k.code == KeyCode::Char(
        '\n',
    ) || k.code == KeyCode::Tab || k.code == KeyCode::Esc)
    &&& ((k.modifiers == CONTROL && k.code == KeyCode::Char('w')) || (k.modifiers == ALT && (k.code
        == KeyCode::Char('\x08') || k.code == KeyCode::Char('\x7f') || k.code == KeyCode::Char(
        'd',
    ))))
}

/// How many characters an event may insert.
pub open spec fn inserted_length(ev: Event) -> int {
    match ev {
        Event::Paste(s) => s@.len() as int,
        _ => 1,
    }
}

impl InterfaceState {
    pub open spec fn model(&self) -> UiModel {
        UiModel {
            command: self.input.command@,
            cursor: self.cursor_int(),
            selection: self.selection as int,
            matches: self.matches@.map_values(|s: String| s@),
            debug: self.debug,
            run: self.run,
            menu_mode: self.menu_mode,
            insert_mode: self.in_vim_insert_mode,
            sort: self.result_sort,
            filter: self.result_filter,
        }
    }

    pub open spec fn cursor_int(&self) -> int {
        self.input.cursor as int
    }

    /// The input is consistent and the selection points into the matches (if any).
    pub open spec fn ready(&self) -> bool {
        &&& self.input.wf()
        &&& self.input.cursor_in_range()
        &&& self.matches.len() > 0 ==> self.selection < self.matches.len()
        &&& self.selection < usize::MAX
    }

    /// A new interface state for the given starting input.
    pub fn new(command: &str, result_sort: ResultSort, result_filter: ResultFilter) -> (r: Self)
        ensures
            r.input.wf(),
            r.model() == (UiModel {
                command: command@,
                cursor: cluster_count(command@),
                selection: 0,
                matches: Seq::empty(),
                debug: false,
                run: false,
                menu_mode: MenuMode::Normal,
                insert_mode: true,
                sort: result_sort,
                filter: result_filter,
            }),
    {
        let r = InterfaceState {
            input: CommandInput::from(command),
            selection: 0,
            matches: Vec::new(),
            debug: false,
            run: false,
            menu_mode: MenuMode::Normal,
            in_vim_insert_mode: true,
            result_sort,
            result_filter,
        };
        assert(r.model().matches =~= Seq::<Seq<char>>::empty());
        r
    }

    /// Brings a selection past the end of a non-empty list back to its last match.
    pub fn clamp_selection(&mut self)
        ensures
            final(self).model() == (if old(self).matches.len() > 0 && old(self).selection
                > old(self).matches.len() - 1 {
                UiModel { selection: old(self).matches.len() - 1, ..old(self).model() }
            } else {
                old(self).model()
            }),
            final(self).input == old(self).input,
            final(self).matches == old(self).matches,
    {
        if self.matches.len() > 0 && self.selection > self.matches.len() - 1 {
            self.selection = self.matches.len() - 1;
        }
    }

    /// Puts new matches in place (after a search).
    pub fn set_matches(&mut self, matches: Vec<String>)
        ensures
            final(self).model() == (UiModel {
                matches: matches@.map_values(|s: String| s@),
                ..old(self).model()
            }),
            final(self).input == old(self).input,
            final(self).selection == old(self).selection,
    {
        self.matches = matches;
    }

    pub fn move_selection(&mut self, direction: MoveSelection, bottom: bool)
        requires
            old(self).selection < usize::MAX,
        ensures
            final(self).model() == selection_moved(old(self).model(), (direction is Up), bottom),
            final(self).input == old(self).input,
            final(self).matches == old(self).matches,
    {
        let up = match direction {
            MoveSelection::Up => true,
            MoveSelection::Down => false,
        };
        if up == bottom {
            self.selection = self.selection + 1;
        } else if self.selection > 0 {
            self.selection = self.selection - 1;
        }
    }

    fn accept_selection(&mut self)
        requires
            old(self).ready(),
        ensures
            final(self).input.wf(),
            final(self).model() == accepted(old(self).model()),
            final(self).matches == old(self).matches,
    {
        if self.matches.len() > 0 {
            let ghost before = self.model();
            let chosen = self.matches[self.selection].clone();
            self.input.set(chosen.as_str());
            proof {
                assert(before.matches[before.selection] == chosen@);
            }
        }
    }

    fn moved_by(&mut self, d: Move)
        requires
            old(self).ready(),
        ensures
            final(self).input.wf(),
            final(self).model() == moved(old(self).model(), d),
            final(self).matches == old(self).matches,
            final(self).selection == old(self).selection,
    {
        self.input.move_cursor(d);
    }

    fn deleted_by(&mut self, d: Move)
        requires
            old(self).ready(),
            d is Backward || d is Forward || d is EOL || d is BOL,
        ensures
            final(self).input.wf(),
            final(self).model() == refreshed(deleted(old(self).model(), d)),
            final(self).matches == old(self).matches,
    {
        self.input.delete(d);
        self.selection = 0;
    }

    fn inserted_char(&mut self, c: char)
        requires
            old(self).ready(),
        ensures
            final(self).input.wf(),
            final(self).model() == refreshed(inserted(old(self).model(), c)),
            final(self).matches == old(self).matches,
    {
        self.input.insert(c);
        self.selection = 0;
    }

    fn function_key(&mut self, cfg: &InterfaceConfig, n: u8) -> (r: EventOutcome)
        requires
            old(self).ready(),
        ensures
            final(self).input == old(self).input,
            final(self).matches == old(self).matches,
            (final(self).model(), r.done, r.effect) == function_key(old(self).model(), *cfg, n),
    {
        if n == 1 {
            self.result_sort = match self.result_sort {
                ResultSort::Rank => ResultSort::LastRun,
                ResultSort::LastRun => ResultSort::Rank,
            };
            self.selection = 0;
            EventOutcome { done: false, effect: Effect::RefreshMatches }
        } else if n == 2 {
            if self.matches.len() > 0 {
                if cfg.delete_without_confirm {
                    EventOutcome { done: false, effect: Effect::DeleteSelection }
                } else {
                    self.menu_mode = MenuMode::ConfirmDelete;
                    EventOutcome { done: false, effect: Effect::Nothing }
                }
            } else {
                EventOutcome { done: false, effect: Effect::Nothing }
            }
        } else if n == 3 {
            self.result_filter = match self.result_filter {
                ResultFilter::Global => ResultFilter::CurrentDirectory,
                ResultFilter::CurrentDirectory => ResultFilter::Global,
            };
            self.selection = 0;
            EventOutcome { done: false, effect: Effect::RebuildAndRefresh }
        } else {
            EventOutcome { done: false, effect: Effect::Nothing }
        }
    }

    fn finish(&mut self, run: bool) -> (r: EventOutcome)
        requires
            old(self).ready(),
        ensures
            final(self).input.wf(),
            final(self).matches == old(self).matches,
            (final(self).model(), r.done, r.effect) == finished(old(self).model(), run),
    {
        self.run = run;
        self.accept_selection();
        EventOutcome { done: true, effect: Effect::Nothing }
    }

    fn abort(&mut self) -> (r: EventOutcome)
        requires
            old(self).ready(),
        ensures
            final(self).input.wf(),
            final(self).matches == old(self).matches,
            (final(self).model(), r.done, r.effect) == aborted(old(self).model()),
    {
        self.run = false;
        self.input.clear();
        EventOutcome { done: true, effect: Effect::Nothing }
    }
}

impl InterfaceState {
    /// Handles a key in the emacs key scheme.
    pub fn handle_emacs_keyevent(&mut self, cfg: &InterfaceConfig, k: KeyEvent) -> (r: EventOutcome)
        requires
            old(self).ready(),
            !word_edit_key(k),
        ensures
            final(self).input.wf(),
            (final(self).model(), r.done, r.effect) == emacs_key(old(self).model(), *cfg, k),
    {
        let bottom = cfg.interface_view == InterfaceView::Bottom;
        if !k.is_press {
            return EventOutcome { done: false, effect: Effect::Nothing };
        }
        if k.code == KeyCode::Enter || k.code == KeyCode::Char('\r') || k.code == KeyCode::Char('\n')
            || (k.modifiers == CONTROL && k.code == KeyCode::Char('j')) {
            return self.finish(!cfg.disable_run_command);
        }
        if k.code == KeyCode::Tab {
            return self.finish(false);
        }
        if (k.modifiers == CONTROL && (k.code == KeyCode::Char('c') || k.code == KeyCode::Char('g')
            || k.code == KeyCode::Char('z') || k.code == KeyCode::Char('r'))) || k.code
            == KeyCode::Esc {
            return self.abort();
        }
        let quiet = EventOutcome { done: false, effect: Effect::Nothing };
        let edited = EventOutcome { done: false, effect: Effect::RefreshMatches };
        if k.modifiers == CONTROL {
            match k.code {
                KeyCode::Char('b') => {
                    self.moved_by(Move::Backward);
                    quiet
                },
                KeyCode::Char('f') => {
                    self.moved_by(Move::Forward);
                    quiet
                },
                KeyCode::Char('a') => {
                    self.moved_by(Move::BOL);
                    quiet
                },
                KeyCode::Char('e') => {
                    self.moved_by(Move::EOL);
                    quiet
                },
                KeyCode::Char('v') => {
                    self.debug = !self.debug;
                    quiet
                },
                KeyCode::Char('k') => {
                    self.deleted_by(Move::EOL);
                    edited
                },
                KeyCode::Char('u') => {
                    self.deleted_by(Move::BOL);
                    edited
                },
                KeyCode::Char('p') => {
                    self.move_selection(MoveSelection::Up, bottom);
                    quiet
                },
                KeyCode::Char('n') => {
                    self.move_selection(MoveSelection::Down, bottom);
                    quiet
                },
                KeyCode::Char('h') => {
                    self.deleted_by(Move::Backward);
                    edited
                },
                KeyCode::Char('d') => {
                    self.deleted_by(Move::Forward);
                    edited
                },
                _ => quiet,
            }
        } else if k.modifiers == ALT {
            match k.code {
                KeyCode::Char('b') => {
                    self.moved_by(Move::BackwardWord);
                    quiet
                },
                KeyCode::Char('f') => {
                    self.moved_by(Move::ForwardWord(WordLocation::Start));
                    quiet
                },
                _ => quiet,
            }
        } else {
            match k.code {
                KeyCode::Left => {
                    self.moved_by(Move::Backward);
                    quiet
                },
                KeyCode::Right => {
                    self.moved_by(Move::Forward);
                    quiet
                },
                KeyCode::Up | KeyCode::PageUp => {
                    self.move_selection(MoveSelection::Up, bottom);
                    quiet
                },
                KeyCode::Down | KeyCode::PageDown => {
                    self.move_selection(MoveSelection::Down, bottom);
                    quiet
                },
                KeyCode::Backspace => {
                    self.deleted_by(Move::Backward);
                    edited
                },
                KeyCode::Delete => {
                    self.deleted_by(Move::Forward);
                    edited
                },
                KeyCode::Home => {
                    self.moved_by(Move::BOL);
                    quiet
                },
                KeyCode::End => {
                    self.moved_by(Move::EOL);
                    quiet
                },
                KeyCode::Char(c) => {
                    self.inserted_char(c);
                    edited
                },
                KeyCode::F(n) => self.function_key(cfg, n),
                _ => quiet,
            }
        }
    }

    fn vim_insert_key(&mut self, cfg: &InterfaceConfig, k: KeyEvent) -> (r: EventOutcome)
        requires
            old(self).ready(),
        ensures
            final(self).input.wf(),
            (final(self).model(), r.done, r.effect) == vim_insert_key(old(self).model(), *cfg, k),
    {
        let bottom = cfg.interface_view == InterfaceView::Bottom;
        let quiet = EventOutcome { done: false, effect: Effect::Nothing };
        let edited = EventOutcome { done: false, effect: Effect::RefreshMatches };
        if k.code == KeyCode::Tab {
            self.finish(false)
        } else if k.code == KeyCode::Enter || (k.modifiers == CONTROL && k.code == KeyCode::Char(
            'j',
        )) {
            self.finish(!cfg.disable_run_command)
        } else if k.modifiers == CONTROL && (k.code == KeyCode::Char('c') || k.code
            == KeyCode::Char('g') || k.code == KeyCode::Char('z') || k.code == KeyCode::Char('r')) {
            self.abort()
        } else if k.code == KeyCode::Left {
            self.moved_by(Move::Backward);
            quiet
        } else if k.code == KeyCode::Right {
            self.moved_by(Move::Forward);
            quiet
        } else if k.code == KeyCode::Up || k.code == KeyCode::PageUp || (k.modifiers == CONTROL && (
        k.code == KeyCode::Char('u') || k.code == KeyCode::Char('p'))) {
            self.move_selection(MoveSelection::Up, bottom);
            quiet
        } else if k.code == KeyCode::Down || k.code == KeyCode::PageDown || (k.modifiers == CONTROL
            && (k.code == KeyCode::Char('d') || k.code == KeyCode::Char('n'))) {
            self.move_selection(MoveSelection::Down, bottom);
            quiet
        } else {
            match k.code {
                KeyCode::Esc => {
                    self.in_vim_insert_mode = false;
                    quiet
                },
                KeyCode::Backspace => {
                    self.deleted_by(Move::Backward);
                    edited
                },
                KeyCode::Delete => {
                    self.deleted_by(Move::Forward);
                    edited
                },
                KeyCode::Home => {
                    self.moved_by(Move::BOL);
                    quiet
                },
                KeyCode::End => {
                    self.moved_by(Move::EOL);
                    quiet
                },
                KeyCode::Char(c) => {
                    self.inserted_char(c);
                    edited
                },
                KeyCode::F(n) => self.function_key(cfg, n),
                _ => quiet,
            }
        }
    }

    fn vim_command_key(&mut self, cfg: &InterfaceConfig, k: KeyEvent) -> (r: EventOutcome)
        requires
            old(self).ready(),
        ensures
            final(self).input.wf(),
            (final(self).model(), r.done, r.effect) == vim_command_key(old(self).model(), *cfg, k),
    {
        let bottom = cfg.interface_view == InterfaceView::Bottom;
        let quiet = EventOutcome { done: false, effect: Effect::Nothing };
        let edited = EventOutcome { done: false, effect: Effect::RefreshMatches };
        if k.code == KeyCode::Tab {
            self.finish(false)
        } else if k.code == KeyCode::Enter || (k.modifiers == CONTROL && k.code == KeyCode::Char(
            'j',
        )) {
            self.finish(!cfg.disable_run_command)
        } else if (k.modifiers == CONTROL && (k.code == KeyCode::Char('c') || k.code
            == KeyCode::Char('g') || k.code == KeyCode::Char('z') || k.code == KeyCode::Char('r')))
            || k.code == KeyCode::Esc {
            self.abort()
        } else if k.code == KeyCode::Left || k.code == KeyCode::Char('h') {
            self.moved_by(Move::Backward);
            quiet
        } else if k.code == KeyCode::Right || k.code == KeyCode::Char('l') {
            self.moved_by(Move::Forward);
            quiet
        } else if k.code == KeyCode::Up || k.code == KeyCode::PageUp || k.code == KeyCode::Char('k')
            || (k.modifiers == CONTROL && k.code == KeyCode::Char('u')) {
            self.move_selection(MoveSelection::Up, bottom);
            quiet
        } else if k.code == KeyCode::Down || k.code == KeyCode::PageDown || k.code == KeyCode::Char(
            'j',
        ) || (k.modifiers == CONTROL && k.code == KeyCode::Char('d')) {
            self.move_selection(MoveSelection::Down, bottom);
            quiet
        } else {
            match k.code {
                KeyCode::Char('b') | KeyCode::Char('e') => {
                    self.moved_by(Move::BackwardWord);
                    quiet
                },
                KeyCode::Char('w') => {
                    self.moved_by(Move::ForwardWord(WordLocation::Start));
                    quiet
                },
                KeyCode::Char('0') | KeyCode::Char('^') => {
                    self.moved_by(Move::BOL);
                    quiet
                },
                KeyCode::Char('$') => {
                    self.moved_by(Move::EOL);
                    quiet
                },
                KeyCode::Char('i') | KeyCode::Char('a') => {
                    self.in_vim_insert_mode = true;
                    quiet
                },
                KeyCode::Backspace => {
                    self.deleted_by(Move::Backward);
                    edited
                },
                KeyCode::Delete | KeyCode::Char('x') => {
                    self.deleted_by(Move::Forward);
                    edited
                },
                KeyCode::Home => {
                    self.moved_by(Move::BOL);
                    quiet
                },
                KeyCode::End => {
                    self.moved_by(Move::EOL);
                    quiet
                },
                KeyCode::F(n) => self.function_key(cfg, n),
                _ => quiet,
            }
        }
    }

    /// Handles a key in the vim key scheme.
    pub fn select_with_vim_key_scheme(&mut self, cfg: &InterfaceConfig, k: KeyEvent) -> (r:
        EventOutcome)
        requires
            old(self).ready(),
        ensures
            final(self).input.wf(),
            (final(self).model(), r.done, r.effect) == vim_key(old(self).model(), *cfg, k),
    {
        if !k.is_press {
            EventOutcome { done: false, effect: Effect::Nothing }
        } else if self.in_vim_insert_mode {
            self.vim_insert_key(cfg, k)
        } else {
            self.vim_command_key(cfg, k)
        }
    }

    /// Handles a key while the deletion of the selection waits for confirmation.
    pub fn confirm_key(&mut self, k: KeyEvent) -> (r: EventOutcome)
        requires
            old(self).ready(),
        ensures
            final(self).input.wf(),
            (final(self).model(), r.done, r.effect) == confirm_key(old(self).model(), k),
    {
        if k.modifiers == CONTROL && (k.code == KeyCode::Char('c') || k.code == KeyCode::Char('d')
            || k.code == KeyCode::Char('g') || k.code == KeyCode::Char('z') || k.code
            == KeyCode::Char('r')) {
            self.abort()
        } else if k.code == KeyCode::Char('y') || k.code == KeyCode::Char('Y') {
            self.menu_mode = MenuMode::Normal;
            EventOutcome {
                done: false,
                effect: if self.matches.len() > 0 {
                    Effect::DeleteSelection
                } else {
                    Effect::Nothing
                },
            }
        } else if k.code == KeyCode::Char('n') || k.code == KeyCode::Char('N') || k.code
            == KeyCode::Esc {
            self.menu_mode = MenuMode::Normal;
            EventOutcome { done: false, effect: Effect::Nothing }
        } else {
            EventOutcome { done: false, effect: Effect::Nothing }
        }
    }

    /// Inserts pasted text character by character.
    pub fn paste(&mut self, s: &str) -> (r: EventOutcome)
        requires
            old(self).ready(),
            old(self).input.cursor + s@.len() < isize::MAX,
        ensures
            final(self).input.wf(),
            (final(self).model(), r.done, r.effect) == edited(
                with_input(
                    old(self).model(),
                    pasted_input(old(self).input.command@, old(self).input.cursor as int, s@),
                ),
            ),
    {
        let cs = chars_of(s);
        let ghost m0 = self.model();
        let mut i: usize = 0;
        assert(cs@.take(0) =~= Seq::<char>::empty());
        while i < cs.len()
            invariant
                0 <= i <= cs.len(),
                cs@ == s@,
                m0.cursor + s@.len() < isize::MAX,
                self.input.wf(),
                self.input.cursor <= m0.cursor + i,
                self.model() == with_input(m0, pasted_input(m0.command, m0.cursor, cs@.take(i as int))),
            decreases cs.len() - i,
        {
            proof {
                assert(cs@.take(i + 1).drop_last() =~= cs@.take(i as int));
                assert(cs@.take(i + 1).last() == cs@[i as int]);
            }
            self.input.insert(cs[i]);
            i = i + 1;
        }
        assert(cs@.take(i as int) =~= cs@);
        self.selection = 0;
        EventOutcome { done: false, effect: Effect::RefreshMatches }
    }

    /// Handles one terminal event: changes the state and says whether the interface is done
    /// and what it has to do next.
    pub fn handle_event(&mut self, cfg: &InterfaceConfig, event: Event) -> (r: EventOutcome)
        requires
            old(self).ready(),
            old(self).input.cursor + inserted_length(event) < isize::MAX,
            !word_edit_panics(old(self).menu_mode, *cfg, event),
        ensures
            final(self).input.wf(),
            (final(self).model(), r.done, r.effect) == ui_event(old(self).model(), *cfg, event),
    {
        match self.menu_mode {
            MenuMode::Normal => match cfg.key_scheme {
                KeyScheme::Emacs => match event {
                    Event::Key(k) => self.handle_emacs_keyevent(cfg, k),
                    Event::Paste(s) => self.paste(s.as_str()),
                    Event::Other => EventOutcome { done: false, effect: Effect::Nothing },
                },
                KeyScheme::Vim => match event {
                    Event::Key(k) => self.select_with_vim_key_scheme(cfg, k),
                    _ => EventOutcome { done: false, effect: Effect::Nothing },
                },
            },
            MenuMode::ConfirmDelete => match event {
                Event::Key(k) => self.confirm_key(k),
                _ => EventOutcome { done: false, effect: Effect::Nothing },
            },
        }
    }
}

/// The menu bar text for a mode, key scheme and the current sort and filter.
pub open spec fn menu_text_spec(
    mode: MenuMode,
    key_scheme: KeyScheme,
    in_vim_insert_mode: bool,
    disable_run_command: bool,
    sort: ResultSort,
    filter: ResultFilter,
) -> Seq<char> {
    match mode {
        MenuMode::ConfirmDelete => "Delete selected command from the history? (Y/N)"@,
        MenuMode::Normal => "McFly"@ + (match key_scheme {
            KeyScheme::Emacs => " | ESC - Exit | "@,
            KeyScheme::Vim => if in_vim_insert_mode {
                " (Ins) | ESC - Cmd | "@
            } else {
                " (Cmd) | ESC - Exit | "@
            },
        }) + (if disable_run_command {
            "⏎, TAB - Edit | "@
        } else {
            "⏎ - Run | TAB - Edit | "@
        }) + (match sort {
            ResultSort::Rank => "F1 - Rank Sort | "@,
            ResultSort::LastRun => "F1 - Time Sort | "@,
        }) + "F2 - Delete | "@ + (match filter {
            ResultFilter::Global => "F3 - All Directories"@,
            ResultFilter::CurrentDirectory => "F3 - This Directory"@,
        }),
    }
}

impl MenuMode {
    /// The menu bar text.
    pub fn text(&self, state: &InterfaceState, cfg: &InterfaceConfig) -> (r: String)
        ensures
            r@ == menu_text_spec(
                *self,
                cfg.key_scheme,
                state.in_vim_insert_mode,
                cfg.disable_run_command,
                state.result_sort,
                state.result_filter,
            ),
    {
        match *self {
            MenuMode::ConfirmDelete => {
                return "Delete selected command from the history? (Y/N)".to_owned();
            },
            MenuMode::Normal => {},
        }
        let mut menu_text = "McFly".to_owned();
        match cfg.key_scheme {
            KeyScheme::Emacs => menu_text.append(" | ESC - Exit | "),
            KeyScheme::Vim => {
                if state.in_vim_insert_mode {
                    menu_text.append(" (Ins) | ESC - Cmd | ");
                } else {
                    menu_text.append(" (Cmd) | ESC - Exit | ");
                }
            },
        }
        if cfg.disable_run_command {
            menu_text.append("⏎, TAB - Edit | ");
        } else {
            menu_text.append("⏎ - Run | TAB - Edit | ");
        }
        match state.result_sort {
            ResultSort::Rank => menu_text.append("F1 - Rank Sort | "),
            ResultSort::LastRun => menu_text.append("F1 - Time Sort | "),
        }
        menu_text.append("F2 - Delete | ");
        match state.result_filter {
            ResultFilter::Global => menu_text.append("F3 - All Directories"),
            ResultFilter::CurrentDirectory => menu_text.append("F3 - This Directory"),
        }
        menu_text
    }
}

/// The screen line of the prompt when the interface is drawn from the top.
pub const PROMPT_LINE_INDEX: u16 = 3;

/// The screen line of the menu bar when the interface is drawn from the top.
pub const INFO_LINE_INDEX: u16 = 1;

/// The screen line of the first result when the interface is drawn from the top.
pub const RESULTS_TOP_INDEX: u16 = 5;

/// The screen line of the first result on a screen `height` lines high.
pub fn result_top_index(bottom: bool, height: u16) -> (r: u16)
    requires
        bottom ==> height >= RESULTS_TOP_INDEX,
    ensures
        r == (if bottom {
            height - RESULTS_TOP_INDEX
        } else {
            RESULTS_TOP_INDEX as int
        }),
{
    if bottom {
        return height - RESULTS_TOP_INDEX;
    }
    RESULTS_TOP_INDEX
}

/// The screen line of the prompt on a screen `height` lines high.
pub fn prompt_line_index(bottom: bool, height: u16) -> (r: u16)
    requires
        bottom ==> height >= PROMPT_LINE_INDEX,
    ensures
        r == (if bottom {
            height - PROMPT_LINE_INDEX
        } else {
            PROMPT_LINE_INDEX as int
        }),
{
    if bottom {
        return height - PROMPT_LINE_INDEX;
    }
    PROMPT_LINE_INDEX
}

/// The screen line of the menu bar on a screen `height` lines high.
pub fn info_line_index(bottom: bool, height: u16) -> (r: u16)
    ensures
        r == (if bottom {
            height
        } else {
            INFO_LINE_INDEX
        }),
{
    if bottom {
        return height;
    }
    INFO_LINE_INDEX
}

/// The offset of the `index`-th result from the first one: results go up in the bottom view.
pub fn command_line_index(bottom: bool, index: i16) -> (r: i16)
    requires
        index > i16::MIN,
    ensures
        r == (if bottom {
            -index
        } else {
            index as int
        }),
{
    if bottom {
        return -index;
    }
    index
}

/// Whether a text holds a character that is not white space.
pub open spec fn has_visible_char(s: Seq<char>) -> bool {
    exists|i: int| 0 <= i < s.len() && !is_white_space(#[trigger] s[i])
}

/// What the interface hands back once the user is done: the command, unless it is blank.
pub fn selection_result(command: &str, run: bool, delete_requests: Vec<String>) -> (r:
    SelectionResult)
    ensures
        r.run == run,
        r.delete_requests == delete_requests,
        if has_visible_char(command@) {
            r.selection matches Some(s) && s@ == command@
        } else {
            r.selection is None
        },
{
    let cs = chars_of(command);
    let mut i: usize = 0;
    let mut visible = false;
    while i < cs.len()
        invariant
            0 <= i <= cs.len(),
            cs@ == command@,
            visible == (exists|j: int| 0 <= j < i && !is_white_space(#[trigger] cs@[j])),
        decreases cs.len() - i,
    {
        if !char_is_whitespace(cs[i]) {
            visible = true;
        }
        i = i + 1;
    }
    if visible {
        SelectionResult { run, selection: Some(command.to_owned()), delete_requests }
    } else {
        SelectionResult { run, selection: None, delete_requests }
    }
}

/// The deletion requests of a selection file, one `delete` line each.
pub open spec fn delete_request_lines(ds: Seq<Seq<char>>) -> Seq<char>
    decreases ds.len(),
{
    if ds.len() == 0 {
        Seq::empty()
    } else {
        delete_request_lines(ds.drop_last()) + "delete "@ + ds.last() + "\n"@
    }
}

/// What a shell reads back of a selection: the mode (run or display), the command line, and
/// the commands to delete from its own history.
pub open spec fn selection_output_spec(run: bool, command: Seq<char>, ds: Seq<Seq<char>>) -> Seq<
    char,
> {
    (if run {
        "mode run\n"@
    } else {
        "mode display\n"@
    }) + "commandline "@ + command + "\n"@ + delete_request_lines(ds)
}

/// The text of the selection file written for the shell (see `selection_output_spec`).
pub fn selection_output(run: bool, command: &str, delete_requests: &Vec<String>) -> (r: String)
    ensures
        r@ == selection_output_spec(
            run,
            command@,
            delete_requests@.map_values(|d: String| d@),
        ),
{
    let mut out = String::new();
    if run {
        out.append("mode run\n");
    } else {
        out.append("mode display\n");
    }
    out.append("commandline ");
    out.append(command);
    out.append("\n");
    let ghost head = out@;
    let ghost ds = delete_requests@.map_values(|d: String| d@);
    let mut i: usize = 0;
    proof {
        assert(ds.take(0) =~= Seq::<Seq<char>>::empty());
        assert(out@ =~= head + delete_request_lines(ds.take(0)));
    }
    while i < delete_requests.len()
        invariant
            0 <= i <= delete_requests.len(),
            ds == delete_requests@.map_values(|d: String| d@),
            out@ == head + delete_request_lines(ds.take(i as int)),
        decreases delete_requests.len() - i,
    {
        out.append("delete ");
        out.append(delete_requests[i].as_str());
        out.append("\n");
        proof {
            assert(ds.take(i + 1).drop_last() =~= ds.take(i as int));
            assert(ds.take(i + 1).last() == delete_requests@[i as int]@);
            assert(out@ =~= head + delete_request_lines(ds.take(i + 1)));
        }
        i = i + 1;
    }
    proof {
        assert(ds.take(i as int) =~= ds);
    }
    out
}

/// Without `delete_without_confirm`, no event outside the confirmation prompt deletes a
/// command: F2 only asks for confirmation.
pub proof fn law_deletion_needs_confirmation(m: UiModel, cfg: InterfaceConfig, ev: Event)
    requires
        m.menu_mode == MenuMode::Normal,
        !cfg.delete_without_confirm,
    ensures
        ui_event(m, cfg, ev).2 != Effect::DeleteSelection,
{
}

/// At the confirmation prompt, only `y` or `Y` deletes the selected command, and only if
/// there is one; every event but an unrelated key leaves the prompt.
pub proof fn law_confirmation_answers(m: UiModel, cfg: InterfaceConfig, k: KeyEvent)
    requires
        m.menu_mode == MenuMode::ConfirmDelete,
    ensures
        ui_event(m, cfg, Event::Key(k)).2 == Effect::DeleteSelection <==> ((k.code
            == KeyCode::Char('y') || k.code == KeyCode::Char('Y')) && m.matches.len() > 0 && !(
        k.modifiers == CONTROL && (k.code == KeyCode::Char('c') || k.code == KeyCode::Char('d')
            || k.code == KeyCode::Char('g') || k.code == KeyCode::Char('z') || k.code
            == KeyCode::Char('r')))),
{
}

/// With running disabled, no event makes the interface ask to run the command.
pub proof fn law_disabled_run_never_runs(m: UiModel, cfg: InterfaceConfig, ev: Event)
    requires
        cfg.disable_run_command,
        !m.run,
    ensures
        !ui_event(m, cfg, ev).0.run,
{
}

/// Outside the confirmation prompt, key releases and repeats change nothing.
pub proof fn law_only_key_presses_count(m: UiModel, cfg: InterfaceConfig, k: KeyEvent)
    requires
        m.menu_mode == MenuMode::Normal,
        !k.is_press,
    ensures
        ui_event(m, cfg, Event::Key(k)) == quiet(m),
{
}

/// Escape in the emacs scheme (and in vim's command mode) leaves the interface with an empty
/// input and nothing to run, so nothing is selected.
pub proof fn law_escape_abandons(m: UiModel, cfg: InterfaceConfig, k: KeyEvent)
    requires
        m.menu_mode == MenuMode::Normal,
        cfg.key_scheme == KeyScheme::Emacs || !m.insert_mode,
        k.code == KeyCode::Esc,
        k.is_press,
    ensures
        ui_event(m, cfg, Event::Key(k)).1,
        !ui_event(m, cfg, Event::Key(k)).0.run,
        ui_event(m, cfg, Event::Key(k)).0.command == Seq::<char>::empty(),
        !has_visible_char(ui_event(m, cfg, Event::Key(k)).0.command),
{
}

/// Pressing F1 twice brings back the sort, and F3 twice the filter, leaving the rest of the
/// state as it was apart from the selection, which goes back to the top.
pub proof fn law_switches_undo_themselves(m: UiModel, cfg: InterfaceConfig, n: u8)
    requires
        m.menu_mode == MenuMode::Normal,
        n == 1 || n == 3,
    ensures
        ({
            let k = KeyEvent { code: KeyCode::F(n), modifiers: 0, is_press: true };
            let once = ui_event(m, cfg, Event::Key(k)).0;
            let twice = ui_event(once, cfg, Event::Key(k)).0;
            twice == refreshed(m)
        }),
{
}

} // verus!

verus! {

/// In the emacs scheme Ctrl-A and Home put the cursor at the start of the input, and Ctrl-E
/// and End at its end (after its last grapheme cluster); nothing else changes, the search
/// goes on and nothing is to be done.
pub proof fn law_emacs_line_ends(m: UiModel, cfg: InterfaceConfig, k: KeyEvent)
    requires
        k.is_press,
        (k.modifiers == CONTROL && (k.code == KeyCode::Char('a') || k.code == KeyCode::Char('e')))
            || (k.modifiers == 0 && (k.code == KeyCode::Home || k.code == KeyCode::End)),
    ensures
        emacs_key(m, cfg, k) == (
            UiModel {
                cursor: if k.code == KeyCode::Char('a') || k.code == KeyCode::Home {
                    0
                } else {
                    cluster_count(m.command)
                },
                ..m
            },
            false,
            Effect::Nothing,
        ),
{
}

/// In vim's command mode `k` moves the selection up and `j` down, exactly as the Up and Down
/// keys do: in the top view up goes from `s` to `s - 1` (staying at 0) and down from `s` to
/// `s + 1`; the bottom view lists upwards, so there the two are swapped. Nothing else changes.
pub proof fn law_vim_command_selection_keys(m: UiModel, cfg: InterfaceConfig, k: KeyEvent)
    requires
        !m.insert_mode,
        k.is_press,
        k.modifiers == 0,
        k.code == KeyCode::Char('k') || k.code == KeyCode::Char('j'),
    ensures
        ({
            let up = k.code == KeyCode::Char('k');
            let towards_start = up != (cfg.interface_view == InterfaceView::Bottom);
            let s = m.selection;
            let ns = if towards_start {
                if s > 0 {
                    s - 1
                } else {
                    s
                }
            } else {
                s + 1
            };
            &&& vim_key(m, cfg, k) == (UiModel { selection: ns, ..m }, false, Effect::Nothing)
            &&& vim_key(m, cfg, k) == vim_key(
                m,
                cfg,
                KeyEvent {
                    code: if up {
                        KeyCode::Up
                    } else {
                        KeyCode::Down
                    },
                    ..k
                },
            )
        }),
{
}

} // verus!
