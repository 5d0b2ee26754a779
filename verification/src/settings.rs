use crate::cli;
use crate::number::{parse_i16, parse_i64, parse_in_range, parse_u16};
use crate::text::{chars_of, has_prefix, join_spec, str_eq, trim_start_matches, strip_prefixes};
use vstd::prelude::*;

verus! {

#[derive(Debug, Clone, Copy, PartialEq, Eq, Structural)]
pub enum Mode {
    Add,
    Search,
    Train,
    Move,
    Init,
    Dump,
    Stats,
}

#[derive(Debug, Clone, Copy, PartialEq, Eq, Structural)]
pub enum KeyScheme {
    Emacs,
    Vim,
}

#[derive(Debug, Clone, Copy, PartialEq, Eq, Structural)]
pub enum InitMode {
    Bash,
    Zsh,
    Fish,
    Powershell,
}

#[derive(Debug, Clone, Copy, PartialEq, Eq, Structural)]
pub enum InterfaceView {
    Top,
    Bottom,
}

#[derive(Debug, Clone, Copy, PartialEq, Eq, Structural)]
pub enum ResultSort {
    Rank,
    LastRun,
}

#[derive(Debug, Clone, Copy, PartialEq, Eq, Structural)]
pub enum ResultFilter {
    Global,
    CurrentDirectory,
}

#[derive(Debug, Clone, Copy, PartialEq, Eq, Structural)]
pub enum HistoryFormat {
    /// bash format - commands in plain text, one per line, with multi-line commands joined.
    /// HISTTIMEFORMAT is assumed to be empty.
    Bash,
    /// zsh format - commands in plain text, with multiline commands on multiple lines.
    /// Multi-line commands are not joined; they're treated as separate commands.
    /// With `extended_history`, the timestamp at the beginning of each command is stripped.
    Zsh { extended_history: bool },
    /// fish's pseudo-yaml, with commands stored as 'cmd' with multiple lines joined into one with
    /// '\n', and with timestamps stored as 'when'.  ('paths' is ignored.)
    Fish,
}

/// Time range, it can be:
/// - `..`
/// - `since..before`
/// - `since..`
/// - `..before`
#[derive(Debug, Clone, Copy, PartialEq, Eq, Structural)]
pub struct TimeRange {
    pub since: Option<i64>,
    pub before: Option<i64>,
}

impl Default for TimeRange {
    fn default() -> (r: TimeRange)
        ensures
            r.since is None,
            r.before is None,
    {
        TimeRange { since: None, before: None }
    }
}

impl TimeRange {
    /// Determine the range is full (`..`)
    pub fn is_full(&self) -> (r: bool)
        ensures
            r == (self.since is None && self.before is None),
    {
        self.since.is_none() && self.before.is_none()
    }
}

/// What `str::to_uppercase` returns for a string.
pub uninterp spec fn spec_to_uppercase(s: Seq<char>) -> Seq<char>;

/// What `str::to_lowercase` returns for a string.
pub uninterp spec fn spec_to_lowercase(s: Seq<char>) -> Seq<char>;

/// `str::to_uppercase`. Trusted: the result is `spec_to_uppercase(s@)`, a function of `s` alone
/// (the Unicode case tables of the standard library); nothing more is stated of it.
#[verifier::external_body]
fn to_uppercase(s: &str) -> (r: String)
    ensures
        r@ == spec_to_uppercase(s@),
{
    s.to_uppercase()
}

/// `str::to_lowercase`. Trusted: the result is `spec_to_lowercase(s@)`, a function of `s` alone
/// (the Unicode case tables of the standard library); nothing more is stated of it.
#[verifier::external_body]
pub(crate) fn to_lowercase(s: &str) -> (r: String)
    ensures
        r@ == spec_to_lowercase(s@),
{
    s.to_lowercase()
}

/// The value of a setting given on the command line, else in the environment (`None` when
/// unset); with neither, the empty text, which only `mcfly init` accepts.
pub fn setting_with_fallback(cli_value: Option<&str>, env_value: Option<&str>, is_init: bool) -> (r:
    String)
    requires
        cli_value is Some || env_value is Some || is_init,
    ensures
        r@ == (match cli_value {
            Some(v) => v@,
            None => match env_value {
                Some(e) => e@,
                None => Seq::<char>::empty(),
            },
        }),
{
    match cli_value {
        Some(v) => v.to_owned(),
        None => match env_value {
            Some(e) => e.to_owned(),
            None => String::new(),
        },
    }
}

/// Whether an environment variable's value turns a flag on: it is set, and not one of
/// `F`, `f`, `false`, `False`, `FALSE` or `0`.
pub open spec fn truthy(value: Option<Seq<char>>) -> bool {
    match value {
        Some(v) => v != "F"@ && v != "f"@ && v != "false"@ && v != "False"@ && v != "FALSE"@ && v
            != "0"@,
        None => false,
    }
}

pub open spec fn opt_view(value: Option<&str>) -> Option<Seq<char>> {
    match value {
        Some(v) => Some(v@),
        None => None,
    }
}

/// Whether the value of an environment variable (`None` if unset) turns a flag on.
pub fn is_env_var_truthy(value: Option<&str>) -> (r: bool)
    ensures
        r == truthy(opt_view(value)),
{
    match value {
        Some(val) => !str_eq(val, "F") && !str_eq(val, "f") && !str_eq(val, "false") && !str_eq(
            val,
            "False",
        ) && !str_eq(val, "FALSE") && !str_eq(val, "0"),
        None => false,
    }
}

/// The interface view named by an upper-cased `MCFLY_INTERFACE_VIEW`: `BOTTOM`, else `TOP`.
pub fn interface_view_from_uppercase(upper: &str) -> (r: InterfaceView)
    ensures
        r == (if upper@ == "BOTTOM"@ {
            InterfaceView::Bottom
        } else {
            InterfaceView::Top
        }),
{
    if str_eq(upper, "BOTTOM") {
        InterfaceView::Bottom
    } else {
        InterfaceView::Top
    }
}

/// The interface view chosen by `MCFLY_INTERFACE_VIEW` (`None` if unset).
pub fn interface_view_setting(value: Option<&str>) -> (r: InterfaceView)
    ensures
        r == (match value {
            Some(v) => if spec_to_uppercase(v@) == "BOTTOM"@ {
                InterfaceView::Bottom
            } else {
                InterfaceView::Top
            },
            None => InterfaceView::Top,
        }),
{
    match value {
        Some(v) => interface_view_from_uppercase(to_uppercase(v).as_str()),
        None => InterfaceView::Top,
    }
}

/// The sort named by an upper-cased `MCFLY_RESULTS_SORT`: `LAST_RUN`, else `RANK`.
pub fn result_sort_from_uppercase(upper: &str) -> (r: ResultSort)
    ensures
        r == (if upper@ == "LAST_RUN"@ {
            ResultSort::LastRun
        } else {
            ResultSort::Rank
        }),
{
    if str_eq(upper, "LAST_RUN") {
        ResultSort::LastRun
    } else {
        ResultSort::Rank
    }
}

/// The sort chosen by `MCFLY_RESULTS_SORT` (`None` if unset).
pub fn result_sort_setting(value: Option<&str>) -> (r: ResultSort)
    ensures
        r == (match value {
            Some(v) => if spec_to_uppercase(v@) == "LAST_RUN"@ {
                ResultSort::LastRun
            } else {
                ResultSort::Rank
            },
            None => ResultSort::Rank,
        }),
{
    match value {
        Some(v) => result_sort_from_uppercase(to_uppercase(v).as_str()),
        None => ResultSort::Rank,
    }
}

/// The filter named by an upper-cased `MCFLY_RESULTS_FILTER`: `CURRENT_DIRECTORY`, else `GLOBAL`.
pub fn result_filter_from_uppercase(upper: &str) -> (r: ResultFilter)
    ensures
        r == (if upper@ == "CURRENT_DIRECTORY"@ {
            ResultFilter::CurrentDirectory
        } else {
            ResultFilter::Global
        }),
{
    if str_eq(upper, "CURRENT_DIRECTORY") {
        ResultFilter::CurrentDirectory
    } else {
        ResultFilter::Global
    }
}

/// The filter chosen by `MCFLY_RESULTS_FILTER` (`None` if unset).
pub fn result_filter_setting(value: Option<&str>) -> (r: ResultFilter)
    ensures
        r == (match value {
            Some(v) => if spec_to_uppercase(v@) == "CURRENT_DIRECTORY"@ {
                ResultFilter::CurrentDirectory
            } else {
                ResultFilter::Global
            },
            None => ResultFilter::Global,
        }),
{
    match value {
        Some(v) => result_filter_from_uppercase(to_uppercase(v).as_str()),
        None => ResultFilter::Global,
    }
}

/// The key scheme chosen by `MCFLY_KEY_SCHEME`: `vim`, else emacs.
pub fn key_scheme_setting(value: Option<&str>) -> (r: KeyScheme)
    ensures
        r == (if opt_view(value) == Some("vim"@) {
            KeyScheme::Vim
        } else {
            KeyScheme::Emacs
        }),
{
    match value {
        Some(v) => {
            if str_eq(v, "vim") {
                KeyScheme::Vim
            } else {
                KeyScheme::Emacs
            }
        },
        None => KeyScheme::Emacs,
    }
}

/// The prompt chosen by `MCFLY_PROMPT`: only a single character is taken, else `current` stays.
pub fn prompt_setting(value: Option<&str>, current: &str) -> (r: String)
    ensures
        r@ == (match value {
            Some(v) => if v@.len() == 1 {
                v@
            } else {
                current@
            },
            None => current@,
        }),
{
    match value {
        Some(v) => {
            let cs = chars_of(v);
            if cs.len() == 1 {
                v.to_owned()
            } else {
                current.to_owned()
            }
        },
        None => current.to_owned(),
    }
}

/// The history limit given by `MCFLY_HISTORY_LIMIT`, if it is an integer.
pub fn history_limit_setting(value: Option<&str>) -> (r: Option<i64>)
    ensures
        r == (match value {
            Some(v) => match parse_in_range(v@, true, i64::MIN as int, i64::MAX as int) {
                Some(n) => Some(n as i64),
                None => None::<i64>,
            },
            None => None::<i64>,
        }),
{
    match value {
        Some(v) => parse_i64(v),
        None => None,
    }
}

/// The number of results: `MCFLY_RESULTS` if it is a `u16`, then the command-line value if
/// given, else `current`.
pub fn results_setting(env_value: Option<&str>, cli_value: Option<u16>, current: u16) -> (r: u16)
    ensures
        r == (match cli_value {
            Some(n) => n,
            None => match env_value {
                Some(v) => match parse_in_range(v@, false, 0, u16::MAX as int) {
                    Some(n) => n as u16,
                    None => current,
                },
                None => current,
            },
        }),
{
    let mut results = current;
    if let Some(v) = env_value {
        if let Some(n) = parse_u16(v) {
            results = n;
        }
    }
    if let Some(n) = cli_value {
        results = n;
    }
    results
}

/// How fuzzy matching is set by a lower-cased, non-numeric `MCFLY_FUZZY`: `false` leaves
/// `current`, anything else turns it on at 2.
pub fn fuzzy_from_lowercase(lower: &str, current: i16) -> (r: i16)
    ensures
        r == (if lower@ != "false"@ {
            2
        } else {
            current
        }),
{
    if !str_eq(lower, "false") {
        2
    } else {
        current
    }
}

/// The fuzziness: `MCFLY_FUZZY` as an `i16`, or 2 if it is set to something else than
/// (any case of) `false`; then the command-line value if given; else `current`.
pub fn fuzzy_setting(env_value: Option<&str>, cli_value: Option<i16>, current: i16) -> (r: i16)
    ensures
        r == (match cli_value {
            Some(n) => n,
            None => match env_value {
                Some(v) => match parse_in_range(v@, true, i16::MIN as int, i16::MAX as int) {
                    Some(n) => n as i16,
                    None => if spec_to_lowercase(v@) != "false"@ {
                        2
                    } else {
                        current
                    },
                },
                None => current,
            },
        }),
{
    let mut fuzzy = current;
    if let Some(v) = env_value {
        if let Some(n) = parse_i16(v) {
            fuzzy = n;
        } else {
            fuzzy = fuzzy_from_lowercase(to_lowercase(v).as_str(), fuzzy);
        }
    }
    if let Some(n) = cli_value {
        fuzzy = n;
    }
    fuzzy
}

/// The history format for a command-line format.
pub fn history_format_from_cli(format: cli::HistoryFormat) -> (r: HistoryFormat)
    ensures
        r == (match format {
            cli::HistoryFormat::Bash => HistoryFormat::Bash,
            cli::HistoryFormat::Zsh => HistoryFormat::Zsh { extended_history: false },
            cli::HistoryFormat::ZshExtended => HistoryFormat::Zsh { extended_history: true },
            cli::HistoryFormat::Fish => HistoryFormat::Fish,
        }),
{
    match format {
        cli::HistoryFormat::Bash => HistoryFormat::Bash,
        cli::HistoryFormat::Zsh => HistoryFormat::Zsh { extended_history: false },
        cli::HistoryFormat::ZshExtended => HistoryFormat::Zsh { extended_history: true },
        cli::HistoryFormat::Fish => HistoryFormat::Fish,
    }
}

/// The init mode for a command-line shell.
pub fn init_mode_from_cli(shell: cli::InitMode) -> (r: InitMode)
    ensures
        r == (match shell {
            cli::InitMode::Bash => InitMode::Bash,
            cli::InitMode::Zsh => InitMode::Zsh,
            cli::InitMode::Fish => InitMode::Fish,
            cli::InitMode::Powershell => InitMode::Powershell,
        }),
{
    match shell {
        cli::InitMode::Bash => InitMode::Bash,
        cli::InitMode::Zsh => InitMode::Zsh,
        cli::InitMode::Fish => InitMode::Fish,
        cli::InitMode::Powershell => InitMode::Powershell,
    }
}

/// Whether a command changes directory (`cd `, `pushd ` or `j `), so that it is recorded in the
/// directory it was run from.
pub open spec fn changes_directory(command: Seq<char>) -> bool {
    has_prefix(command, "cd "@) || has_prefix(command, "pushd "@) || has_prefix(command, "j "@)
}

/// The directory an added command is recorded in: for a command that changes directory, the
/// previous directory if known; else `dir`.
pub fn add_mode_dir(command: &str, dir: &str, old_dir: Option<&str>) -> (r: String)
    ensures
        r@ == (if changes_directory(command@) {
            match old_dir {
                Some(o) => o@,
                None => dir@,
            }
        } else {
            dir@
        }),
{
    if crate::text::starts_with(command, "cd ") || crate::text::starts_with(command, "pushd ")
        || crate::text::starts_with(command, "j ") {
        match old_dir {
            Some(o) => o.to_owned(),
            None => dir.to_owned(),
        }
    } else {
        dir.to_owned()
    }
}

/// The search text taken from the last history line: the line (empty if there is none) with
/// leading `#mcfly: ` prefixes removed, then leading `#mcfly:` prefixes.
pub fn search_command_from_last_line(line: Option<&str>) -> (r: String)
    ensures
        r@ == (match line {
            Some(l) => strip_prefixes(strip_prefixes(l@, "#mcfly: "@), "#mcfly:"@),
            None => Seq::<char>::empty(),
        }),
{
    match line {
        Some(l) => {
            let once = trim_start_matches(l, "#mcfly: ");
            trim_start_matches(once.as_str(), "#mcfly:")
        },
        None => String::new(),
    }
}

/// The command given as separate words on the command line, joined with spaces.
pub fn command_from_words(words: &Vec<String>) -> (r: String)
    ensures
        r@ == join_spec(words@.map_values(|w: String| w@), seq![' ']),
{
    crate::text::join_strings(words, ' ')
}

} // verus!
