use crate::path_update_helpers::{mv_arguments, parse_mv_command};
use crate::settings::{spec_to_lowercase, to_lowercase};
use crate::text::{chars_of, contains_char, has_prefix, starts_with, str_eq};
use vstd::prelude::*;

verus! {

/// Commands that are never recorded.
pub open spec fn ignored_command(c: Seq<char>) -> bool {
    c == "pwd"@ || c == "ls"@ || c == "cd"@ || c == "cd .."@ || c == "clear"@ || c == "history"@
        || c == "mcfly search"@
}

/// Whether a command is one of those never recorded (`pwd`, `ls`, `cd`, `cd ..`, `clear`,
/// `history`, `mcfly search`).
pub fn is_ignored_command(command: &str) -> (r: bool)
    ensures
        r == ignored_command(command@),
{
    str_eq(command, "pwd") || str_eq(command, "ls") || str_eq(command, "cd") || str_eq(
        command,
        "cd ..",
    ) || str_eq(command, "clear") || str_eq(command, "history") || str_eq(command, "mcfly search")
}

/// Whether a command is recorded, given the last recorded command (of any session).
pub open spec fn should_add_spec(command: Seq<char>, last_command: Option<Seq<char>>) -> bool {
    &&& command.len() > 0
    &&& !has_prefix(command, "#mcfly:"@)
    &&& !has_prefix(command, " "@)
    &&& !ignored_command(command)
    &&& match last_command {
        Some(l) => command != l,
        None => true,
    }
}

/// Whether a command is recorded: it is not empty, not a search (`#mcfly:`), does not start
/// with a space, is not ignored, and differs from the last recorded command.
pub fn should_add(command: &str, last_command: Option<&str>) -> (r: bool)
    ensures
        r == should_add_spec(
            command@,
            match last_command {
                Some(l) => Some(l@),
                None => None,
            },
        ),
{
    if command.is_empty() {
        return false;
    }
    if starts_with(command, "#mcfly:") {
        return false;
    }
    if starts_with(command, " ") {
        return false;
    }
    if is_ignored_command(command) {
        return false;
    }
    match last_command {
        None => true,
        Some(l) => !str_eq(command, l),
    }
}

/// Whether a finished command may have moved a directory: it succeeded (or its exit code is
/// unknown), starts with `mv ` in any case, and has no `*` or `?`.
pub open spec fn may_move_directory(command: Seq<char>, exit_code: Option<i32>) -> bool {
    &&& (exit_code is None || exit_code == Some(0i32))
    &&& has_prefix(spec_to_lowercase(command), "mv "@)
    &&& !command.contains('*')
    &&& !command.contains('?')
}

/// The source and target of a command that may have moved a directory, when it names
/// exactly two of them.
pub fn moved_paths(command: &str, exit_code: Option<i32>) -> (r: Option<(String, String)>)
    ensures
        ({
            let args = mv_arguments(command@);
            if may_move_directory(command@, exit_code) && args.len() == 2 {
                r matches Some((from, to)) && from@ == args[0] && to@ == args[1]
            } else {
                r is None
            }
        }),
{
    let ok_exit = match exit_code {
        None => true,
        Some(code) => code == 0,
    };
    if !ok_exit {
        return None;
    }
    let lower = to_lowercase(command);
    if !starts_with(lower.as_str(), "mv ") {
        return None;
    }
    let cs = chars_of(command);
    if contains_char(&cs, '*') || contains_char(&cs, '?') {
        return None;
    }
    let parts = parse_mv_command(command);
    if parts.len() != 2 {
        return None;
    }
    let ghost ps = parts@.map_values(|s: String| s@);
    assert(ps[0] == parts@[0]@ && ps[1] == parts@[1]@);
    let from = parts[0].clone();
    let to = parts[1].clone();
    Some((from, to))
}

/// How the stored directories change when `old_path` is renamed to `new_path`.
pub struct PathUpdate {
    /// The pattern of directories below the old path (`old_path/%`).
    pub like_query: String,
    /// One more than the length of the old path in characters: where the rest of a directory
    /// below it starts.
    pub length: u32,
}

/// The update of stored directories from `old_path` to `new_path` (both normalized); `None`
/// when either is too short (at most one byte) to be updated safely.
pub fn path_update(old_path: &str, new_path: &str) -> (r: Option<PathUpdate>)
    requires
        old_path@.len() < u32::MAX,
    ensures
        if old_path.len() > 1 && new_path.len() > 1 {
            r matches Some(u) && u.like_query@ == old_path@ + "/%"@ && u.length == old_path@.len()
                + 1
        } else {
            r is None
        },
{
    if old_path.len() > 1 && new_path.len() > 1 {
        let mut like_query = old_path.to_owned();
        like_query.append("/%");
        let n = chars_of(old_path).len();
        Some(PathUpdate { like_query, length: n as u32 + 1 })
    } else {
        None
    }
}

/// The last command templates used as context: `templates` padded with empty strings to
/// `lookback` entries.
pub fn padded_templates(templates: Vec<String>, lookback: usize) -> (r: Vec<String>)
    ensures
        r@.len() == if templates@.len() < lookback {
            lookback as int
        } else {
            templates@.len() as int
        },
        forall|i: int| 0 <= i < templates@.len() ==> #[trigger] r@[i] == templates@[i],
        forall|i: int| templates@.len() <= i < r@.len() ==> (#[trigger] r@[i])@ == Seq::<
            char,
        >::empty(),
{
    let mut r = templates;
    let ghost t = r@;
    while r.len() < lookback
        invariant
            t.len() <= r@.len(),
            t.len() < lookback ==> r@.len() <= lookback,
            t.len() >= lookback ==> r@ == t,
            forall|i: int| 0 <= i < t.len() ==> #[trigger] r@[i] == t[i],
            forall|i: int| t.len() <= i < r@.len() ==> (#[trigger] r@[i])@ == Seq::<char>::empty(),
        decreases lookback - r.len(),
    {
        r.push(String::new());
    }
    r
}

} // verus!
