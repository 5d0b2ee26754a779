use crate::settings::opt_view;
use crate::text::{has_prefix, split_spec, starts_with, str_eq};
use relative_path::RelativePath;
use vstd::prelude::*;

verus! {

/// The variables of an environment, as (name, value) pairs.
pub open spec fn vars_view(vars: Seq<(String, String)>) -> Seq<(Seq<char>, Seq<char>)> {
    vars.map_values(|v: (String, String)| (v.0@, v.1@))
}

/// The value of the first variable named `name`.
pub open spec fn var_value(vars: Seq<(Seq<char>, Seq<char>)>, name: Seq<char>) -> Option<Seq<char>>
    decreases vars.len(),
{
    if vars.len() == 0 {
        None
    } else if vars[0].0 == name {
        Some(vars[0].1)
    } else {
        var_value(vars.drop_first(), name)
    }
}

/// Looks a variable up by name (the first one of that name).
pub fn lookup_var(vars: &Vec<(String, String)>, name: &str) -> (r: Option<String>)
    ensures
        match r {
            Some(v) => var_value(vars_view(vars@), name@) == Some(v@),
            None => var_value(vars_view(vars@), name@) is None,
        },
{
    let ghost all = vars_view(vars@);
    let mut i: usize = 0;
    assert(all.skip(0) =~= all);
    while i < vars.len()
        invariant
            0 <= i <= vars.len(),
            all == vars_view(vars@),
            var_value(all.skip(i as int), name@) == var_value(all, name@),
        decreases vars.len() - i,
    {
        let ghost rest = all.skip(i as int);
        assert(rest[0] == (vars@[i as int].0@, vars@[i as int].1@));
        if str_eq(vars[i].0.as_str(), name) {
            return Some(vars[i].1.clone());
        }
        assert(rest.drop_first() =~= all.skip(i + 1));
        i = i + 1;
    }
    None
}

/// What `shellexpand::full_with_context` makes of `input`: its variables replaced by their
/// values in `vars` and a leading `~` by `home`; `None` when a variable has no value.
pub uninterp spec fn spec_expand_full(
    input: Seq<char>,
    home: Option<Seq<char>>,
    vars: Seq<(Seq<char>, Seq<char>)>,
) -> Option<Seq<char>>;

/// Expands variables and a leading `~` with `shellexpand::full_with_context`, looking the
/// variables up in `vars`.
/// Trusted: the result is `spec_expand_full` of the arguments, a function of them alone
/// (the crate's source substitutes text and calls only the lookup given); what that text is
/// is not stated here.
#[verifier::external_body]
fn expand_full(input: &str, home: Option<&str>, vars: &Vec<(String, String)>) -> (r: Option<
    String,
>)
    ensures
        match r {
            Some(s) => spec_expand_full(input@, opt_view(home), vars_view(vars@)) == Some(
                s@,
            ),
            None => spec_expand_full(input@, opt_view(home), vars_view(vars@)) is None,
        },
{
    let home = home.map(|h| h.to_string());
    let lookup = |name: &str| lookup_var(vars, name).map(Some).ok_or(());
    shellexpand::full_with_context(input, move || home, lookup).ok().map(|c| c.into_owned())
}

/// What `RelativePath::new(path).normalize().to_path("/")` gives: the path with `.` and `..`
/// resolved, placed under the root.
pub uninterp spec fn spec_normalized_under_root(path: Seq<char>) -> Seq<char>;

/// Normalizes a path under the root with `relative_path`.
/// Trusted: the result is `spec_normalized_under_root(path@)`; the crate joins the UTF-8
/// components of `path` to `/`, so the text is whole.
#[verifier::external_body]
fn normalized_under_root(path: &str) -> (r: String)
    ensures
        r@ == spec_normalized_under_root(path@),
{
    RelativePath::new(path).normalize().to_path("/").to_string_lossy().into_owned()
}

/// The components of a relative path: its non-empty pieces between `/` separators.
pub open spec fn path_pieces(path: Seq<char>) -> Seq<Seq<char>> {
    split_spec(path, '/').filter(|p: Seq<char>| p.len() > 0)
}

/// `acc` with each piece appended, after a `/` unless `acc` is still empty.
pub open spec fn pushed_pieces(acc: Seq<char>, pieces: Seq<Seq<char>>) -> Seq<char>
    decreases pieces.len(),
{
    if pieces.len() == 0 {
        acc
    } else {
        pushed_pieces(
            if acc.len() == 0 {
                pieces[0]
            } else {
                acc + "/"@ + pieces[0]
            },
            pieces.drop_first(),
        )
    }
}

/// Joins a relative path to a base directory with `RelativePath::to_path`.
/// Trusted: as the crate's source shows (unix, where the separator is `/`), the result is
/// the base followed by each component of `path`, each after a separator unless nothing
/// was written yet; the text is whole since all parts are UTF-8.
#[verifier::external_body]
fn joined_to(path: &str, base: &str) -> (r: String)
    ensures
        r@ == pushed_pieces(base@, path_pieces(path@)),
{
    RelativePath::new(path).to_path(base).to_string_lossy().into_owned()
}

/// The normalized form of an expanded path: under the root when it is absolute, else joined
/// to `cwd` first.
pub open spec fn normalized_expansion(expanded: Seq<char>, cwd: Seq<char>) -> Seq<char> {
    if has_prefix(expanded, "/"@) {
        spec_normalized_under_root(expanded)
    } else {
        spec_normalized_under_root(pushed_pieces(cwd, path_pieces(expanded)))
    }
}

/// Normalizes an already expanded path (see `normalized_expansion`).
pub fn normalize_expanded(expanded: &str, cwd: &str) -> (r: String)
    ensures
        r@ == normalized_expansion(expanded@, cwd@),
{
    if starts_with(expanded, "/") {
        normalized_under_root(expanded)
    } else {
        let to_current_dir = joined_to(expanded, cwd);
        normalized_under_root(to_current_dir.as_str())
    }
}

/// The normalized form of a path as typed: variables and `~` expanded, then `.` and `..`
/// resolved from `cwd`. Every variable it names must have a value in `vars`.
pub fn normalize_path(
    incoming_path: &str,
    home: Option<&str>,
    vars: &Vec<(String, String)>,
    cwd: &str,
) -> (r: String)
    requires
        spec_expand_full(incoming_path@, opt_view(home), vars_view(vars@)) is Some,
    ensures
        r@ == normalized_expansion(
            spec_expand_full(incoming_path@, opt_view(home), vars_view(vars@))->0,
            cwd@,
        ),
{
    match expand_full(incoming_path, home, vars) {
        Some(expanded) => normalize_expanded(expanded.as_str(), cwd),
        None => String::new(),
    }
}

/// `normalize_path` when every variable the path names has a value, else `None`.
pub fn try_normalize_path(
    incoming_path: &str,
    home: Option<&str>,
    vars: &Vec<(String, String)>,
    cwd: &str,
) -> (r: Option<String>)
    ensures
        match spec_expand_full(incoming_path@, opt_view(home), vars_view(vars@)) {
            Some(e) => r matches Some(s) && s@ == normalized_expansion(e, cwd@),
            None => r is None,
        },
{
    match expand_full(incoming_path, home, vars) {
        Some(_) => Some(normalize_path(incoming_path, home, vars, cwd)),
        None => None,
    }
}

} // verus!
