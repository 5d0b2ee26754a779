use crate::graphemes::{ascii_text, graphemes, one_char_clusters, plain_text, spec_graphemes};
use crate::text::{
    chars_of, extend_chars, has_prefix, is_single, split_chars, split_spec, str_eq,
    string_from_chars,
};
use path_absolutize::Absolutize;
use vstd::prelude::*;

verus! {

/// Where the splitting of an `mv` command stands after some of the clusters.
pub ghost struct MvState {
    pub in_double_quote: bool,
    pub in_single_quote: bool,
    pub escaped: bool,
    pub buffer: Seq<char>,
    pub words: Seq<Seq<char>>,
}

/// `words` with `buffer` added as a word if it is not empty.
pub open spec fn with_word(words: Seq<Seq<char>>, buffer: Seq<char>) -> Seq<Seq<char>> {
    if buffer.len() > 0 {
        words.push(buffer)
    } else {
        words
    }
}

/// Processes one grapheme cluster `g` of a shell command line.
pub open spec fn mv_step(st: MvState, g: Seq<char>) -> MvState {
    if g == seq!['\\'] {
        MvState { escaped: true, ..st }
    } else if g == seq!['"'] {
        if st.escaped {
            MvState { escaped: false, buffer: st.buffer + g, ..st }
        } else if st.in_double_quote {
            MvState {
                in_double_quote: false,
                words: with_word(st.words, st.buffer),
                buffer: Seq::empty(),
                ..st
            }
        } else if !st.in_single_quote {
            MvState { in_double_quote: true, ..st }
        } else {
            MvState { buffer: st.buffer + g, ..st }
        }
    } else if g == seq!['\''] {
        if st.in_single_quote {
            MvState {
                in_single_quote: false,
                words: with_word(st.words, st.buffer),
                buffer: Seq::empty(),
                escaped: false,
                ..st
            }
        } else if !st.in_double_quote {
            MvState { in_single_quote: true, escaped: false, ..st }
        } else {
            MvState { buffer: st.buffer + g, escaped: false, ..st }
        }
    } else if g == seq![' '] {
        if st.in_double_quote || st.in_single_quote || st.escaped {
            MvState { buffer: st.buffer + g, escaped: false, ..st }
        } else {
            MvState {
                words: with_word(st.words, st.buffer),
                buffer: Seq::empty(),
                escaped: false,
                ..st
            }
        }
    } else {
        MvState { buffer: st.buffer + g, escaped: false, ..st }
    }
}

pub open spec fn mv_prefix(gs: Seq<Seq<char>>, i: nat) -> MvState
    decreases i,
{
    if i == 0 {
        MvState {
            in_double_quote: false,
            in_single_quote: false,
            escaped: false,
            buffer: Seq::empty(),
            words: Seq::empty(),
        }
    } else {
        mv_step(mv_prefix(gs, (i - 1) as nat), gs[i - 1])
    }
}

/// The words of a command line, with quotes and escapes resolved as `mv_step` does.
pub open spec fn command_words(gs: Seq<Seq<char>>) -> Seq<Seq<char>> {
    let st = mv_prefix(gs, gs.len());
    with_word(st.words, st.buffer)
}

pub open spec fn is_option(w: Seq<char>) -> bool {
    w.len() > 0 && w[0] == '-'
}

/// `ws` without the words that start with `-`.
pub open spec fn without_options(ws: Seq<Seq<char>>) -> Seq<Seq<char>>
    decreases ws.len(),
{
    if ws.len() == 0 {
        ws
    } else if is_option(ws.last()) {
        without_options(ws.drop_last())
    } else {
        without_options(ws.drop_last()).push(ws.last())
    }
}

/// The arguments of an `mv` command line that are not options: the words after the first.
pub open spec fn mv_arguments(command: Seq<char>) -> Seq<Seq<char>> {
    without_options(after_first(command_words(spec_graphemes(command))))
}

/// The words after the first one (none if there are none).
pub open spec fn after_first(ws: Seq<Seq<char>>) -> Seq<Seq<char>> {
    if ws.len() == 0 {
        ws
    } else {
        ws.skip(1)
    }
}

fn push_word(words: &mut Vec<Vec<char>>, buffer: Vec<char>)
    ensures
        final(words)@.map_values(|w: Vec<char>| w@) == with_word(
            old(words)@.map_values(|w: Vec<char>| w@),
            buffer@,
        ),
{
    if buffer.len() > 0 {
        words.push(buffer);
        proof {
            assert(words@.map_values(|w: Vec<char>| w@) =~= old(words)@.map_values(
                |w: Vec<char>| w@,
            ).push(buffer@));
        }
    }
}

/// Splits an `mv` command line into words and returns its non-option arguments.
pub fn parse_mv_command(command: &str) -> (r: Vec<String>)
    ensures
        r@.map_values(|s: String| s@) == mv_arguments(command@),
        plain_text(command@) && unquoted(command@) ==> r@.map_values(|s: String| s@)
            == plain_mv_operands(command@),
{
    let gs = graphemes(command);
    proof {
        if plain_text(command@) && unquoted(command@) {
            law_plain_mv_arguments(command@);
        }
    }
    let ghost cl = gs@.map_values(|g: Vec<char>| g@);
    let mut in_double_quote = false;
    let mut in_single_quote = false;
    let mut escaped = false;
    let mut buffer: Vec<char> = Vec::new();
    let mut words: Vec<Vec<char>> = Vec::new();
    let mut i: usize = 0;
    while i < gs.len()
        invariant
            0 <= i <= gs.len(),
            cl == gs@.map_values(|g: Vec<char>| g@),
            cl == spec_graphemes(command@),
            ({
                let st = mv_prefix(cl, i as nat);
                &&& st.in_double_quote == in_double_quote
                &&& st.in_single_quote == in_single_quote
                &&& st.escaped == escaped
                &&& st.buffer == buffer@
                &&& st.words == words@.map_values(|w: Vec<char>| w@)
            }),
        decreases gs.len() - i,
    {
        let g = &gs[i];
        assert(cl[i as int] == g@);
        if is_single(g, '\\') {
            escaped = true;
        } else if is_single(g, '"') {
            if escaped {
                escaped = false;
                extend_chars(&mut buffer, g);
            } else if in_double_quote {
                in_double_quote = false;
                push_word(&mut words, buffer);
                buffer = Vec::new();
            } else if !in_single_quote {
                in_double_quote = true;
            } else {
                extend_chars(&mut buffer, g);
            }
        } else if is_single(g, '\'') {
            if in_single_quote {
                in_single_quote = false;
                push_word(&mut words, buffer);
                buffer = Vec::new();
            } else if !in_double_quote {
                in_single_quote = true;
            } else {
                extend_chars(&mut buffer, g);
            }
            escaped = false;
        } else if is_single(g, ' ') {
            if in_double_quote || in_single_quote || escaped {
                extend_chars(&mut buffer, g);
            } else {
                push_word(&mut words, buffer);
                buffer = Vec::new();
            }
            escaped = false;
        } else {
            extend_chars(&mut buffer, g);
            escaped = false;
        }
        i = i + 1;
    }
    push_word(&mut words, buffer);
    let ghost ws = words@.map_values(|w: Vec<char>| w@);
    assert(ws == command_words(cl));
    let mut result: Vec<String> = Vec::new();
    let mut j: usize = 1;
    if words.len() == 0 {
        return result;
    }
    proof {
        assert(ws.skip(1).take(0) =~= Seq::<Seq<char>>::empty());
    }
    while j < words.len()
        invariant
            1 <= j <= words.len(),
            ws == words@.map_values(|w: Vec<char>| w@),
            result@.map_values(|s: String| s@) == without_options(
                ws.skip(1).take(j - 1),
            ),
        decreases words.len() - j,
    {
        let w = &words[j];
        proof {
            assert(ws.skip(1).take(j as int) =~= ws.skip(1).take(j - 1).push(w@));
            assert(ws.skip(1).take(j as int).drop_last() =~= ws.skip(1).take(j - 1));
        }
        if !(w.len() > 0 && w[0] == '-') {
            let s = string_from_chars(w);
            let ghost before = result@.map_values(|s: String| s@);
            result.push(s);
            proof {
                assert(result@.map_values(|s: String| s@) =~= before.push(w@));
            }
        }
        j = j + 1;
    }
    proof {
        assert(ws.skip(1).take(j - 1) =~= ws.skip(1));
    }
    result
}

/// A path with a leading `~` (alone or before `/`) replaced by the home directory, when it
/// is known; any other path is left as it is.
pub open spec fn tilde_expanded(input: Seq<char>, home: Option<Seq<char>>) -> Seq<char> {
    if input.len() > 0 && input[0] == '~' && (input.len() == 1 || input[1] == '/') && home is Some {
        home->0 + input.skip(1)
    } else {
        input
    }
}

/// Expands a leading `~` with `shellexpand::tilde_with_context`, the home directory being
/// `home`. Trusted: the result is `tilde_expanded(input, home)`, as the crate's source shows
/// for unix (`~` alone or followed by `/`, with a known home directory, is replaced).
#[verifier::external_body]
fn expand_tilde(input: &str, home: Option<&str>) -> (r: String)
    ensures
        r@ == tilde_expanded(
            input@,
            match home {
                Some(h) => Some(h@),
                None => None,
            },
        ),
{
    shellexpand::tilde_with_context(input, move || home).into_owned()
}

/// A current directory that `path_absolutize` can resolve against: the root itself, or an
/// absolute path with a component besides `.` (so that it, or its parent, starts at the root).
pub open spec fn usable_cwd(cwd: Seq<char>) -> bool {
    &&& has_prefix(cwd, "/"@)
    &&& (cwd == "/"@ || exists|i: int|
        0 <= i < split_spec(cwd, '/').len() && #[trigger] split_spec(cwd, '/')[i].len() > 0
            && split_spec(cwd, '/')[i] != "."@)
}

/// Whether `cwd` is a current directory that paths can be resolved against (see `usable_cwd`).
pub fn is_usable_cwd(cwd: &str) -> (r: bool)
    ensures
        r == usable_cwd(cwd@),
{
    proof {
        reveal_strlit("/");
        reveal_strlit(".");
    }
    let cs = chars_of(cwd);
    if cs.len() == 0 || cs[0] != '/' {
        proof {
            if cs.len() > 0 {
                assert(cwd@.take(1)[0] != "/"@[0]);
            }
        }
        return false;
    }
    assert(has_prefix(cwd@, "/"@)) by {
        assert(cwd@.take(1) =~= "/"@);
    }
    if str_eq(cwd, "/") {
        return true;
    }
    let pieces = split_chars(&cs, '/');
    let ghost ps = pieces@.map_values(|p: Vec<char>| p@);
    let mut i: usize = 0;
    while i < pieces.len()
        invariant
            0 <= i <= pieces.len(),
            ps == pieces@.map_values(|p: Vec<char>| p@),
            ps == split_spec(cwd@, '/'),
            has_prefix(cwd@, "/"@),
            forall|j: int| 0 <= j < i ==> !(#[trigger] ps[j].len() > 0 && ps[j] != "."@),
        decreases pieces.len() - i,
    {
        let single_dot = pieces[i].len() == 1 && pieces[i][0] == '.';
        proof {
            reveal_strlit(".");
            assert(ps[i as int] == pieces@[i as int]@);
            if single_dot {
                assert(ps[i as int] =~= "."@);
            } else if ps[i as int].len() == 1 {
                assert(ps[i as int][0] != "."@[0]);
            }
        }
        if pieces[i].len() > 0 && !single_dot {
            assert(split_spec(cwd@, '/')[i as int].len() > 0 && split_spec(cwd@, '/')[i as int]
                != "."@);
            return true;
        }
        i = i + 1;
    }
    false
}

/// The absolute, dot-free form that `path_absolutize` gives a path relative to `cwd`.
pub uninterp spec fn spec_absolutize_from(path: Seq<char>, cwd: Seq<char>) -> Seq<char>;

/// Makes a path absolute and removes `.` and `..` with `Absolutize::absolutize_from`.
/// Trusted: the result is `spec_absolutize_from(path, cwd)`. As the crate's unix source shows,
/// with a usable `cwd` the call keeps at least the root among its pieces, never fails and only
/// joins parts of its UTF-8 arguments; other current directories can leave it no piece, on
/// which it panics, so they are left out.
#[verifier::external_body]
fn absolutize_from(path: &str, cwd: &str) -> (r: Option<String>)
    requires
        usable_cwd(cwd@),
    ensures
        r is Some,
        r matches Some(s) ==> s@ == spec_absolutize_from(path@, cwd@),
{
    match std::path::Path::new(path).absolutize_from(cwd) {
        Ok(p) => Some(p.to_string_lossy().into_owned()),
        Err(_) => None,
    }
}

/// The normalized form of a path as typed: `~` expanded with `home`, then made absolute from
/// `cwd` without `.` and `..`.
pub fn normalize_path(incoming_path: &str, home: Option<&str>, cwd: &str) -> (r: String)
    requires
        usable_cwd(cwd@),
    ensures
        r@ == spec_absolutize_from(
            tilde_expanded(
                incoming_path@,
                match home {
                    Some(h) => Some(h@),
                    None => None,
                },
            ),
            cwd@,
        ),
{
    let expanded = expand_tilde(incoming_path, home);
    match absolutize_from(expanded.as_str(), cwd) {
        Some(s) => s,
        None => String::new(),
    }
}

proof fn lemma_mv_words_nonempty(gs: Seq<Seq<char>>, i: nat)
    ensures
        forall|j: int|
            0 <= j < mv_prefix(gs, i).words.len() ==> (#[trigger] mv_prefix(gs, i).words[j]).len()
                > 0,
    decreases i,
{
    if i > 0 {
        lemma_mv_words_nonempty(gs, (i - 1) as nat);
        let prev = mv_prefix(gs, (i - 1) as nat);
        let cur = mv_prefix(gs, i);
        assert(cur.words == prev.words || cur.words == with_word(prev.words, prev.buffer));
        assert forall|j: int| 0 <= j < cur.words.len() implies (#[trigger] cur.words[j]).len()
            > 0 by {
            if j < prev.words.len() {
                assert(cur.words[j] == prev.words[j]);
            }
        }
    }
}

proof fn lemma_without_options(ws: Seq<Seq<char>>)
    requires
        forall|j: int| 0 <= j < ws.len() ==> (#[trigger] ws[j]).len() > 0,
    ensures
        forall|j: int|
            0 <= j < without_options(ws).len() ==> (#[trigger] without_options(ws)[j]).len() > 0
                && !is_option(without_options(ws)[j]),
    decreases ws.len(),
{
    if ws.len() > 0 {
        let prev = ws.drop_last();
        assert forall|j: int| 0 <= j < prev.len() implies (#[trigger] prev[j]).len() > 0 by {
            assert(prev[j] == ws[j]);
        }
        lemma_without_options(prev);
        assert(ws.last() == ws[ws.len() - 1]);
        let r = without_options(ws);
        let p = without_options(prev);
        assert forall|j: int| 0 <= j < r.len() implies (#[trigger] r[j]).len() > 0 && !is_option(
            r[j],
        ) by {
            if j < p.len() {
                assert(r[j] == p[j]);
            }
        }
    }
}

/// Every argument found in an `mv` command line is a non-empty word that is not an option.
pub proof fn law_mv_arguments_are_operands(command: Seq<char>)
    ensures
        forall|i: int|
            0 <= i < mv_arguments(command).len() ==> (#[trigger] mv_arguments(command)[i]).len()
                > 0 && !is_option(mv_arguments(command)[i]),
{
    let gs = spec_graphemes(command);
    let st = mv_prefix(gs, gs.len());
    lemma_mv_words_nonempty(gs, gs.len());
    let ws = command_words(gs);
    assert forall|j: int| 0 <= j < ws.len() implies (#[trigger] ws[j]).len() > 0 by {
        if st.buffer.len() > 0 && j == st.words.len() {
        } else {
            assert(ws[j] == st.words[j]);
        }
    }
    let rest = after_first(ws);
    assert forall|j: int| 0 <= j < rest.len() implies (#[trigger] rest[j]).len() > 0 by {
        assert(rest[j] == ws[j + 1]);
    }
    lemma_without_options(rest);
}

/// The words of a text split on spaces, in order, leaving out the empty ones.
pub open spec fn space_separated_words(s: Seq<char>) -> Seq<Seq<char>> {
    split_spec(s, ' ').filter(|w: Seq<char>| w.len() > 0)
}

/// The arguments a plain `mv` command line names: its words after the first that do not
/// start with `-`.
pub open spec fn plain_mv_operands(s: Seq<char>) -> Seq<Seq<char>> {
    let ws = space_separated_words(s);
    let rest = if ws.len() == 0 {
        ws
    } else {
        ws.skip(1)
    };
    rest.filter(|w: Seq<char>| !(w.len() > 0 && w[0] == '-'))
}

/// Whether a text holds none of the characters that quote or escape in a command line.
pub open spec fn unquoted(s: Seq<char>) -> bool {
    !s.contains('"') && !s.contains('\'') && !s.contains('\\')
}

/// The state of the word splitting after a plain text: no quote is open, nothing is escaped,
/// the pieces before the last space are the words, and the last piece is being read.
proof fn lemma_plain_words(s: Seq<char>, i: nat)
    requires
        i <= s.len(),
        unquoted(s),
    ensures
        mv_prefix(one_char_clusters(s), i) == (MvState {
            in_double_quote: false,
            in_single_quote: false,
            escaped: false,
            buffer: split_spec(s.take(i as int), ' ').last(),
            words: split_spec(s.take(i as int), ' ').drop_last().filter(
                |w: Seq<char>| w.len() > 0,
            ),
        }),
    decreases i,
{
    reveal(Seq::filter);
    let gs = one_char_clusters(s);
    if i == 0 {
        assert(s.take(0) =~= Seq::<char>::empty());
        assert(split_spec(Seq::<char>::empty(), ' ').drop_last() =~= Seq::<Seq<char>>::empty());
    } else {
        lemma_plain_words(s, (i - 1) as nat);
        let t = s.take(i as int);
        let t0 = s.take(i - 1);
        assert(t.drop_last() =~= t0);
        let c = s[i - 1];
        assert(t.last() == c);
        assert(gs[i - 1] == seq![c]);
        assert(s.contains(c));
        let p0 = split_spec(t0, ' ');
        crate::text::lemma_split_nonempty_pub(t0, ' ');
        assert(p0 =~= p0.drop_last().push(p0.last()));
        if c == ' ' {
            assert(split_spec(t, ' ') == p0.push(Seq::<char>::empty()));
            assert(split_spec(t, ' ').drop_last() =~= p0);
            p0.drop_last().lemma_filter_push(p0.last(), |w: Seq<char>| w.len() > 0);
        } else {
            assert(c != '"' && c != '\'' && c != '\\');
            assert(seq![c] != seq!['\\']) by {
                assert(seq![c][0] != seq!['\\'][0]);
            }
            assert(seq![c] != seq!['"']) by {
                assert(seq![c][0] != seq!['"'][0]);
            }
            assert(seq![c] != seq!['\'']) by {
                assert(seq![c][0] != seq!['\''][0]);
            }
            assert(seq![c] != seq![' ']) by {
                assert(seq![c][0] != seq![' '][0]);
            }
            let p = split_spec(t, ' ');
            assert(p == p0.update(p0.len() - 1, p0.last().push(c)));
            assert(p.drop_last() =~= p0.drop_last());
            assert(p.last() == p0.last().push(c));
            assert(p0.last() + seq![c] =~= p0.last().push(c));
        }
    }
}

proof fn lemma_options_filtered(ws: Seq<Seq<char>>)
    ensures
        without_options(ws) == ws.filter(|w: Seq<char>| !(w.len() > 0 && w[0] == '-')),
    decreases ws.len(),
{
    reveal(Seq::filter);
    if ws.len() > 0 {
        lemma_options_filtered(ws.drop_last());
    }
}

/// On a command line without quotes or escapes whose characters are each a grapheme cluster
/// (as every ASCII text without carriage return is), the `mv` arguments are exactly its words
/// after the first that do not start with `-`, in order.
pub proof fn law_plain_mv_arguments(command: Seq<char>)
    requires
        spec_graphemes(command) == one_char_clusters(command),
        unquoted(command),
    ensures
        mv_arguments(command) == plain_mv_operands(command),
{
    reveal(Seq::filter);
    let gs = one_char_clusters(command);
    lemma_plain_words(command, command.len());
    assert(command.take(command.len() as int) =~= command);
    let p = split_spec(command, ' ');
    crate::text::lemma_split_nonempty_pub(command, ' ');
    assert(p =~= p.drop_last().push(p.last()));
    p.drop_last().lemma_filter_push(p.last(), |w: Seq<char>| w.len() > 0);
    assert(command_words(gs) == space_separated_words(command));
    lemma_options_filtered(after_first(command_words(gs)));
}

} // verus!
