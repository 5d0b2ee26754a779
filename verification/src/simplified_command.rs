use crate::graphemes::{graphemes, spec_graphemes};
use crate::text::{append_chars, contains_char, extend_chars, has_prefix, is_single};
use vstd::prelude::*;

verus! {

/// Once this many spaces have been seen outside quotes, a truncating simplification stops.
pub const TRUNCATE_TO_N_TOKENS: u16 = 2;

/// A reduced approximation of a command, used to match commands as templates: quoted strings
/// become `QUOTED` and arguments that look like paths become `PATH`. It does not handle deeply
/// nested escaping, and it drops escape characters.
#[derive(Debug)]
pub struct SimplifiedCommand {
    pub original: String,
    pub result: String,
    pub truncate: bool,
}

/// Where the simplification stands after some of the clusters.
pub ghost struct SimplifyState {
    pub in_double_quote: bool,
    pub in_single_quote: bool,
    pub escaped: bool,
    pub buffer: Seq<char>,
    pub tokens: int,
    pub result: Seq<char>,
    pub stopped: bool,
}

pub open spec fn quoted_word() -> Seq<char> {
    seq!['Q', 'U', 'O', 'T', 'E', 'D']
}

pub open spec fn path_word() -> Seq<char> {
    seq!['P', 'A', 'T', 'H']
}

/// What a finished word contributes: `PATH` if it holds a `/` and something came before it,
/// else the word itself.
pub open spec fn flushed_word(result: Seq<char>, buffer: Seq<char>) -> Seq<char> {
    if result.len() > 0 && buffer.contains('/') {
        path_word()
    } else {
        buffer
    }
}

/// Processes one grapheme cluster `g`.
pub open spec fn simplify_step(st: SimplifyState, g: Seq<char>, truncate: bool) -> SimplifyState {
    if g == seq!['\\'] {
        SimplifyState { escaped: true, ..st }
    } else if g == seq!['"'] {
        if st.escaped {
            SimplifyState { escaped: false, ..st }
        } else if st.in_double_quote {
            SimplifyState { in_double_quote: false, result: st.result + quoted_word(), ..st }
        } else if !st.in_single_quote {
            SimplifyState { in_double_quote: true, ..st }
        } else {
            st
        }
    } else if g == seq!['\''] {
        if st.in_single_quote {
            SimplifyState {
                in_single_quote: false,
                result: st.result + quoted_word(),
                escaped: false,
                ..st
            }
        } else if !st.in_double_quote {
            SimplifyState { in_single_quote: true, escaped: false, ..st }
        } else {
            SimplifyState { escaped: false, ..st }
        }
    } else if g == seq![' '] || g == seq![':'] || g == seq![','] {
        if !st.in_double_quote && !st.in_single_quote {
            let tokens = if truncate && g == seq![' '] {
                st.tokens + 1
            } else {
                st.tokens
            };
            if truncate && g == seq![' '] && tokens >= TRUNCATE_TO_N_TOKENS {
                SimplifyState { tokens, stopped: true, ..st }
            } else {
                SimplifyState {
                    tokens,
                    result: st.result + flushed_word(st.result, st.buffer) + g,
                    buffer: Seq::empty(),
                    ..st
                }
            }
        } else {
            st
        }
    } else {
        if !st.in_double_quote && !st.in_single_quote {
            SimplifyState { buffer: st.buffer + g, escaped: false, ..st }
        } else {
            SimplifyState { escaped: false, ..st }
        }
    }
}

/// The state after the first `i` clusters (processing ends once it has stopped).
pub open spec fn simplify_prefix(
    gs: Seq<Seq<char>>,
    truncate: bool,
    init: SimplifyState,
    i: nat,
) -> SimplifyState
    decreases i,
{
    if i == 0 {
        init
    } else {
        let prev = simplify_prefix(gs, truncate, init, (i - 1) as nat);
        if prev.stopped {
            prev
        } else {
            simplify_step(prev, gs[i - 1], truncate)
        }
    }
}

pub open spec fn initial_state(result: Seq<char>) -> SimplifyState {
    SimplifyState {
        in_double_quote: false,
        in_single_quote: false,
        escaped: false,
        buffer: Seq::empty(),
        tokens: 0,
        result,
        stopped: false,
    }
}

/// The simplified text appended to `result` for the clusters `gs`.
pub open spec fn simplified(result: Seq<char>, gs: Seq<Seq<char>>, truncate: bool) -> Seq<char> {
    let st = simplify_prefix(gs, truncate, initial_state(result), gs.len());
    st.result + flushed_word(st.result, st.buffer)
}

proof fn lemma_stopped_stays(gs: Seq<Seq<char>>, truncate: bool, init: SimplifyState, i: nat, j: nat)
    requires
        i <= j,
        simplify_prefix(gs, truncate, init, i).stopped,
    ensures
        simplify_prefix(gs, truncate, init, j) == simplify_prefix(gs, truncate, init, i),
    decreases j - i,
{
    if i < j {
        lemma_stopped_stays(gs, truncate, init, i, (j - 1) as nat);
    }
}

fn push_quoted(s: &mut String)
    ensures
        final(s)@ == old(s)@ + quoted_word(),
{
    s.append("QUOTED");
    proof {
        reveal_strlit("QUOTED");
        assert("QUOTED"@ =~= quoted_word());
    }
}

fn push_flushed_word(s: &mut String, buffer: &Vec<char>)
    ensures
        final(s)@ == old(s)@ + flushed_word(old(s)@, buffer@),
{
    if !s.as_str().is_empty() && contains_char(buffer, '/') {
        s.append("PATH");
        proof {
            reveal_strlit("PATH");
            assert("PATH"@ =~= path_word());
        }
    } else {
        append_chars(s, buffer);
    }
}

impl SimplifiedCommand {
    pub fn new(command: &str, truncate: bool) -> (r: SimplifiedCommand)
        ensures
            r.original@ == command@,
            r.truncate == truncate,
            r.result@ == simplified(Seq::empty(), spec_graphemes(command@), truncate),
    {
        let mut simplified_command = SimplifiedCommand {
            original: command.to_owned(),
            result: String::new(),
            truncate,
        };
        simplified_command.simplify();
        simplified_command
    }

    /// Appends the simplification of `original` to `result`.
    pub fn simplify(&mut self)
        ensures
            final(self).original == old(self).original,
            final(self).truncate == old(self).truncate,
            final(self).result@ == simplified(
                old(self).result@,
                spec_graphemes(old(self).original@),
                old(self).truncate,
            ),
    {
        let gs = graphemes(self.original.as_str());
        let ghost cl = gs@.map_values(|g: Vec<char>| g@);
        let ghost init = initial_state(self.result@);
        let mut in_double_quote = false;
        let mut in_single_quote = false;
        let mut escaped = false;
        let mut buffer: Vec<char> = Vec::new();
        let mut tokens: u16 = 0;
        let truncate = self.truncate;
        let mut i: usize = 0;
        while i < gs.len()
            invariant_except_break
                ({
                    let st = simplify_prefix(cl, truncate, init, i as nat);
                    &&& !st.stopped
                    &&& st.in_double_quote == in_double_quote
                    &&& st.in_single_quote == in_single_quote
                    &&& st.escaped == escaped
                    &&& st.buffer == buffer@
                    &&& st.tokens == tokens as int
                    &&& st.result == self.result@
                }),
                tokens < TRUNCATE_TO_N_TOKENS,
            invariant
                0 <= i <= gs.len(),
                cl == gs@.map_values(|g: Vec<char>| g@),
                cl == spec_graphemes(self.original@),
                self.original == old(self).original,
                self.truncate == truncate,
                truncate == old(self).truncate,
                init == initial_state(old(self).result@),
            ensures
                ({
                    let st = simplify_prefix(cl, truncate, init, cl.len());
                    &&& st.buffer == buffer@
                    &&& st.result == self.result@
                }),
            decreases gs.len() - i,
        {
            let g = &gs[i];
            let ghost st = simplify_prefix(cl, truncate, init, i as nat);
            assert(cl[i as int] == g@);
            if is_single(g, '\\') {
                escaped = true;
            } else if is_single(g, '"') {
                if escaped {
                    escaped = false;
                } else if in_double_quote {
                    in_double_quote = false;
                    push_quoted(&mut self.result);
                } else if !in_single_quote {
                    in_double_quote = true;
                }
            } else if is_single(g, '\'') {
                if in_single_quote {
                    in_single_quote = false;
                    push_quoted(&mut self.result);
                } else if !in_double_quote {
                    in_single_quote = true;
                }
                escaped = false;
            } else if is_single(g, ' ') || is_single(g, ':') || is_single(g, ',') {
                if !in_double_quote && !in_single_quote {
                    if truncate && is_single(g, ' ') {
                        tokens = tokens + 1;
                        if tokens >= TRUNCATE_TO_N_TOKENS {
                            proof {
                                lemma_stopped_stays(cl, truncate, init, (i + 1) as nat, cl.len());
                            }
                            break;
                        }
                    }
                    push_flushed_word(&mut self.result, &buffer);
                    append_chars(&mut self.result, g);
                    buffer = Vec::new();
                }
            } else {
                if !in_double_quote && !in_single_quote {
                    extend_chars(&mut buffer, g);
                }
                escaped = false;
            }
            i = i + 1;
        }
        push_flushed_word(&mut self.result, &buffer);
    }
}

/// The two runs agree on everything but the token count.
pub open spec fn same_progress(t: SimplifyState, f: SimplifyState) -> bool {
    &&& t.in_double_quote == f.in_double_quote
    &&& t.in_single_quote == f.in_single_quote
    &&& t.escaped == f.escaped
    &&& t.buffer == f.buffer
    &&& t.result == f.result
}

proof fn lemma_prefix_trans(x: Seq<char>, y: Seq<char>, z: Seq<char>)
    requires
        has_prefix(y, x),
        has_prefix(z, y),
    ensures
        has_prefix(z, x),
{
    assert(z.take(x.len() as int) =~= y.take(x.len() as int));
}

proof fn lemma_prefix_append(x: Seq<char>, y: Seq<char>)
    ensures
        has_prefix(x + y, x),
{
    assert((x + y).take(x.len() as int) =~= x);
}

proof fn lemma_prefix_refl(x: Seq<char>)
    ensures
        has_prefix(x, x),
{
    assert(x.take(x.len() as int) =~= x);
}

/// Without truncation the run never stops and its result only grows.
proof fn lemma_untruncated_grows(gs: Seq<Seq<char>>, init: SimplifyState, i: nat, j: nat)
    requires
        !init.stopped,
        i <= j,
    ensures
        !simplify_prefix(gs, false, init, j).stopped,
        has_prefix(
            simplify_prefix(gs, false, init, j).result,
            simplify_prefix(gs, false, init, i).result,
        ),
    decreases j,
{
    if j == i {
        if j > 0 {
            lemma_untruncated_grows(gs, init, 0, (j - 1) as nat);
        }
        lemma_prefix_refl(simplify_prefix(gs, false, init, j).result);
    } else {
        lemma_untruncated_grows(gs, init, i, (j - 1) as nat);
        let prev = simplify_prefix(gs, false, init, (j - 1) as nat);
        let g = gs[j - 1];
        let next = simplify_step(prev, g, false);
        assert(next.result == prev.result || next.result == prev.result + quoted_word()
            || next.result == prev.result + flushed_word(prev.result, prev.buffer) + g);
        if next.result == prev.result + quoted_word() {
            lemma_prefix_append(prev.result, quoted_word());
        } else if next.result == prev.result + flushed_word(prev.result, prev.buffer) + g {
            assert(next.result =~= prev.result + (flushed_word(prev.result, prev.buffer) + g));
            lemma_prefix_append(prev.result, flushed_word(prev.result, prev.buffer) + g);
        } else {
            lemma_prefix_refl(prev.result);
        }
        lemma_prefix_trans(
            simplify_prefix(gs, false, init, i).result,
            prev.result,
            next.result,
        );
    }
}

/// Until the truncating run stops, both runs are in the same place.
proof fn lemma_runs_agree(gs: Seq<Seq<char>>, init: SimplifyState, i: nat)
    requires
        !init.stopped,
        !simplify_prefix(gs, true, init, i).stopped,
    ensures
        same_progress(simplify_prefix(gs, true, init, i), simplify_prefix(gs, false, init, i)),
    decreases i,
{
    if i > 0 {
        let t = simplify_prefix(gs, true, init, (i - 1) as nat);
        if t.stopped {
            assert(simplify_prefix(gs, true, init, i) == t);
        }
        lemma_runs_agree(gs, init, (i - 1) as nat);
        lemma_untruncated_grows(gs, init, 0, (i - 1) as nat);
    }
}

/// Truncating a simplification only cuts it short: the truncated result is a prefix of the
/// full one.
pub proof fn law_truncation_keeps_a_prefix(result: Seq<char>, gs: Seq<Seq<char>>)
    ensures
        has_prefix(simplified(result, gs, false), simplified(result, gs, true)),
{
    let init = initial_state(result);
    let n = gs.len();
    let full = simplify_prefix(gs, false, init, n);
    lemma_untruncated_grows(gs, init, 0, n);
    if !simplify_prefix(gs, true, init, n).stopped {
        lemma_runs_agree(gs, init, n);
        lemma_prefix_refl(simplified(result, gs, false));
    } else {
        let j = first_stop(gs, init, n);
        let t = simplify_prefix(gs, true, init, (j - 1) as nat);
        let f = simplify_prefix(gs, false, init, (j - 1) as nat);
        lemma_runs_agree(gs, init, (j - 1) as nat);
        lemma_stopped_stays(gs, true, init, j, n);
        let cut = t.result + flushed_word(t.result, t.buffer);
        assert(simplified(result, gs, true) == cut);
        let g = gs[j - 1];
        lemma_untruncated_grows(gs, init, 0, (j - 1) as nat);
        let fj = simplify_prefix(gs, false, init, j);
        assert(fj.result == f.result + flushed_word(f.result, f.buffer) + g);
        assert(fj.result =~= cut + g);
        lemma_prefix_append(cut, g);
        lemma_untruncated_grows(gs, init, j, n);
        lemma_prefix_trans(cut, fj.result, full.result);
        lemma_prefix_append(full.result, flushed_word(full.result, full.buffer));
        lemma_prefix_trans(cut, full.result, simplified(result, gs, false));
    }
}

/// The first step at which a stopping run has stopped.
proof fn first_stop(gs: Seq<Seq<char>>, init: SimplifyState, i: nat) -> (j: nat)
    requires
        !init.stopped,
        simplify_prefix(gs, true, init, i).stopped,
    ensures
        1 <= j <= i,
        simplify_prefix(gs, true, init, j).stopped,
        !simplify_prefix(gs, true, init, (j - 1) as nat).stopped,
    decreases i,
{
    if !simplify_prefix(gs, true, init, (i - 1) as nat).stopped {
        i
    } else {
        first_stop(gs, init, (i - 1) as nat)
    }
}


/// The number of spaces in `s`.
pub open spec fn space_count(s: Seq<char>) -> nat
    decreases s.len(),
{
    if s.len() == 0 {
        0
    } else {
        space_count(s.drop_last()) + if s.last() == ' ' {
            1nat
        } else {
            0nat
        }
    }
}

/// Every cluster that holds a space is a lone space (so a space never hides inside a word).
pub open spec fn spaces_stand_alone(gs: Seq<Seq<char>>) -> bool {
    forall|i: int| 0 <= i < gs.len() && #[trigger] gs[i].contains(' ') ==> gs[i] == seq![' ']
}

proof fn lemma_space_count_add(a: Seq<char>, b: Seq<char>)
    ensures
        space_count(a + b) == space_count(a) + space_count(b),
    decreases b.len(),
{
    if b.len() > 0 {
        assert((a + b).drop_last() =~= a + b.drop_last());
        lemma_space_count_add(a, b.drop_last());
    } else {
        assert(a + b =~= a);
    }
}

proof fn lemma_no_space(s: Seq<char>)
    requires
        !s.contains(' '),
    ensures
        space_count(s) == 0,
    decreases s.len(),
{
    if s.len() > 0 {
        assert(s.last() == s[s.len() - 1]);
        assert(!s.drop_last().contains(' ')) by {
            assert forall|k: int| 0 <= k < s.drop_last().len() implies s.drop_last()[k] != ' ' by {
                assert(s.drop_last()[k] == s[k]);
            }
        }
        lemma_no_space(s.drop_last());
    }
}

proof fn lemma_single_count(c: char)
    ensures
        space_count(seq![c]) == if c == ' ' {
            1nat
        } else {
            0nat
        },
{
    assert(seq![c].drop_last() =~= Seq::<char>::empty());
    assert(seq![c].last() == c);
    assert(space_count(Seq::<char>::empty()) == 0);
}

proof fn lemma_words_have_no_space()
    ensures
        space_count(quoted_word()) == 0,
        space_count(path_word()) == 0,
{
    assert(!quoted_word().contains(' ')) by {
        assert forall|k: int| 0 <= k < quoted_word().len() implies quoted_word()[k] != ' ' by {}
    }
    assert(!path_word().contains(' ')) by {
        assert forall|k: int| 0 <= k < path_word().len() implies path_word()[k] != ' ' by {}
    }
    lemma_no_space(quoted_word());
    lemma_no_space(path_word());
}

proof fn lemma_flushed_no_space(result: Seq<char>, buffer: Seq<char>)
    requires
        !buffer.contains(' '),
    ensures
        space_count(flushed_word(result, buffer)) == 0,
{
    lemma_words_have_no_space();
    lemma_no_space(buffer);
}

/// While a truncating run goes on, its result holds exactly as many spaces as it has
/// counted, at most one, and no space waits in the current word.
proof fn lemma_truncating_counts(gs: Seq<Seq<char>>, result: Seq<char>, i: nat)
    requires
        spaces_stand_alone(gs),
        space_count(result) == 0,
        i <= gs.len(),
        !simplify_prefix(gs, true, initial_state(result), i).stopped,
    ensures
        ({
            let st = simplify_prefix(gs, true, initial_state(result), i);
            &&& space_count(st.result) == st.tokens
            &&& 0 <= st.tokens <= 1
            &&& !st.buffer.contains(' ')
        }),
    decreases i,
{
    let init = initial_state(result);
    if i > 0 {
        let prev = simplify_prefix(gs, true, init, (i - 1) as nat);
        if prev.stopped {
            assert(simplify_prefix(gs, true, init, i) == prev);
        }
        lemma_truncating_counts(gs, result, (i - 1) as nat);
        let g = gs[i - 1];
        let next = simplify_step(prev, g, true);
        assert(simplify_prefix(gs, true, init, i) == next);
        lemma_words_have_no_space();
        if g == seq!['"'] || g == seq!['\''] {
            lemma_space_count_add(prev.result, quoted_word());
        } else if g == seq![' '] || g == seq![':'] || g == seq![','] {
            if !prev.in_double_quote && !prev.in_single_quote && !next.stopped {
                let f = flushed_word(prev.result, prev.buffer);
                lemma_flushed_no_space(prev.result, prev.buffer);
                lemma_space_count_add(prev.result, f);
                lemma_space_count_add(prev.result + f, g);
                if g == seq![' '] {
                    lemma_single_count(' ');
                } else if g == seq![':'] {
                    lemma_single_count(':');
                } else {
                    lemma_single_count(',');
                }
            }
        } else if g != seq!['\\'] && !prev.in_double_quote && !prev.in_single_quote {
            assert(!g.contains(' '));
            assert(!(prev.buffer + g).contains(' ')) by {
                assert forall|k: int| 0 <= k < (prev.buffer + g).len() implies (prev.buffer
                    + g)[k] != ' ' by {
                    if k < prev.buffer.len() {
                        assert((prev.buffer + g)[k] == prev.buffer[k]);
                    } else {
                        assert((prev.buffer + g)[k] == g[k - prev.buffer.len()]);
                    }
                }
            }
        }
    }
}

/// Truncation counts only the spaces outside quotes. The truncated simplification is the full
/// one cut just before its second space: it is a prefix of the full one, holds at most one
/// space, and where it is shorter the full one goes on with a space and the cut part holds
/// exactly one. (A cluster that joins a space to other characters counts as no space when
/// truncating, so this holds where every cluster that holds a space is a lone space.)
pub proof fn law_truncation_cuts_before_second_space(result: Seq<char>, gs: Seq<Seq<char>>)
    requires
        spaces_stand_alone(gs),
        space_count(result) == 0,
    ensures
        ({
            let t = simplified(result, gs, true);
            let f = simplified(result, gs, false);
            &&& has_prefix(f, t)
            &&& space_count(t) <= 1
            &&& t.len() < f.len() ==> f[t.len() as int] == ' ' && space_count(t) == 1
        }),
{
    let init = initial_state(result);
    let n = gs.len();
    let t = simplified(result, gs, true);
    let f = simplified(result, gs, false);
    law_truncation_keeps_a_prefix(result, gs);
    if !simplify_prefix(gs, true, init, n).stopped {
        let st = simplify_prefix(gs, true, init, n);
        lemma_runs_agree(gs, init, n);
        lemma_truncating_counts(gs, result, n);
        lemma_flushed_no_space(st.result, st.buffer);
        lemma_space_count_add(st.result, flushed_word(st.result, st.buffer));
        assert(t == f);
    } else {
        let j = first_stop(gs, init, n);
        let ts = simplify_prefix(gs, true, init, (j - 1) as nat);
        let fs = simplify_prefix(gs, false, init, (j - 1) as nat);
        lemma_truncating_counts(gs, result, (j - 1) as nat);
        lemma_runs_agree(gs, init, (j - 1) as nat);
        lemma_stopped_stays(gs, true, init, j, n);
        let g = gs[j - 1];
        assert(simplify_prefix(gs, true, init, j) == simplify_step(ts, g, true));
        assert(g == seq![' ']);
        assert(ts.tokens == 1);
        let cut = ts.result + flushed_word(ts.result, ts.buffer);
        assert(t == cut);
        lemma_flushed_no_space(ts.result, ts.buffer);
        lemma_space_count_add(ts.result, flushed_word(ts.result, ts.buffer));
        lemma_untruncated_grows(gs, init, 0, (j - 1) as nat);
        let fj = simplify_prefix(gs, false, init, j);
        assert(fj.result =~= cut + g);
        lemma_untruncated_grows(gs, init, j, n);
        let full = simplify_prefix(gs, false, init, n);
        lemma_prefix_append(full.result, flushed_word(full.result, full.buffer));
        lemma_prefix_trans(fj.result, full.result, f);
        assert(f[cut.len() as int] == f.take(fj.result.len() as int)[cut.len() as int]);
        assert(fj.result[cut.len() as int] == ' ');
    }
}

} // verus!
