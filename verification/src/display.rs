use crate::fixed_length_grapheme_string::{clusters_taken, FixedLengthGraphemeString};
use crate::graphemes::spec_graphemes;
use crate::text::{
    chars_of, has_prefix, join_spec, join_strings, push_char, split_chars, split_spec,
    string_from_chars,
};
use vstd::prelude::*;

verus! {

/// `s` with each non-overlapping occurrence of the non-empty `p`, found from the left,
/// replaced by `r`, as `str::replace` does.
pub open spec fn replace_spec(s: Seq<char>, p: Seq<char>, r: Seq<char>) -> Seq<char>
    decreases s.len(),
{
    if p.len() == 0 || s.len() == 0 {
        s
    } else if has_prefix(s, p) {
        r + replace_spec(s.skip(p.len() as int), p, r)
    } else {
        seq![s[0]] + replace_spec(s.drop_first(), p, r)
    }
}

/// Whether `p` occurs in `cs` at position `i`.
fn occurs_at(cs: &Vec<char>, i: usize, p: &Vec<char>) -> (r: bool)
    requires
        i <= cs.len(),
    ensures
        r == has_prefix(cs@.skip(i as int), p@),
{
    if p.len() > cs.len() - i {
        return false;
    }
    let mut j: usize = 0;
    while j < p.len()
        invariant
            i <= cs.len(),
            0 <= j <= p.len() <= cs.len() - i,
            forall|k: int| 0 <= k < j ==> cs@[i + k] == p@[k],
        decreases p.len() - j,
    {
        if cs[i + j] != p[j] {
            proof {
                assert(cs@.skip(i as int).take(p.len() as int)[j as int] != p@[j as int]);
            }
            return false;
        }
        j = j + 1;
    }
    proof {
        assert(cs@.skip(i as int).take(p.len() as int) =~= p@);
    }
    true
}

/// `str::replace` with a non-empty pattern.
pub fn replace_all(s: &str, p: &str, r: &str) -> (out: String)
    requires
        p@.len() > 0,
    ensures
        out@ == replace_spec(s@, p@, r@),
{
    let cs = chars_of(s);
    let ps = chars_of(p);
    let mut out = String::new();
    let mut i: usize = 0;
    assert(cs@.skip(0) =~= cs@);
    while i < cs.len()
        invariant
            0 <= i <= cs.len(),
            cs@ == s@,
            ps@ == p@,
            p@.len() > 0,
            out@ + replace_spec(cs@.skip(i as int), p@, r@) == replace_spec(s@, p@, r@),
        decreases cs.len() - i,
    {
        let ghost rest = cs@.skip(i as int);
        if occurs_at(&cs, i, &ps) {
            proof {
                assert(rest.skip(p@.len() as int) =~= cs@.skip(i + ps.len()));
                assert(out@ + (r@ + replace_spec(rest.skip(p@.len() as int), p@, r@)) =~= (out@
                    + r@) + replace_spec(cs@.skip(i + ps.len()), p@, r@));
            }
            out.append(r);
            i = i + ps.len();
        } else {
            proof {
                assert(rest.drop_first() =~= cs@.skip(i + 1));
                assert(rest[0] == cs@[i as int]);
                assert(out@ + (seq![rest[0]] + replace_spec(rest.drop_first(), p@, r@)) =~= out@.push(
                    cs@[i as int],
                ) + replace_spec(cs@.skip(i + 1), p@, r@));
            }
            push_char(&mut out, cs[i]);
            i = i + 1;
        }
    }
    proof {
        assert(cs@.skip(i as int) =~= Seq::<char>::empty());
        assert(out@ + Seq::<char>::empty() =~= out@);
    }
    out
}

/// One word of a formatted duration with its unit abbreviated.
pub open spec fn abbreviated_unit(w: Seq<char>) -> Seq<char> {
    let w = replace_spec(w, "years"@, "y"@);
    let w = replace_spec(w, "year"@, "y"@);
    let w = replace_spec(w, "months"@, "mo"@);
    let w = replace_spec(w, "month"@, "mo"@);
    let w = replace_spec(w, "days"@, "d"@);
    let w = replace_spec(w, "day"@, "d"@);
    let w = replace_spec(w, "hours"@, "h"@);
    let w = replace_spec(w, "hour"@, "h"@);
    let w = replace_spec(w, "minutes"@, "m"@);
    let w = replace_spec(w, "minute"@, "m"@);
    replace_spec(w, "0s"@, "< 1m"@)
}

/// The first two space-separated words of a formatted duration, each with its unit
/// abbreviated, joined by a space.
pub open spec fn shortened_duration(formatted: Seq<char>) -> Seq<char> {
    let words = split_spec(formatted, ' ');
    let k = if words.len() < 2 {
        words.len()
    } else {
        2
    };
    join_spec(words.take(k as int).map_values(|w: Seq<char>| abbreviated_unit(w)), seq![' '])
}

fn abbreviate_unit(w: &str) -> (r: String)
    ensures
        r@ == abbreviated_unit(w@),
{
    proof {
        reveal_strlit("years");
        reveal_strlit("year");
        reveal_strlit("months");
        reveal_strlit("month");
        reveal_strlit("days");
        reveal_strlit("day");
        reveal_strlit("hours");
        reveal_strlit("hour");
        reveal_strlit("minutes");
        reveal_strlit("minute");
        reveal_strlit("0s");
    }
    let w = replace_all(w, "years", "y");
    let w = replace_all(&w, "year", "y");
    let w = replace_all(&w, "months", "mo");
    let w = replace_all(&w, "month", "mo");
    let w = replace_all(&w, "days", "d");
    let w = replace_all(&w, "day", "d");
    let w = replace_all(&w, "hours", "h");
    let w = replace_all(&w, "hour", "h");
    let w = replace_all(&w, "minutes", "m");
    let w = replace_all(&w, "minute", "m");
    replace_all(&w, "0s", "< 1m")
}

/// Shortens a duration written by `humantime::format_duration` to the label shown beside
/// a result: its first two words, with the units abbreviated.
pub fn shorten_duration(formatted: &str) -> (r: String)
    ensures
        r@ == shortened_duration(formatted@),
{
    let cs = chars_of(formatted);
    let words = split_chars(&cs, ' ');
    let ghost ws = words@.map_values(|p: Vec<char>| p@);
    let k: usize = if words.len() < 2 {
        words.len()
    } else {
        2
    };
    let ghost target = ws.take(k as int).map_values(|w: Seq<char>| abbreviated_unit(w));
    let mut out: Vec<String> = Vec::new();
    let mut i: usize = 0;
    while i < k
        invariant
            0 <= i <= k <= words.len(),
            ws == words@.map_values(|p: Vec<char>| p@),
            target == ws.take(k as int).map_values(|w: Seq<char>| abbreviated_unit(w)),
            out@.len() == i,
            forall|j: int| 0 <= j < i ==> #[trigger] out@[j]@ == target[j],
        decreases k - i,
    {
        let word = string_from_chars(&words[i]);
        let short = abbreviate_unit(word.as_str());
        out.push(short);
        i = i + 1;
    }
    proof {
        assert(out@.map_values(|p: String| p@) =~= target);
    }
    join_strings(&out, ' ')
}

/// What `humantime::format_duration` writes for a whole number of seconds.
pub uninterp spec fn spec_format_duration(secs: u64) -> Seq<char>;

/// Formats a whole number of seconds with `humantime::format_duration`.
/// Trusted: the text is `spec_format_duration(secs)`, a function of `secs` alone; what that
/// text is (years, months, days, hours, minutes and seconds with their unit names) is not
/// stated here.
#[verifier::external_body]
fn format_duration_secs(secs: u64) -> (r: String)
    ensures
        r@ == spec_format_duration(secs),
{
    humantime::format_duration(std::time::Duration::from_secs(secs)).to_string()
}

/// The whole minutes from `last_run` to `now`, as seconds.
pub open spec fn elapsed_whole_minutes(now: i64, last_run: i64) -> u64 {
    ((now - last_run) / 60 * 60) as u64
}

/// The age label of a result run at `last_run` seen at `now` (both in seconds since the
/// epoch): the elapsed whole minutes formatted by `humantime` and shortened.
pub fn timing_label(now: i64, last_run: i64) -> (r: String)
    requires
        last_run <= now,
        now - last_run <= i64::MAX,
    ensures
        r@ == shortened_duration(spec_format_duration(elapsed_whole_minutes(now, last_run))),
{
    let elapsed: i64 = now - last_run;
    let minutes: i64 = elapsed / 60;
    assert(minutes * 60 <= elapsed) by (nonlinear_arith)
        requires
            minutes == elapsed / 60,
            elapsed >= 0,
    ;
    let secs: u64 = (minutes * 60) as u64;
    let formatted = format_duration_secs(secs);
    shorten_duration(formatted.as_str())
}

} // verus!

verus! {

/// A string under construction, as its text and the number of grapheme clusters it was given.
pub type Shown = (Seq<char>, u16);

/// `FixedLengthGraphemeString::push_grapheme_str` on the model: the clusters of `s` that
/// still fit under `max`.
pub open spec fn push_clusters(t: Shown, max: u16, s: Seq<char>) -> Shown {
    let n = clusters_taken(t.1, max, spec_graphemes(s).len());
    (t.0 + spec_graphemes(s).take(n as int).flatten(), (t.1 + n) as u16)
}

/// `FixedLengthGraphemeString::push_str` on the model: text that counts no clusters.
pub open spec fn push_raw(t: Shown, s: Seq<char>) -> Shown {
    (t.0 + s, t.1)
}

/// The first `k` highlighted stretches of `cmd` written under `max`: before each, the plain
/// text since the previous one; around each, the highlight and base color codes. Also the
/// position after the last stretch written.
pub open spec fn highlighted_prefix(
    cmd: Seq<char>,
    bounds: Seq<(usize, usize)>,
    k: int,
    max: u16,
    hl: Seq<char>,
    base: Seq<char>,
) -> (Shown, int)
    decreases k,
{
    if k <= 0 {
        ((Seq::empty(), 0u16), 0)
    } else {
        let (t, prev) = highlighted_prefix(cmd, bounds, k - 1, max, hl, base);
        let start = bounds[k - 1].0 as int;
        let end = bounds[k - 1].1 as int;
        let t = if prev != start {
            push_clusters(t, max, cmd.subrange(prev, start))
        } else {
            t
        };
        let t = push_raw(t, hl);
        let t = push_clusters(t, max, cmd.subrange(start, end));
        (push_raw(t, base), end)
    }
}

/// The first `k` debug fields, each pushed as clusters.
pub open spec fn pushed_fields(t: Shown, max: u16, fields: Seq<Seq<char>>, k: int) -> Shown
    decreases k,
{
    if k <= 0 {
        t
    } else {
        push_clusters(pushed_fields(t, max, fields, k - 1), max, fields[k - 1])
    }
}

/// How many clusters of a command fit on a line `width` columns wide: nine columns are
/// kept for the age label, and ninety more for the debug fields when they are shown.
pub open spec fn display_width(width: u16, debug: bool) -> u16 {
    let debug_space: int = if debug {
        90
    } else {
        0
    };
    if width > debug_space {
        (width - debug_space - 9) as u16
    } else {
        11
    }
}

/// Whether `bounds` are stretches of a text of `len` characters, in order and not overlapping.
pub open spec fn ordered_bounds(bounds: Seq<(usize, usize)>, len: int) -> bool {
    &&& forall|i: int| 0 <= i < bounds.len() ==> #[trigger] bounds[i].0 <= bounds[i].1 <= len
    &&& forall|i: int| 0 < i < bounds.len() ==> #[trigger] bounds[i - 1].1 <= bounds[i].0
}

/// Whether `bounds` are ordered, non-overlapping stretches of a text of `len` characters.
pub fn ordered_bounds_hold(bounds: &Vec<(usize, usize)>, len: usize) -> (r: bool)
    ensures
        r == ordered_bounds(bounds@, len as int),
{
    let mut i: usize = 0;
    while i < bounds.len()
        invariant
            0 <= i <= bounds.len(),
            forall|j: int| 0 <= j < i ==> #[trigger] bounds@[j].0 <= bounds@[j].1 <= len,
            forall|j: int| 0 < j < i ==> #[trigger] bounds@[j - 1].1 <= bounds@[j].0,
        decreases bounds.len() - i,
    {
        let (start, end) = bounds[i];
        if !(start <= end && end <= len) {
            assert(!(bounds@[i as int].0 <= bounds@[i as int].1 <= len));
            return false;
        }
        if i > 0 && bounds[i - 1].1 > start {
            assert(bounds@[i - 1].1 > bounds@[i as int].0);
            return false;
        }
        i = i + 1;
    }
    true
}

/// The line shown for a result, with the number of clusters it was given: the command cut
/// to the clusters that fit, the stretches matching the search colored with `hl` (when there
/// is a search), and in debug mode the debug fields after two spaces in `debug_color`.
pub open spec fn displayed_shown(
    cmd: Seq<char>,
    bounds: Seq<(usize, usize)>,
    search: Seq<char>,
    width: u16,
    hl: Seq<char>,
    base: Seq<char>,
    debug: bool,
    debug_color: Seq<char>,
    fields: Seq<Seq<char>>,
) -> Shown {
    let max = display_width(width, debug);
    let (t, prev) = if search.len() != 0 {
        highlighted_prefix(cmd, bounds, bounds.len() as int, max, hl, base)
    } else {
        ((Seq::empty(), 0u16), 0)
    };
    let t = if prev != cmd.len() {
        push_clusters(t, max, cmd.subrange(prev, cmd.len() as int))
    } else {
        t
    };
    if debug {
        let max = (max + 90) as u16;
        let t = push_raw(push_clusters(t, max, "  "@), debug_color);
        let t = pushed_fields(t, max, fields, fields.len() as int);
        push_raw(t, base)
    } else {
        t
    }
}

/// The text of the line shown for a result (see `displayed_shown`).
pub open spec fn displayed_command(
    cmd: Seq<char>,
    bounds: Seq<(usize, usize)>,
    search: Seq<char>,
    width: u16,
    hl: Seq<char>,
    base: Seq<char>,
    debug: bool,
    debug_color: Seq<char>,
    fields: Seq<Seq<char>>,
) -> Seq<char> {
    displayed_shown(cmd, bounds, search, width, hl, base, debug, debug_color, fields).0
}

/// The width condition under which a line can be laid out: a width past the debug space
/// leaves room for the age label.
pub open spec fn width_fits(width: u16, debug: bool) -> bool {
    width > (if debug {
        90int
    } else {
        0int
    }) ==> width >= (if debug {
        99int
    } else {
        9int
    })
}

proof fn lemma_highlighted_within(
    cmd: Seq<char>,
    bounds: Seq<(usize, usize)>,
    k: int,
    max: u16,
    hl: Seq<char>,
    base: Seq<char>,
)
    ensures
        highlighted_prefix(cmd, bounds, k, max, hl, base).0.1 <= max,
    decreases k,
{
    if k > 0 {
        lemma_highlighted_within(cmd, bounds, k - 1, max, hl, base);
    }
}

proof fn lemma_fields_within(t: Shown, max: u16, fields: Seq<Seq<char>>, k: int)
    requires
        t.1 <= max,
    ensures
        pushed_fields(t, max, fields, k).1 <= max,
    decreases k,
{
    if k > 0 {
        lemma_fields_within(t, max, fields, k - 1);
    }
}

/// A result line is never given more clusters than fit its width: the command takes at most
/// `display_width(width, debug)` of them, and the debug fields at most ninety more.
pub proof fn law_line_fits_width(
    cmd: Seq<char>,
    bounds: Seq<(usize, usize)>,
    search: Seq<char>,
    width: u16,
    hl: Seq<char>,
    base: Seq<char>,
    debug: bool,
    debug_color: Seq<char>,
    fields: Seq<Seq<char>>,
)
    requires
        width_fits(width, debug),
    ensures
        displayed_shown(cmd, bounds, search, width, hl, base, debug, debug_color, fields).1
            <= display_width(width, debug) + (if debug {
            90int
        } else {
            0int
        }),
{
    let max = display_width(width, debug);
    lemma_highlighted_within(cmd, bounds, bounds.len() as int, max, hl, base);
    if debug {
        let m2 = (max + 90) as u16;
        assert(m2 == max + 90);
        let (t, prev) = if search.len() != 0 {
            highlighted_prefix(cmd, bounds, bounds.len() as int, max, hl, base)
        } else {
            ((Seq::empty(), 0u16), 0)
        };
        let t = if prev != cmd.len() {
            push_clusters(t, max, cmd.subrange(prev, cmd.len() as int))
        } else {
            t
        };
        let t2 = push_raw(push_clusters(t, m2, "  "@), debug_color);
        lemma_fields_within(t2, m2, fields, fields.len() as int);
    }
}

/// A string holding the characters `a..b` of `cs`.
fn chars_between(cs: &Vec<char>, a: usize, b: usize) -> (r: String)
    requires
        a <= b <= cs.len(),
    ensures
        r@ == cs@.subrange(a as int, b as int),
{
    let mut r = String::new();
    let mut i = a;
    while i < b
        invariant
            a <= i <= b <= cs.len(),
            r@ == cs@.subrange(a as int, i as int),
        decreases b - i,
    {
        push_char(&mut r, cs[i]);
        proof {
            assert(cs@.subrange(a as int, i as int).push(cs@[i as int]) =~= cs@.subrange(
                a as int,
                i + 1,
            ));
        }
        i = i + 1;
    }
    r
}

/// A piece that fits entirely is pushed whole.
proof fn lemma_whole_piece(len: u16, max: u16, piece: Seq<char>, done: int)
    requires
        spec_graphemes(piece).flatten() == piece,
        spec_graphemes(piece).len() <= piece.len(),
        len <= done,
        done + piece.len() <= max,
    ensures
        spec_graphemes(piece).take(
            clusters_taken(len, max, spec_graphemes(piece).len()) as int,
        ).flatten() == piece,
        len + clusters_taken(len, max, spec_graphemes(piece).len()) <= done + piece.len(),
{
    let g = spec_graphemes(piece);
    if g.len() == 0 {
        assert(g.take(0) =~= g);
    } else {
        assert(g.take(g.len() as int) =~= g);
    }
}

/// Whether every stretch of `cmd` splits into grapheme clusters that join back into it, no
/// more clusters than characters (as the segmentation of any text does).
pub open spec fn clusters_join_back(cmd: Seq<char>) -> bool {
    forall|a: int, b: int|
        0 <= a <= b <= cmd.len() ==> (#[trigger] spec_graphemes(cmd.subrange(a, b))).flatten()
            == cmd.subrange(a, b) && spec_graphemes(cmd.subrange(a, b)).len() <= b - a
}

proof fn lemma_highlighted_whole(
    cmd: Seq<char>,
    bounds: Seq<(usize, usize)>,
    k: int,
    max: u16,
)
    requires
        0 <= k <= bounds.len(),
        clusters_join_back(cmd),
        ordered_bounds(bounds, cmd.len() as int),
        cmd.len() <= max,
    ensures
        ({
            let (t, prev) = highlighted_prefix(cmd, bounds, k, max, Seq::empty(), Seq::empty());
            &&& 0 <= prev <= cmd.len()
            &&& k > 0 ==> prev == bounds[k - 1].1
            &&& t.0 == cmd.take(prev)
            &&& t.1 <= prev
        }),
    decreases k,
{
    if k == 0 {
        assert(cmd.take(0) =~= Seq::<char>::empty());
    } else {
        lemma_highlighted_whole(cmd, bounds, k - 1, max);
        let (t, prev) = highlighted_prefix(cmd, bounds, k - 1, max, Seq::empty(), Seq::empty());
        let start = bounds[k - 1].0 as int;
        let end = bounds[k - 1].1 as int;
        assert(bounds[k - 1].0 <= bounds[k - 1].1 <= cmd.len());
        if k > 1 {
            assert(bounds[k - 2].1 <= bounds[k - 1].0);
        }
        let t1 = if prev != start {
            let piece = cmd.subrange(prev, start);
            assert(spec_graphemes(piece).flatten() == piece);
            lemma_whole_piece(t.1, max, piece, prev);
            assert(cmd.take(prev) + piece =~= cmd.take(start));
            push_clusters(t, max, piece)
        } else {
            t
        };
        let t2 = push_raw(t1, Seq::empty());
        assert(t2.0 =~= t1.0);
        let piece = cmd.subrange(start, end);
        assert(spec_graphemes(piece).flatten() == piece);
        lemma_whole_piece(t2.1, max, piece, start);
        assert(cmd.take(start) + piece =~= cmd.take(end));
        let t3 = push_clusters(t2, max, piece);
        assert(push_raw(t3, Seq::empty()).0 =~= t3.0);
    }
}

/// When a command fits the width and no color codes are given, the line shows the whole
/// command: every character before, inside and after the matches, in order.
pub proof fn law_fitting_line_shows_whole_command(
    cmd: Seq<char>,
    bounds: Seq<(usize, usize)>,
    search: Seq<char>,
    width: u16,
    debug_color: Seq<char>,
    fields: Seq<Seq<char>>,
)
    requires
        clusters_join_back(cmd),
        search.len() != 0 ==> ordered_bounds(bounds, cmd.len() as int),
        cmd.len() <= display_width(width, false),
    ensures
        displayed_command(
            cmd,
            bounds,
            search,
            width,
            Seq::empty(),
            Seq::empty(),
            false,
            debug_color,
            fields,
        ) == cmd,
{
    let max = display_width(width, false);
    let (t, prev) = if search.len() != 0 {
        lemma_highlighted_whole(cmd, bounds, bounds.len() as int, max);
        highlighted_prefix(cmd, bounds, bounds.len() as int, max, Seq::empty(), Seq::empty())
    } else {
        assert(cmd.take(0) =~= Seq::<char>::empty());
        ((Seq::<char>::empty(), 0u16), 0int)
    };
    if prev != cmd.len() {
        let piece = cmd.subrange(prev, cmd.len() as int);
        assert(spec_graphemes(piece).flatten() == piece);
        lemma_whole_piece(t.1, max, piece, prev);
        assert(cmd.take(prev) + piece =~= cmd);
    } else {
        assert(cmd.take(prev) =~= cmd);
    }
}

/// The line shown for a result (see `displayed_command`). `bounds` are the stretches of
/// `cmd` that match the search, as character positions; `hl`, `base` and `debug_color` are
/// the terminal codes that switch colors; `fields` are the debug fields, already written.
pub fn truncate_for_display(
    cmd: &str,
    bounds: &Vec<(usize, usize)>,
    search: &str,
    width: u16,
    hl: &str,
    base: &str,
    debug: bool,
    debug_color: &str,
    fields: &Vec<String>,
) -> (r: String)
    requires
        search@.len() != 0 ==> ordered_bounds(bounds@, cmd@.len() as int),
        width_fits(width, debug),
    ensures
        r@ == displayed_command(
            cmd@,
            bounds@,
            search@,
            width,
            hl@,
            base@,
            debug,
            debug_color@,
            fields@.map_values(|f: String| f@),
        ),
        !debug && hl@.len() == 0 && base@.len() == 0 && cmd@.len() <= display_width(width, debug)
            ==> r@ == cmd@,
{
    let cs = chars_of(cmd);
    let ghost whole = !debug && hl@.len() == 0 && base@.len() == 0 && cmd@.len() <= display_width(
        width,
        debug,
    );
    let debug_space: u16 = if debug {
        90
    } else {
        0
    };
    let max: u16 = if width > debug_space {
        width - debug_space - 9
    } else {
        11
    };
    assert(max == display_width(width, debug));
    let mut out = FixedLengthGraphemeString::empty(max);
    let mut prev: usize = 0;
    assert(cmd@.take(0) =~= Seq::<char>::empty());
    if !search.is_empty() {
        let mut i: usize = 0;
        while i < bounds.len()
            invariant
                0 <= i <= bounds.len(),
                cs@ == cmd@,
                ordered_bounds(bounds@, cmd@.len() as int),
                out.max_grapheme_length == max,
                i == 0 ==> prev == 0,
                i > 0 ==> prev == bounds@[i - 1].1,
                prev <= cs.len(),
                highlighted_prefix(cmd@, bounds@, i as int, max, hl@, base@) == (
                    (out.string@, out.grapheme_length),
                    prev as int,
                ),
                whole == (!debug && hl@.len() == 0 && base@.len() == 0 && cmd@.len() <= max),
                whole ==> out.string@ == cmd@.take(prev as int) && out.grapheme_length <= prev,
            decreases bounds.len() - i,
        {
            let (start, end) = bounds[i];
            assert(bounds@[i as int].0 <= bounds@[i as int].1 <= cmd@.len());
            if i > 0 {
                assert(bounds@[i - 1].1 <= bounds@[i as int].0);
            }
            if prev != start {
                let piece = chars_between(&cs, prev, start);
                let ghost len0 = out.grapheme_length;
                out.push_grapheme_str(piece.as_str());
                proof {
                    if whole {
                        lemma_whole_piece(len0, max, piece@, prev as int);
                        assert(cmd@.take(prev as int) + piece@ =~= cmd@.take(start as int));
                    }
                }
            }
            out.push_str(hl);
            proof {
                if whole {
                    assert(out.string@ =~= cmd@.take(start as int));
                }
            }
            let piece = chars_between(&cs, start, end);
            let ghost len1 = out.grapheme_length;
            out.push_grapheme_str(piece.as_str());
            proof {
                if whole {
                    lemma_whole_piece(len1, max, piece@, start as int);
                    assert(cmd@.take(start as int) + piece@ =~= cmd@.take(end as int));
                }
            }
            out.push_str(base);
            proof {
                if whole {
                    assert(out.string@ =~= cmd@.take(end as int));
                }
            }
            prev = end;
            i = i + 1;
        }
    }
    if prev != cs.len() {
        let piece = chars_between(&cs, prev, cs.len());
        let ghost len0 = out.grapheme_length;
        out.push_grapheme_str(piece.as_str());
        proof {
            if whole {
                lemma_whole_piece(len0, max, piece@, prev as int);
                assert(cmd@.take(prev as int) + piece@ =~= cmd@);
            }
        }
    } else {
        proof {
            if whole {
                assert(cmd@.take(prev as int) =~= cmd@);
            }
        }
    }
    if debug {
        out.max_grapheme_length = out.max_grapheme_length + debug_space;
        out.push_grapheme_str("  ");
        out.push_str(debug_color);
        let ghost fs = fields@.map_values(|f: String| f@);
        let ghost t0: Shown = (out.string@, out.grapheme_length);
        let mut j: usize = 0;
        while j < fields.len()
            invariant
                0 <= j <= fields.len(),
                fs == fields@.map_values(|f: String| f@),
                out.max_grapheme_length == (max + 90) as u16,
                (out.string@, out.grapheme_length) == pushed_fields(
                    t0,
                    out.max_grapheme_length,
                    fs,
                    j as int,
                ),
            decreases fields.len() - j,
        {
            out.push_grapheme_str(fields[j].as_str());
            j = j + 1;
        }
        out.push_str(base);
    }
    out.string
}

} // verus!

verus! {

/// The code of a character with ASCII capitals taken to small letters, as SQLite's `LIKE`
/// compares them.
pub open spec fn ascii_lower_code(c: char) -> u32 {
    if 'A' <= c && c <= 'Z' {
        (c as u32 + 32) as u32
    } else {
        c as u32
    }
}

fn same_ignoring_ascii_case(a: char, b: char) -> (r: bool)
    ensures
        r == (ascii_lower_code(a) == ascii_lower_code(b)),
{
    let x: u32 = if 'A' <= a && a <= 'Z' {
        a as u32 + 32
    } else {
        a as u32
    };
    let y: u32 = if 'A' <= b && b <= 'Z' {
        b as u32 + 32
    } else {
        b as u32
    };
    x == y
}

/// Whether `p` occurs in `s` at `i`, ignoring the case of ASCII letters.
pub open spec fn matches_at(s: Seq<char>, i: int, p: Seq<char>) -> bool {
    &&& 0 <= i
    &&& i + p.len() <= s.len()
    &&& forall|j: int| 0 <= j < p.len() ==> ascii_lower_code(#[trigger] s[i + j]) == ascii_lower_code(
        p[j],
    )
}

/// The non-overlapping occurrences of a non-empty `p` in `s` from `i` on, found from the left,
/// as character ranges.
pub open spec fn occurrences_from(s: Seq<char>, p: Seq<char>, i: int) -> Seq<(int, int)>
    decreases s.len() - i,
{
    if p.len() == 0 || i < 0 || i + p.len() > s.len() {
        Seq::empty()
    } else if matches_at(s, i, p) {
        seq![(i, i + p.len())] + occurrences_from(s, p, i + p.len())
    } else {
        occurrences_from(s, p, i + 1)
    }
}

/// The first position from `i` on where `s` holds `c`, ignoring the case of ASCII letters.
pub open spec fn first_match_from(s: Seq<char>, c: char, i: int) -> Option<int>
    decreases s.len() - i,
{
    if i < 0 || i >= s.len() {
        None
    } else if ascii_lower_code(s[i]) == ascii_lower_code(c) {
        Some(i)
    } else {
        first_match_from(s, c, i + 1)
    }
}

/// The characters of `p` found one after the other in `s` from `i` on, each as a one-character
/// range, until one is not found.
pub open spec fn fuzzy_matches_from(s: Seq<char>, p: Seq<char>, i: int) -> Seq<(int, int)>
    decreases p.len(),
{
    if p.len() == 0 {
        Seq::empty()
    } else {
        match first_match_from(s, p[0], i) {
            Some(k) => seq![(k, k + 1)] + fuzzy_matches_from(s, p.drop_first(), k + 1),
            None => Seq::empty(),
        }
    }
}

/// Where a search shows as highlighted in a command: each occurrence of it, or with a
/// positive `fuzzy` each of its characters in turn.
pub open spec fn search_highlights(cmd: Seq<char>, search: Seq<char>, fuzzy: i16) -> Seq<
    (int, int),
> {
    if search.len() == 0 {
        Seq::empty()
    } else if fuzzy > 0 {
        fuzzy_matches_from(cmd, search, 0)
    } else {
        occurrences_from(cmd, search, 0)
    }
}

/// Character ranges as integers.
pub open spec fn ranges_view(v: Seq<(usize, usize)>) -> Seq<(int, int)> {
    v.map_values(|b: (usize, usize)| (b.0 as int, b.1 as int))
}

fn occurs_ignoring_case(s: &Vec<char>, i: usize, p: &Vec<char>) -> (r: bool)
    requires
        i + p.len() <= s.len(),
    ensures
        r == matches_at(s@, i as int, p@),
{
    let mut j: usize = 0;
    while j < p.len()
        invariant
            i + p.len() <= s.len(),
            0 <= j <= p.len(),
            forall|k: int| 0 <= k < j ==> ascii_lower_code(#[trigger] s@[i + k]) == ascii_lower_code(
                p@[k],
            ),
        decreases p.len() - j,
    {
        if !same_ignoring_ascii_case(s[i + j], p[j]) {
            assert(ascii_lower_code(s@[i + j as int]) != ascii_lower_code(p@[j as int]));
            return false;
        }
        j = j + 1;
    }
    true
}

/// The highlighted ranges of a search in a command (see `search_highlights`), as character
/// positions.
pub fn match_bounds(cmd: &str, search: &str, fuzzy: i16) -> (r: Vec<(usize, usize)>)
    ensures
        ranges_view(r@) == search_highlights(cmd@, search@, fuzzy),
{
    let s = chars_of(cmd);
    let p = chars_of(search);
    let mut out: Vec<(usize, usize)> = Vec::new();
    if p.len() == 0 {
        assert(ranges_view(out@) =~= Seq::<(int, int)>::empty());
        return out;
    }
    let ghost target = search_highlights(cmd@, search@, fuzzy);
    if fuzzy > 0 {
        let mut k: usize = 0;
        let mut i: usize = 0;
        assert(p@.skip(0) =~= p@);
        while k < p.len()
            invariant
                s@ == cmd@,
                p@ == search@,
                0 <= k <= p.len(),
                0 <= i <= s.len(),
                target == fuzzy_matches_from(s@, p@, 0),
                target == search_highlights(cmd@, search@, fuzzy),
                ranges_view(out@) + fuzzy_matches_from(s@, p@.skip(k as int), i as int) == target,
            decreases p.len() - k,
        {
            let ghost rest = p@.skip(k as int);
            assert(rest[0] == p@[k as int]);
            assert(rest.drop_first() =~= p@.skip(k + 1));
            let mut j: usize = i;
            while j < s.len() && !same_ignoring_ascii_case(s[j], p[k])
                invariant
                    i <= j <= s.len(),
                    k < p.len(),
                    first_match_from(s@, p@[k as int], j as int) == first_match_from(
                        s@,
                        p@[k as int],
                        i as int,
                    ),
                decreases s.len() - j,
            {
                j = j + 1;
            }
            if j == s.len() {
                assert(first_match_from(s@, p@[k as int], i as int) is None);
                assert(ranges_view(out@) + Seq::<(int, int)>::empty() =~= ranges_view(out@));
                return out;
            }
            let ghost before = ranges_view(out@);
            out.push((j, j + 1));
            assert(ranges_view(out@) =~= before.push((j as int, j + 1)));
            assert(before + (seq![(j as int, j + 1)] + fuzzy_matches_from(s@, rest.drop_first(), j
                + 1)) =~= before.push((j as int, j + 1)) + fuzzy_matches_from(
                s@,
                rest.drop_first(),
                j + 1,
            ));
            k = k + 1;
            i = j + 1;
        }
        assert(p@.skip(k as int) =~= Seq::<char>::empty());
        assert(ranges_view(out@) + Seq::<(int, int)>::empty() =~= ranges_view(out@));
        out
    } else {
        let mut i: usize = 0;
        while p.len() <= s.len() - i
            invariant
                s@ == cmd@,
                p@ == search@,
                p.len() > 0,
                0 <= i <= s.len(),
                target == occurrences_from(s@, p@, 0),
                target == search_highlights(cmd@, search@, fuzzy),
                ranges_view(out@) + occurrences_from(s@, p@, i as int) == target,
            decreases s.len() - i,
        {
            if occurs_ignoring_case(&s, i, &p) {
                let ghost before = ranges_view(out@);
                out.push((i, i + p.len()));
                assert(ranges_view(out@) =~= before.push((i as int, i + p.len())));
                assert(before + (seq![(i as int, i + p.len())] + occurrences_from(
                    s@,
                    p@,
                    i + p.len(),
                )) =~= before.push((i as int, i + p.len())) + occurrences_from(
                    s@,
                    p@,
                    i + p.len(),
                ));
                i = i + p.len();
            } else {
                i = i + 1;
            }
        }
        assert(ranges_view(out@) + Seq::<(int, int)>::empty() =~= ranges_view(out@));
        out
    }
}

} // verus!
