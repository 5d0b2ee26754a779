use vstd::prelude::*;

verus! {

/// Appends one character to a string (`String::push`).
#[verifier::external_body]
pub(crate) fn push_char(s: &mut String, c: char)
    ensures
        final(s)@ == old(s)@.push(c),
{
    s.push(c)
}

/// The characters of a string, in order.
pub fn chars_of(s: &str) -> (r: Vec<char>)
    ensures
        r@ == s@,
{
    let mut v: Vec<char> = Vec::new();
    for c in it: s.chars()
        invariant
            v@ == it.seq().take(it.index() as int),
    {
        v.push(c);
    }
    v
}

/// Appends the given characters to a string, in order.
pub fn append_chars(s: &mut String, cs: &Vec<char>)
    ensures
        final(s)@ == old(s)@ + cs@,
{
    let mut i: usize = 0;
    while i < cs.len()
        invariant
            0 <= i <= cs.len(),
            s@ == old(s)@ + cs@.take(i as int),
        decreases cs.len() - i,
    {
        push_char(s, cs[i]);
        proof {
            assert(cs@.take(i as int).push(cs@[i as int]) =~= cs@.take(i + 1));
        }
        i = i + 1;
    }
    proof {
        assert(cs@.take(i as int) =~= cs@);
    }
}

/// Whether `g` is exactly the one character `c`.
pub fn is_single(g: &Vec<char>, c: char) -> (r: bool)
    ensures
        r == (g@ == seq![c]),
{
    if g.len() == 1 {
        let r = g[0] == c;
        proof {
            if !r {
                assert(g@[0] != seq![c][0]);
            } else {
                assert(g@ =~= seq![c]);
            }
        }
        r
    } else {
        proof {
            assert(g@.len() != seq![c].len());
        }
        false
    }
}

/// Whether `c` occurs in `cs`.
pub fn contains_char(cs: &Vec<char>, c: char) -> (r: bool)
    ensures
        r == cs@.contains(c),
{
    let mut i: usize = 0;
    while i < cs.len()
        invariant
            0 <= i <= cs.len(),
            forall|j: int| 0 <= j < i ==> cs@[j] != c,
        decreases cs.len() - i,
    {
        if cs[i] == c {
            assert(cs@[i as int] == c);
            return true;
        }
        i = i + 1;
    }
    false
}

/// A string holding the given characters.
pub fn string_from_chars(cs: &Vec<char>) -> (r: String)
    ensures
        r@ == cs@,
{
    let mut r = String::new();
    append_chars(&mut r, cs);
    r
}

/// Appends the characters of `t` to `cs`.
pub fn extend_chars(cs: &mut Vec<char>, t: &Vec<char>)
    ensures
        final(cs)@ == old(cs)@ + t@,
{
    let mut i: usize = 0;
    while i < t.len()
        invariant
            0 <= i <= t.len(),
            cs@ == old(cs)@ + t@.take(i as int),
        decreases t.len() - i,
    {
        cs.push(t[i]);
        proof {
            assert(t@.take(i as int).push(t@[i as int]) =~= t@.take(i + 1));
        }
        i = i + 1;
    }
    proof {
        assert(t@.take(i as int) =~= t@);
    }
}

/// `char::is_whitespace`: the characters with the Unicode `White_Space` property.
pub open spec fn is_white_space(c: char) -> bool {
    let u = c as u32;
    (0x9 <= u && u <= 0xd) || u == 0x20 || u == 0x85 || u == 0xa0 || u == 0x1680 || (0x2000 <= u
        && u <= 0x200a) || u == 0x2028 || u == 0x2029 || u == 0x202f || u == 0x205f || u == 0x3000
}

pub fn char_is_whitespace(c: char) -> (r: bool)
    ensures
        r == is_white_space(c),
{
    let u = c as u32;
    (0x9 <= u && u <= 0xd) || u == 0x20 || u == 0x85 || u == 0xa0 || u == 0x1680 || (0x2000 <= u
        && u <= 0x200a) || u == 0x2028 || u == 0x2029 || u == 0x202f || u == 0x205f || u == 0x3000
}

/// `s` without its leading white space.
pub open spec fn trim_start_spec(s: Seq<char>) -> Seq<char>
    decreases s.len(),
{
    if s.len() > 0 && is_white_space(s[0]) {
        trim_start_spec(s.drop_first())
    } else {
        s
    }
}

/// `s` without its trailing white space.
pub open spec fn trim_end_spec(s: Seq<char>) -> Seq<char>
    decreases s.len(),
{
    if s.len() > 0 && is_white_space(s.last()) {
        trim_end_spec(s.drop_last())
    } else {
        s
    }
}

/// `str::trim`: `s` without leading and trailing white space.
pub open spec fn trim_spec(s: Seq<char>) -> Seq<char> {
    trim_end_spec(trim_start_spec(s))
}

/// `str::trim`.
pub fn trim(s: &str) -> (r: String)
    ensures
        r@ == trim_spec(s@),
{
    let cs = chars_of(s);
    let mut a: usize = 0;
    assert(cs@.skip(0) =~= cs@);
    while a < cs.len() && char_is_whitespace(cs[a])
        invariant
            0 <= a <= cs.len(),
            trim_start_spec(cs@.skip(a as int)) == trim_start_spec(cs@),
        decreases cs.len() - a,
    {
        proof {
            assert(cs@.skip(a as int).drop_first() =~= cs@.skip(a + 1));
        }
        a = a + 1;
    }
    let ghost t = cs@.skip(a as int);
    assert(trim_start_spec(t) == t);
    let mut b: usize = cs.len();
    assert(t.take((b - a) as int) =~= t);
    while b > a && char_is_whitespace(cs[b - 1])
        invariant
            a <= b <= cs.len(),
            t == cs@.skip(a as int),
            trim_end_spec(t.take(b - a)) == trim_end_spec(t),
        decreases b,
    {
        proof {
            assert(t.take(b - a).drop_last() =~= t.take(b - 1 - a));
        }
        b = b - 1;
    }
    assert(trim_end_spec(t.take(b - a)) == t.take(b - a));
    let mut r = String::new();
    let mut i = a;
    while i < b
        invariant
            a <= i <= b <= cs.len(),
            t == cs@.skip(a as int),
            r@ == t.take(i - a),
        decreases b - i,
    {
        push_char(&mut r, cs[i]);
        proof {
            assert(t.take(i - a).push(cs@[i as int]) =~= t.take(i + 1 - a));
        }
        i = i + 1;
    }
    r
}

/// Whether two strings hold the same characters.
pub fn str_eq(a: &str, b: &str) -> (r: bool)
    ensures
        r == (a@ == b@),
{
    let x = chars_of(a);
    let y = chars_of(b);
    if x.len() != y.len() {
        assert(x@.len() != y@.len());
        return false;
    }
    let mut i: usize = 0;
    while i < x.len()
        invariant
            0 <= i <= x.len() == y.len(),
            x@ == a@,
            y@ == b@,
            forall|j: int| 0 <= j < i ==> x@[j] == y@[j],
        decreases x.len() - i,
    {
        if x[i] != y[i] {
            assert(x@[i as int] != y@[i as int]);
            return false;
        }
        i = i + 1;
    }
    proof {
        assert(x@ =~= y@);
    }
    true
}

/// Whether `p` is a prefix of `s`.
pub open spec fn has_prefix(s: Seq<char>, p: Seq<char>) -> bool {
    p.len() <= s.len() && s.take(p.len() as int) == p
}

/// `str::starts_with` on character sequences.
pub fn chars_start_with(s: &Vec<char>, p: &Vec<char>) -> (r: bool)
    ensures
        r == has_prefix(s@, p@),
{
    if p.len() > s.len() {
        return false;
    }
    let mut i: usize = 0;
    while i < p.len()
        invariant
            0 <= i <= p.len() <= s.len(),
            forall|j: int| 0 <= j < i ==> s@[j] == p@[j],
        decreases p.len() - i,
    {
        if s[i] != p[i] {
            proof {
                assert(s@.take(p.len() as int)[i as int] != p@[i as int]);
            }
            return false;
        }
        i = i + 1;
    }
    proof {
        assert(s@.take(p.len() as int) =~= p@);
    }
    true
}

/// `str::starts_with`.
pub fn starts_with(s: &str, p: &str) -> (r: bool)
    ensures
        r == has_prefix(s@, p@),
{
    chars_start_with(&chars_of(s), &chars_of(p))
}

/// `str::split` on one character: the pieces between its occurrences.
pub open spec fn split_spec(s: Seq<char>, sep: char) -> Seq<Seq<char>>
    decreases s.len(),
{
    if s.len() == 0 {
        seq![Seq::<char>::empty()]
    } else {
        let rest = split_spec(s.drop_last(), sep);
        if s.last() == sep {
            rest.push(Seq::empty())
        } else {
            rest.update(rest.len() - 1, rest.last().push(s.last()))
        }
    }
}

/// A split always has at least one piece.
pub proof fn lemma_split_nonempty_pub(s: Seq<char>, sep: char)
    ensures
        split_spec(s, sep).len() >= 1,
{
    lemma_split_nonempty(s, sep);
}

proof fn lemma_split_nonempty(s: Seq<char>, sep: char)
    ensures
        split_spec(s, sep).len() >= 1,
    decreases s.len(),
{
    if s.len() > 0 {
        lemma_split_nonempty(s.drop_last(), sep);
    }
}

/// The pieces of `s` between the occurrences of `sep`.
pub fn split_chars(s: &Vec<char>, sep: char) -> (r: Vec<Vec<char>>)
    ensures
        r@.map_values(|p: Vec<char>| p@) == split_spec(s@, sep),
{
    let mut done: Vec<Vec<char>> = Vec::new();
    let mut cur: Vec<char> = Vec::new();
    let mut i: usize = 0;
    proof {
        assert(s@.take(0) =~= Seq::<char>::empty());
        assert(done@.map_values(|p: Vec<char>| p@).push(cur@) =~= seq![Seq::<char>::empty()]);
    }
    while i < s.len()
        invariant
            0 <= i <= s.len(),
            done@.map_values(|p: Vec<char>| p@).push(cur@) == split_spec(s@.take(i as int), sep),
        decreases s.len() - i,
    {
        let c = s[i];
        let ghost before = done@.map_values(|p: Vec<char>| p@).push(cur@);
        proof {
            assert(s@.take(i + 1).drop_last() =~= s@.take(i as int));
            assert(s@.take(i + 1).last() == c);
        }
        if c == sep {
            let piece = cur;
            done.push(piece);
            cur = Vec::new();
            proof {
                assert(done@.map_values(|p: Vec<char>| p@).push(cur@) =~= before.push(
                    Seq::empty(),
                ));
            }
        } else {
            cur.push(c);
            proof {
                assert(done@.map_values(|p: Vec<char>| p@).push(cur@) =~= before.update(
                    before.len() - 1,
                    before.last().push(c),
                ));
            }
        }
        i = i + 1;
    }
    done.push(cur);
    proof {
        assert(s@.take(i as int) =~= s@);
    }
    done
}

/// The pieces joined with `sep` between them.
pub open spec fn join_spec(pieces: Seq<Seq<char>>, sep: Seq<char>) -> Seq<char>
    decreases pieces.len(),
{
    if pieces.len() == 0 {
        Seq::empty()
    } else if pieces.len() == 1 {
        pieces[0]
    } else {
        join_spec(pieces.drop_last(), sep) + sep + pieces.last()
    }
}

/// `[String]::join` with a one-character separator.
pub fn join_strings(pieces: &Vec<String>, sep: char) -> (r: String)
    ensures
        r@ == join_spec(pieces@.map_values(|p: String| p@), seq![sep]),
{
    let ghost ps = pieces@.map_values(|p: String| p@);
    let mut r = String::new();
    let mut i: usize = 0;
    while i < pieces.len()
        invariant
            0 <= i <= pieces.len(),
            ps == pieces@.map_values(|p: String| p@),
            r@ == join_spec(ps.take(i as int), seq![sep]),
        decreases pieces.len() - i,
    {
        proof {
            assert(ps.take(i + 1).drop_last() =~= ps.take(i as int));
        }
        if i > 0 {
            push_char(&mut r, sep);
        }
        r.append(pieces[i].as_str());
        proof {
            if i == 0 {
                assert(ps.take(1)[0] == ps[0]);
                assert(r@ =~= join_spec(ps.take(1), seq![sep]));
            } else {
                assert(r@ =~= join_spec(ps.take(i as int), seq![sep]) + seq![sep] + ps[i as int]);
            }
        }
        i = i + 1;
    }
    proof {
        assert(ps.take(i as int) =~= ps);
    }
    r
}

/// The decimal digits of `n`.
pub open spec fn decimal_spec(n: nat) -> Seq<char>
    decreases n,
{
    if n < 10 {
        seq![digit_char_spec(n)]
    } else {
        decimal_spec(n / 10).push(digit_char_spec(n % 10))
    }
}

pub open spec fn digit_char_spec(d: nat) -> char {
    if d == 0 {
        '0'
    } else if d == 1 {
        '1'
    } else if d == 2 {
        '2'
    } else if d == 3 {
        '3'
    } else if d == 4 {
        '4'
    } else if d == 5 {
        '5'
    } else if d == 6 {
        '6'
    } else if d == 7 {
        '7'
    } else if d == 8 {
        '8'
    } else {
        '9'
    }
}

/// How `i64`'s `Display` writes `n`: a `-` for negative numbers, then the decimal digits.
pub open spec fn signed_decimal_spec(n: int) -> Seq<char> {
    if n < 0 {
        seq!['-'] + decimal_spec((-n) as nat)
    } else {
        decimal_spec(n as nat)
    }
}

fn digit_char(d: u64) -> (c: char)
    requires
        d < 10,
    ensures
        c == digit_char_spec(d as nat),
{
    if d == 0 {
        '0'
    } else if d == 1 {
        '1'
    } else if d == 2 {
        '2'
    } else if d == 3 {
        '3'
    } else if d == 4 {
        '4'
    } else if d == 5 {
        '5'
    } else if d == 6 {
        '6'
    } else if d == 7 {
        '7'
    } else if d == 8 {
        '8'
    } else {
        '9'
    }
}

fn push_decimal(s: &mut String, n: u64)
    ensures
        final(s)@ == old(s)@ + decimal_spec(n as nat),
    decreases n,
{
    if n >= 10 {
        push_decimal(s, n / 10);
    }
    push_char(s, digit_char(n % 10));
    proof {
        if n < 10 {
            assert(n % 10 == n);
        }
    }
}

/// Appends `n` written in decimal, as `i64`'s `Display` does.
pub fn push_i64(s: &mut String, n: i64)
    ensures
        final(s)@ == old(s)@ + signed_decimal_spec(n as int),
{
    if n < 0 {
        push_char(s, '-');
        let m: u64 = if n == i64::MIN {
            0x8000_0000_0000_0000u64
        } else {
            (-n) as u64
        };
        push_decimal(s, m);
        proof {
            assert(final(s)@ =~= old(s)@ + signed_decimal_spec(n as int));
        }
    } else {
        push_decimal(s, n as u64);
    }
}

/// `s` with every leading occurrence of the non-empty `p` removed, as `str::trim_start_matches`.
pub open spec fn strip_prefixes(s: Seq<char>, p: Seq<char>) -> Seq<char>
    decreases s.len(),
{
    if p.len() > 0 && has_prefix(s, p) {
        strip_prefixes(s.skip(p.len() as int), p)
    } else {
        s
    }
}

/// `str::trim_start_matches` with a non-empty string pattern.
pub fn trim_start_matches(s: &str, p: &str) -> (r: String)
    ensures
        r@ == strip_prefixes(s@, p@),
{
    let cs = chars_of(s);
    let ps = chars_of(p);
    let mut a: usize = 0;
    assert(cs@.skip(0) =~= cs@);
    loop
        invariant
            0 <= a <= cs.len(),
            cs@ == s@,
            ps@ == p@,
            strip_prefixes(cs@.skip(a as int), ps@) == strip_prefixes(s@, p@),
        ensures
            0 <= a <= cs.len(),
            strip_prefixes(cs@.skip(a as int), ps@) == strip_prefixes(s@, p@),
            strip_prefixes(cs@.skip(a as int), ps@) == cs@.skip(a as int),
        decreases cs.len() - a,
    {
        if ps.len() == 0 || ps.len() > cs.len() - a {
            break;
        }
        let mut k: usize = 0;
        let mut same = true;
        while k < ps.len()
            invariant
                0 <= k <= ps.len(),
                a + ps.len() <= cs.len(),
                same == (forall|j: int| 0 <= j < k ==> cs@[a + j] == ps@[j]),
            decreases ps.len() - k,
        {
            if cs[a + k] != ps[k] {
                same = false;
            }
            k = k + 1;
        }
        let ghost t = cs@.skip(a as int);
        if !same {
            proof {
                let j = choose|j: int| 0 <= j < ps.len() && cs@[a + j] != ps@[j];
                assert(t.take(ps.len() as int)[j] != ps@[j]);
            }
            break;
        }
        proof {
            assert(t.take(ps.len() as int) =~= ps@);
            assert(t.skip(ps.len() as int) =~= cs@.skip(a + ps.len()));
        }
        a = a + ps.len();
    }
    let ghost t = cs@.skip(a as int);
    let mut r = String::new();
    let mut i = a;
    while i < cs.len()
        invariant
            a <= i <= cs.len(),
            t == cs@.skip(a as int),
            r@ == t.take(i - a),
        decreases cs.len() - i,
    {
        push_char(&mut r, cs[i]);
        proof {
            assert(t.take(i - a).push(cs@[i as int]) =~= t.take(i + 1 - a));
        }
        i = i + 1;
    }
    assert(t.take(i - a) =~= t);
    r
}

/// Splitting a text around a separator splits the two sides independently.
pub proof fn lemma_split_around(a: Seq<char>, b: Seq<char>, sep: char)
    ensures
        split_spec(a.push(sep) + b, sep) == split_spec(a, sep) + split_spec(b, sep),
    decreases b.len(),
{
    if b.len() == 0 {
        assert(a.push(sep) + b =~= a.push(sep));
        assert(a.push(sep).drop_last() =~= a);
        assert(split_spec(b, sep) =~= seq![Seq::<char>::empty()]);
        assert(split_spec(a, sep).push(Seq::empty()) =~= split_spec(a, sep) + split_spec(b, sep));
    } else {
        let x = a.push(sep) + b;
        assert(x.drop_last() =~= a.push(sep) + b.drop_last());
        assert(x.last() == b.last());
        lemma_split_around(a, b.drop_last(), sep);
        lemma_split_nonempty(b.drop_last(), sep);
        lemma_split_nonempty(a, sep);
        let sa = split_spec(a, sep);
        let sb = split_spec(b.drop_last(), sep);
        if b.last() == sep {
            assert((sa + sb).push(Seq::empty()) =~= sa + sb.push(Seq::empty()));
        } else {
            let rest = sa + sb;
            assert(rest.update(rest.len() - 1, rest.last().push(b.last())) =~= sa + sb.update(
                sb.len() - 1,
                sb.last().push(b.last()),
            ));
        }
    }
}

/// A text without the separator is one piece.
pub proof fn lemma_split_single(a: Seq<char>, sep: char)
    requires
        !a.contains(sep),
    ensures
        split_spec(a, sep) == seq![a],
    decreases a.len(),
{
    if a.len() == 0 {
        assert(a =~= Seq::<char>::empty());
        assert(split_spec(a, sep) =~= seq![a]);
    } else {
        assert(!a.drop_last().contains(sep)) by {
            if a.drop_last().contains(sep) {
                let i = choose|i: int| 0 <= i < a.drop_last().len() && a.drop_last()[i] == sep;
                assert(a[i] == sep);
            }
        }
        lemma_split_single(a.drop_last(), sep);
        assert(a.last() == a[a.len() - 1]);
        assert(a.drop_last().push(a.last()) =~= a);
        assert(seq![a.drop_last()].update(0, a.drop_last().push(a.last())) =~= seq![a]);
    }
}

/// Splitting joined pieces gives the pieces of each piece, in order.
pub proof fn lemma_split_join(ps: Seq<Seq<char>>, sep: char)
    requires
        ps.len() >= 1,
    ensures
        split_spec(join_spec(ps, seq![sep]), sep) == ps.map_values(
            |p: Seq<char>| split_spec(p, sep),
        ).flatten(),
    decreases ps.len(),
{
    let f = |p: Seq<char>| split_spec(p, sep);
    if ps.len() == 1 {
        assert(ps.map_values(f) =~= seq![split_spec(ps[0], sep)]);
        ps.map_values(f).lemma_flatten_singleton();
    } else {
        let init = ps.drop_last();
        lemma_split_join(init, sep);
        assert(join_spec(ps, seq![sep]) =~= join_spec(init, seq![sep]).push(sep) + ps.last());
        lemma_split_around(join_spec(init, seq![sep]), ps.last(), sep);
        assert(ps.map_values(f) =~= init.map_values(f).push(split_spec(ps.last(), sep)));
        init.map_values(f).lemma_flatten_push(split_spec(ps.last(), sep));
    }
}

/// No piece of a split text holds the separator.
pub proof fn lemma_split_pieces_lack_separator(s: Seq<char>, sep: char)
    ensures
        forall|i: int|
            0 <= i < split_spec(s, sep).len() ==> !(#[trigger] split_spec(s, sep)[i]).contains(sep),
    decreases s.len(),
{
    if s.len() == 0 {
        let r = split_spec(s, sep);
        assert forall|i: int| 0 <= i < r.len() implies !(#[trigger] r[i]).contains(sep) by {
            assert(r[i] =~= Seq::<char>::empty());
        }
    } else {
        lemma_split_pieces_lack_separator(s.drop_last(), sep);
        lemma_split_nonempty(s.drop_last(), sep);
        let rest = split_spec(s.drop_last(), sep);
        let r = split_spec(s, sep);
        assert forall|i: int| 0 <= i < r.len() implies !(#[trigger] r[i]).contains(sep) by {
            if s.last() == sep {
                if i < rest.len() {
                    assert(r[i] == rest[i]);
                } else {
                    assert(r[i] =~= Seq::<char>::empty());
                }
            } else if i < rest.len() - 1 {
                assert(r[i] == rest[i]);
            } else {
                let p = rest.last();
                assert(r[i] == p.push(s.last()));
                if p.push(s.last()).contains(sep) {
                    let k = choose|k: int| 0 <= k < p.len() + 1 && p.push(s.last())[k] == sep;
                    assert(p[k] == sep);
                    assert(rest[rest.len() - 1] == p);
                }
            }
        }
    }
}

/// Joining pieces that lack the separator and splitting again gives the pieces back.
pub proof fn lemma_split_join_back(ps: Seq<Seq<char>>, sep: char)
    requires
        ps.len() >= 1,
        forall|i: int| 0 <= i < ps.len() ==> !(#[trigger] ps[i]).contains(sep),
    ensures
        split_spec(join_spec(ps, seq![sep]), sep) == ps,
{
    lemma_split_join(ps, sep);
    lemma_flatten_singles(ps, sep);
}

proof fn lemma_flatten_singles(ps: Seq<Seq<char>>, sep: char)
    requires
        forall|i: int| 0 <= i < ps.len() ==> !(#[trigger] ps[i]).contains(sep),
    ensures
        ps.map_values(|p: Seq<char>| split_spec(p, sep)).flatten() == ps,
    decreases ps.len(),
{
    let f = |p: Seq<char>| split_spec(p, sep);
    if ps.len() == 0 {
        assert(ps.map_values(f) =~= Seq::<Seq<Seq<char>>>::empty());
        assert(ps.map_values(f).flatten() =~= ps);
    } else {
        let init = ps.drop_last();
        assert forall|i: int| 0 <= i < init.len() implies !(#[trigger] init[i]).contains(sep) by {
            assert(init[i] == ps[i]);
        }
        lemma_flatten_singles(init, sep);
        assert(ps.map_values(f) =~= init.map_values(f).push(split_spec(ps.last(), sep)));
        init.map_values(f).lemma_flatten_push(split_spec(ps.last(), sep));
        assert(!ps[ps.len() - 1].contains(sep));
        lemma_split_single(ps.last(), sep);
        assert(init.push(ps.last()) =~= ps);
    }
}

} // verus!
