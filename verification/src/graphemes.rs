use unicode_segmentation::UnicodeSegmentation;
use vstd::prelude::*;

verus! {

/// The extended grapheme clusters of a string, as `unicode_segmentation` splits it
/// (`UnicodeSegmentation::graphemes(s, true)`), each cluster given by its characters.
pub uninterp spec fn spec_graphemes(s: Seq<char>) -> Seq<Seq<char>>;

/// The byte offsets at which `UnicodeSegmentation::split_word_bound_indices` starts
/// each of the word-bounded pieces of a string.
pub uninterp spec fn spec_word_bound_indices(s: Seq<char>) -> Seq<usize>;

/// Whether a text is made of ASCII characters other than carriage return. By the boundary
/// rules of Unicode text segmentation (UAX #29), each such character is a grapheme cluster
/// of its own: the only cluster of several ASCII characters is a carriage return followed by
/// a line feed.
pub open spec fn plain_text(s: Seq<char>) -> bool {
    forall|i: int| 0 <= i < s.len() ==> (#[trigger] s[i] as u32) < 0x80 && s[i] != '\r'
}

/// Whether a text is made of ASCII characters.
pub open spec fn ascii_text(s: Seq<char>) -> bool {
    forall|i: int| 0 <= i < s.len() ==> (#[trigger] s[i] as u32) < 0x80
}

/// The clusters of an ASCII text by the boundary rules of UAX #29: a carriage return followed
/// by a line feed is one cluster, and every other character is a cluster of its own.
pub open spec fn ascii_clusters(s: Seq<char>) -> Seq<Seq<char>>
    decreases s.len(),
{
    if s.len() == 0 {
        Seq::empty()
    } else if s.len() >= 2 && s[0] == '\r' && s[1] == '\n' {
        seq![s.take(2)] + ascii_clusters(s.skip(2))
    } else {
        seq![seq![s[0]]] + ascii_clusters(s.skip(1))
    }
}

/// A text split into one-character clusters.
pub open spec fn one_char_clusters(s: Seq<char>) -> Seq<Seq<char>> {
    s.map_values(|c: char| seq![c])
}

/// One-character clusters join back into the text, also over any stretch of it.
pub proof fn lemma_one_char_clusters(s: Seq<char>)
    ensures
        one_char_clusters(s).flatten() == s,
        forall|a: int, b: int|
            0 <= a <= b <= s.len() ==> #[trigger] one_char_clusters(s).subrange(a, b).flatten()
                == s.subrange(a, b),
    decreases s.len(),
{
    if s.len() > 0 {
        lemma_one_char_clusters(s.drop_last());
        assert(one_char_clusters(s) =~= one_char_clusters(s.drop_last()).push(seq![s.last()]));
        one_char_clusters(s.drop_last()).lemma_flatten_push(seq![s.last()]);
        assert(s.drop_last().push(s.last()) =~= s);
    } else {
        assert(one_char_clusters(s) =~= Seq::<Seq<char>>::empty());
    }
    assert forall|a: int, b: int| 0 <= a <= b <= s.len() implies #[trigger] one_char_clusters(
        s,
    ).subrange(a, b).flatten() == s.subrange(a, b) by {
        let t = s.subrange(a, b);
        assert(one_char_clusters(s).subrange(a, b) =~= one_char_clusters(t));
        if t.len() < s.len() {
            lemma_one_char_clusters(t);
        } else {
            assert(t =~= s);
        }
    }
}

/// Non-empty pieces hold at least as many characters as there are pieces.
pub proof fn lemma_pieces_fewer_than_chars(gs: Seq<Seq<char>>)
    requires
        forall|i: int| 0 <= i < gs.len() ==> #[trigger] gs[i].len() > 0,
    ensures
        gs.len() <= gs.flatten().len(),
    decreases gs.len(),
{
    if gs.len() > 0 {
        let init = gs.drop_last();
        assert forall|i: int| 0 <= i < init.len() implies #[trigger] init[i].len() > 0 by {
            assert(init[i] == gs[i]);
        }
        lemma_pieces_fewer_than_chars(init);
        init.lemma_flatten_push(gs.last());
        assert(init.push(gs.last()) =~= gs);
        assert(gs.last() == gs[gs.len() - 1]);
    }
}

/// Splits a string into its extended grapheme clusters with
/// `UnicodeSegmentation::graphemes(s, true)`.
/// Trusted: the clusters are `spec_graphemes(s@)`; as the iterator's source shows, they are
/// consecutive non-empty slices of `s`, so their concatenation is `s` itself; since a `str`
/// holds at most `isize::MAX` bytes, there are at most `isize::MAX` of them; and by the
/// boundary rules the crate implements, an ASCII text splits into one-character clusters but
/// for each carriage return followed by a line feed, which is one cluster (so a text of ASCII
/// characters without carriage return splits into one-character clusters).
#[verifier::external_body]
pub(crate) fn graphemes(s: &str) -> (r: Vec<Vec<char>>)
    ensures
        r@.map_values(|g: Vec<char>| g@) == spec_graphemes(s@),
        r@.map_values(|g: Vec<char>| g@).flatten() == s@,
        forall|i: int| 0 <= i < r@.len() ==> #[trigger] r@[i]@.len() > 0,
        r@.len() <= isize::MAX,
        plain_text(s@) ==> r@.map_values(|g: Vec<char>| g@) == one_char_clusters(s@),
        ascii_text(s@) ==> r@.map_values(|g: Vec<char>| g@) == ascii_clusters(s@),
{
    s.graphemes(true).map(|g| g.chars().collect::<Vec<char>>()).collect()
}

/// The start offsets of the pieces of `s` split on word boundaries, with
/// `UnicodeSegmentation::split_word_bound_indices`.
/// Trusted: the offsets are `spec_word_bound_indices(s@)`; as the iterator's source shows, an
/// empty text has no pieces, so no offsets. Nothing more is stated of them.
#[verifier::external_body]
pub(crate) fn word_bound_indices(s: &str) -> (r: Vec<usize>)
    ensures
        r@ == spec_word_bound_indices(s@),
        s@.len() == 0 ==> r@.len() == 0,
{
    s.split_word_bound_indices().map(|(i, _)| i).collect()
}

/// The clusters of `s`, each as a sequence of characters.
pub open spec fn clusters(gs: Seq<Vec<char>>) -> Seq<Seq<char>> {
    gs.map_values(|g: Vec<char>| g@)
}

/// Appends the clusters `from..to` of `gs` to a string.
pub fn append_clusters(s: &mut String, gs: &Vec<Vec<char>>, from: usize, to: usize)
    requires
        from <= to <= gs.len(),
    ensures
        final(s)@ == old(s)@ + clusters(gs@).subrange(from as int, to as int).flatten(),
{
    let ghost cl = clusters(gs@);
    let mut i: usize = from;
    proof {
        assert(cl.subrange(from as int, from as int) =~= Seq::<Seq<char>>::empty());
    }
    while i < to
        invariant
            from <= i <= to <= gs.len(),
            cl == clusters(gs@),
            s@ == old(s)@ + cl.subrange(from as int, i as int).flatten(),
        decreases to - i,
    {
        proof {
            cl.subrange(from as int, i as int).lemma_flatten_push(cl[i as int]);
            assert(cl.subrange(from as int, i as int).push(cl[i as int]) =~= cl.subrange(
                from as int,
                i + 1,
            ));
        }
        crate::text::append_chars(s, &gs[i]);
        i = i + 1;
    }
}

} // verus!
