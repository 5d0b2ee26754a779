use crate::graphemes::{graphemes, lemma_pieces_fewer_than_chars, spec_graphemes};
use crate::text::append_chars;
use vstd::prelude::*;

verus! {

/// A string that accepts at most `max_grapheme_length` grapheme clusters through
/// `push_grapheme_str`.
#[derive(Debug)]
pub struct FixedLengthGraphemeString {
    pub string: String,
    pub grapheme_length: u16,
    pub max_grapheme_length: u16,
}

/// How many of `n` offered clusters fit when `len` of `max` are taken.
pub open spec fn clusters_taken(len: u16, max: u16, n: nat) -> nat {
    if len >= max {
        0
    } else if n <= max - len {
        n
    } else {
        (max - len) as nat
    }
}

/// Pushing clusters never takes a string past its maximum: from a length within the maximum,
/// the clusters taken bring it at most to the maximum, and when it is full none are taken.
pub proof fn law_length_stays_within_max(len: u16, max: u16, n: nat)
    requires
        len <= max,
    ensures
        len + clusters_taken(len, max, n) <= max,
        len == max ==> clusters_taken(len, max, n) == 0,
        clusters_taken(len, max, n) <= n,
{
}

impl FixedLengthGraphemeString {
    pub fn empty(max_grapheme_length: u16) -> (r: FixedLengthGraphemeString)
        ensures
            r.string@ == Seq::<char>::empty(),
            r.grapheme_length == 0,
            r.max_grapheme_length == max_grapheme_length,
    {
        FixedLengthGraphemeString { string: String::new(), grapheme_length: 0, max_grapheme_length }
    }

    pub fn new(s: &str, max_grapheme_length: u16) -> (r: FixedLengthGraphemeString)
        ensures
            r.string@ == spec_graphemes(s@).take(
                clusters_taken(0, max_grapheme_length, spec_graphemes(s@).len()) as int,
            ).flatten(),
            r.grapheme_length == clusters_taken(0, max_grapheme_length, spec_graphemes(s@).len()),
            r.max_grapheme_length == max_grapheme_length,
    {
        let mut fixed_length_grapheme_string = FixedLengthGraphemeString::empty(max_grapheme_length);
        fixed_length_grapheme_string.push_grapheme_str(s);
        fixed_length_grapheme_string
    }

    /// Appends the clusters of `s` one by one while fewer than `max_grapheme_length` are held.
    pub fn push_grapheme_str(&mut self, s: &str)
        ensures
            final(self).string@ == old(self).string@ + spec_graphemes(s@).take(
                clusters_taken(
                    old(self).grapheme_length,
                    old(self).max_grapheme_length,
                    spec_graphemes(s@).len(),
                ) as int,
            ).flatten(),
            final(self).grapheme_length == old(self).grapheme_length + clusters_taken(
                old(self).grapheme_length,
                old(self).max_grapheme_length,
                spec_graphemes(s@).len(),
            ),
            final(self).max_grapheme_length == old(self).max_grapheme_length,
            spec_graphemes(s@).flatten() == s@,
            spec_graphemes(s@).len() <= s@.len(),
    {
        let gs = graphemes(s);
        let ghost cs = gs@.map_values(|g: Vec<char>| g@);
        proof {
            assert forall|i: int| 0 <= i < cs.len() implies #[trigger] cs[i].len() > 0 by {
                assert(cs[i] == gs@[i]@);
            }
            lemma_pieces_fewer_than_chars(cs);
        }
        let ghost start = self.string@;
        let ghost len0 = self.grapheme_length;
        let mut i: usize = 0;
        while i < gs.len()
            invariant
                0 <= i <= gs.len(),
                cs == gs@.map_values(|g: Vec<char>| g@),
                cs == spec_graphemes(s@),
                cs.flatten() == s@,
                cs.len() <= s@.len(),
                self.max_grapheme_length == old(self).max_grapheme_length,
                len0 == old(self).grapheme_length,
                start == old(self).string@,
                len0 < self.max_grapheme_length ==> i <= self.max_grapheme_length - len0,
                len0 >= self.max_grapheme_length ==> i == 0,
                self.grapheme_length == len0 + i,
                self.string@ == start + cs.take(i as int).flatten(),
            decreases gs.len() - i,
        {
            if self.grapheme_length >= self.max_grapheme_length {
                return;
            }
            proof {
                cs.take(i as int).lemma_flatten_push(cs[i as int]);
                assert(cs.take(i as int).push(cs[i as int]) =~= cs.take(i + 1));
            }
            append_chars(&mut self.string, &gs[i]);
            self.grapheme_length = self.grapheme_length + 1;
            i = i + 1;
        }
        proof {
            assert(cs.take(i as int) =~= cs);
        }
    }

    pub fn push_str(&mut self, s: &str)
        ensures
            final(self).string@ == old(self).string@ + s@,
            final(self).grapheme_length == old(self).grapheme_length,
            final(self).max_grapheme_length == old(self).max_grapheme_length,
    {
        self.string.append(s);
    }
}

} // verus!
