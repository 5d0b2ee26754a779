use crate::graphemes::{
    append_clusters, clusters, graphemes, lemma_one_char_clusters, one_char_clusters,
    plain_text, spec_graphemes, spec_word_bound_indices, word_bound_indices,
};
use vstd::prelude::*;

verus! {

#[derive(Debug)]
pub enum InputCommand {
    CapitalizeWord,
    DowncaseWord,
    Insert(char),
    Backspace,
    Delete,
    Move(Move),
    Overwrite(char),
    TransposeChars,
    TransposeWords,
    Undo,
    UpcaseWord,
}

#[derive(Debug)]
pub enum Move {
    BOL,
    EOL,
    BackwardWord,
    ForwardWord(WordLocation),
    Backward,
    Forward,
}

#[derive(Debug)]
pub enum WordLocation {
    Start,
    BeforeEnd,
    AfterEnd,
}

/// The text typed into the search prompt, with a cursor counted in grapheme clusters.
#[derive(Debug)]
pub struct CommandInput {
    pub command: String,
    pub cursor: usize,
    pub len: usize,
    pub word_boundaries: Vec<usize>,
}

/// The grapheme clusters of a text.
pub open spec fn clusters_of(s: Seq<char>) -> Seq<Seq<char>> {
    spec_graphemes(s)
}

/// Where a cursor at `cursor` ends up after `direction`, kept within `0..=len`.
pub open spec fn moved_cursor(cursor: int, len: int, direction: Move) -> int {
    let tmp = match direction {
        Move::Backward => cursor - 1,
        Move::Forward => cursor + 1,
        Move::BOL => 0,
        Move::EOL => len,
        _ => cursor,
    };
    if tmp < 0 {
        0
    } else if tmp > len {
        len
    } else {
        tmp
    }
}

/// The text left when the cluster at index `i` is taken out (unchanged if there is none).
pub open spec fn without_cluster(cl: Seq<Seq<char>>, i: int) -> Seq<char> {
    if 0 <= i < cl.len() {
        cl.subrange(0, i).flatten() + cl.subrange(i + 1, cl.len() as int).flatten()
    } else {
        cl.flatten()
    }
}

/// The text with `c` placed before the cluster at index `i`, or at the end if there is none.
pub open spec fn with_inserted(cl: Seq<Seq<char>>, i: int, c: char) -> Seq<char> {
    if 0 <= i < cl.len() {
        cl.subrange(0, i).flatten() + seq![c] + cl.subrange(i, cl.len() as int).flatten()
    } else {
        cl.flatten().push(c)
    }
}

pub open spec fn min_int(a: int, b: int) -> int {
    if a <= b {
        a
    } else {
        b
    }
}

/// The number of grapheme clusters of a text.
pub open spec fn cluster_count(s: Seq<char>) -> int {
    clusters_of(s).len() as int
}

/// The text and cursor after `delete(cmd)` on `command` with the cursor at `cursor`.
pub open spec fn after_delete(command: Seq<char>, cursor: int, cmd: Move) -> (Seq<char>, int) {
    let cl = clusters_of(command);
    let n = cl.len() as int;
    match cmd {
        Move::Backward => if cursor == 0 {
            (command, cursor)
        } else {
            (without_cluster(cl, min_int(cursor - 1, n)), min_int(cursor - 1, n))
        },
        Move::Forward => if cursor == n {
            (command, cursor)
        } else {
            (without_cluster(cl, cursor), cursor)
        },
        Move::EOL => if cursor == n {
            (command, cursor)
        } else {
            let kept = cl.subrange(0, min_int(cursor, n)).flatten();
            (kept, cluster_count(kept))
        },
        _ => if cursor == 0 {
            (command, cursor)
        } else {
            (cl.subrange(min_int(cursor, n), n).flatten(), 0)
        },
    }
}

/// The text and cursor after `insert(c)` on `command` with the cursor at `cursor`.
pub open spec fn after_insert(command: Seq<char>, cursor: int, c: char) -> (Seq<char>, int) {
    let text = with_inserted(clusters_of(command), cursor, c);
    (text, min_int(cursor + 1, cluster_count(text)))
}

/// A plain text with `c` typed at `cursor` (at the end when the cursor is past it).
pub open spec fn typed_at(s: Seq<char>, cursor: int, c: char) -> Seq<char> {
    let k = min_int(cursor, s.len() as int);
    s.take(k) + seq![c] + s.skip(k)
}

/// A plain text with the character before `cursor` taken out.
pub open spec fn backspaced_at(s: Seq<char>, cursor: int) -> Seq<char> {
    s.take(cursor - 1) + s.skip(cursor)
}

/// Whether a character is plain: ASCII, and not a carriage return.
pub open spec fn plain_char(c: char) -> bool {
    (c as u32) < 0x80 && c != '\r'
}

proof fn lemma_plain_subrange(s: Seq<char>, a: int, b: int)
    requires
        plain_text(s),
        0 <= a <= b <= s.len(),
    ensures
        plain_text(s.subrange(a, b)),
{
    assert forall|i: int| 0 <= i < b - a implies (#[trigger] s.subrange(a, b)[i] as u32) < 0x80
        && s.subrange(a, b)[i] != '\r' by {
        assert(s.subrange(a, b)[i] == s[a + i]);
    }
}

proof fn lemma_plain_concat(x: Seq<char>, y: Seq<char>)
    requires
        plain_text(x),
        plain_text(y),
    ensures
        plain_text(x + y),
{
    assert forall|i: int| 0 <= i < (x + y).len() implies (#[trigger] (x + y)[i] as u32) < 0x80
        && (x + y)[i] != '\r' by {
        if i < x.len() {
            assert((x + y)[i] == x[i]);
        } else {
            assert((x + y)[i] == y[i - x.len()]);
        }
    }
}

/// On plain text, `after_insert` puts the character at the cursor, in a plain text.
proof fn lemma_plain_insert(s: Seq<char>, cursor: int, c: char)
    requires
        plain_text(s),
        plain_char(c),
        clusters_of(s) == one_char_clusters(s),
        cursor >= 0,
    ensures
        after_insert(s, cursor, c).0 == typed_at(s, cursor, c),
        plain_text(typed_at(s, cursor, c)),
        typed_at(s, cursor, c).len() == s.len() + 1,
{
    lemma_one_char_clusters(s);
    let cl = one_char_clusters(s);
    let k = min_int(cursor, s.len() as int);
    assert(s.take(k) == s.subrange(0, k));
    assert(s.skip(k) == s.subrange(k, s.len() as int));
    if cursor >= s.len() {
        assert(cl.subrange(0, s.len() as int) =~= cl);
        assert(s.skip(k) =~= Seq::<char>::empty());
        assert(typed_at(s, cursor, c) =~= s.push(c));
    }
    lemma_plain_subrange(s, 0, k);
    lemma_plain_subrange(s, k, s.len() as int);
    assert(plain_text(seq![c]));
    lemma_plain_concat(s.take(k), seq![c]);
    lemma_plain_concat(s.take(k) + seq![c], s.skip(k));
}

/// On plain text, `after_delete` takes characters out and leaves a plain text.
proof fn lemma_plain_delete(s: Seq<char>, cursor: int, cmd: Move)
    requires
        plain_text(s),
        clusters_of(s) == one_char_clusters(s),
        0 <= cursor,
    ensures
        plain_text(after_delete(s, cursor, cmd).0),
        cmd is Backward && 0 < cursor <= s.len() ==> after_delete(s, cursor, cmd) == (
            backspaced_at(s, cursor),
            cursor - 1,
        ),
        cmd is Forward && cursor < s.len() ==> after_delete(s, cursor, cmd) == (
            s.take(cursor) + s.skip(cursor + 1),
            cursor,
        ),
{
    lemma_one_char_clusters(s);
    let n = s.len() as int;
    let cl = one_char_clusters(s);
    assert(cl.subrange(0, n) =~= cl);
    let (t, k) = after_delete(s, cursor, cmd);
    if cmd is Backward && cursor > 0 {
        let i = min_int(cursor - 1, n);
        if i < n {
            assert(s.take(i) == s.subrange(0, i));
            assert(s.skip(i + 1) == s.subrange(i + 1, n));
            lemma_plain_subrange(s, 0, i);
            lemma_plain_subrange(s, i + 1, n);
            lemma_plain_concat(s.subrange(0, i), s.subrange(i + 1, n));
        }
    } else if cmd is Forward && cursor < n {
        assert(s.take(cursor) == s.subrange(0, cursor));
        assert(s.skip(cursor + 1) == s.subrange(cursor + 1, n));
        lemma_plain_subrange(s, 0, cursor);
        lemma_plain_subrange(s, cursor + 1, n);
        lemma_plain_concat(s.subrange(0, cursor), s.subrange(cursor + 1, n));
    } else if cmd is EOL && cursor != n {
        lemma_plain_subrange(s, 0, min_int(cursor, n));
    } else if !(cmd is Backward) && !(cmd is Forward) && !(cmd is EOL) && cursor != 0 {
        lemma_plain_subrange(s, min_int(cursor, n), n);
    }
}

/// On plain text, backspace undoes typing: the character typed at a cursor within the text
/// is the one taken out again from just after it.
pub proof fn law_backspace_undoes_typing(s: Seq<char>, cursor: int, c: char)
    requires
        0 <= cursor <= s.len(),
    ensures
        backspaced_at(typed_at(s, cursor, c), cursor + 1) == s,
{
    let t = typed_at(s, cursor, c);
    assert(t.take(cursor) =~= s.take(cursor));
    assert(t.skip(cursor + 1) =~= s.skip(cursor));
    assert(s.take(cursor) + s.skip(cursor) =~= s);
}

impl CommandInput {
    /// The cached length and word boundaries describe the current command.
    pub open spec fn wf(&self) -> bool {
        &&& self.len == clusters_of(self.command@).len()
        &&& self.len <= isize::MAX
        &&& self.word_boundaries@ == spec_word_bound_indices(self.command@)
    }

    /// The cursor can move one step further without leaving the range of `isize`.
    pub open spec fn cursor_in_range(&self) -> bool {
        self.cursor < isize::MAX
    }

    pub fn from(s: &str) -> (input: CommandInput)
        ensures
            input.wf(),
            input.command@ == s@,
            input.cursor == input.len,
    {
        let mut input = CommandInput {
            command: s.to_owned(),
            cursor: 0,
            len: 0,
            word_boundaries: Vec::new(),
        };
        input.recompute_caches();
        input.cursor = input.len;
        input
    }

    /// Replaces the whole command and puts the cursor at its end.
    pub fn set(&mut self, s: &str)
        ensures
            final(self).wf(),
            final(self).command@ == s@,
            final(self).cursor == final(self).len,
    {
        self.command = s.to_owned();
        self.recompute_caches();
        self.cursor = self.len;
    }

    /// Empties the command; the cursor is left where it was.
    pub fn clear(&mut self)
        ensures
            final(self).wf(),
            final(self).command@ == Seq::<char>::empty(),
            final(self).len == 0,
            final(self).word_boundaries@.len() == 0,
            final(self).cursor == old(self).cursor,
    {
        self.command = String::new();
        self.recompute_caches();
    }

    pub fn recompute_caches(&mut self)
        ensures
            final(self).wf(),
            final(self).command == old(self).command,
            final(self).cursor == old(self).cursor,
            old(self).command@.len() == 0 ==> final(self).len == 0
                && final(self).word_boundaries@.len() == 0,
            plain_text(final(self).command@) ==> clusters_of(final(self).command@)
                == one_char_clusters(final(self).command@),
    {
        let gs = graphemes(self.command.as_str());
        proof {
            if self.command@.len() == 0 && gs@.len() > 0 {
                let cl = clusters(gs@);
                assert(cl.flatten() == cl.first() + cl.drop_first().flatten());
                assert(gs@[0]@.len() > 0);
            }
        }
        self.len = gs.len();
        self.word_boundaries = word_bound_indices(self.command.as_str());
    }

    pub fn move_cursor(&mut self, direction: Move)
        requires
            old(self).wf(),
            old(self).cursor_in_range(),
        ensures
            final(self).wf(),
            final(self).command == old(self).command,
            final(self).cursor == moved_cursor(
                old(self).cursor as int,
                old(self).len as int,
                direction,
            ),
    {
        let len = self.len;
        let c = self.cursor;
        let tmp: usize = match direction {
            Move::Backward => {
                if c == 0 {
                    0
                } else {
                    c - 1
                }
            },
            Move::Forward => c + 1,
            Move::BOL => 0,
            Move::EOL => len,
            _ => c,
        };
        self.cursor = if tmp > len {
            len
        } else {
            tmp
        };
    }

    /// Deletes the cluster before the cursor (`Backward`), at it (`Forward`), everything from
    /// it on (`EOL`) or everything before it (`BOL`).
    pub fn delete(&mut self, cmd: Move)
        requires
            old(self).wf(),
            old(self).cursor_in_range(),
            cmd is Backward || cmd is Forward || cmd is EOL || cmd is BOL,
        ensures
            final(self).wf(),
            (final(self).command@, final(self).cursor as int) == after_delete(
                old(self).command@,
                old(self).cursor as int,
                cmd,
            ),
            plain_text(old(self).command@) ==> plain_text(final(self).command@) && final(self).len == final(self).command@.len(),
            plain_text(old(self).command@) && old(self).cursor <= old(self).len ==> final(self).cursor <= final(self).len,
            plain_text(old(self).command@) && cmd is Backward && 0 < old(self).cursor <= old(self).len ==> final(self).command@ == backspaced_at(
                old(self).command@,
                old(self).cursor as int,
            ) && final(self).cursor == old(self).cursor - 1 && final(self).len == old(self).len
                - 1,
    {
        let gs = graphemes(self.command.as_str());
        proof {
            if plain_text(self.command@) {
                lemma_one_char_clusters(self.command@);
                lemma_plain_delete(self.command@, self.cursor as int, cmd);
            }
        }
        let n = gs.len();
        let mut new_command = String::new();
        match cmd {
            Move::Backward => {
                if self.cursor == 0 {
                    return ;
                }
                self.move_cursor(Move::Backward);
                let i = self.cursor;
                if i < n {
                    append_clusters(&mut new_command, &gs, 0, i);
                    append_clusters(&mut new_command, &gs, i + 1, n);
                } else {
                    append_clusters(&mut new_command, &gs, 0, n);
                    proof {
                        assert(clusters(gs@).subrange(0, n as int) =~= clusters(gs@));
                    }
                }
                self.command = new_command;
                self.recompute_caches();
            },
            Move::Forward => {
                if self.cursor == self.len {
                    return ;
                }
                let i = self.cursor;
                if i < n {
                    append_clusters(&mut new_command, &gs, 0, i);
                    append_clusters(&mut new_command, &gs, i + 1, n);
                } else {
                    append_clusters(&mut new_command, &gs, 0, n);
                    proof {
                        assert(clusters(gs@).subrange(0, n as int) =~= clusters(gs@));
                    }
                }
                self.command = new_command;
                self.recompute_caches();
            },
            Move::EOL => {
                if self.cursor == self.len {
                    return ;
                }
                let k = if self.cursor < n {
                    self.cursor
                } else {
                    n
                };
                append_clusters(&mut new_command, &gs, 0, k);
                self.command = new_command;
                self.recompute_caches();
                self.cursor = self.len;
            },
            _ => {
                if self.cursor == 0 {
                    return ;
                }
                let k = if self.cursor < n {
                    self.cursor
                } else {
                    n
                };
                append_clusters(&mut new_command, &gs, k, n);
                self.command = new_command;
                self.recompute_caches();
                self.cursor = 0;
            },
        }
    }

    /// Inserts `c` before the cluster at the cursor and moves the cursor one step forward.
    pub fn insert(&mut self, c: char)
        requires
            old(self).wf(),
            old(self).cursor_in_range(),
        ensures
            final(self).wf(),
            (final(self).command@, final(self).cursor as int) == after_insert(
                old(self).command@,
                old(self).cursor as int,
                c,
            ),
            plain_text(old(self).command@) && plain_char(c) ==> final(self).command@ == typed_at(
                old(self).command@,
                old(self).cursor as int,
                c,
            ) && final(self).len == old(self).len + 1 && final(self).cursor == min_int(
                old(self).cursor + 1,
                old(self).len + 1,
            ),
    {
        let gs = graphemes(self.command.as_str());
        proof {
            if plain_text(self.command@) && plain_char(c) {
                lemma_plain_insert(self.command@, self.cursor as int, c);
            }
        }
        let n = gs.len();
        let i = self.cursor;
        let mut new_command = String::new();
        if i < n {
            append_clusters(&mut new_command, &gs, 0, i);
            crate::text::push_char(&mut new_command, c);
            append_clusters(&mut new_command, &gs, i, n);
        } else {
            append_clusters(&mut new_command, &gs, 0, n);
            proof {
                assert(clusters(gs@).subrange(0, n as int) =~= clusters(gs@));
            }
            crate::text::push_char(&mut new_command, c);
        }
        let ghost text = with_inserted(clusters(gs@), i as int, c);
        assert(new_command@ == text);
        self.command = new_command;
        self.recompute_caches();
        assert(self.len == cluster_count(text));
        self.move_cursor(Move::Forward);
        assert(self.cursor == min_int(i + 1, cluster_count(text)));
    }
}

} // verus!
