use crate::shell_history::{kept_lines, leading_timestamp};
use crate::text::{
    chars_of, chars_start_with, has_prefix, join_spec, join_strings, lemma_split_join_back,
    lemma_split_pieces_lack_separator, split_chars, split_spec, string_from_chars, trim, trim_spec,
};
use vstd::prelude::*;

verus! {

/// Whether a line starts with `#` and ten ASCII digits (a bash timestamp comment).
pub fn has_leading_timestamp(line: &str) -> (r: bool)
    ensures
        r == leading_timestamp(line@),
{
    crate::shell_history::has_leading_timestamp(line)
}

/// The commands of a bash history file whose text is `contents`: its non-empty lines that are
/// not timestamps.
pub fn full_history(contents: &str) -> (r: Vec<String>)
    ensures
        r@.map_values(|s: String| s@) == kept_lines(split_spec(contents@, '\n')),
{
    let lines = split_chars(&chars_of(contents), '\n');
    let ghost ls = lines@.map_values(|l: Vec<char>| l@);
    let mut out: Vec<String> = Vec::new();
    let mut i: usize = 0;
    while i < lines.len()
        invariant
            0 <= i <= lines.len(),
            ls == lines@.map_values(|l: Vec<char>| l@),
            out@.map_values(|s: String| s@) == kept_lines(ls.take(i as int)),
        decreases lines.len() - i,
    {
        let line = string_from_chars(&lines[i]);
        proof {
            assert(ls.take(i + 1).drop_last() =~= ls.take(i as int));
            assert(ls.take(i + 1).last() == line@);
        }
        if !has_leading_timestamp(line.as_str()) && lines[i].len() > 0 {
            let ghost before = out@.map_values(|s: String| s@);
            out.push(line);
            proof {
                assert(out@.map_values(|s: String| s@) =~= before.push(ls[i as int]));
            }
        }
        i = i + 1;
    }
    proof {
        assert(ls.take(i as int) =~= ls);
    }
    out
}

/// The last command of a bash history file, trimmed of white space.
pub fn last_history_line(contents: &str) -> (r: Option<String>)
    ensures
        ({
            let ls = kept_lines(split_spec(contents@, '\n'));
            if ls.len() == 0 {
                r is None
            } else {
                r matches Some(s) && s@ == trim_spec(ls.last())
            }
        }),
{
    let commands = full_history(contents);
    if commands.len() == 0 {
        None
    } else {
        let ghost cs = commands@.map_values(|s: String| s@);
        assert(cs.last() == commands@[commands.len() - 1]@);
        Some(trim(commands[commands.len() - 1].as_str()))
    }
}

/// `ls` without a last empty line.
pub open spec fn without_empty_last_line(ls: Seq<Seq<char>>) -> Seq<Seq<char>> {
    if ls.len() > 0 && ls.last().len() == 0 {
        ls.drop_last()
    } else {
        ls
    }
}

/// `ls` without a last line that is a timestamp.
pub open spec fn without_timestamp_last_line(ls: Seq<Seq<char>>) -> Seq<Seq<char>> {
    if ls.len() > 0 && leading_timestamp(ls.last()) {
        ls.drop_last()
    } else {
        ls
    }
}

/// The new text of a bash history file whose last line records a search (`#mcfly:`): that
/// line is removed with a timestamp just before it. `None` when the last line (after an empty
/// one) is no such line.
pub fn delete_last_history_entry_if_search(contents: &str) -> (r: Option<String>)
    ensures
        ({
            let ls = without_empty_last_line(split_spec(contents@, '\n'));
            if ls.len() == 0 || !has_prefix(ls.last(), "#mcfly:"@) {
                r is None
            } else {
                r matches Some(s) && s@ == join_spec(
                    without_timestamp_last_line(ls.drop_last()).push(Seq::empty()),
                    seq!['\n'],
                )
            }
        }),
{
    let mut lines = split_chars(&chars_of(contents), '\n');
    let ghost all = lines@.map_values(|l: Vec<char>| l@);
    if lines.len() > 0 && lines[lines.len() - 1].len() == 0 {
        lines.pop();
        proof {
            assert(lines@.map_values(|l: Vec<char>| l@) =~= all.drop_last());
        }
    }
    let ghost ls = lines@.map_values(|l: Vec<char>| l@);
    assert(ls == without_empty_last_line(all));
    let marker = chars_of("#mcfly:");
    if lines.len() == 0 || !chars_start_with(&lines[lines.len() - 1], &marker) {
        return None;
    }
    lines.pop();
    proof {
        assert(lines@.map_values(|l: Vec<char>| l@) =~= ls.drop_last());
    }
    let ghost ls2 = lines@.map_values(|l: Vec<char>| l@);
    if lines.len() > 0 && has_leading_timestamp(
        string_from_chars(&lines[lines.len() - 1]).as_str(),
    ) {
        lines.pop();
        proof {
            assert(lines@.map_values(|l: Vec<char>| l@) =~= ls2.drop_last());
        }
    }
    lines.push(Vec::new());
    let ghost ls3 = lines@.map_values(|l: Vec<char>| l@);
    assert(ls3 =~= without_timestamp_last_line(ls2).push(Seq::empty()));
    Some(join_char_lines(&lines))
}

/// Lines joined with newlines.
fn join_char_lines(lines: &Vec<Vec<char>>) -> (r: String)
    ensures
        r@ == join_spec(lines@.map_values(|l: Vec<char>| l@), seq!['\n']),
{
    let mut strings: Vec<String> = Vec::new();
    let mut i: usize = 0;
    while i < lines.len()
        invariant
            0 <= i <= lines.len(),
            strings@.map_values(|s: String| s@) == lines@.map_values(|l: Vec<char>| l@).take(
                i as int,
            ),
        decreases lines.len() - i,
    {
        let ghost before = strings@.map_values(|s: String| s@);
        strings.push(string_from_chars(&lines[i]));
        proof {
            let lv = lines@.map_values(|l: Vec<char>| l@);
            assert(lv.take(i + 1) =~= lv.take(i as int).push(lines@[i as int]@));
            assert(strings@.map_values(|s: String| s@) =~= before.push(strings@[i as int]@));
            assert(strings@.map_values(|s: String| s@) =~= lines@.map_values(
                |l: Vec<char>| l@,
            ).take(i + 1));
        }
        i = i + 1;
    }
    proof {
        assert(lines@.map_values(|l: Vec<char>| l@).take(i as int) =~= lines@.map_values(
            |l: Vec<char>| l@,
        ));
    }
    join_strings(&strings, '\n')
}

/// The lines other than `command`.
pub open spec fn lines_without(ls: Seq<Seq<char>>, command: Seq<char>) -> Seq<Seq<char>>
    decreases ls.len(),
{
    if ls.len() == 0 {
        ls
    } else if ls.last() == command {
        lines_without(ls.drop_last(), command)
    } else {
        lines_without(ls.drop_last(), command).push(ls.last())
    }
}

/// The text of a bash history file with every line equal to `command` deleted.
pub fn delete_lines(contents: &str, command: &str) -> (r: String)
    ensures
        r@ == join_spec(lines_without(split_spec(contents@, '\n'), command@), seq!['\n']),
{
    let lines = split_chars(&chars_of(contents), '\n');
    let ghost ls = lines@.map_values(|l: Vec<char>| l@);
    let target = chars_of(command);
    let mut kept: Vec<Vec<char>> = Vec::new();
    let mut i: usize = 0;
    while i < lines.len()
        invariant
            0 <= i <= lines.len(),
            ls == lines@.map_values(|l: Vec<char>| l@),
            target@ == command@,
            kept@.map_values(|l: Vec<char>| l@) == lines_without(ls.take(i as int), command@),
        decreases lines.len() - i,
    {
        proof {
            assert(ls.take(i + 1).drop_last() =~= ls.take(i as int));
            assert(ls.take(i + 1).last() == lines@[i as int]@);
        }
        let same = lines[i].len() == target.len() && chars_start_with(&lines[i], &target);
        proof {
            if same {
                assert(lines@[i as int]@ =~= target@);
            } else if lines@[i as int]@.len() == target@.len() {
                assert(lines@[i as int]@.take(target@.len() as int) =~= lines@[i as int]@);
            }
        }
        if !same {
            let ghost before = kept@.map_values(|l: Vec<char>| l@);
            let mut copy: Vec<char> = Vec::new();
            crate::text::extend_chars(&mut copy, &lines[i]);
            kept.push(copy);
            proof {
                assert(kept@.map_values(|l: Vec<char>| l@) =~= before.push(ls[i as int]));
            }
        }
        i = i + 1;
    }
    proof {
        assert(ls.take(i as int) =~= ls);
    }
    join_char_lines(&kept)
}

proof fn lemma_lines_without(ls: Seq<Seq<char>>, command: Seq<char>, sep: char)
    requires
        forall|i: int| 0 <= i < ls.len() ==> !(#[trigger] ls[i]).contains(sep),
    ensures
        forall|i: int|
            0 <= i < lines_without(ls, command).len() ==> !(#[trigger] lines_without(
                ls,
                command,
            )[i]).contains(sep) && lines_without(ls, command)[i] != command,
    decreases ls.len(),
{
    if ls.len() > 0 {
        let init = ls.drop_last();
        assert forall|i: int| 0 <= i < init.len() implies !(#[trigger] init[i]).contains(sep) by {
            assert(init[i] == ls[i]);
        }
        lemma_lines_without(init, command, sep);
        let r = lines_without(ls, command);
        let p = lines_without(init, command);
        assert(ls.last() == ls[ls.len() - 1]);
        assert forall|i: int| 0 <= i < r.len() implies !(#[trigger] r[i]).contains(sep) && r[i]
            != command by {
            if i < p.len() {
                assert(r[i] == p[i]);
            }
        }
    }
}

/// After deleting a (non-empty) command from a bash history file, no line of the new text
/// is that command.
pub proof fn law_deleted_command_is_gone(contents: Seq<char>, command: Seq<char>)
    requires
        command.len() > 0,
    ensures
        ({
            let text = join_spec(lines_without(split_spec(contents, '\n'), command), seq!['\n']);
            forall|i: int|
                0 <= i < split_spec(text, '\n').len() ==> #[trigger] split_spec(text, '\n')[i]
                    != command
        }),
{
    let ls = split_spec(contents, '\n');
    lemma_split_pieces_lack_separator(contents, '\n');
    lemma_lines_without(ls, command, '\n');
    let kept = lines_without(ls, command);
    let text = join_spec(kept, seq!['\n']);
    if kept.len() == 0 {
        assert(text =~= Seq::<char>::empty());
        assert(split_spec(text, '\n') =~= seq![Seq::<char>::empty()]);
    } else {
        lemma_split_join_back(kept, '\n');
    }
}

} // verus!
