use crate::pattern::{regex_is_match, spec_regex_is_match, spec_regex_is_valid};
use crate::shell_history::HistoryError;
use vstd::prelude::*;

verus! {

/// A command as `mcfly dump` lists it: the command and when it ran, in seconds since the epoch.
#[derive(Debug)]
pub struct DumpEntry {
    pub cmd: String,
    pub when_run: i64,
}

/// Entries as (command, time) values.
pub open spec fn entries_view(es: Seq<DumpEntry>) -> Seq<(Seq<char>, i64)> {
    es.map_values(|e: DumpEntry| (e.cmd@, e.when_run))
}

/// The entries whose command `pattern` matches, in order.
pub open spec fn matching_entries(es: Seq<(Seq<char>, i64)>, pattern: Seq<char>) -> Seq<
    (Seq<char>, i64),
>
    decreases es.len(),
{
    if es.len() == 0 {
        es
    } else if spec_regex_is_match(pattern, es.last().0) {
        matching_entries(es.drop_last(), pattern).push(es.last())
    } else {
        matching_entries(es.drop_last(), pattern)
    }
}

/// What a dump lists: nothing (`None`) when the history is empty; else the entries, kept only
/// when the pattern matches their command if there is a pattern. A pattern that does not
/// compile is an error.
pub fn dump_selection(entries: Vec<DumpEntry>, pattern: Option<&str>) -> (r: Result<
    Option<Vec<DumpEntry>>,
    HistoryError,
>)
    ensures
        entries@.len() == 0 ==> r matches Ok(None),
        entries@.len() > 0 ==> match pattern {
            None => r matches Ok(Some(v)) && v@ == entries@,
            Some(p) => if spec_regex_is_valid(p@) {
                r matches Ok(Some(v)) && entries_view(v@) == matching_entries(
                    entries_view(entries@),
                    p@,
                )
            } else {
                r matches Err(HistoryError::InvalidPattern)
            },
        },
{
    if entries.len() == 0 {
        return Ok(None);
    }
    let p = match pattern {
        None => {
            return Ok(Some(entries));
        },
        Some(p) => p,
    };
    if regex_is_match(p, "").is_none() {
        return Err(HistoryError::InvalidPattern);
    }
    let ghost all = entries_view(entries@);
    let mut kept: Vec<DumpEntry> = Vec::new();
    let mut i: usize = 0;
    proof {
        assert(all.take(0) =~= Seq::<(Seq<char>, i64)>::empty());
        assert(entries_view(kept@) =~= Seq::<(Seq<char>, i64)>::empty());
    }
    while i < entries.len()
        invariant
            0 <= i <= entries.len(),
            all == entries_view(entries@),
            spec_regex_is_valid(p@),
            entries_view(kept@) == matching_entries(all.take(i as int), p@),
        decreases entries.len() - i,
    {
        let ghost before = entries_view(kept@);
        proof {
            assert(all.take(i + 1).drop_last() =~= all.take(i as int));
            assert(all.take(i + 1).last() == (entries@[i as int].cmd@, entries@[i as int].when_run));
        }
        match regex_is_match(p, entries[i].cmd.as_str()) {
            Some(true) => {
                let e = DumpEntry { cmd: entries[i].cmd.clone(), when_run: entries[i].when_run };
                kept.push(e);
                proof {
                    assert(entries_view(kept@) =~= before.push(
                        (entries@[i as int].cmd@, entries@[i as int].when_run),
                    ));
                }
            },
            _ => {},
        }
        i = i + 1;
    }
    proof {
        assert(all.take(i as int) =~= all);
    }
    Ok(Some(kept))
}

} // verus!
