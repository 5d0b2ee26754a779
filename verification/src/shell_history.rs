use crate::number::{
    all_ascii_digits, is_ascii_digit, lemma_decimal, law_parse_reads_decimal, parse_i64, parse_in_range,
};
use crate::pattern::{
    regex_is_match, regex_replace, spec_regex_is_match, spec_regex_is_valid, spec_regex_replace,
};
use crate::settings::HistoryFormat;
use crate::text::{
    chars_of, chars_start_with, has_prefix, join_spec, join_strings, push_i64,
    lemma_split_around, lemma_split_join, lemma_split_single, signed_decimal_spec, split_chars,
    split_spec, string_from_chars, trim, trim_spec, decimal_spec,
};
use vstd::prelude::*;

verus! {

/// Whether a line is a bash timestamp comment: `#` followed by ten ASCII digits.
pub open spec fn leading_timestamp(line: Seq<char>) -> bool {
    &&& line.len() >= 11
    &&& line[0] == '#'
    &&& forall|i: int| 1 <= i < 11 ==> is_ascii_digit(#[trigger] line[i])
}

/// Whether a line starts with `#` and ten ASCII digits (a bash timestamp comment).
pub fn has_leading_timestamp(line: &str) -> (r: bool)
    ensures
        r == leading_timestamp(line@),
{
    let cs = chars_of(line);
    if cs.len() < 11 || cs[0] != '#' {
        return false;
    }
    let mut i: usize = 1;
    while i < 11
        invariant
            1 <= i <= 11 <= cs.len(),
            cs@ == line@,
            forall|j: int| 1 <= j < i ==> is_ascii_digit(#[trigger] cs@[j]),
        decreases 11 - i,
    {
        if !('0' <= cs[i] && cs[i] <= '9') {
            assert(!is_ascii_digit(line@[i as int]));
            return false;
        }
        i = i + 1;
    }
    true
}

/// The pattern of the timestamp and duration that zsh's extended history puts before a command.
pub open spec fn zsh_timestamp_pattern() -> Seq<char> {
    "^: \\d+:\\d+;"@
}

fn zsh_timestamp_pattern_str() -> (r: &'static str)
    ensures
        r@ == zsh_timestamp_pattern(),
{
    "^: \\d+:\\d+;"
}

/// Represents each entry in a history file.
#[derive(Debug)]
pub struct HistoryCommand {
    /// The user's command.
    pub command: String,
    /// When the command was run, in seconds since Unix epoch.
    pub when: i64,
    /// The format of the file, so we can write the record back out.
    pub format: HistoryFormat,
}

/// How an entry is written back to a history file of its format.
pub open spec fn entry_text(command: Seq<char>, when: int, format: HistoryFormat) -> Seq<char> {
    match format {
        HistoryFormat::Bash => command,
        HistoryFormat::Zsh { extended_history } => if extended_history {
            ": "@ + signed_decimal_spec(when) + ":0;"@ + command
        } else {
            command
        },
        HistoryFormat::Fish => "- cmd: "@ + command + "\n  when: "@ + signed_decimal_spec(when)
            + "\n"@,
    }
}

impl HistoryCommand {
    pub fn new(command: &str, when: i64, format: HistoryFormat) -> (r: Self)
        ensures
            r.command@ == command@,
            r.when == when,
            r.format == format,
    {
        Self { command: command.to_owned(), when, format }
    }

    /// A copy of the entry.
    pub fn duplicate(&self) -> (r: Self)
        ensures
            r == *self,
    {
        HistoryCommand { command: self.command.clone(), when: self.when, format: self.format }
    }

    /// The entry as its history file holds it.
    pub fn to_display_string(&self) -> (r: String)
        ensures
            r@ == entry_text(self.command@, self.when as int, self.format),
    {
        let mut s = String::new();
        match self.format {
            HistoryFormat::Bash => {
                s.append(self.command.as_str());
            },
            HistoryFormat::Zsh { extended_history } => {
                if extended_history {
                    s.append(": ");
                    push_i64(&mut s, self.when);
                    s.append(":0;");
                    s.append(self.command.as_str());
                } else {
                    s.append(self.command.as_str());
                }
            },
            HistoryFormat::Fish => {
                s.append("- cmd: ");
                s.append(self.command.as_str());
                s.append("\n  when: ");
                push_i64(&mut s, self.when);
                s.append("\n");
            },
        }
        proof {
            assert(s@ =~= entry_text(self.command@, self.when as int, self.format));
        }
        s
    }
}

/// Why a history file could not be read.
#[derive(Debug)]
pub enum HistoryError {
    /// A pattern (the zsh timestamp pattern, or one given to filter a dump) does not compile.
    InvalidPattern,
    /// A fish `when:` value that is not an `i64`.
    InvalidWhen(String),
    /// A fish `when:` line with no `cmd:` line before it.
    WhenWithoutCmd(i64),
}

/// Whether a bash or zsh history line is kept as a command: not empty and not a timestamp.
pub open spec fn kept_line(line: Seq<char>) -> bool {
    !leading_timestamp(line) && line.len() > 0
}

/// The kept lines, in order.
pub open spec fn kept_lines(ls: Seq<Seq<char>>) -> Seq<Seq<char>>
    decreases ls.len(),
{
    if ls.len() == 0 {
        ls
    } else if kept_line(ls.last()) {
        kept_lines(ls.drop_last()).push(ls.last())
    } else {
        kept_lines(ls.drop_last())
    }
}

/// The command lines of a bash or zsh history file.
pub open spec fn shell_lines(contents: Seq<char>) -> Seq<Seq<char>> {
    kept_lines(split_spec(contents, '\n'))
}

/// A command line without the zsh timestamp that may start it.
pub open spec fn without_zsh_timestamp(line: Seq<char>) -> Seq<char> {
    spec_regex_replace(zsh_timestamp_pattern(), line, ""@)
}

/// What fish history parsing stopped on.
pub ghost enum FishFailure {
    BadWhen(Seq<char>),
    Orphan(int),
}

/// Where fish history parsing stands: the pending `cmd:` and the entries so far.
pub ghost struct FishState {
    pub cmd: Option<Seq<char>>,
    pub entries: Seq<(Seq<char>, int)>,
}

/// Reads one line of a fish history file.
pub open spec fn fish_step(st: FishState, line: Seq<char>) -> Result<FishState, FishFailure> {
    if has_prefix(line, "- cmd: "@) {
        Ok(FishState { cmd: Some(line.skip(7)), ..st })
    } else if has_prefix(line, "  when: "@) {
        let ws = line.skip(8);
        match parse_in_range(ws, true, i64::MIN as int, i64::MAX as int) {
            None => Err(FishFailure::BadWhen(ws)),
            Some(w) => match st.cmd {
                None => Err(FishFailure::Orphan(w)),
                Some(c) => Ok(FishState { cmd: None, entries: st.entries.push((c, w)) }),
            },
        }
    } else {
        Ok(st)
    }
}

pub open spec fn fish_prefix(lines: Seq<Seq<char>>, i: nat) -> Result<FishState, FishFailure>
    decreases i,
{
    if i == 0 {
        Ok(FishState { cmd: None, entries: Seq::empty() })
    } else {
        match fish_prefix(lines, (i - 1) as nat) {
            Err(e) => Err(e),
            Ok(st) => fish_step(st, lines[i - 1]),
        }
    }
}

/// The entries (command, time) of a fish history file.
pub open spec fn fish_entries(contents: Seq<char>) -> Result<Seq<(Seq<char>, int)>, FishFailure> {
    let lines = split_spec(contents, '\n');
    match fish_prefix(lines, lines.len()) {
        Ok(st) => Ok(st.entries),
        Err(e) => Err(e),
    }
}

/// Whether `v` holds exactly the entries `es`, all in `format`.
pub open spec fn holds_entries(
    v: Seq<HistoryCommand>,
    es: Seq<(Seq<char>, int)>,
    format: HistoryFormat,
) -> bool {
    &&& v.len() == es.len()
    &&& forall|i: int|
        0 <= i < v.len() ==> {
            &&& (#[trigger] v[i]).command@ == es[i].0
            &&& v[i].when == es[i].1
            &&& v[i].format == format
        }
}

/// The entries (command, time) of a bash or zsh history file, all dated `now`.
pub open spec fn shell_entries(contents: Seq<char>, now: int) -> Seq<(Seq<char>, int)> {
    shell_lines(contents).map_values(|l: Seq<char>| (without_zsh_timestamp(l), now))
}

/// What `full_history` gives for the contents of a history file.
pub open spec fn full_history_result(
    r: Result<Vec<HistoryCommand>, HistoryError>,
    contents: Seq<char>,
    format: HistoryFormat,
    now: int,
) -> bool {
    match format {
        HistoryFormat::Fish => match fish_entries(contents) {
            Ok(es) => r matches Ok(v) && holds_entries(v@, es, format),
            Err(FishFailure::BadWhen(ws)) => r matches Err(HistoryError::InvalidWhen(s)) && s@
                == ws,
            Err(FishFailure::Orphan(w)) => r matches Err(HistoryError::WhenWithoutCmd(x)) && x
                == w,
        },
        _ => if spec_regex_is_valid(zsh_timestamp_pattern()) {
            r matches Ok(v) && holds_entries(v@, shell_entries(contents, now), format)
        } else {
            r matches Err(HistoryError::InvalidPattern)
        },
    }
}

proof fn lemma_fish_error_stays(lines: Seq<Seq<char>>, i: nat, j: nat)
    requires
        i <= j,
        fish_prefix(lines, i) is Err,
    ensures
        fish_prefix(lines, j) == fish_prefix(lines, i),
    decreases j - i,
{
    if i < j {
        lemma_fish_error_stays(lines, i, (j - 1) as nat);
    }
}

fn fish_history(lines: &Vec<Vec<char>>, format: HistoryFormat) -> (r: Result<
    Vec<HistoryCommand>,
    HistoryError,
>)
    ensures
        ({
            let ls = lines@.map_values(|l: Vec<char>| l@);
            match fish_prefix(ls, ls.len()) {
                Ok(st) => r matches Ok(v) && holds_entries(v@, st.entries, format),
                Err(FishFailure::BadWhen(ws)) => r matches Err(HistoryError::InvalidWhen(s))
                    && s@ == ws,
                Err(FishFailure::Orphan(w)) => r matches Err(HistoryError::WhenWithoutCmd(x))
                    && x == w,
            }
        }),
{
    let ghost ls = lines@.map_values(|l: Vec<char>| l@);
    let cmd_prefix = chars_of("- cmd: ");
    let when_prefix = chars_of("  when: ");
    proof {
        reveal_strlit("- cmd: ");
        reveal_strlit("  when: ");
    }
    let mut commands: Vec<HistoryCommand> = Vec::new();
    let mut command: Option<Vec<char>> = None;
    let mut i: usize = 0;
    while i < lines.len()
        invariant
            0 <= i <= lines.len(),
            ls == lines@.map_values(|l: Vec<char>| l@),
            cmd_prefix@ == "- cmd: "@,
            when_prefix@ == "  when: "@,
            cmd_prefix@.len() == 7,
            when_prefix@.len() == 8,
            fish_prefix(ls, i as nat) matches Ok(st) && holds_entries(
                commands@,
                st.entries,
                format,
            ) && st.cmd == (match command {
                Some(c) => Some(c@),
                None => None::<Seq<char>>,
            }),
        decreases lines.len() - i,
    {
        let line = &lines[i];
        assert(ls[i as int] == line@);
        let ghost st = fish_prefix(ls, i as nat)->Ok_0;
        if chars_start_with(line, &cmd_prefix) {
            let mut c: Vec<char> = Vec::new();
            let mut k: usize = 7;
            while k < line.len()
                invariant
                    7 <= k <= line.len(),
                    c@ == line@.subrange(7, k as int),
                decreases line.len() - k,
            {
                c.push(line[k]);
                proof {
                    assert(line@.subrange(7, k as int).push(line@[k as int]) =~= line@.subrange(
                        7,
                        k + 1,
                    ));
                }
                k = k + 1;
            }
            assert(c@ =~= line@.skip(7));
            command = Some(c);
        } else if chars_start_with(line, &when_prefix) {
            let mut w: Vec<char> = Vec::new();
            let mut k: usize = 8;
            while k < line.len()
                invariant
                    8 <= k <= line.len(),
                    w@ == line@.subrange(8, k as int),
                decreases line.len() - k,
            {
                w.push(line[k]);
                proof {
                    assert(line@.subrange(8, k as int).push(line@[k as int]) =~= line@.subrange(
                        8,
                        k + 1,
                    ));
                }
                k = k + 1;
            }
            assert(w@ =~= line@.skip(8));
            let when_str = string_from_chars(&w);
            match parse_i64(when_str.as_str()) {
                None => {
                    proof {
                        lemma_fish_error_stays(ls, (i + 1) as nat, ls.len());
                    }
                    return Err(HistoryError::InvalidWhen(when_str));
                },
                Some(when) => {
                    match command {
                        None => {
                            proof {
                                lemma_fish_error_stays(ls, (i + 1) as nat, ls.len());
                            }
                            return Err(HistoryError::WhenWithoutCmd(when));
                        },
                        Some(c) => {
                            let text = string_from_chars(&c);
                            let ghost before = commands@;
                            commands.push(HistoryCommand { command: text, when, format });
                            command = None;
                            proof {
                                let es = fish_prefix(ls, (i + 1) as nat)->Ok_0.entries;
                                assert(es == st.entries.push((c@, when as int)));
                                assert forall|j: int| 0 <= j < commands@.len() implies {
                                    &&& (#[trigger] commands@[j]).command@ == es[j].0
                                    &&& commands@[j].when == es[j].1
                                    &&& commands@[j].format == format
                                } by {
                                    if j < before.len() {
                                        assert(commands@[j] == before[j]);
                                    }
                                }
                            }
                        },
                    }
                },
            }
        }
        i = i + 1;
    }
    Ok(commands)
}

/// The commands of a history file whose text is `contents`. Bash and zsh entries are dated
/// `now` and lose a leading zsh timestamp; fish entries carry their own `when:`.
pub fn full_history(contents: &str, history_format: HistoryFormat, now: i64) -> (r: Result<
    Vec<HistoryCommand>,
    HistoryError,
>)
    ensures
        full_history_result(r, contents@, history_format, now as int),
{
    let cs = chars_of(contents);
    let lines = split_chars(&cs, '\n');
    let ghost ls = lines@.map_values(|l: Vec<char>| l@);
    match history_format {
        HistoryFormat::Fish => {
            return fish_history(&lines, history_format);
        },
        _ => {},
    }
    let pattern = zsh_timestamp_pattern_str();
    if regex_is_match(pattern, "").is_none() {
        return Err(HistoryError::InvalidPattern);
    }
    let mut commands: Vec<HistoryCommand> = Vec::new();
    let mut i: usize = 0;
    while i < lines.len()
        invariant
            0 <= i <= lines.len(),
            ls == lines@.map_values(|l: Vec<char>| l@),
            ls == split_spec(contents@, '\n'),
            pattern@ == zsh_timestamp_pattern(),
            spec_regex_is_valid(zsh_timestamp_pattern()),
            holds_entries(
                commands@,
                kept_lines(ls.take(i as int)).map_values(
                    |l: Seq<char>| (without_zsh_timestamp(l), now as int),
                ),
                history_format,
            ),
        decreases lines.len() - i,
    {
        let line = string_from_chars(&lines[i]);
        let ghost prev = kept_lines(ls.take(i as int));
        proof {
            assert(ls.take(i + 1).drop_last() =~= ls.take(i as int));
            assert(ls.take(i + 1).last() == line@);
        }
        if !has_leading_timestamp(line.as_str()) && lines[i].len() > 0 {
            let stripped = match regex_replace(pattern, line.as_str(), "") {
                Some(s) => s,
                None => {
                    return Err(HistoryError::InvalidPattern);
                },
            };
            let ghost before = commands@;
            commands.push(HistoryCommand { command: stripped, when: now, format: history_format });
            proof {
                let es = kept_lines(ls.take(i + 1)).map_values(
                    |l: Seq<char>| (without_zsh_timestamp(l), now as int),
                );
                assert(kept_lines(ls.take(i + 1)) == prev.push(line@));
                assert forall|j: int| 0 <= j < commands@.len() implies {
                    &&& (#[trigger] commands@[j]).command@ == es[j].0
                    &&& commands@[j].when == es[j].1
                    &&& commands@[j].format == history_format
                } by {
                    if j < before.len() {
                        assert(commands@[j] == before[j]);
                    }
                }
            }
        }
        i = i + 1;
    }
    proof {
        assert(ls.take(i as int) =~= ls);
    }
    Ok(commands)
}

/// The last command of a history file, trimmed of white space.
pub fn last_history_line(contents: &str, history_format: HistoryFormat, now: i64) -> (r: Result<
    Option<String>,
    HistoryError,
>)
    ensures
        ({
            let full = full_history_last(contents@, history_format, now as int);
            match full {
                Ok(last) => r matches Ok(o) && match last {
                    Some(c) => o matches Some(s) && s@ == trim_spec(c),
                    None => o is None,
                },
                Err(_) => r is Err,
            }
        }),
{
    let commands = full_history(contents, history_format, now)?;
    if commands.len() == 0 {
        Ok(None)
    } else {
        Ok(Some(trim(commands[commands.len() - 1].command.as_str())))
    }
}

/// The last command that `full_history` reads from `contents` (`Err` if it fails).
pub open spec fn full_history_last(contents: Seq<char>, format: HistoryFormat, now: int) -> Result<
    Option<Seq<char>>,
    (),
> {
    match format {
        HistoryFormat::Fish => match fish_entries(contents) {
            Ok(es) => Ok(
                if es.len() == 0 {
                    None
                } else {
                    Some(es.last().0)
                },
            ),
            Err(_) => Err(()),
        },
        _ => if spec_regex_is_valid(zsh_timestamp_pattern()) {
            let es = shell_entries(contents, now);
            Ok(
                if es.len() == 0 {
                    None
                } else {
                    Some(es.last().0)
                },
            )
        } else {
            Err(())
        },
    }
}

/// What `String::from_utf8_lossy` makes of some bytes.
pub uninterp spec fn spec_utf8_lossy(bytes: Seq<u8>) -> Seq<char>;

/// Decodes bytes as UTF-8 with `String::from_utf8_lossy`. Trusted: the result is
/// `spec_utf8_lossy(bytes)`, a function of the bytes alone; nothing more is stated of it.
#[verifier::external_body]
fn utf8_lossy(bytes: &[u8]) -> (r: String)
    ensures
        r@ == spec_utf8_lossy(bytes@),
{
    String::from_utf8_lossy(bytes).to_string()
}

/// zsh marks a byte that it stored XOR 32 by putting the meta byte 0x83 before it. The bytes
/// are taken from the last to the first: a meta byte is dropped and the byte now after it is
/// flipped back.
pub open spec fn unmetafy_spec(b: Seq<u8>) -> Seq<u8>
    decreases b.len(),
{
    if b.len() == 0 {
        b
    } else {
        let rest = unmetafy_spec(b.drop_first());
        if b[0] == 0x83u8 {
            if rest.len() > 0 {
                rest.update(0, rest[0] ^ 32u8)
            } else {
                rest
            }
        } else {
            seq![b[0]] + rest
        }
    }
}

proof fn lemma_unmetafy_nonempty(b: Seq<u8>)
    requires
        b.len() > 0,
        b.last() != 0x83u8,
    ensures
        unmetafy_spec(b).len() > 0,
    decreases b.len(),
{
    if b.len() > 1 {
        lemma_unmetafy_nonempty(b.drop_first());
    }
}

/// Undoes zsh's metafication of a history file's bytes.
pub fn unmetafy(bytes: &Vec<u8>) -> (r: Vec<u8>)
    requires
        bytes.len() == 0 || bytes@.last() != 0x83u8,
    ensures
        r@ == unmetafy_spec(bytes@),
{
    let ghost b = bytes@;
    let mut rev: Vec<u8> = Vec::new();
    let mut i: usize = bytes.len();
    assert(b.skip(i as int) =~= Seq::<u8>::empty());
    while i > 0
        invariant
            0 <= i <= bytes.len(),
            b == bytes@,
            b.len() == 0 || b.last() != 0x83u8,
            rev@ == unmetafy_spec(b.skip(i as int)).reverse(),
        decreases i,
    {
        let k = i - 1;
        let ghost u = unmetafy_spec(b.skip(i as int));
        proof {
            assert(b.skip(k as int).drop_first() =~= b.skip(i as int));
            assert(b.skip(k as int)[0] == b[k as int]);
        }
        if bytes[k] == 0x83u8 {
            proof {
                if i == bytes.len() {
                    assert(b.last() == b[k as int]);
                }
                assert(b.skip(i as int).last() == b.last());
                lemma_unmetafy_nonempty(b.skip(i as int));
            }
            let last = rev.len() - 1;
            let v = rev[last] ^ 32u8;
            rev.set(last, v);
            proof {
                assert(rev@ =~= u.update(0, u[0] ^ 32u8).reverse());
            }
        } else {
            rev.push(bytes[k]);
            proof {
                assert(rev@ =~= (seq![b[k as int]] + u).reverse());
            }
        }
        i = k;
    }
    assert(b.skip(0) =~= b);
    let mut out: Vec<u8> = Vec::new();
    let mut j: usize = rev.len();
    while j > 0
        invariant
            0 <= j <= rev.len(),
            out@ == rev@.skip(j as int).reverse(),
        decreases j,
    {
        j = j - 1;
        out.push(rev[j]);
        proof {
            assert(out@ =~= rev@.skip(j as int).reverse());
        }
    }
    proof {
        assert(rev@.skip(0) =~= rev@);
        assert(rev@.reverse().reverse() =~= rev@);
        assert(out@ =~= unmetafy_spec(b));
    }
    out
}

/// The text of a history file read as `bytes`: zsh files are unmetafied first, then the
/// bytes are decoded as UTF-8 with invalid sequences replaced.
pub fn decode_history_bytes(bytes: &Vec<u8>, history_format: HistoryFormat) -> (r: String)
    requires
        history_format is Zsh ==> bytes.len() == 0 || bytes@.last() != 0x83u8,
    ensures
        r@ == (match history_format {
            HistoryFormat::Zsh { .. } => spec_utf8_lossy(unmetafy_spec(bytes@)),
            _ => spec_utf8_lossy(bytes@),
        }),
{
    match history_format {
        HistoryFormat::Zsh { .. } => {
            let plain = unmetafy(bytes);
            utf8_lossy(plain.as_slice())
        },
        _ => utf8_lossy(bytes.as_slice()),
    }
}

/// The lines of a history file written from entries.
pub open spec fn entry_lines(cs: Seq<HistoryCommand>) -> Seq<Seq<char>> {
    cs.map_values(|c: HistoryCommand| entry_text(c.command@, c.when as int, c.format))
}

/// The text of a history file holding the entries, one per line, ending with a newline.
pub open spec fn history_file_text_spec(cs: Seq<HistoryCommand>) -> Seq<char> {
    join_spec(entry_lines(cs).push(Seq::empty()), seq!['\n'])
}

/// The text of a history file that holds `commands`.
pub fn history_file_text(commands: &Vec<HistoryCommand>) -> (r: String)
    ensures
        r@ == history_file_text_spec(commands@),
{
    let mut lines: Vec<String> = Vec::new();
    let mut i: usize = 0;
    while i < commands.len()
        invariant
            0 <= i <= commands.len(),
            lines@.map_values(|l: String| l@) == entry_lines(commands@.take(i as int)),
        decreases commands.len() - i,
    {
        let line = commands[i].to_display_string();
        let ghost before = lines@.map_values(|l: String| l@);
        lines.push(line);
        proof {
            let t = commands@.take(i + 1);
            assert(t =~= commands@.take(i as int).push(commands@[i as int]));
            assert(entry_lines(t) =~= entry_lines(commands@.take(i as int)).push(
                entry_text(
                    commands@[i as int].command@,
                    commands@[i as int].when as int,
                    commands@[i as int].format,
                ),
            ));
            assert(lines@.map_values(|l: String| l@) =~= before.push(lines@[i as int]@));
        }
        i = i + 1;
    }
    let ghost before = lines@.map_values(|l: String| l@);
    lines.push(String::new());
    proof {
        assert(commands@.take(i as int) =~= commands@);
        assert(lines@.map_values(|l: String| l@) =~= before.push(Seq::empty()));
    }
    join_strings(&lines, '\n')
}

/// The pattern of a line that records a search: `#mcfly:`, maybe after a zsh timestamp.
pub open spec fn search_entry_pattern() -> Seq<char> {
    "^(: \\d+:\\d+;)?#mcfly:"@
}

/// `cs` without a last entry whose command is empty.
pub open spec fn without_empty_last(cs: Seq<HistoryCommand>) -> Seq<HistoryCommand> {
    if cs.len() > 0 && cs.last().command@.len() == 0 {
        cs.drop_last()
    } else {
        cs
    }
}

/// `cs` without a last entry that is a bash timestamp.
pub open spec fn without_timestamp_last(cs: Seq<HistoryCommand>) -> Seq<HistoryCommand> {
    if cs.len() > 0 && leading_timestamp(cs.last().command@) {
        cs.drop_last()
    } else {
        cs
    }
}

/// When the last entry (after dropping an empty one) records a search, returns the entries
/// without it (and without a timestamp just before it) together with the entry removed;
/// `None` when there is nothing to remove.
pub fn without_last_search_entry(commands: Vec<HistoryCommand>) -> (r: Result<
    Option<(Vec<HistoryCommand>, HistoryCommand)>,
    HistoryError,
>)
    ensures
        ({
            let c1 = without_empty_last(commands@);
            if !spec_regex_is_valid(search_entry_pattern()) {
                r matches Err(HistoryError::InvalidPattern)
            } else if c1.len() == 0 || !spec_regex_is_match(
                search_entry_pattern(),
                c1.last().command@,
            ) {
                r matches Ok(None)
            } else {
                r matches Ok(Some((v, removed))) && removed == c1.last() && v@
                    == without_timestamp_last(c1.drop_last())
            }
        }),
{
    let mut commands = commands;
    if commands.len() > 0 && commands[commands.len() - 1].command.as_str().is_empty() {
        commands.pop();
    }
    let pattern = "^(: \\d+:\\d+;)?#mcfly:";
    if regex_is_match(pattern, "").is_none() {
        return Err(HistoryError::InvalidPattern);
    }
    if commands.len() == 0 {
        return Ok(None);
    }
    let matched = match regex_is_match(pattern, commands[commands.len() - 1].command.as_str()) {
        Some(b) => b,
        None => {
            return Err(HistoryError::InvalidPattern);
        },
    };
    if !matched {
        return Ok(None);
    }
    let removed = commands.pop().unwrap();
    if commands.len() > 0 && has_leading_timestamp(
        commands[commands.len() - 1].command.as_str(),
    ) {
        commands.pop();
    }
    Ok(Some((commands, removed)))
}

/// The entries whose command, without a zsh timestamp, differs from `command`.
pub open spec fn entries_without(cs: Seq<HistoryCommand>, command: Seq<char>) -> Seq<
    HistoryCommand,
>
    decreases cs.len(),
{
    if cs.len() == 0 {
        cs
    } else if without_zsh_timestamp(cs.last().command@) == command {
        entries_without(cs.drop_last(), command)
    } else {
        entries_without(cs.drop_last(), command).push(cs.last())
    }
}

/// Deleting a command from a history file leaves no entry of it (compared without a zsh
/// timestamp), and keeps every other entry: each kept entry was in the file, and each entry
/// of another command is kept.
pub proof fn law_deleted_entries_are_gone(cs: Seq<HistoryCommand>, command: Seq<char>)
    ensures
        forall|i: int|
            0 <= i < entries_without(cs, command).len() ==> without_zsh_timestamp(
                (#[trigger] entries_without(cs, command)[i]).command@,
            ) != command && cs.contains(entries_without(cs, command)[i]),
        forall|j: int|
            0 <= j < cs.len() && without_zsh_timestamp((#[trigger] cs[j]).command@) != command
                ==> entries_without(cs, command).contains(cs[j]),
    decreases cs.len(),
{
    if cs.len() > 0 {
        let rest = cs.drop_last();
        law_deleted_entries_are_gone(rest, command);
        let kept = entries_without(cs, command);
        let kept_rest = entries_without(rest, command);
        assert forall|i: int| 0 <= i < kept.len() implies without_zsh_timestamp(
            (#[trigger] kept[i]).command@,
        ) != command && cs.contains(kept[i]) by {
            if i < kept_rest.len() {
                assert(kept[i] == kept_rest[i]);
                let k = choose|k: int| 0 <= k < rest.len() && rest[k] == kept_rest[i];
                assert(cs[k] == rest[k]);
            } else {
                assert(kept[i] == cs.last());
                assert(cs[cs.len() - 1] == cs.last());
            }
        }
        assert forall|j: int|
            0 <= j < cs.len() && without_zsh_timestamp((#[trigger] cs[j]).command@)
                != command implies kept.contains(cs[j]) by {
            if j < cs.len() - 1 {
                assert(rest[j] == cs[j]);
                let k = choose|k: int| 0 <= k < kept_rest.len() && kept_rest[k] == rest[j];
                assert(kept[k] == kept_rest[k]);
            } else {
                assert(cs[j] == cs.last());
                assert(kept[kept.len() - 1] == cs.last());
            }
        }
    }
}

/// The text of the history file with every entry of `command` deleted.
pub fn delete_lines(commands: Vec<HistoryCommand>, command: &str) -> (r: Result<
    String,
    HistoryError,
>)
    ensures
        if spec_regex_is_valid(zsh_timestamp_pattern()) {
            r matches Ok(s) && s@ == history_file_text_spec(entries_without(commands@, command@))
        } else {
            r matches Err(HistoryError::InvalidPattern)
        },
{
    let pattern = zsh_timestamp_pattern_str();
    if regex_is_match(pattern, "").is_none() {
        return Err(HistoryError::InvalidPattern);
    }
    let ghost all = commands@;
    let mut kept: Vec<HistoryCommand> = Vec::new();
    let n = commands.len();
    let mut taken: usize = 0;
    proof {
        assert(all.take(0) =~= Seq::<HistoryCommand>::empty());
    }
    while taken < n
        invariant
            0 <= taken <= n,
            n == all.len(),
            all == commands@,
            pattern@ == zsh_timestamp_pattern(),
            spec_regex_is_valid(zsh_timestamp_pattern()),
            kept@ == entries_without(all.take(taken as int), command@),
        decreases n - taken,
    {
        let c = &commands[taken];
        proof {
            assert(all.take(taken + 1).drop_last() =~= all.take(taken as int));
            assert(all.take(taken + 1).last() == *c);
        }
        let stripped = match regex_replace(pattern, c.command.as_str(), "") {
            Some(s) => s,
            None => {
                return Err(HistoryError::InvalidPattern);
            },
        };
        if !crate::text::str_eq(command, stripped.as_str()) {
            kept.push(c.duplicate());
        }
        taken = taken + 1;
    }
    proof {
        assert(all.take(taken as int) =~= all);
    }
    Ok(history_file_text(&kept))
}

/// Every line kept from a bash or zsh history file is non-empty and not a timestamp.
pub proof fn law_kept_lines_are_commands(ls: Seq<Seq<char>>)
    ensures
        forall|i: int| 0 <= i < kept_lines(ls).len() ==> kept_line(#[trigger] kept_lines(ls)[i]),
    decreases ls.len(),
{
    if ls.len() > 0 {
        law_kept_lines_are_commands(ls.drop_last());
        let r = kept_lines(ls);
        let p = kept_lines(ls.drop_last());
        assert forall|i: int| 0 <= i < r.len() implies kept_line(#[trigger] r[i]) by {
            if i < p.len() {
                assert(r[i] == p[i]);
            }
        }
    }
}

/// Fish history parsing as a fold over the lines.
pub open spec fn fish_fold(lines: Seq<Seq<char>>) -> Result<FishState, FishFailure>
    decreases lines.len(),
{
    if lines.len() == 0 {
        Ok(FishState { cmd: None, entries: Seq::empty() })
    } else {
        match fish_fold(lines.drop_last()) {
            Err(e) => Err(e),
            Ok(st) => fish_step(st, lines.last()),
        }
    }
}

proof fn lemma_fish_prefix_fold(ls: Seq<Seq<char>>, i: nat)
    requires
        i <= ls.len(),
    ensures
        fish_prefix(ls, i) == fish_fold(ls.take(i as int)),
    decreases i,
{
    if i > 0 {
        lemma_fish_prefix_fold(ls, (i - 1) as nat);
        assert(ls.take(i as int).drop_last() =~= ls.take(i - 1));
        assert(ls.take(i as int).last() == ls[i - 1]);
    } else {
        assert(ls.take(0) =~= Seq::<Seq<char>>::empty());
    }
}

/// Entries that a fish history file can hold: fish entries whose command is on one line.
pub open spec fn fish_writable(es: Seq<HistoryCommand>) -> bool {
    forall|i: int|
        0 <= i < es.len() ==> (#[trigger] es[i]).format == HistoryFormat::Fish && !es[i].command@.contains(
            '\n',
        )
}

/// The (command, time) pairs of entries.
pub open spec fn entry_pairs(es: Seq<HistoryCommand>) -> Seq<(Seq<char>, int)> {
    es.map_values(|c: HistoryCommand| (c.command@, c.when as int))
}

proof fn lemma_no_newline_concat(a: Seq<char>, b: Seq<char>)
    requires
        !a.contains('\n'),
        !b.contains('\n'),
    ensures
        !(a + b).contains('\n'),
{
    if (a + b).contains('\n') {
        let i = choose|i: int| 0 <= i < (a + b).len() && (a + b)[i] == '\n';
        if i < a.len() {
            assert(a[i] == '\n');
        } else {
            assert(b[i - a.len()] == '\n');
        }
    }
}

proof fn lemma_decimal_one_line(n: int)
    ensures
        !signed_decimal_spec(n).contains('\n'),
{
    let d = decimal_spec(if n < 0 {
        (-n) as nat
    } else {
        n as nat
    });
    lemma_decimal(
        if n < 0 {
            (-n) as nat
        } else {
            n as nat
        },
    );
    if d.contains('\n') {
        let i = choose|i: int| 0 <= i < d.len() && d[i] == '\n';
        assert(is_ascii_digit(d[i]));
    }
    if n < 0 {
        assert(!seq!['-'].contains('\n')) by {
            if seq!['-'].contains('\n') {
                let i = choose|i: int| 0 <= i < 1 && seq!['-'][i] == '\n';
            }
        }
        lemma_no_newline_concat(seq!['-'], d);
    }
}

/// The lines of a written fish entry.
proof fn lemma_fish_entry_lines(c: Seq<char>, w: int)
    requires
        !c.contains('\n'),
    ensures
        split_spec(entry_text(c, w, HistoryFormat::Fish), '\n') == seq![
            "- cmd: "@ + c,
            "  when: "@ + signed_decimal_spec(w),
            Seq::<char>::empty(),
        ],
{
    reveal_strlit("- cmd: ");
    reveal_strlit("\n  when: ");
    reveal_strlit("  when: ");
    reveal_strlit("\n");
    let a = "- cmd: "@ + c;
    let b = "  when: "@ + signed_decimal_spec(w);
    let e = Seq::<char>::empty();
    assert(entry_text(c, w, HistoryFormat::Fish) =~= a.push('\n') + (b.push('\n') + e));
    assert(!"- cmd: "@.contains('\n')) by {
        if "- cmd: "@.contains('\n') {
            let i = choose|i: int| 0 <= i < 7 && "- cmd: "@[i] == '\n';
        }
    }
    assert(!"  when: "@.contains('\n')) by {
        if "  when: "@.contains('\n') {
            let i = choose|i: int| 0 <= i < 8 && "  when: "@[i] == '\n';
        }
    }
    lemma_no_newline_concat("- cmd: "@, c);
    lemma_decimal_one_line(w);
    lemma_no_newline_concat("  when: "@, signed_decimal_spec(w));
    lemma_split_around(a, b.push('\n') + e, '\n');
    lemma_split_around(b, e, '\n');
    lemma_split_single(a, '\n');
    lemma_split_single(b, '\n');
    lemma_split_single(e, '\n');
    assert(seq![a] + (seq![b] + seq![e]) =~= seq![a, b, e]);
}

/// Reading the lines of one written fish entry adds the entry.
proof fn lemma_fish_read_entry(g: Seq<Seq<char>>, es: Seq<(Seq<char>, int)>, c: Seq<char>, w: int)
    requires
        fish_fold(g) == Ok::<FishState, FishFailure>(FishState { cmd: None, entries: es }),
        i64::MIN <= w <= i64::MAX,
    ensures
        fish_fold(
            g + seq!["- cmd: "@ + c, "  when: "@ + signed_decimal_spec(w), Seq::<char>::empty()],
        ) == Ok::<FishState, FishFailure>(FishState { cmd: None, entries: es.push((c, w)) }),
{
    reveal_strlit("- cmd: ");
    reveal_strlit("  when: ");
    let a = "- cmd: "@ + c;
    let b = "  when: "@ + signed_decimal_spec(w);
    let e = Seq::<char>::empty();
    let g1 = g.push(a);
    let g2 = g1.push(b);
    let g3 = g2.push(e);
    assert(g + seq![a, b, e] =~= g3);
    assert(g1.drop_last() =~= g);
    assert(g2.drop_last() =~= g1);
    assert(g3.drop_last() =~= g2);
    assert(a.take(7) =~= "- cmd: "@);
    assert(a.skip(7) =~= c);
    assert(fish_fold(g1) == Ok::<FishState, FishFailure>(FishState { cmd: Some(c), entries: es }));
    assert(!has_prefix(b, "- cmd: "@)) by {
        if has_prefix(b, "- cmd: "@) {
            assert(b[0] == "- cmd: "@[0]);
        }
    }
    assert(b.take(8) =~= "  when: "@);
    assert(b.skip(8) =~= signed_decimal_spec(w));
    law_parse_reads_decimal(w);
    assert(fish_fold(g2) == Ok::<FishState, FishFailure>(
        FishState { cmd: None, entries: es.push((c, w)) },
    ));
    assert(!has_prefix(e, "- cmd: "@));
    assert(!has_prefix(e, "  when: "@));
}

proof fn lemma_fish_read_all(es: Seq<HistoryCommand>, k: nat)
    requires
        fish_writable(es),
        k <= es.len(),
    ensures
        fish_fold(
            entry_lines(es.take(k as int)).map_values(|p: Seq<char>| split_spec(p, '\n')).flatten(),
        ) == Ok::<FishState, FishFailure>(
            FishState { cmd: None, entries: entry_pairs(es).take(k as int) },
        ),
    decreases k,
{
    let f = |p: Seq<char>| split_spec(p, '\n');
    if k == 0 {
        assert(entry_lines(es.take(0)).map_values(f) =~= Seq::<Seq<Seq<char>>>::empty());
        assert(entry_pairs(es).take(0) =~= Seq::<(Seq<char>, int)>::empty());
    } else {
        let j = (k - 1) as int;
        lemma_fish_read_all(es, (k - 1) as nat);
        let x = es[j];
        assert(fish_writable(es));
        assert(x.format == HistoryFormat::Fish && !x.command@.contains('\n'));
        let prev = entry_lines(es.take(j)).map_values(f);
        assert(entry_lines(es.take(k as int)).map_values(f) =~= prev.push(
            split_spec(entry_text(x.command@, x.when as int, x.format), '\n'),
        ));
        prev.lemma_flatten_push(split_spec(entry_text(x.command@, x.when as int, x.format), '\n'));
        lemma_fish_entry_lines(x.command@, x.when as int);
        lemma_fish_read_entry(prev.flatten(), entry_pairs(es).take(j), x.command@, x.when as int);
        assert(entry_pairs(es).take(j).push((x.command@, x.when as int)) =~= entry_pairs(es).take(
            k as int,
        ));
    }
}

/// A fish history file written from entries whose commands are on one line reads back as
/// the same entries (commands and times).
pub proof fn law_fish_history_round_trip(es: Seq<HistoryCommand>)
    requires
        fish_writable(es),
    ensures
        fish_entries(history_file_text_spec(es)) == Ok::<Seq<(Seq<char>, int)>, FishFailure>(
            entry_pairs(es),
        ),
{
    let f = |p: Seq<char>| split_spec(p, '\n');
    let ls = entry_lines(es).push(Seq::<char>::empty());
    lemma_split_join(ls, '\n');
    let lines = split_spec(history_file_text_spec(es), '\n');
    assert(ls.map_values(f) =~= entry_lines(es).map_values(f).push(split_spec(Seq::empty(), '\n')));
    entry_lines(es).map_values(f).lemma_flatten_push(split_spec(Seq::<char>::empty(), '\n'));
    lemma_split_single(Seq::<char>::empty(), '\n');
    assert(es.take(es.len() as int) =~= es);
    assert(entry_pairs(es).take(es.len() as int) =~= entry_pairs(es));
    lemma_fish_read_all(es, es.len());
    let g = entry_lines(es).map_values(f).flatten();
    assert(lines =~= g.push(Seq::<char>::empty()));
    assert(lines.drop_last() =~= g);
    assert(!has_prefix(Seq::<char>::empty(), "- cmd: "@)) by {
        reveal_strlit("- cmd: ");
    }
    assert(!has_prefix(Seq::<char>::empty(), "  when: "@)) by {
        reveal_strlit("  when: ");
    }
    lemma_fish_prefix_fold(lines, lines.len());
    assert(lines.take(lines.len() as int) =~= lines);
}

} // verus!
