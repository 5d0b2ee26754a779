use crate::text::{char_is_whitespace, chars_of, is_white_space};
use vstd::prelude::*;

verus! {

/// The numbers written in a timestamp, read as `chrono_systemd_time` reads its offsets once
/// white space is taken out: the sum of the numbers already ended, and the number being read.
pub open spec fn number_state(s: Seq<char>) -> (int, int)
    decreases s.len(),
{
    if s.len() == 0 {
        (0, 0)
    } else {
        let (total, current) = number_state(s.drop_last());
        let c = s.last();
        if is_white_space(c) {
            (total, current)
        } else if '0' <= c && c <= '9' {
            (total, current * 10 + (c as int - '0' as int))
        } else {
            (total + current, 0)
        }
    }
}

/// The sum of the numbers written in a timestamp (with white space taken out).
pub open spec fn number_total(s: Seq<char>) -> int {
    number_state(s).0 + number_state(s).1
}

/// The largest sum of numbers a timestamp may hold. A time spelled with numbers summing to
/// at most this, moved by an offset of at most this many years, stays within the years that
/// `chrono` can represent (about 262,000 on each side of the epoch).
pub const MAX_NUMBER_TOTAL: u64 = 130000;

/// Whether the numbers of a timestamp keep it within the range of representable times.
pub open spec fn numbers_in_range(s: Seq<char>) -> bool {
    number_total(s) <= MAX_NUMBER_TOTAL
}

proof fn lemma_number_state_grows(s: Seq<char>)
    ensures
        number_state(s).0 >= 0,
        number_state(s).1 >= 0,
        forall|k: int| 0 <= k <= s.len() ==> #[trigger] number_total(s.take(k)) <= number_total(s),
    decreases s.len(),
{
    if s.len() > 0 {
        let init = s.drop_last();
        lemma_number_state_grows(init);
        assert forall|k: int| 0 <= k <= s.len() implies #[trigger] number_total(s.take(k))
            <= number_total(s) by {
            if k < s.len() {
                assert(s.take(k) =~= init.take(k));
                assert(init.take(init.len() as int) =~= init);
            } else {
                assert(s.take(k) =~= s);
            }
        }
    } else {
        assert forall|k: int| 0 <= k <= s.len() implies #[trigger] number_total(s.take(k))
            <= number_total(s) by {
            assert(s.take(k) =~= s);
        }
    }
}

/// Whether a timestamp's numbers sum to at most `MAX_NUMBER_TOTAL` (see `numbers_in_range`).
pub fn timestamp_numbers_in_range(s: &str) -> (r: bool)
    ensures
        r == numbers_in_range(s@),
{
    let cs = chars_of(s);
    let mut total: u64 = 0;
    let mut current: u64 = 0;
    let mut i: usize = 0;
    proof {
        lemma_number_state_grows(s@);
        assert(s@.take(0) =~= Seq::<char>::empty());
    }
    while i < cs.len()
        invariant
            0 <= i <= cs.len(),
            cs@ == s@,
            (total as int, current as int) == number_state(s@.take(i as int)),
            total + current <= MAX_NUMBER_TOTAL,
            forall|k: int| 0 <= k <= s@.len() ==> #[trigger] number_total(s@.take(k)) <= number_total(
                s@,
            ),
        decreases cs.len() - i,
    {
        let c = cs[i];
        proof {
            assert(s@.take(i + 1).drop_last() =~= s@.take(i as int));
            assert(s@.take(i + 1).last() == c);
        }
        if char_is_whitespace(c) {
        } else if '0' <= c && c <= '9' {
            let d = (c as u32 - '0' as u32) as u64;
            current = current * 10 + d;
        } else {
            total = total + current;
            current = 0;
        }
        i = i + 1;
        assert((total as int, current as int) == number_state(s@.take(i as int)));
        if total + current > MAX_NUMBER_TOTAL {
            assert(number_total(s@.take(i as int)) > MAX_NUMBER_TOTAL);
            return false;
        }
    }
    proof {
        assert(s@.take(i as int) =~= s@);
    }
    true
}

/// Why a `--since` or `--before` timestamp was refused.
#[derive(Debug)]
pub enum TimeError {
    /// Its numbers could carry the time out of the representable range.
    OutOfRange(String),
    /// `chrono_systemd_time` could not read it; the crate's message.
    Invalid(String),
}

/// Reads a systemd.time timestamp in the local time zone with
/// `chrono_systemd_time::parse_timestamp_tz` and takes the latest of its possible times, in
/// seconds since the epoch; the crate's error message when it cannot read the text.
/// Trusted for nothing about the result: it depends on the clock and the time zone of the
/// machine. The call may panic when an offset carries the time out of `chrono`'s range; the
/// crate's source bounds the base time by the numbers written and each offset by number times
/// unit (a year at most), so texts whose numbers sum to at most `MAX_NUMBER_TOTAL` stay in
/// range, and only those are admitted.
#[verifier::external_body]
fn systemd_timestamp(s: &str) -> (r: Result<i64, String>)
    requires
        numbers_in_range(s@),
{
    chrono_systemd_time::parse_timestamp_tz(s, chrono::Local)
        .map(|t| t.latest().timestamp())
        .map_err(|e| e.to_string())
}

/// A bound of the dumped time range from its `--since` or `--before` text: none without a
/// text, else the time it names, or an error when it is out of range or unreadable.
pub fn time_bound(s: Option<&str>) -> (r: Result<Option<i64>, TimeError>)
    ensures
        match s {
            None => r matches Ok(None),
            Some(t) => {
                &&& (r matches Ok(b) ==> b is Some)
                &&& (!numbers_in_range(t@) <==> r matches Err(TimeError::OutOfRange(_)))
                &&& (r matches Err(TimeError::OutOfRange(u)) ==> u@ == t@)
            },
        },
{
    match s {
        None => Ok(None),
        Some(t) => {
            if !timestamp_numbers_in_range(t) {
                return Err(TimeError::OutOfRange(t.to_owned()));
            }
            match systemd_timestamp(t) {
                Ok(v) => Ok(Some(v)),
                Err(msg) => Err(TimeError::Invalid(msg)),
            }
        },
    }
}

} // verus!
