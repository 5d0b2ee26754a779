use crate::text::{chars_of, decimal_spec, digit_char_spec, signed_decimal_spec};
use vstd::prelude::*;

verus! {

pub open spec fn is_ascii_digit(c: char) -> bool {
    '0' <= c && c <= '9'
}

pub open spec fn all_ascii_digits(ds: Seq<char>) -> bool {
    forall|i: int| 0 <= i < ds.len() ==> is_ascii_digit(#[trigger] ds[i])
}

/// The number written by the decimal digits `ds`.
pub open spec fn digits_value(ds: Seq<char>) -> nat
    decreases ds.len(),
{
    if ds.len() == 0 {
        0
    } else {
        digits_value(ds.drop_last()) * 10 + ((ds.last() as nat) - ('0' as nat)) as nat
    }
}

/// The integer that `str::parse` reads from `s`: an optional `+` (or, when `signed`, `-`)
/// followed by at least one ASCII digit; `None` for anything else.
pub open spec fn spec_parse_int(s: Seq<char>, signed: bool) -> Option<int> {
    if s.len() > 0 && s[0] == '+' {
        if s.len() > 1 && all_ascii_digits(s.skip(1)) {
            Some(digits_value(s.skip(1)) as int)
        } else {
            None
        }
    } else if signed && s.len() > 0 && s[0] == '-' {
        if s.len() > 1 && all_ascii_digits(s.skip(1)) {
            Some(-(digits_value(s.skip(1)) as int))
        } else {
            None
        }
    } else if s.len() > 0 && all_ascii_digits(s) {
        Some(digits_value(s) as int)
    } else {
        None
    }
}

/// `spec_parse_int` kept only when the value lies in `lo..=hi`.
pub open spec fn parse_in_range(s: Seq<char>, signed: bool, lo: int, hi: int) -> Option<int> {
    match spec_parse_int(s, signed) {
        Some(v) => if lo <= v <= hi {
            Some(v)
        } else {
            None
        },
        None => None,
    }
}

proof fn lemma_digits_value_prefix(ds: Seq<char>, j: int)
    requires
        0 <= j <= ds.len(),
        all_ascii_digits(ds),
    ensures
        digits_value(ds.take(j)) <= digits_value(ds),
    decreases ds.len() - j,
{
    if j < ds.len() {
        lemma_digits_value_prefix(ds, j + 1);
        assert(ds.take(j + 1).drop_last() =~= ds.take(j));
        assert(is_ascii_digit(ds[j]));
    } else {
        assert(ds.take(j) =~= ds);
    }
}

/// The value of the digits `cs[from..]` if they are all ASCII digits, at least one, and the
/// value is at most `limit`.
fn parse_magnitude(cs: &Vec<char>, from: usize, limit: u64) -> (r: Option<u64>)
    requires
        from <= cs.len(),
    ensures
        match r {
            Some(v) => {
                &&& from < cs.len()
                &&& all_ascii_digits(cs@.skip(from as int))
                &&& v as nat == digits_value(cs@.skip(from as int))
                &&& v <= limit
            },
            None => !(from < cs.len() && all_ascii_digits(cs@.skip(from as int)) && digits_value(
                cs@.skip(from as int),
            ) <= limit),
        },
{
    let ghost ds = cs@.skip(from as int);
    if from == cs.len() {
        return None;
    }
    let mut v: u64 = 0;
    let mut i: usize = from;
    let mut over = false;
    while i < cs.len()
        invariant
            from <= i <= cs.len(),
            ds == cs@.skip(from as int),
            all_ascii_digits(ds.take(i - from)),
            !over ==> v as nat == digits_value(ds.take(i - from)),
            !over ==> v <= limit,
            over ==> digits_value(ds.take(i - from)) > limit,
        decreases cs.len() - i,
    {
        let c = cs[i];
        proof {
            assert(ds[i - from] == c);
        }
        if !('0' <= c && c <= '9') {
            proof {
                assert(!is_ascii_digit(ds[i - from]));
            }
            return None;
        }
        let d = (c as u32 - '0' as u32) as u64;
        proof {
            assert(ds.take(i - from + 1).drop_last() =~= ds.take(i - from));
            assert(ds.take(i - from + 1).last() == c);
            assert(all_ascii_digits(ds.take(i - from + 1))) by {
                assert forall|k: int| 0 <= k < ds.take(i - from + 1).len() implies is_ascii_digit(
                    #[trigger] ds.take(i - from + 1)[k],
                ) by {
                    if k < i - from {
                        assert(ds.take(i - from + 1)[k] == ds.take(i - from)[k]);
                    }
                }
            }
        }
        if !over {
            if d > limit || v > (limit - d) / 10 {
                over = true;
                proof {
                    if d <= limit {
                        assert(v * 10 + d > limit) by (nonlinear_arith)
                            requires
                                v > (limit - d) / 10,
                                d <= limit,
                        ;
                    }
                }
            } else {
                proof {
                    assert(v * 10 + d <= limit) by (nonlinear_arith)
                        requires
                            v <= (limit - d) / 10,
                            d <= limit,
                    ;
                }
                v = v * 10 + d;
            }
        } else {
            proof {
                let p = digits_value(ds.take(i - from));
                assert(p * 10 + d >= p) by (nonlinear_arith);
            }
        }
        i = i + 1;
    }
    proof {
        assert(ds.take(i - from) =~= ds);
    }
    if over {
        None
    } else {
        Some(v)
    }
}

fn parse_signed(s: &str, signed: bool, neg_limit: u64, pos_limit: u64) -> (r: Option<(bool, u64)>)
    ensures
        match r {
            Some((neg, m)) => {
                &&& spec_parse_int(s@, signed) == Some(if neg {
                    -(m as int)
                } else {
                    m as int
                })
                &&& if neg {
                    m <= neg_limit
                } else {
                    m <= pos_limit
                }
            },
            None => match spec_parse_int(s@, signed) {
                Some(v) => v < -(neg_limit as int) || v > pos_limit,
                None => true,
            },
        },
{
    let cs = chars_of(s);
    if cs.len() > 0 && cs[0] == '+' {
        match parse_magnitude(&cs, 1, pos_limit) {
            Some(m) => Some((false, m)),
            None => None,
        }
    } else if signed && cs.len() > 0 && cs[0] == '-' {
        match parse_magnitude(&cs, 1, neg_limit) {
            Some(m) => Some((true, m)),
            None => None,
        }
    } else {
        proof {
            assert(cs@.skip(0) =~= cs@);
        }
        match parse_magnitude(&cs, 0, pos_limit) {
            Some(m) => Some((false, m)),
            None => None,
        }
    }
}

/// `s.parse::<i64>().ok()`.
pub fn parse_i64(s: &str) -> (r: Option<i64>)
    ensures
        r == match parse_in_range(s@, true, i64::MIN as int, i64::MAX as int) {
            Some(v) => Some(v as i64),
            None => None::<i64>,
        },
{
    match parse_signed(s, true, 0x8000_0000_0000_0000u64, 0x7fff_ffff_ffff_ffffu64) {
        Some((neg, m)) => {
            if neg {
                if m == 0x8000_0000_0000_0000u64 {
                    Some(i64::MIN)
                } else {
                    Some(-(m as i64))
                }
            } else {
                Some(m as i64)
            }
        },
        None => None,
    }
}

/// `s.parse::<i16>().ok()`.
pub fn parse_i16(s: &str) -> (r: Option<i16>)
    ensures
        r == match parse_in_range(s@, true, i16::MIN as int, i16::MAX as int) {
            Some(v) => Some(v as i16),
            None => None::<i16>,
        },
{
    match parse_signed(s, true, 0x8000u64, 0x7fffu64) {
        Some((neg, m)) => {
            if neg {
                Some(-(m as i32) as i16)
            } else {
                Some(m as i16)
            }
        },
        None => None,
    }
}

/// `s.parse::<u16>().ok()`.
pub fn parse_u16(s: &str) -> (r: Option<u16>)
    ensures
        r == match parse_in_range(s@, false, 0, u16::MAX as int) {
            Some(v) => Some(v as u16),
            None => None::<u16>,
        },
{
    match parse_signed(s, false, 0u64, 0xffffu64) {
        Some((neg, m)) => Some(m as u16),
        None => None,
    }
}

proof fn lemma_digit_char(d: nat)
    requires
        d < 10,
    ensures
        is_ascii_digit(digit_char_spec(d)),
        (digit_char_spec(d) as nat) - ('0' as nat) == d,
{
}

pub proof fn lemma_decimal(n: nat)
    ensures
        decimal_spec(n).len() >= 1,
        all_ascii_digits(decimal_spec(n)),
        digits_value(decimal_spec(n)) == n,
    decreases n,
{
    if n < 10 {
        lemma_digit_char(n);
        let s = decimal_spec(n);
        assert(s.drop_last() =~= Seq::<char>::empty());
        assert(digits_value(s.drop_last()) == 0);
        assert(s.last() == digit_char_spec(n));
        assert(digits_value(s) == digits_value(s.drop_last()) * 10 + ((s.last() as nat) - (
        '0' as nat)) as nat);
    } else {
        lemma_decimal(n / 10);
        lemma_digit_char(n % 10);
        let s = decimal_spec(n);
        assert(s.drop_last() =~= decimal_spec(n / 10));
        assert forall|i: int| 0 <= i < s.len() implies is_ascii_digit(#[trigger] s[i]) by {
            if i < s.len() - 1 {
                assert(s[i] == decimal_spec(n / 10)[i]);
            }
        }
        assert(s.last() == digit_char_spec(n % 10));
        assert(digits_value(s) == digits_value(s.drop_last()) * 10 + ((s.last() as nat) - (
        '0' as nat)) as nat);
        assert((n / 10) * 10 + n % 10 == n) by (nonlinear_arith);
    }
}

/// Parsing the decimal form of an `i64` gives the number back.
pub proof fn law_parse_reads_decimal(n: int)
    requires
        i64::MIN <= n <= i64::MAX,
    ensures
        parse_in_range(signed_decimal_spec(n), true, i64::MIN as int, i64::MAX as int) == Some(n),
{
    if n < 0 {
        let m = (-n) as nat;
        lemma_decimal(m);
        let s = signed_decimal_spec(n);
        assert(s.skip(1) =~= decimal_spec(m));
        assert(s[0] == '-');
    } else {
        lemma_decimal(n as nat);
        let s = decimal_spec(n as nat);
        assert(is_ascii_digit(s[0]));
    }
}

} // verus!
