use vstd::prelude::*;
use vstd::string::StrSliceExecFns;

use crate::text::{all_digits, digits_value, is_digit, parse_digits_below};

verus! {

/// A point in time as the registry reports it: non-leap seconds since the
/// Unix epoch, plus nanoseconds into that second (values of 1_000_000_000
/// and above stand for a leap second).
#[derive(Clone, Copy, Debug, PartialEq, Eq, Structural)]
pub struct Timestamp {
    pub secs: i64,
    pub nanos: u32,
}

/// Strict order on timestamps: by seconds, then by nanoseconds.
pub open spec fn ts_lt(a: Timestamp, b: Timestamp) -> bool {
    a.secs < b.secs || (a.secs == b.secs && a.nanos < b.nanos)
}

impl Timestamp {
    /// Strictly older than `other`.
    pub fn earlier_than(&self, other: &Timestamp) -> (r: bool)
        ensures
            r == ts_lt(*self, *other),
    {
        self.secs < other.secs || (self.secs == other.secs && self.nanos < other.nanos)
    }
}

/// How many times `c` occurs in `s`.
pub open spec fn count_char(s: Seq<char>, c: char) -> int
    decreases s.len(),
{
    if s.len() == 0 {
        0
    } else {
        count_char(s.drop_last(), c) + if s.last() == c {
            1int
        } else {
            0int
        }
    }
}

/// The position of the first occurrence of `c` in `s`.
pub open spec fn first_index_of(s: Seq<char>, c: char) -> int {
    choose|i: int|
        0 <= i < s.len() && s[i] == c && (forall|k: int| 0 <= k < i ==> s[k] != c)
}

proof fn lemma_first_index_of(s: Seq<char>, c: char, f: int)
    requires
        0 <= f < s.len(),
        s[f] == c,
        forall|k: int| 0 <= k < f ==> s[k] != c,
    ensures
        first_index_of(s, c) == f,
{
    assert(0 <= f < s.len() && s[f] == c && (forall|k: int| 0 <= k < f ==> s[k] != c));
    let g = first_index_of(s, c);
    assert(0 <= g < s.len() && s[g] == c && (forall|k: int| 0 <= k < g ==> s[k] != c));
    if g < f {
        assert(s[g] != c);
    }
    if f < g {
        assert(s[f] != c);
    }
}

/// `s` without its leading run of non-digit characters.
pub open spec fn trim_leading(s: Seq<char>) -> Seq<char>
    decreases s.len(),
{
    if s.len() == 0 {
        s
    } else if is_digit(s[0]) {
        s
    } else {
        trim_leading(s.drop_first())
    }
}

/// `s` without its trailing run of non-digit characters.
pub open spec fn trim_trailing(s: Seq<char>) -> Seq<char>
    decreases s.len(),
{
    if s.len() == 0 {
        s
    } else if is_digit(s.last()) {
        s
    } else {
        trim_trailing(s.drop_last())
    }
}

/// `s` without non-digit characters at either end.
pub open spec fn trim_to_digits(s: Seq<char>) -> Seq<char> {
    trim_trailing(trim_leading(s))
}

/// The digit characters left when a fraction field is trimmed at both ends.
fn trim_fraction<'a>(s: &'a str) -> (r: &'a str)
    ensures
        r@ == trim_to_digits(s@),
{
    let n = s.unicode_len();
    proof {
        assert(s@.subrange(0, n as int) =~= s@);
    }
    let mut a: usize = 0;
    while a < n && !crate::text::digit_char(s.get_char(a))
        invariant
            a <= n,
            n == s@.len(),
            trim_leading(s@) == trim_leading(s@.subrange(a as int, n as int)),
        decreases n - a,
    {
        proof {
            assert(s@.subrange(a as int, n as int).drop_first() =~= s@.subrange(
                a as int + 1,
                n as int,
            ));
        }
        a += 1;
    }
    proof {
        assert(s@.subrange(0, n as int) =~= s@);
        assert(trim_leading(s@) =~= s@.subrange(a as int, n as int));
    }
    let mut b: usize = n;
    while b > a && !crate::text::digit_char(s.get_char(b - 1))
        invariant
            a <= b <= n,
            n == s@.len(),
            trim_leading(s@) =~= s@.subrange(a as int, n as int),
            trim_trailing(s@.subrange(a as int, n as int)) == trim_trailing(
                s@.subrange(a as int, b as int),
            ),
        decreases b,
    {
        proof {
            assert(s@.subrange(a as int, b as int).drop_last() =~= s@.subrange(
                a as int,
                b as int - 1,
            ));
            assert(s@.subrange(a as int, b as int).last() == s@[b as int - 1]);
        }
        b -= 1;
    }
    let r = s.substring_char(a, b);
    proof {
        assert(trim_trailing(s@.subrange(a as int, b as int)) == s@.subrange(
            a as int,
            b as int,
        ));
    }
    r
}

/// What chrono answers when a string is parsed as a calendar date and
/// clock time in the shape year-month-day "T" hour:minute:second: either
/// the Unix timestamp of that moment, or nothing when the string does not
/// have that shape. The answer depends on the characters alone.
pub uninterp spec fn datetime_secs_of(s: Seq<char>) -> Option<i64>;

/// Relies on chrono's `NaiveDateTime::parse_from_str` with the format
/// `%Y-%m-%dT%H:%M:%S`, and on `DateTime::timestamp`: both are pure
/// functions of the string, and neither panics.
#[verifier::external_body]
fn parse_datetime_secs(s: &str) -> (r: Option<i64>)
    ensures
        r == datetime_secs_of(s@),
{
    match chrono::NaiveDateTime::parse_from_str(s, "%Y-%m-%dT%H:%M:%S") {
        Ok(dt) => Some(dt.and_utc().timestamp()),
        Err(_) => None,
    }
}

/// The timestamp denoted by a creation-time field of the registry's tag
/// listing: a date-time, one dot, then a fraction of a second which is
/// trimmed to its digits and padded to hundreds of nanoseconds. Nothing
/// is denoted when the dot is missing or repeated, when the trimmed
/// fraction is not all digits, when the padded fraction does not fit a
/// nanosecond field, or when the date-time part does not parse.
pub open spec fn created_time_of(s: Seq<char>) -> Option<Timestamp> {
    if count_char(s, '.') != 1 {
        None
    } else {
        let d = first_index_of(s, '.');
        let main = s.subrange(0, d);
        let frac = s.subrange(d + 1, s.len() as int);
        let trimmed = trim_to_digits(frac);
        if !(all_digits(trimmed) && digits_value(trimmed) * 100 < 2_000_000_000) {
            None
        } else {
            match datetime_secs_of(main) {
                None => None,
                Some(secs) => Some(
                    Timestamp { secs, nanos: (digits_value(trimmed) * 100) as u32 },
                ),
            }
        }
    }
}

/// Parse a creation-time field, as the registry writes it, into a
/// timestamp.
pub fn parse_created_time(s: &str) -> (r: Option<Timestamp>)
    ensures
        r == created_time_of(s@),
{
    let n = s.unicode_len();
    let mut cnt: usize = 0;
    let mut first: usize = 0;
    let mut found = false;
    let mut i: usize = 0;
    while i < n
        invariant
            i <= n,
            n == s@.len(),
            cnt == count_char(s@.subrange(0, i as int), '.'),
            cnt <= i,
            found <==> cnt != 0,
            found ==> 0 <= first < i && s@[first as int] == '.' && (forall|k: int|
                0 <= k < first ==> s@[k] != '.'),
            !found ==> forall|k: int| 0 <= k < i ==> s@[k] != '.',
        decreases n - i,
    {
        proof {
            assert(s@.subrange(0, i as int + 1).drop_last() =~= s@.subrange(0, i as int));
            assert(s@.subrange(0, i as int + 1).last() == s@[i as int]);
        }
        if s.get_char(i) == '.' {
            if !found {
                first = i;
                found = true;
            }
            cnt += 1;
        }
        i += 1;
    }
    proof {
        assert(s@.subrange(0, n as int) =~= s@);
    }
    if cnt != 1 {
        return None;
    }
    proof {
        lemma_first_index_of(s@, '.', first as int);
    }
    let main = s.substring_char(0, first);
    let frac = s.substring_char(first + 1, n);
    let trimmed = trim_fraction(frac);
    let hundreds = match parse_digits_below(trimmed, 20_000_000) {
        Some(v) => v,
        None => {
            return None;
        },
    };
    let nanos: u32 = hundreds * 100;
    match parse_datetime_secs(main) {
        Some(secs) => Some(Timestamp { secs, nanos }),
        None => None,
    }
}

} // verus!
