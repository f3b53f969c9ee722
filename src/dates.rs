use vstd::prelude::*;

use chrono::Datelike;

use crate::text::trim_end_char;

verus! {

/// Leap years of the proleptic Gregorian calendar.
pub open spec fn is_leap_year(y: int) -> bool {
    (y % 4 == 0 && y % 100 != 0) || y % 400 == 0
}

/// The number of days in month `m` of year `y`.
pub open spec fn days_in_month(y: int, m: int) -> int {
    if m == 2 {
        if is_leap_year(y) {
            29
        } else {
            28
        }
    } else if m == 4 || m == 6 || m == 9 || m == 11 {
        30
    } else {
        31
    }
}

/// A calendar date of the proleptic Gregorian calendar.
#[derive(PartialEq, Eq, Structural, Clone, Copy, Debug)]
pub struct Date {
    pub year: i32,
    pub month: u32,
    pub day: u32,
}

impl Date {
    /// The month is 1 to 12 and the day exists in that month.
    pub open spec fn wf(&self) -> bool {
        1 <= self.month <= 12 && 1 <= self.day <= days_in_month(self.year as int, self.month as int)
    }

    /// The date as a (year, month, day) triple of integers.
    pub open spec fn triple(&self) -> (int, int, int) {
        (self.year as int, self.month as int, self.day as int)
    }

    /// The date with the given year, month and day, if such a date exists.
    pub fn from_ymd_opt(year: i32, month: u32, day: u32) -> (r: Option<Date>)
        ensures
            r is Some <==> (1 <= month <= 12 && 1 <= day <= days_in_month(year as int, month as int)),
            r matches Some(d) ==> d == (Date { year, month, day }),
    {
        if month < 1 || month > 12 || day < 1 {
            return None;
        }
        let y = year as i64;
        let leap = (y % 4 == 0 && y % 100 != 0) || y % 400 == 0;
        assert(leap == is_leap_year(year as int));
        let limit: u32 = if month == 2 {
            if leap {
                29
            } else {
                28
            }
        } else if month == 4 || month == 6 || month == 9 || month == 11 {
            30
        } else {
            31
        };
        if day > limit {
            None
        } else {
            Some(Date { year, month, day })
        }
    }
}

/// What chrono's `NaiveDate::parse_from_str` makes of a text under a format, as
/// (year, month, day).
pub uninterp spec fn chrono_parsed_date(s: Seq<char>, fmt: Seq<char>) -> Option<(int, int, int)>;

/// Relies on chrono::NaiveDate::parse_from_str for reading a date in a strftime-style format;
/// a `NaiveDate` always holds an existing calendar date.
#[verifier::external_body]
pub(crate) fn parse_naive_date(s: &str, fmt: &str) -> (r: Option<Date>)
    ensures
        r matches Some(d) ==> d.wf() && chrono_parsed_date(s@, fmt@) == Some(d.triple()),
        r is None ==> chrono_parsed_date(s@, fmt@) is None,
{
    match chrono::NaiveDate::parse_from_str(s, fmt) {
        Ok(d) => Some(Date { year: d.year(), month: d.month(), day: d.day() }),
        Err(_) => None,
    }
}

/// The index of the first `c` in `s`, or the length of `s` where there is none.
pub open spec fn index_of(s: Seq<char>, c: char) -> int
    decreases s.len(),
{
    if s.len() == 0 {
        0
    } else if s[0] == c {
        0
    } else {
        1 + index_of(s.drop_first(), c)
    }
}

pub proof fn lemma_index_of_bounds(s: Seq<char>, c: char)
    ensures
        0 <= index_of(s, c) <= s.len(),
        index_of(s, c) < s.len() ==> s[index_of(s, c)] == c,
        forall|k: int| 0 <= k < index_of(s, c) ==> s[k] != c,
    decreases s.len(),
{
    if s.len() > 0 && s[0] != c {
        lemma_index_of_bounds(s.drop_first(), c);
        assert forall|k: int| 0 <= k < index_of(s, c) implies s[k] != c by {
            if k > 0 {
                assert(s[k] == s.drop_first()[k - 1]);
            }
        }
    }
}

/// Finds the first `c` in `s`.
pub fn find_char(s: &str, c: char) -> (r: usize)
    ensures
        r == index_of(s@, c),
{
    let n = s.unicode_len();
    let mut i: usize = 0;
    assert(s@.subrange(0, n as int) =~= s@);
    while i < n && s.get_char(i) != c
        invariant
            n == s@.len(),
            i <= n,
            index_of(s@, c) == i + index_of(s@.subrange(i as int, n as int), c),
        decreases n - i,
    {
        assert(s@.subrange(i as int, n as int).drop_first() =~= s@.subrange(i + 1, n as int));
        i = i + 1;
    }
    i
}

/// Where a date field holds a parenthesised token, as in `Modified (20051217)`: the text
/// between the first `(` and the next `(` (or the end), less its trailing `)`.
pub open spec fn paren_token(s: Seq<char>) -> Seq<char> {
    let rest = s.subrange(index_of(s, '(') + 1, s.len() as int);
    trim_end_char(rest.subrange(0, index_of(rest, '(')), ')')
}

/// What a date field means: a parenthesised `YYYYMMDD` token where the field has a `(`,
/// else a `YYYY-MM-DD` date; read as chrono reads those formats.
pub open spec fn field_date(s: Seq<char>) -> Option<(int, int, int)> {
    if index_of(s, '(') < s.len() {
        chrono_parsed_date(paren_token(s), "%Y%m%d"@)
    } else {
        chrono_parsed_date(s, "%Y-%m-%d"@)
    }
}

/// A date field could not be read as a date.
#[derive(PartialEq, Eq, Structural, Clone, Copy, Debug)]
pub struct DateError;

/// Reads a date field of the feed: either `YYYY-MM-DD` or a value embedding a
/// parenthesised `YYYYMMDD` token.
pub fn parse_date(date_str: &str) -> (r: Result<Date, DateError>)
    ensures
        r matches Ok(d) ==> d.wf() && field_date(date_str@) == Some(d.triple()),
        r is Err ==> field_date(date_str@) is None,
{
    let n = date_str.unicode_len();
    let open = find_char(date_str, '(');
    proof {
        lemma_index_of_bounds(date_str@, '(');
    }
    let parsed = if open < n {
        let rest = date_str.substring_char(open + 1, n);
        let close = find_char(rest, '(');
        proof {
            lemma_index_of_bounds(rest@, '(');
        }
        let token = rest.substring_char(0, close);
        let mut end = close;
        assert(token@.subrange(0, end as int) =~= token@);
        while end > 0 && token.get_char(end - 1) == ')'
            invariant
                end <= token@.len(),
                trim_end_char(token@, ')') == trim_end_char(token@.subrange(0, end as int), ')'),
            decreases end,
        {
            assert(token@.subrange(0, end as int).drop_last() =~= token@.subrange(0, end - 1));
            end = end - 1;
        }
        let kept = token.substring_char(0, end);
        assert(trim_end_char(kept@, ')') == kept@);
        assert(kept@ == paren_token(date_str@));
        parse_naive_date(kept, "%Y%m%d")
    } else {
        parse_naive_date(date_str, "%Y-%m-%d")
    };
    match parsed {
        Some(d) => Ok(d),
        None => Err(DateError),
    }
}

} // verus!
