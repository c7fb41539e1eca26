//! Calendar dates as plain values, and the date strings the club's records use.
use chrono::Datelike;
use vstd::prelude::*;

verus! {

/// A calendar day: year, month (1 to 12) and day of the month (1 to 31).
#[derive(Clone, Copy, Debug, PartialEq, Eq, Structural)]
pub struct Date {
    pub year: i32,
    pub month: u32,
    pub day: u32,
}

impl Date {
    pub open spec fn triple(self) -> (int, int, int) {
        (self.year as int, self.month as int, self.day as int)
    }

    pub open spec fn well_formed(self) -> bool {
        1 <= self.month <= 12 && 1 <= self.day <= 31
    }
}

/// What chrono reads from a string with the pattern `%Y-%m-%d`.
pub uninterp spec fn plain_date(s: Seq<char>) -> Option<(int, int, int)>;

/// The UTC calendar day of an RFC 3339 date-time, as chrono reads it.
pub uninterp spec fn rfc3339_utc_date(s: Seq<char>) -> Option<(int, int, int)>;

/// Relies on `chrono::NaiveDate::parse_from_str(s, "%Y-%m-%d")`, and on
/// `Datelike::month` and `Datelike::day` ranging over 1..=12 and 1..=31.
#[verifier::external_body]
fn parse_plain_date(s: &str) -> (r: Option<Date>)
    ensures
        match r {
            Some(d) => plain_date(s@) == Some(d.triple()) && d.well_formed(),
            None => plain_date(s@) is None,
        },
{
    match chrono::NaiveDate::parse_from_str(s, "%Y-%m-%d") {
        Ok(d) => Some(Date { year: d.year(), month: d.month(), day: d.day() }),
        Err(_) => None,
    }
}

/// Relies on `chrono::DateTime::parse_from_rfc3339`, followed by the UTC
/// calendar day (`naive_utc().date()`) of the instant it reads.
#[verifier::external_body]
fn parse_rfc3339_utc_date(s: &str) -> (r: Option<Date>)
    ensures
        match r {
            Some(d) => rfc3339_utc_date(s@) == Some(d.triple()) && d.well_formed(),
            None => rfc3339_utc_date(s@) is None,
        },
{
    match chrono::DateTime::parse_from_rfc3339(s) {
        Ok(dt) => {
            let d = dt.naive_utc().date();
            Some(Date { year: d.year(), month: d.month(), day: d.day() })
        },
        Err(_) => None,
    }
}

/// Relies on `chrono::Utc::now()`: the current instant, as its UTC calendar
/// day and as whole seconds since the Unix epoch (`timestamp`).
#[verifier::external_body]
pub(crate) fn now_utc() -> (r: (Date, i64))
    ensures
        r.0.well_formed(),
{
    let now = chrono::Utc::now();
    let d = now.date_naive();
    (Date { year: d.year(), month: d.month(), day: d.day() }, now.timestamp())
}

/// The day a date string names, read either as a plain `YYYY-MM-DD` date or
/// as a full RFC 3339 date-time (of which the UTC day counts).
pub open spec fn day_of(s: Seq<char>) -> Option<(int, int, int)> {
    match plain_date(s) {
        Some(t) => Some(t),
        None => rfc3339_utc_date(s),
    }
}

/// Reads a date string that is either a plain date or a full date-time.
pub fn parse_day(s: &str) -> (r: Option<Date>)
    ensures
        match r {
            Some(d) => day_of(s@) == Some(d.triple()) && d.well_formed(),
            None => day_of(s@) is None,
        },
{
    match parse_plain_date(s) {
        Some(d) => Some(d),
        None => parse_rfc3339_utc_date(s),
    }
}

/// Reads a strict `YYYY-MM-DD` date.
pub fn parse_calendar_date(s: &str) -> (r: Option<Date>)
    ensures
        match r {
            Some(d) => plain_date(s@) == Some(d.triple()) && d.well_formed(),
            None => plain_date(s@) is None,
        },
{
    parse_plain_date(s)
}

/// Position of the first `c` in `s`, or the length of `s` when there is none.
pub open spec fn first_index(s: Seq<char>, c: char) -> int
    decreases s.len(),
{
    if s.len() == 0 {
        0
    } else if s[0] == c {
        0
    } else {
        1 + first_index(s.drop_first(), c)
    }
}

/// A date string with any time-of-day part (from the first `'T'` on) removed.
pub open spec fn normalized_date(s: Seq<char>) -> Seq<char> {
    s.subrange(0, first_index(s, 'T'))
}

pub proof fn lemma_first_index_bounds(s: Seq<char>, c: char)
    ensures
        0 <= first_index(s, c) <= s.len(),
        forall|j: int| 0 <= j < first_index(s, c) ==> s[j] != c,
        first_index(s, c) < s.len() ==> s[first_index(s, c)] == c,
    decreases s.len(),
{
    if s.len() > 0 && s[0] != c {
        lemma_first_index_bounds(s.drop_first(), c);
        assert forall|j: int| 0 <= j < first_index(s, c) implies s[j] != c by {
            if j > 0 {
                assert(s[j] == s.drop_first()[j - 1]);
            }
        }
    }
}

/// `first_index` is the first index that holds `c`.
pub proof fn lemma_first_index_is_first(s: Seq<char>, c: char, i: int)
    requires
        0 <= i <= s.len(),
        forall|j: int| 0 <= j < i ==> s[j] != c,
        i == s.len() || s[i] == c,
    ensures
        first_index(s, c) == i,
    decreases i,
{
    if i > 0 {
        assert(s[0] != c);
        let t = s.drop_first();
        assert forall|j: int| 0 <= j < i - 1 implies t[j] != c by {
            assert(t[j] == s[j + 1]);
        }
        if i < s.len() {
            assert(t[i - 1] == s[i]);
        }
        lemma_first_index_is_first(t, c, i - 1);
    }
}

/// The position of the first `c` in `s`, or its length when there is none.
pub fn find_char(s: &str, c: char) -> (r: usize)
    ensures
        r == first_index(s@, c),
{
    let n = s.unicode_len();
    let mut i: usize = 0;
    while i < n && s.get_char(i) != c
        invariant
            n == s@.len(),
            i <= n,
            forall|j: int| 0 <= j < i ==> s@[j] != c,
        decreases n - i,
    {
        i = i + 1;
    }
    proof {
        lemma_first_index_is_first(s@, c, i as int);
    }
    i
}

/// Strips a time-of-day suffix: `2024-03-05T10:00:00Z` becomes `2024-03-05`;
/// a string without `'T'` is returned as it is.
pub fn normalize_date(s: &str) -> (r: String)
    ensures
        r@ == normalized_date(s@),
{
    let i = find_char(s, 'T');
    proof {
        lemma_first_index_bounds(s@, 'T');
    }
    s.substring_char(0, i).to_owned()
}

/// Normalising keeps a string without `'T'` as it is, cuts one with a `'T'`
/// right before it, and a second normalisation changes nothing.
pub proof fn lemma_normalize_round_trip(d: Seq<char>, rest: Seq<char>)
    ensures
        (forall|j: int| 0 <= j < d.len() ==> d[j] != 'T') ==> normalized_date(d) == d,
        (forall|j: int| 0 <= j < d.len() ==> d[j] != 'T') ==> normalized_date(
            d + seq!['T'] + rest,
        ) == d,
        normalized_date(normalized_date(d)) == normalized_date(d),
{
    if forall|j: int| 0 <= j < d.len() ==> d[j] != 'T' {
        lemma_first_index_is_first(d, 'T', d.len() as int);
        assert(d.subrange(0, d.len() as int) == d);
        let s = d + seq!['T'] + rest;
        assert forall|j: int| 0 <= j < d.len() implies s[j] != 'T' by {
            assert(s[j] == d[j]);
        }
        assert(s[d.len() as int] == 'T');
        lemma_first_index_is_first(s, 'T', d.len() as int);
        assert(s.subrange(0, d.len() as int) =~= d);
    }
    lemma_first_index_bounds(d, 'T');
    let n = normalized_date(d);
    assert forall|j: int| 0 <= j < n.len() implies n[j] != 'T' by {
        assert(n[j] == d[j]);
    }
    lemma_first_index_is_first(n, 'T', n.len() as int);
    assert(n.subrange(0, n.len() as int) == n);
}

/// The calendar day, written `YYYY-MM-DD`, that an RFC 3339 date-time falls
/// on in Berlin, as chrono and chrono-tz compute it.
pub uninterp spec fn berlin_day_of(s: Seq<char>) -> Option<Seq<char>>;

/// Relies on `chrono::DateTime::parse_from_rfc3339`, on its conversion to
/// `chrono_tz::Europe::Berlin`, and on `NaiveDate`'s `Display`.
#[verifier::external_body]
fn berlin_day(s: &str) -> (r: Option<String>)
    ensures
        match r {
            Some(d) => berlin_day_of(s@) == Some(d@),
            None => berlin_day_of(s@) is None,
        },
{
    match chrono::DateTime::parse_from_rfc3339(s) {
        Ok(dt) => Some(dt.with_timezone(&chrono_tz::Europe::Berlin).date_naive().to_string()),
        Err(_) => None,
    }
}

/// The day a stored date names: the Berlin day of a full date-time, else
/// the first ten characters, else nothing.
pub open spec fn record_day(s: Seq<char>, berlin: Option<Seq<char>>) -> Seq<char> {
    match berlin {
        Some(d) => d,
        None => if s.len() >= 10 {
            s.subrange(0, 10)
        } else {
            Seq::empty()
        },
    }
}

/// The day of a stored date, given its Berlin day where it is a full
/// date-time.
pub fn record_day_given(s: &str, berlin: Option<String>) -> (r: String)
    ensures
        r@ == record_day(
            s@,
            match berlin {
                Some(d) => Some(d@),
                None => None,
            },
        ),
{
    match berlin {
        Some(d) => d,
        None => if s.unicode_len() >= 10 {
            s.substring_char(0, 10).to_owned()
        } else {
            String::new()
        },
    }
}

/// The day a stored date names, as the records service's dates are read.
pub fn record_date(s: &str) -> (r: String)
    ensures
        r@ == record_day(s@, berlin_day_of(s@)),
{
    let b = berlin_day(s);
    record_day_given(s, b)
}

} // verus!
