//! Who owes volunteer work hours in a year, and how many.
use crate::date::{day_of, parse_day, Date};
use crate::models::Member;
use vstd::prelude::*;

verus! {

/// The standard yearly requirement, in hundredths of an hour (8 hours).
pub const STANDARD_HOURS: u64 = 800;

/// Members under this age in a year owe nothing that year.
pub const MIN_AGE: i64 = 17;

/// Members of this age or older in a year owe nothing that year.
pub const EXEMPT_AGE: i64 = 70;

/// Why a member owes no hours in a year.
#[derive(Clone, Copy, Debug, PartialEq, Eq, Structural)]
pub enum Exemption {
    /// Too young or too old in that year.
    Age,
    /// Joined on or after July 1 of that year.
    LateEntry,
}

impl Exemption {
    /// The reason as shown to members.
    pub fn reason(&self) -> (r: &'static str)
        ensures
            *self == Exemption::Age ==> r@ == "Altersbefreiung"@,
            *self == Exemption::LateEntry ==> r@ == "Eintritt nach Halbjahr"@,
    {
        match self {
            Exemption::Age => "Altersbefreiung",
            Exemption::LateEntry => "Eintritt nach Halbjahr",
        }
    }
}

/// The hours a member owes in a year and, when none, why.
#[derive(Clone, Copy, Debug, PartialEq, Eq, Structural)]
pub struct RequiredHours {
    /// Hundredths of an hour.
    pub hours: u64,
    pub exemption: Option<Exemption>,
}

/// The year of a day given as (year, month, day).
pub open spec fn year_of(t: (int, int, int)) -> int {
    t.0
}

pub open spec fn age_exempt(year: int, birth_year: int) -> bool {
    year - birth_year < MIN_AGE || year - birth_year >= EXEMPT_AGE
}

/// A join day on or after July 1 of `year`.
pub open spec fn joined_late(join: (int, int, int), year: int) -> bool {
    join.0 > year || (join.0 == year && (join.1 > 7 || (join.1 == 7 && join.2 >= 1)))
}

/// The requirement for a year, given the days read from the member's birth
/// date and join date (`None` where absent or unreadable).
pub open spec fn required_spec(
    birth: Option<(int, int, int)>,
    join: Option<(int, int, int)>,
    year: int,
) -> RequiredHours {
    if birth is Some && age_exempt(year, year_of(birth->0)) {
        RequiredHours { hours: 0, exemption: Some(Exemption::Age) }
    } else if join is Some && joined_late(join->0, year) {
        RequiredHours { hours: 0, exemption: Some(Exemption::LateEntry) }
    } else {
        RequiredHours { hours: STANDARD_HOURS, exemption: None }
    }
}

pub open spec fn day_triple(d: Option<Date>) -> Option<(int, int, int)> {
    match d {
        Some(x) => Some(x.triple()),
        None => None,
    }
}

/// The day a member's optional date field names; an absent or empty field
/// names none.
pub open spec fn field_day(f: Option<String>) -> Option<(int, int, int)> {
    match f {
        Some(s) => if s@.len() == 0 { None } else { day_of(s@) },
        None => None,
    }
}

/// The requirement for `year`, from the member's birth day and join day.
pub fn required_hours_for(birth: Option<Date>, join: Option<Date>, year: i32) -> (r: RequiredHours)
    ensures
        r == required_spec(day_triple(birth), day_triple(join), year as int),
{
    if let Some(b) = birth {
        let age: i64 = year as i64 - b.year as i64;
        if age < MIN_AGE || age >= EXEMPT_AGE {
            return RequiredHours { hours: 0, exemption: Some(Exemption::Age) };
        }
    }
    if let Some(j) = join {
        if j.year > year || (j.year == year && (j.month > 7 || (j.month == 7 && j.day >= 1))) {
            return RequiredHours { hours: 0, exemption: Some(Exemption::LateEntry) };
        }
    }
    RequiredHours { hours: STANDARD_HOURS, exemption: None }
}

/// Reads an optional date field; an absent or empty field gives `None`.
pub fn read_field_day(f: &Option<String>) -> (r: Option<Date>)
    ensures
        day_triple(r) == field_day(*f),
{
    match f {
        Some(s) => {
            if s.as_str().unicode_len() == 0 {
                None
            } else {
                parse_day(s.as_str())
            }
        },
        None => None,
    }
}

/// The requirement of a member in a year: age exemption first, then late
/// entry, else the standard amount. An unreadable birth or join date counts
/// as absent.
pub fn get_member_work_hours_info(member: &Member, year: i32) -> (r: RequiredHours)
    ensures
        r == required_spec(field_day(member.birth_date), field_day(member.join_date), year as int),
{
    let birth = read_field_day(&member.birth_date);
    let join = read_field_day(&member.join_date);
    required_hours_for(birth, join, year)
}

/// Whether a member owes hours in `year` as far as age goes.
pub fn is_member_eligible_for_work_hours(member: &Member, year: i32) -> (r: bool)
    ensures
        r == !(field_day(member.birth_date) is Some && age_exempt(
            year as int,
            year_of(field_day(member.birth_date)->0),
        )),
{
    let birth = read_field_day(&member.birth_date);
    match birth {
        Some(b) => {
            let age: i64 = year as i64 - b.year as i64;
            MIN_AGE <= age && age < EXEMPT_AGE
        },
        None => true,
    }
}

/// A member whose birth date is absent or unreadable, and who joined before
/// July 1 of the year or whose join date is absent or unreadable, owes the
/// standard amount with no exemption.
pub proof fn lemma_unknown_birth_owes_standard(member: Member, year: int)
    requires
        field_day(member.birth_date) is None,
        field_day(member.join_date) is None || !joined_late(field_day(member.join_date)->0, year),
    ensures
        required_spec(field_day(member.birth_date), field_day(member.join_date), year)
            == (RequiredHours { hours: STANDARD_HOURS, exemption: None }),
{
}

/// A member born in year `b` is exempt in year `y` exactly when `y - b` is
/// under 17 or at least 70.
pub proof fn lemma_age_exemption(
    birth: (int, int, int),
    join: Option<(int, int, int)>,
    year: int,
)
    ensures
        (required_spec(Some(birth), join, year).exemption == Some(Exemption::Age)) <==> (year
            - birth.0 < 17 || year - birth.0 >= 70),
        age_exempt(year, birth.0) ==> required_spec(Some(birth), join, year).hours == 0,
{
}

/// A member who joined on or after July 1 of `year` and is not age-exempt
/// owes nothing that year, for late entry.
pub proof fn lemma_late_entry(
    birth: Option<(int, int, int)>,
    join: (int, int, int),
    year: int,
)
    requires
        join.0 > year || (join.0 == year && join.1 >= 7 && join.2 >= 1),
        birth is None || !age_exempt(year, year_of(birth->0)),
    ensures
        required_spec(birth, Some(join), year) == (RequiredHours {
            hours: 0,
            exemption: Some(Exemption::LateEntry),
        }),
{
}

} // verus!
