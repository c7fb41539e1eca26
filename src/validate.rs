//! Checks on a work-hour submission before it is stored.
use crate::date::{normalize_date, normalized_date, parse_calendar_date, plain_date, now_utc, Date};
use crate::numeral::{hundredths_of, parse_hours};
use crate::eligibility::{day_triple, year_of};
use crate::models::{entry_views, EntrySpec, WorkHourEntry};
use vstd::prelude::*;

verus! {

/// The duration field of a submission, which arrives either as a number or
/// as a numeral string.
pub enum HoursInput {
    /// A numeral, as typed.
    Text(String),
    /// A number, already in hundredths of an hour.
    Hundredths(i64),
}

/// The duration a submission names, in hundredths of an hour.
pub open spec fn hours_value(h: HoursInput) -> Option<int> {
    match h {
        HoursInput::Text(s) => hundredths_of(s@),
        HoursInput::Hundredths(n) => Some(n as int),
    }
}

/// A work-hour submission as a member sends it.
pub struct CreateWorkHourRequest {
    /// `YYYY-MM-DD`.
    pub date: String,
    pub description: String,
    pub hours: HoursInput,
}

/// Why a submission is refused.
#[derive(Clone, Copy, Debug, PartialEq, Eq, Structural)]
pub enum ValidationError {
    /// The date is empty or not a `YYYY-MM-DD` date.
    BadDateFormat,
    /// The description is empty.
    MissingDescription,
    /// The duration is not a number, or not above zero.
    InvalidHours,
    /// The date lies in a year that is closed for submissions. In January the
    /// previous year is still open (`january_grace`).
    YearOutOfRange { current_year: i32, january_grace: bool },
    /// The member already has an entry on that day.
    DuplicateForDate,
}

/// A submission that passed every check, ready to be stored.
pub struct ValidatedEntry {
    /// The normalised date.
    pub date: String,
    pub work_date: Date,
    pub description: String,
    /// Hundredths of an hour, above zero.
    pub duration_hours: u64,
}

/// The earliest year open for submissions on `today`: the previous year
/// during January, else the current one.
pub open spec fn min_allowed_year(today: Date) -> int {
    if today.month == 1 {
        today.year - 1
    } else {
        today.year as int
    }
}

/// Whether one of `existing` is dated on the (normalised) day `date`.
pub open spec fn has_entry_on(existing: Seq<EntrySpec>, date: Seq<char>) -> bool {
    exists|k: int| 0 <= k < existing.len() && normalized_date(#[trigger] existing[k].date) == date
}

/// The outcome of the checks, in their order, given the day read from the
/// submitted date: the accepted duration or the first error.
pub open spec fn outcome_given(
    p: CreateWorkHourRequest,
    day: Option<(int, int, int)>,
    today: Date,
    existing: Seq<EntrySpec>,
) -> Result<int, ValidationError> {
    if p.date@.len() == 0 || day is None {
        Err(ValidationError::BadDateFormat)
    } else if p.description@.len() == 0 {
        Err(ValidationError::MissingDescription)
    } else if hours_value(p.hours) is None || hours_value(p.hours)->0 <= 0 {
        Err(ValidationError::InvalidHours)
    } else if year_of(day->0) < min_allowed_year(today) {
        Err(
            ValidationError::YearOutOfRange {
                current_year: today.year,
                january_grace: today.month == 1,
            },
        )
    } else if has_entry_on(existing, normalized_date(p.date@)) {
        Err(ValidationError::DuplicateForDate)
    } else {
        Ok(hours_value(p.hours)->0)
    }
}

/// The outcome of the checks on a submission.
pub open spec fn submission_outcome(
    p: CreateWorkHourRequest,
    today: Date,
    existing: Seq<EntrySpec>,
) -> Result<int, ValidationError> {
    outcome_given(p, plain_date(p.date@), today, existing)
}

/// Reads the duration of a submission; `None` unless it is a number above zero.
pub fn positive_hours(h: &HoursInput) -> (r: Option<u64>)
    ensures
        match r {
            Some(v) => hours_value(*h) == Some(v as int) && v > 0,
            None => hours_value(*h) is None || hours_value(*h)->0 <= 0,
        },
{
    match h {
        HoursInput::Text(s) => match parse_hours(s.as_str()) {
            Some(v) => if v > 0 {
                Some(v)
            } else {
                None
            },
            None => None,
        },
        HoursInput::Hundredths(n) => if *n > 0 {
            Some(*n as u64)
        } else {
            None
        },
    }
}

/// Whether one of `existing` is dated on `date` once both are normalised.
pub fn has_entry_for_date(existing: &Vec<WorkHourEntry>, date: &String) -> (r: bool)
    ensures
        r == has_entry_on(entry_views(existing@), normalized_date(date@)),
{
    let target = normalize_date(date.as_str());
    let mut k: usize = 0;
    while k < existing.len()
        invariant
            k <= existing@.len(),
            target@ == normalized_date(date@),
            forall|j: int|
                0 <= j < k ==> normalized_date(#[trigger] entry_views(existing@)[j].date)
                    != target@,
        decreases existing@.len() - k,
    {
        let d = normalize_date(existing[k].date.as_str());
        if d == target {
            assert(entry_views(existing@)[k as int].date == existing@[k as int].date@);
            return true;
        }
        k = k + 1;
    }
    false
}

/// Checks a submission, given the day read from its date (`None` where it
/// does not read as one), in this order: date, description, duration, year,
/// then the one-entry-per-day rule against the member's `existing` entries.
pub fn check_submission(
    payload: &CreateWorkHourRequest,
    day: Option<Date>,
    today: Date,
    existing: &Vec<WorkHourEntry>,
) -> (r: Result<ValidatedEntry, ValidationError>)
    ensures
        match r {
            Ok(v) => {
                &&& outcome_given(*payload, day_triple(day), today, entry_views(existing@)) == Ok::<
                    int,
                    ValidationError,
                >(v.duration_hours as int)
                &&& v.date@ == normalized_date(payload.date@)
                &&& v.description@ == payload.description@
                &&& day == Some(v.work_date)
            },
            Err(e) => outcome_given(*payload, day_triple(day), today, entry_views(existing@))
                == Err::<int, ValidationError>(e),
        },
{
    if payload.date.as_str().unicode_len() == 0 {
        return Err(ValidationError::BadDateFormat);
    }
    let work_date = match day {
        Some(d) => d,
        None => {
            return Err(ValidationError::BadDateFormat);
        },
    };
    if payload.description.as_str().unicode_len() == 0 {
        return Err(ValidationError::MissingDescription);
    }
    let hours = match positive_hours(&payload.hours) {
        Some(v) => v,
        None => {
            return Err(ValidationError::InvalidHours);
        },
    };
    let min_year: i64 = if today.month == 1 {
        today.year as i64 - 1
    } else {
        today.year as i64
    };
    if (work_date.year as i64) < min_year {
        return Err(
            ValidationError::YearOutOfRange {
                current_year: today.year,
                january_grace: today.month == 1,
            },
        );
    }
    if has_entry_for_date(existing, &payload.date) {
        return Err(ValidationError::DuplicateForDate);
    }
    Ok(
        ValidatedEntry {
            date: normalize_date(payload.date.as_str()),
            work_date,
            description: payload.description.clone(),
            duration_hours: hours,
        },
    )
}

/// Checks a submission: its date is read as a strict `YYYY-MM-DD` date,
/// then the checks run as `check_submission` describes.
pub fn validate_submission(
    payload: &CreateWorkHourRequest,
    today: Date,
    existing: &Vec<WorkHourEntry>,
) -> (r: Result<ValidatedEntry, ValidationError>)
    ensures
        match r {
            Ok(v) => {
                &&& submission_outcome(*payload, today, entry_views(existing@)) == Ok::<
                    int,
                    ValidationError,
                >(v.duration_hours as int)
                &&& v.date@ == normalized_date(payload.date@)
                &&& v.description@ == payload.description@
                &&& Some(v.work_date.triple()) == plain_date(payload.date@)
                &&& v.work_date.well_formed()
            },
            Err(e) => submission_outcome(*payload, today, entry_views(existing@)) == Err::<
                int,
                ValidationError,
            >(e),
        },
{
    let day = parse_calendar_date(payload.date.as_str());
    check_submission(payload, day, today, existing)
}

/// Checks a submission against today's UTC date.
pub fn validate_submission_today(
    payload: &CreateWorkHourRequest,
    existing: &Vec<WorkHourEntry>,
) -> (r: Result<ValidatedEntry, ValidationError>)
    ensures
        exists|today: Date|
            today.well_formed() && match r {
                Ok(v) => submission_outcome(*payload, today, entry_views(existing@)) == Ok::<
                    int,
                    ValidationError,
                >(v.duration_hours as int),
                Err(e) => submission_outcome(*payload, today, entry_views(existing@)) == Err::<
                    int,
                    ValidationError,
                >(e),
            },
{
    let (today, _) = now_utc();
    validate_submission(payload, today, existing)
}

/// A submission with a readable date and a description, whose duration is
/// not a number or not above zero, is refused for its duration.
pub proof fn lemma_bad_hours_rejected(
    p: CreateWorkHourRequest,
    today: Date,
    existing: Seq<EntrySpec>,
)
    requires
        p.date@.len() > 0,
        plain_date(p.date@) is Some,
        p.description@.len() > 0,
        hours_value(p.hours) is None || hours_value(p.hours)->0 <= 0,
    ensures
        submission_outcome(p, today, existing) == Err::<int, ValidationError>(
            ValidationError::InvalidHours,
        ),
{
}

/// Once a submission is accepted and its entry stored, a second submission
/// for the same day is refused as a duplicate, whatever its description and
/// duration.
pub proof fn lemma_second_submission_is_duplicate(
    first: CreateWorkHourRequest,
    second: CreateWorkHourRequest,
    today: Date,
    existing: Seq<EntrySpec>,
    stored: EntrySpec,
)
    requires
        submission_outcome(first, today, existing) is Ok,
        stored.date == normalized_date(first.date@),
        second.date@ == first.date@,
        second.description@.len() > 0,
        hours_value(second.hours) is Some,
        hours_value(second.hours)->0 > 0,
    ensures
        submission_outcome(second, today, existing.push(stored)) == Err::<int, ValidationError>(
            ValidationError::DuplicateForDate,
        ),
{
    crate::date::lemma_normalize_round_trip(first.date@, Seq::empty());
    let all = existing.push(stored);
    assert(all[existing.len() as int] == stored);
    assert(normalized_date(all[existing.len() as int].date) == normalized_date(second.date@));
}

/// A date in the previous year passes the year check in January and fails
/// it in February.
pub proof fn lemma_january_grace(
    p: CreateWorkHourRequest,
    today: Date,
    existing: Seq<EntrySpec>,
)
    requires
        p.date@.len() > 0,
        plain_date(p.date@) is Some,
        year_of(plain_date(p.date@)->0) == today.year - 1,
    ensures
        today.month == 1 ==> !(submission_outcome(p, today, existing) is Err
            && submission_outcome(p, today, existing)->Err_0 is YearOutOfRange),
        today.month == 2 && p.description@.len() > 0 && hours_value(p.hours) is Some
            && hours_value(p.hours)->0 > 0 ==> submission_outcome(p, today, existing) == Err::<
            int,
            ValidationError,
        >(ValidationError::YearOutOfRange { current_year: today.year, january_grace: false }),
{
}

} // verus!
