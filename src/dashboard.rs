//! The dashboard of a member for a year, and access to single work-hour records.
use crate::aggregate::{
    aggregate_family, aggregate_personal, entries_in_year, entry_of, member_entries,
    personal_total, required_of,
};
use crate::date::normalize_date;
use crate::models::{
    entry_views, full_name, DashboardResponse, FamilyData, Member, WorkHour, WorkHourEntry,
};
use crate::numeral::{all_digits, digits_value, MAX_WHOLE_DIGITS};
use vstd::prelude::*;

verus! {

/// The year a dashboard shows when the requested one cannot be read.
pub const DEFAULT_DASHBOARD_YEAR: i32 = 2024;

/// The family whose members a dashboard covers: the member's family
/// identifier, unless it is absent or empty.
pub open spec fn family_of(m: Member) -> Option<Seq<char>> {
    match m.family_id {
        Some(f) => if f@.len() > 0 {
            Some(f@)
        } else {
            None
        },
        None => None,
    }
}

/// The family identifier to fetch the members of, if any.
pub fn family_to_fetch(member: &Member) -> (r: Option<String>)
    ensures
        match r {
            Some(f) => family_of(*member) == Some(f@),
            None => family_of(*member) is None,
        },
{
    match &member.family_id {
        Some(f) => if f.as_str().unicode_len() > 0 {
            Some(f.clone())
        } else {
            None
        },
        None => None,
    }
}

/// Assembles the dashboard of `member` for `year` from the member's own
/// entries and, where the member has a family, from the family's members and
/// the entries fetched for each of them (`family_entries[i]` for
/// `family_members[i]`).
pub fn build_dashboard(
    member: &Member,
    year: i32,
    personal_entries: &Vec<WorkHourEntry>,
    family_members: &Vec<Member>,
    family_entries: &Vec<Vec<WorkHourEntry>>,
) -> (r: DashboardResponse)
    ensures
        r.success,
        r.year == year,
        r.personal is Some,
        ({
            let p = r.personal->0;
            &&& p.name@ == full_name(member.first_name@, member.last_name@)
            &&& entry_views(p.entries@) == entries_in_year(entry_views(personal_entries@), year as int)
            &&& p.hours == personal_total(entry_views(personal_entries@), year as int)
            &&& p.required == required_of(*member, year as int)
        }),
        r.family is Some <==> family_of(*member) is Some,
        r.family is Some ==> {
            let f = r.family->0;
            &&& f.name@ == family_of(*member)->0
            &&& f.member_contributions@.len() == family_members@.len()
            &&& forall|i: int|
                0 <= i < family_members@.len() ==> (#[trigger] f.member_contributions@[i]).hours
                    == personal_total(member_entries(family_entries@, i), year as int)
                    && f.member_contributions@[i].required == required_of(family_members@[i], year as int)
        },
{
    let personal = aggregate_personal(member, year, personal_entries);
    let family: Option<FamilyData> = match family_to_fetch(member) {
        Some(name) => Some(aggregate_family(&name, family_members, year, family_entries)),
        None => None,
    };
    DashboardResponse { success: true, family, personal: Some(personal), year }
}

/// The year a dashboard path names: one to nine decimal digits; anything
/// else gives none.
pub open spec fn path_year(s: Seq<char>) -> Option<int> {
    if 0 < s.len() <= MAX_WHOLE_DIGITS && all_digits(s) {
        Some(digits_value(s))
    } else {
        None
    }
}

/// Reads the requested year, falling back to the default one.
pub fn dashboard_year(s: &str) -> (r: i32)
    ensures
        r == match path_year(s@) {
            Some(y) => y,
            None => DEFAULT_DASHBOARD_YEAR as int,
        },
{
    let n = s.unicode_len();
    if n == 0 || n > MAX_WHOLE_DIGITS {
        return DEFAULT_DASHBOARD_YEAR;
    }
    match crate::numeral::read_digits(s, 0, n) {
        Some(v) => {
            assert(s@.subrange(0, n as int) == s@);
            v as i32
        },
        None => {
            assert(s@.subrange(0, n as int) == s@);
            DEFAULT_DASHBOARD_YEAR
        },
    }
}

/// Why a single work-hour record cannot be handed out.
#[derive(Clone, Copy, Debug, PartialEq, Eq, Structural)]
pub enum AccessError {
    /// Absent, or linked to another member: the two are not told apart.
    NotFound,
    /// The record lacks its date, description or duration.
    IncompleteData,
}

/// Whether a fetched record exists and is linked to `member_id`.
pub open spec fn owned_by(found: Option<WorkHour>, member_id: Seq<char>) -> bool {
    found is Some && found->0.member_id_spec() == Some(member_id)
}

/// Checks that a fetched record exists and belongs to the acting member.
pub fn check_work_hour_owner(found: &Option<WorkHour>, member_id: &String) -> (r: Result<
    (),
    AccessError,
>)
    ensures
        r is Ok <==> owned_by(*found, member_id@),
        r is Err ==> r->Err_0 == AccessError::NotFound,
{
    match found {
        Some(wh) => match wh.get_member_id() {
            Some(id) => if id == *member_id {
                Ok(())
            } else {
                Err(AccessError::NotFound)
            },
            None => Err(AccessError::NotFound),
        },
        None => Err(AccessError::NotFound),
    }
}

/// The entry of a fetched record for the acting member: refused as not found
/// unless the record belongs to the member, and as incomplete where a field
/// is missing.
pub fn work_hour_for_member(found: &Option<WorkHour>, member_id: &String) -> (r: Result<
    WorkHourEntry,
    AccessError,
>)
    ensures
        !owned_by(*found, member_id@) ==> r == Err::<WorkHourEntry, AccessError>(
            AccessError::NotFound,
        ),
        owned_by(*found, member_id@) ==> match r {
            Ok(e) => entry_of(found->0) == Some(e@),
            Err(x) => x == AccessError::IncompleteData && entry_of(found->0) is None,
        },
{
    if check_work_hour_owner(found, member_id).is_err() {
        return Err(AccessError::NotFound);
    }
    match found {
        Some(wh) => match (&wh.date, &wh.description, wh.duration_hours) {
            (Some(d), Some(t), Some(h)) => Ok(
                WorkHourEntry {
                    id: wh.id.clone(),
                    date: normalize_date(d.as_str()),
                    description: t.clone(),
                    duration_hours: h,
                },
            ),
            _ => Err(AccessError::IncompleteData),
        },
        None => Err(AccessError::NotFound),
    }
}

} // verus!
