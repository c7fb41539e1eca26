//! Personal and family totals of completed and required work hours.
use crate::date::{normalize_date, normalized_date};
use crate::numeral::{digit_value, is_digit};
use crate::eligibility::{field_day, get_member_work_hours_info, required_spec};
use crate::models::{
    entry_views, full_name, lemma_entry_views_push, EntrySpec, FamilyData, FamilyMember, Member,
    MemberContribution, PersonalData, WorkHour, WorkHourEntry,
};
use vstd::prelude::*;

verus! {

/// `x`, or `u64::MAX` where `x` is larger: totals stop at the largest `u64`.
pub open spec fn capped(x: int) -> int {
    if x > u64::MAX {
        u64::MAX as int
    } else {
        x
    }
}

/// Adds two amounts, stopping at `u64::MAX`.
pub fn add_capped(a: u64, b: u64) -> (r: u64)
    ensures
        r == capped(a + b),
{
    if a > u64::MAX - b {
        u64::MAX
    } else {
        a + b
    }
}

/// The entry a record yields: one with a date, a description and a duration,
/// its date normalised; a record missing any of them yields none.
pub open spec fn entry_of(w: WorkHour) -> Option<EntrySpec> {
    match (w.date, w.description, w.duration_hours) {
        (Some(d), Some(t), Some(h)) => Some(
            EntrySpec { id: w.id@, date: normalized_date(d@), description: t@, duration_hours: h },
        ),
        _ => None,
    }
}

/// The entries of a list of records, in order.
pub open spec fn converted(ws: Seq<WorkHour>) -> Seq<EntrySpec>
    decreases ws.len(),
{
    if ws.len() == 0 {
        Seq::empty()
    } else {
        match entry_of(ws.last()) {
            Some(e) => converted(ws.drop_last()).push(e),
            None => converted(ws.drop_last()),
        }
    }
}

/// Turns records into entries, skipping those with a missing field.
pub fn convert_work_hours_to_entries(work_hours: &Vec<WorkHour>) -> (r: Vec<WorkHourEntry>)
    ensures
        entry_views(r@) == converted(work_hours@),
{
    let mut out: Vec<WorkHourEntry> = Vec::new();
    let mut i: usize = 0;
    while i < work_hours.len()
        invariant
            i <= work_hours@.len(),
            entry_views(out@) == converted(work_hours@.subrange(0, i as int)),
        decreases work_hours@.len() - i,
    {
        let w = &work_hours[i];
        proof {
            assert(work_hours@.subrange(0, i + 1).drop_last() == work_hours@.subrange(0, i as int));
            assert(work_hours@.subrange(0, i + 1).last() == w);
        }
        match (&w.date, &w.description, w.duration_hours) {
            (Some(d), Some(t), Some(h)) => {
                let e = WorkHourEntry {
                    id: w.id.clone(),
                    date: normalize_date(d.as_str()),
                    description: t.clone(),
                    duration_hours: h,
                };
                proof {
                    lemma_entry_views_push(out@, e);
                }
                out.push(e);
            },
            _ => {},
        }
        i = i + 1;
    }
    proof {
        assert(work_hours@.subrange(0, work_hours@.len() as int) == work_hours@);
    }
    out
}

/// The year a `YYYY-MM-DD` string starts with: four digits and a dash.
pub open spec fn year_prefix(s: Seq<char>) -> Option<int> {
    if s.len() >= 5 && is_digit(s[0]) && is_digit(s[1]) && is_digit(s[2]) && is_digit(s[3])
        && s[4] == '-' {
        Some(
            1000 * digit_value(s[0]) + 100 * digit_value(s[1]) + 10 * digit_value(s[2])
                + digit_value(s[3]),
        )
    } else {
        None
    }
}

/// Reads the year a date string starts with.
pub fn date_year(s: &str) -> (r: Option<i32>)
    ensures
        match r {
            Some(y) => year_prefix(s@) == Some(y as int),
            None => year_prefix(s@) is None,
        },
{
    if s.unicode_len() < 5 {
        return None;
    }
    let c0 = s.get_char(0);
    let c1 = s.get_char(1);
    let c2 = s.get_char(2);
    let c3 = s.get_char(3);
    let c4 = s.get_char(4);
    if '0' <= c0 && c0 <= '9' && '0' <= c1 && c1 <= '9' && '0' <= c2 && c2 <= '9' && '0' <= c3
        && c3 <= '9' && c4 == '-' {
        let y: i32 = 1000 * (c0 as i32 - '0' as i32) + 100 * (c1 as i32 - '0' as i32) + 10 * (
        c2 as i32 - '0' as i32) + (c3 as i32 - '0' as i32);
        Some(y)
    } else {
        None
    }
}

/// The entries dated in `year`, in order.
pub open spec fn entries_in_year(es: Seq<EntrySpec>, year: int) -> Seq<EntrySpec>
    decreases es.len(),
{
    if es.len() == 0 {
        Seq::empty()
    } else if year_prefix(es.last().date) == Some(year) {
        entries_in_year(es.drop_last(), year).push(es.last())
    } else {
        entries_in_year(es.drop_last(), year)
    }
}

/// The exact sum of the entries' durations.
pub open spec fn hours_sum(es: Seq<EntrySpec>) -> int
    decreases es.len(),
{
    if es.len() == 0 {
        0
    } else {
        hours_sum(es.drop_last()) + es.last().duration_hours
    }
}

pub proof fn lemma_hours_sum_nonneg(es: Seq<EntrySpec>)
    ensures
        hours_sum(es) >= 0,
    decreases es.len(),
{
    if es.len() > 0 {
        lemma_hours_sum_nonneg(es.drop_last());
    }
}

/// A member's completed hours in `year`: the sum of the entries dated then.
pub open spec fn personal_total(es: Seq<EntrySpec>, year: int) -> int {
    capped(hours_sum(entries_in_year(es, year)))
}

/// The required hours of a member in `year`.
pub open spec fn required_of(m: Member, year: int) -> int {
    required_spec(field_day(m.birth_date), field_day(m.join_date), year).hours as int
}

/// Sum of the durations of `entries`, stopping at `u64::MAX`.
pub fn calculate_total_hours(entries: &Vec<WorkHourEntry>) -> (r: u64)
    ensures
        r == capped(hours_sum(entry_views(entries@))),
{
    let mut acc: u64 = 0;
    let mut i: usize = 0;
    while i < entries.len()
        invariant
            i <= entries@.len(),
            acc == capped(hours_sum(entry_views(entries@).subrange(0, i as int))),
        decreases entries@.len() - i,
    {
        proof {
            let s = entry_views(entries@);
            assert(s.subrange(0, i + 1).drop_last() == s.subrange(0, i as int));
            lemma_hours_sum_nonneg(s.subrange(0, i as int));
        }
        acc = add_capped(acc, entries[i].duration_hours);
        i = i + 1;
    }
    proof {
        assert(entry_views(entries@).subrange(0, entries@.len() as int) == entry_views(entries@));
    }
    acc
}

/// The entries dated in `year`, copied in order.
pub fn filter_entries_by_year(entries: &Vec<WorkHourEntry>, year: i32) -> (r: Vec<WorkHourEntry>)
    ensures
        entry_views(r@) == entries_in_year(entry_views(entries@), year as int),
{
    let mut out: Vec<WorkHourEntry> = Vec::new();
    let mut i: usize = 0;
    while i < entries.len()
        invariant
            i <= entries@.len(),
            entry_views(out@) == entries_in_year(entry_views(entries@).subrange(0, i as int), year as int),
        decreases entries@.len() - i,
    {
        proof {
            let s = entry_views(entries@);
            assert(s.subrange(0, i + 1).drop_last() == s.subrange(0, i as int));
            assert(s.subrange(0, i + 1).last() == entries@[i as int]@);
        }
        let y = date_year(entries[i].date.as_str());
        if y == Some(year) {
            let e = entries[i].duplicate();
            proof {
                lemma_entry_views_push(out@, e);
            }
            out.push(e);
        }
        i = i + 1;
    }
    proof {
        assert(entry_views(entries@).subrange(0, entries@.len() as int) == entry_views(entries@));
    }
    out
}

/// A member's summary for `year`: the entries dated in that year, their total
/// and the member's requirement.
pub fn aggregate_personal(member: &Member, year: i32, entries: &Vec<WorkHourEntry>) -> (r:
    PersonalData)
    ensures
        r.name@ == full_name(member.first_name@, member.last_name@),
        entry_views(r.entries@) == entries_in_year(entry_views(entries@), year as int),
        r.hours == personal_total(entry_views(entries@), year as int),
        r.required == required_of(*member, year as int),
{
    let kept = filter_entries_by_year(entries, year);
    let hours = calculate_total_hours(&kept);
    let required = get_member_work_hours_info(member, year);
    PersonalData { name: member.name(), hours, required: required.hours, entries: kept }
}

/// The entries fetched for the `i`-th family member; none where the list
/// holds nothing for it.
pub open spec fn member_entries(by_member: Seq<Vec<WorkHourEntry>>, i: int) -> Seq<EntrySpec> {
    if 0 <= i < by_member.len() {
        entry_views(by_member[i]@)
    } else {
        Seq::empty()
    }
}

/// Sum of the requirements of the first `n` members.
pub open spec fn family_required(members: Seq<Member>, year: int, n: int) -> int
    decreases n,
{
    if n <= 0 {
        0
    } else {
        family_required(members, year, n - 1) + required_of(members[n - 1], year)
    }
}

/// Sum of the completed hours of the first `n` members.
pub open spec fn family_completed(by_member: Seq<Vec<WorkHourEntry>>, year: int, n: int) -> int
    decreases n,
{
    if n <= 0 {
        0
    } else {
        family_completed(by_member, year, n - 1) + personal_total(member_entries(by_member, n - 1), year)
    }
}

/// What is still owed: `required - completed`, never below zero.
pub open spec fn remaining_spec(required: int, completed: int) -> int {
    if required > completed {
        required - completed
    } else {
        0
    }
}

/// Completion in hundredths of a percent, rounded half up; `10000` (100 %)
/// when nothing is required.
pub open spec fn percentage_spec(completed: int, required: int) -> int {
    if required == 0 {
        10000
    } else {
        capped((completed * 20000 + required) / (2 * required))
    }
}

pub fn remaining_hours(required: u64, completed: u64) -> (r: u64)
    ensures
        r == remaining_spec(required as int, completed as int),
{
    if required > completed {
        required - completed
    } else {
        0
    }
}

pub fn completion_percentage(completed: u64, required: u64) -> (r: u64)
    ensures
        r == percentage_spec(completed as int, required as int),
{
    if required == 0 {
        return 10000;
    }
    let c: u128 = completed as u128;
    let q: u128 = required as u128;
    proof {
        assert(c * 20000 <= 0xffff_ffff_ffff_ffffu128 * 20000) by (nonlinear_arith)
            requires
                c <= 0xffff_ffff_ffff_ffffu128,
        ;
    }
    let v = (c * 20000 + q) / (2 * q);
    if v > u64::MAX as u128 {
        u64::MAX
    } else {
        v as u64
    }
}

pub proof fn lemma_family_sums_nonneg(members: Seq<Member>, by_member: Seq<Vec<WorkHourEntry>>, year: int, n: int)
    ensures
        family_required(members, year, n) >= 0,
        family_completed(by_member, year, n) >= 0,
    decreases n,
{
    if n > 0 {
        lemma_family_sums_nonneg(members, by_member, year, n - 1);
        lemma_hours_sum_nonneg(entries_in_year(member_entries(by_member, n - 1), year));
    }
}

/// A family's summary for `year`. `entries_by_member[i]` holds the entries
/// fetched for `members[i]`; a member with no list there counts as having no
/// entries. Contributions keep the members' order.
pub fn aggregate_family(
    family_name: &String,
    members: &Vec<Member>,
    year: i32,
    entries_by_member: &Vec<Vec<WorkHourEntry>>,
) -> (r: FamilyData)
    ensures
        r.name@ == family_name@,
        r.members@.len() == members@.len(),
        r.member_contributions@.len() == members@.len(),
        forall|i: int|
            0 <= i < members@.len() ==> {
                &&& #[trigger] r.members@[i].id@ == members@[i].id@
                &&& r.members@[i].name@ == full_name(members@[i].first_name@, members@[i].last_name@)
                &&& r.members@[i].email@ == members@[i].email@
            },
        forall|i: int|
            0 <= i < members@.len() ==> {
                let c = #[trigger] r.member_contributions@[i];
                &&& c.id@ == members@[i].id@
                &&& c.name@ == full_name(members@[i].first_name@, members@[i].last_name@)
                &&& c.hours == personal_total(member_entries(entries_by_member@, i), year as int)
                &&& c.required == required_of(members@[i], year as int)
                &&& entry_views(c.entries@) == entries_in_year(
                    member_entries(entries_by_member@, i),
                    year as int,
                )
            },
        r.required == capped(family_required(members@, year as int, members@.len() as int)),
        r.completed == capped(
            family_completed(entries_by_member@, year as int, members@.len() as int),
        ),
        r.remaining == remaining_spec(r.required as int, r.completed as int),
        r.percentage == percentage_spec(r.completed as int, r.required as int),
{
    let mut listed: Vec<FamilyMember> = Vec::new();
    let mut contributions: Vec<MemberContribution> = Vec::new();
    let mut required: u64 = 0;
    let mut completed: u64 = 0;
    let no_entries: Vec<WorkHourEntry> = Vec::new();
    let mut i: usize = 0;
    while i < members.len()
        invariant
            i <= members@.len(),
            no_entries@.len() == 0,
            listed@.len() == i,
            contributions@.len() == i,
            forall|k: int|
                0 <= k < i ==> {
                    &&& #[trigger] listed@[k].id@ == members@[k].id@
                    &&& listed@[k].name@ == full_name(members@[k].first_name@, members@[k].last_name@)
                    &&& listed@[k].email@ == members@[k].email@
                },
            forall|k: int|
                0 <= k < i ==> {
                    let c = #[trigger] contributions@[k];
                    &&& c.id@ == members@[k].id@
                    &&& c.name@ == full_name(members@[k].first_name@, members@[k].last_name@)
                    &&& c.hours == personal_total(member_entries(entries_by_member@, k), year as int)
                    &&& c.required == required_of(members@[k], year as int)
                    &&& entry_views(c.entries@) == entries_in_year(
                        member_entries(entries_by_member@, k),
                        year as int,
                    )
                },
            required == capped(family_required(members@, year as int, i as int)),
            completed == capped(family_completed(entries_by_member@, year as int, i as int)),
        decreases members@.len() - i,
    {
        let m = &members[i];
        let own: &Vec<WorkHourEntry> = if i < entries_by_member.len() {
            &entries_by_member[i]
        } else {
            &no_entries
        };
        proof {
            assert(entry_views(no_entries@) =~= Seq::<EntrySpec>::empty());
            assert(entry_views(own@) == member_entries(entries_by_member@, i as int));
            lemma_family_sums_nonneg(members@, entries_by_member@, year as int, i as int);
        }
        let p = aggregate_personal(m, year, own);
        required = add_capped(required, p.required);
        completed = add_capped(completed, p.hours);
        listed.push(FamilyMember { id: m.id.clone(), name: m.name(), email: m.email.clone() });
        contributions.push(
            MemberContribution {
                id: m.id.clone(),
                name: p.name,
                hours: p.hours,
                required: p.required,
                entries: p.entries,
            },
        );
        i = i + 1;
    }
    let remaining = remaining_hours(required, completed);
    let percentage = completion_percentage(completed, required);
    FamilyData {
        name: family_name.clone(),
        members: listed,
        required,
        completed,
        remaining,
        percentage,
        member_contributions: contributions,
    }
}

/// Every entry kept for `year` is dated in `year`.
pub proof fn lemma_entries_in_year_match(es: Seq<EntrySpec>, year: int)
    ensures
        forall|k: int|
            0 <= k < entries_in_year(es, year).len() ==> year_prefix(
                #[trigger] entries_in_year(es, year)[k].date,
            ) == Some(year),
    decreases es.len(),
{
    if es.len() > 0 {
        lemma_entries_in_year_match(es.drop_last(), year);
    }
}

/// An entry dated in another year changes neither the kept entries nor the
/// total; one dated in the year adds exactly its duration, as long as the
/// total fits a `u64`.
pub proof fn lemma_personal_total_step(es: Seq<EntrySpec>, e: EntrySpec, year: int)
    ensures
        year_prefix(e.date) != Some(year) ==> entries_in_year(es.push(e), year) == entries_in_year(
            es,
            year,
        ) && personal_total(es.push(e), year) == personal_total(es, year),
        year_prefix(e.date) == Some(year) && hours_sum(entries_in_year(es, year))
            + e.duration_hours <= u64::MAX ==> personal_total(es.push(e), year) == personal_total(
            es,
            year,
        ) + e.duration_hours,
{
    assert(es.push(e).drop_last() == es);
    let kept = entries_in_year(es, year);
    assert(kept.push(e).drop_last() == kept);
    lemma_hours_sum_nonneg(kept);
}

/// The remaining hours are `max(required - completed, 0)`, never negative.
pub proof fn lemma_remaining_never_negative(required: int, completed: int)
    ensures
        remaining_spec(required, completed) >= 0,
        remaining_spec(required, completed) == if required >= completed {
            required - completed
        } else {
            0
        },
{
}

/// With nothing required, completion is 100 % whatever was completed.
pub proof fn lemma_nothing_required_is_complete(completed: int)
    ensures
        percentage_spec(completed, 0) == 10000,
{
}

} // verus!
