//! The records the library reads and the summaries it produces.
//!
//! Durations are held in hundredths of an hour (`250` is two and a half
//! hours), which makes rounding to two decimals exact.
use vstd::prelude::*;
use vstd::string::*;

verus! {

/// A club member as the member directory returns it.
pub struct Member {
    pub id: String,
    pub first_name: String,
    pub last_name: String,
    pub email: String,
    /// Family identifier; absent or empty when the member has no family.
    pub family_id: Option<String>,
    /// Birth date, a plain date or a full date-time; may be absent or empty.
    pub birth_date: Option<String>,
    /// Date of joining the club, a plain date or a full date-time.
    pub join_date: Option<String>,
}

/// First name, a space, last name.
pub open spec fn full_name(first: Seq<char>, last: Seq<char>) -> Seq<char> {
    first + seq![' '] + last
}

impl Member {
    /// The display name: first name, a space, last name.
    pub fn name(&self) -> (r: String)
        ensures
            r@ == full_name(self.first_name@, self.last_name@),
    {
        let mut n = self.first_name.clone();
        n.append(" ");
        n.append(self.last_name.as_str());
        proof {
            reveal_strlit(" ");
        }
        n
    }
}

/// The member link of a work-hour record, which the records service sends
/// either as a bare id or as a linked object that may carry an id.
pub enum MemberRef {
    Plain(String),
    Linked(Option<String>),
    Unrecognized,
}

/// A work-hour record as the records service holds it. Any field but the id
/// may be missing.
pub struct WorkHour {
    pub id: String,
    pub member: Option<MemberRef>,
    pub date: Option<String>,
    pub description: Option<String>,
    /// Duration in hundredths of an hour.
    pub duration_hours: Option<u64>,
}

impl WorkHour {
    /// The id of the member that the record is linked to, if it names one.
    pub open spec fn member_id_spec(&self) -> Option<Seq<char>> {
        match self.member {
            Some(MemberRef::Plain(s)) => Some(s@),
            Some(MemberRef::Linked(Some(s))) => Some(s@),
            _ => None,
        }
    }

    /// Extracts the member id from the linked-record field.
    pub fn get_member_id(&self) -> (r: Option<String>)
        ensures
            match r {
                Some(s) => self.member_id_spec() == Some(s@),
                None => self.member_id_spec() is None,
            },
    {
        match &self.member {
            Some(MemberRef::Plain(s)) => Some(s.clone()),
            Some(MemberRef::Linked(Some(s))) => Some(s.clone()),
            _ => None,
        }
    }
}

/// One completed, normalised work-hour entry.
pub struct WorkHourEntry {
    pub id: String,
    /// `YYYY-MM-DD`.
    pub date: String,
    pub description: String,
    /// Hundredths of an hour.
    pub duration_hours: u64,
}

/// The contents of a work-hour entry.
pub struct EntrySpec {
    pub id: Seq<char>,
    pub date: Seq<char>,
    pub description: Seq<char>,
    pub duration_hours: u64,
}

impl View for WorkHourEntry {
    type V = EntrySpec;

    open spec fn view(&self) -> EntrySpec {
        EntrySpec {
            id: self.id@,
            date: self.date@,
            description: self.description@,
            duration_hours: self.duration_hours,
        }
    }
}

impl WorkHourEntry {
    /// A field-by-field copy.
    pub fn duplicate(&self) -> (r: WorkHourEntry)
        ensures
            r@ == self@,
    {
        WorkHourEntry {
            id: self.id.clone(),
            date: self.date.clone(),
            description: self.description.clone(),
            duration_hours: self.duration_hours,
        }
    }
}

pub open spec fn entry_views(s: Seq<WorkHourEntry>) -> Seq<EntrySpec> {
    s.map_values(|e: WorkHourEntry| e@)
}

pub proof fn lemma_entry_views_push(s: Seq<WorkHourEntry>, e: WorkHourEntry)
    ensures
        entry_views(s.push(e)) == entry_views(s).push(e@),
{
    assert(entry_views(s.push(e)) =~= entry_views(s).push(e@));
}

/// A member as listed in a family summary.
pub struct FamilyMember {
    pub id: String,
    pub name: String,
    pub email: String,
}

/// One member's totals for a year.
pub struct PersonalData {
    pub name: String,
    /// Completed hundredths of an hour.
    pub hours: u64,
    /// Required hundredths of an hour.
    pub required: u64,
    pub entries: Vec<WorkHourEntry>,
}

/// One family member's share in a family summary.
pub struct MemberContribution {
    pub id: String,
    pub name: String,
    pub hours: u64,
    pub required: u64,
    pub entries: Vec<WorkHourEntry>,
}

/// A family's totals for a year.
pub struct FamilyData {
    pub name: String,
    pub members: Vec<FamilyMember>,
    /// Sum of the members' required hundredths of an hour.
    pub required: u64,
    /// Sum of the members' completed hundredths of an hour.
    pub completed: u64,
    /// What is still owed, never below zero.
    pub remaining: u64,
    /// Completion in hundredths of a percent (`10000` is 100 %).
    pub percentage: u64,
    pub member_contributions: Vec<MemberContribution>,
}

/// The dashboard of one member for one year.
pub struct DashboardResponse {
    pub success: bool,
    pub family: Option<FamilyData>,
    pub personal: Option<PersonalData>,
    pub year: i32,
}

/// A list of records with the count the records service reported.
pub struct TeableResponse<T> {
    pub results: Vec<T>,
    pub count: Option<usize>,
}

pub struct LoginRequest {
    pub email: String,
    pub password: String,
}

pub struct UserResponse {
    pub id: String,
    pub name: String,
    pub email: String,
}

pub struct LoginResponse {
    pub success: bool,
    pub token: String,
    pub user: UserResponse,
}

pub struct RegisterRequest {
    pub name: String,
    pub email: String,
    pub password: String,
}

pub struct ForgotPasswordRequest {
    pub email: String,
}

/// A local sign-in account to create.
pub struct CreateUserRequest {
    pub email: String,
    pub password: String,
}

pub struct ResetPasswordRequest {
    pub token: String,
    pub password: String,
    pub id: Option<String>,
}

} // verus!
