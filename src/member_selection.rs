//! Sign-in when several members share one email address.
use crate::models::{full_name, LoginResponse, Member, UserResponse};
use vstd::prelude::*;

verus! {

/// The answer to a sign-in: a token for the one member, or the list of
/// members to choose from.
pub enum LoginResponseVariant {
    SingleUser(LoginResponse),
    MultipleUsers(MemberSelectionResponse),
}

/// The members sharing an email address, and a token to pick one of them.
pub struct MemberSelectionResponse {
    pub success: bool,
    pub multiple: bool,
    pub users: Vec<UserResponse>,
    pub selection_token: String,
    pub message: String,
}

/// The member picked after a sign-in that matched several.
pub struct SelectMemberRequest {
    pub member_id: String,
    pub selection_token: Option<String>,
}

/// Where a sign-in goes, given the members found for its email address.
#[derive(Clone, Copy, Debug, PartialEq, Eq, Structural)]
pub enum LoginChoice {
    /// No member has the address: the sign-in is refused.
    NoMember,
    /// Exactly one member: a token is issued for it.
    Single,
    /// Several members: the user picks one.
    Multiple,
}

/// Chooses how a sign-in proceeds from the number of members found.
pub fn login_choice(members: &Vec<Member>) -> (r: LoginChoice)
    ensures
        members@.len() == 0 ==> r == LoginChoice::NoMember,
        members@.len() == 1 ==> r == LoginChoice::Single,
        members@.len() > 1 ==> r == LoginChoice::Multiple,
{
    if members.len() == 0 {
        LoginChoice::NoMember
    } else if members.len() == 1 {
        LoginChoice::Single
    } else {
        LoginChoice::Multiple
    }
}

/// The public view of a member: id, display name, email.
pub fn user_response(m: &Member) -> (r: UserResponse)
    ensures
        r.id@ == m.id@,
        r.name@ == full_name(m.first_name@, m.last_name@),
        r.email@ == m.email@,
{
    UserResponse { id: m.id.clone(), name: m.name(), email: m.email.clone() }
}

/// The public views of `members`, in order.
pub fn user_responses(members: &Vec<Member>) -> (r: Vec<UserResponse>)
    ensures
        r@.len() == members@.len(),
        forall|i: int|
            0 <= i < members@.len() ==> {
                &&& (#[trigger] r@[i]).id@ == members@[i].id@
                &&& r@[i].name@ == full_name(members@[i].first_name@, members@[i].last_name@)
                &&& r@[i].email@ == members@[i].email@
            },
{
    let mut out: Vec<UserResponse> = Vec::new();
    let mut i: usize = 0;
    while i < members.len()
        invariant
            i <= members@.len(),
            out@.len() == i,
            forall|k: int|
                0 <= k < i ==> {
                    &&& (#[trigger] out@[k]).id@ == members@[k].id@
                    &&& out@[k].name@ == full_name(members@[k].first_name@, members@[k].last_name@)
                    &&& out@[k].email@ == members@[k].email@
                },
        decreases members@.len() - i,
    {
        out.push(user_response(&members[i]));
        i = i + 1;
    }
    out
}

/// What `str::to_lowercase` makes of a string.
pub uninterp spec fn lowercase_of(s: Seq<char>) -> Seq<char>;

/// Relies on `str::to_lowercase`: the result depends on the characters alone.
#[verifier::external_body]
fn lowercase(s: &str) -> (r: String)
    ensures
        r@ == lowercase_of(s@),
{
    s.to_lowercase()
}

/// An email address in the form used for lookups: lower case.
pub fn normalize_email(email: &str) -> (r: String)
    ensures
        r@ == lowercase_of(email@),
{
    lowercase(email)
}

/// Whether two email addresses are the same, ignoring case.
pub fn same_email(a: &str, b: &str) -> (r: bool)
    ensures
        r == (lowercase_of(a@) == lowercase_of(b@)),
{
    let x = lowercase(a);
    let y = lowercase(b);
    x == y
}

} // verus!
