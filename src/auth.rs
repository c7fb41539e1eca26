//! The decisions around sign-in tokens: what a bearer header carries, which
//! subjects are refused, and what the claims of a new token hold.
use crate::numeral::{all_digits, digits_value, is_digit};
use vstd::prelude::*;

verus! {

/// How long a sign-in token lasts, in seconds (24 hours).
pub const TOKEN_LIFETIME_SECS: usize = 86400;

/// How long a member-selection token lasts, in seconds (5 minutes).
pub const SELECTION_TOKEN_LIFETIME_SECS: usize = 300;

/// The claims of a sign-in token.
pub struct AuthClaims {
    /// The member id.
    pub sub: String,
    /// Expiry, in seconds since the Unix epoch.
    pub exp: usize,
    /// Issue time, in seconds since the Unix epoch.
    pub iat: usize,
}

/// The claims of a short-lived token that lets a user pick one of the
/// members sharing an email address.
pub struct SelectionTokenClaims {
    /// The email address.
    pub sub: String,
    pub exp: usize,
    /// Always `selection`.
    pub typ: String,
}

/// Why a request is not let in.
#[derive(Clone, Copy, Debug, PartialEq, Eq, Structural)]
pub enum AuthError {
    Unauthorized,
}

/// The claims of a sign-in token for `user_id` issued at `now`.
pub fn auth_claims(user_id: &str, now: usize) -> (r: AuthClaims)
    requires
        now + TOKEN_LIFETIME_SECS <= usize::MAX,
    ensures
        r.sub@ == user_id@,
        r.iat == now,
        r.exp == now + TOKEN_LIFETIME_SECS,
{
    AuthClaims { sub: user_id.to_owned(), exp: now + TOKEN_LIFETIME_SECS, iat: now }
}

/// The claims of a selection token for `email` issued at `now`.
pub fn selection_claims(email: &str, now: usize) -> (r: SelectionTokenClaims)
    requires
        now + SELECTION_TOKEN_LIFETIME_SECS <= usize::MAX,
    ensures
        r.sub@ == email@,
        r.exp == now + SELECTION_TOKEN_LIFETIME_SECS,
        r.typ@ == "selection"@,
{
    proof {
        reveal_strlit("selection");
    }
    SelectionTokenClaims {
        sub: email.to_owned(),
        exp: now + SELECTION_TOKEN_LIFETIME_SECS,
        typ: "selection".to_owned(),
    }
}

/// Whether decoded selection claims are of the selection kind.
pub fn is_selection_kind(claims: &SelectionTokenClaims) -> (r: bool)
    ensures
        r == (claims.typ@ == "selection"@),
{
    proof {
        reveal_strlit("selection");
    }
    let expected = "selection".to_owned();
    claims.typ == expected
}

pub open spec fn bearer_prefix() -> Seq<char> {
    "Bearer "@
}

/// The token of an `Authorization` header value of the form `Bearer <token>`.
pub open spec fn bearer_of(h: Seq<char>) -> Option<Seq<char>> {
    if h.len() >= 7 && h.subrange(0, 7) == bearer_prefix() {
        Some(h.subrange(7, h.len() as int))
    } else {
        None
    }
}

/// Takes the token out of an `Authorization` header value.
pub fn bearer_token(header: &str) -> (r: Option<String>)
    ensures
        match r {
            Some(t) => bearer_of(header@) == Some(t@),
            None => bearer_of(header@) is None,
        },
{
    proof {
        reveal_strlit("Bearer ");
    }
    let n = header.unicode_len();
    if n < 7 {
        return None;
    }
    let prefix = header.substring_char(0, 7).to_owned();
    let expected = "Bearer ".to_owned();
    if prefix == expected {
        Some(header.substring_char(7, n).to_owned())
    } else {
        None
    }
}

/// The digits of an unsigned numeral, after an optional `+`.
pub open spec fn unsigned_digits(s: Seq<char>) -> Seq<char> {
    if s.len() > 0 && s[0] == '+' {
        s.drop_first()
    } else {
        s
    }
}

/// Whether `s` reads as a `u32`: an optional `+`, then one or more digits
/// whose value is at most `u32::MAX`.
pub open spec fn reads_as_u32(s: Seq<char>) -> bool {
    let d = unsigned_digits(s);
    d.len() > 0 && all_digits(d) && digits_value(d) <= u32::MAX
}

/// A subject of an older token format: a number rather than a member id.
pub open spec fn legacy_subject(s: Seq<char>) -> bool {
    s == "0"@ || reads_as_u32(s)
}

pub open spec fn min_int(a: int, b: int) -> int {
    if a < b {
        a
    } else {
        b
    }
}

/// Whether the characters of `s` from `from` on are digits whose value fits
/// a `u32`.
fn digits_fit_u32(s: &str, from: usize) -> (r: bool)
    requires
        from <= s@.len(),
    ensures
        r == (all_digits(s@.subrange(from as int, s@.len() as int)) && digits_value(
            s@.subrange(from as int, s@.len() as int),
        ) <= u32::MAX),
{
    let n = s.unicode_len();
    let ghost part = s@.subrange(from as int, n as int);
    let cap: u64 = 0x1_0000_0000;
    let mut acc: u64 = 0;
    let mut i: usize = 0;
    while i < n - from
        invariant
            n == s@.len(),
            from <= n,
            i <= n - from,
            part == s@.subrange(from as int, n as int),
            all_digits(part.subrange(0, i as int)),
            acc == min_int(digits_value(part.subrange(0, i as int)), cap as int),
            cap == 0x1_0000_0000,
        decreases n - from - i,
    {
        let c = s.get_char(from + i);
        if !('0' <= c && c <= '9') {
            assert(part[i as int] == c);
            return false;
        }
        proof {
            let pre = part.subrange(0, i as int);
            let next = part.subrange(0, i + 1);
            assert(next.drop_last() == pre);
            assert(next.last() == c);
            assert(all_digits(next)) by {
                assert forall|j: int| 0 <= j < next.len() implies is_digit(#[trigger] next[j]) by {
                    if j < i {
                        assert(next[j] == pre[j]);
                    }
                }
            }
            crate::numeral::lemma_digits_value_bound(pre);
            let v = digits_value(pre);
            let d = c as int - '0' as int;
            assert(v >= cap ==> v * 10 + d >= cap) by (nonlinear_arith)
                requires
                    0 <= d <= 9,
                    cap > 0,
            ;
        }
        if acc < cap {
            let t = acc * 10 + (c as u64 - '0' as u64);
            acc = if t < cap {
                t
            } else {
                cap
            };
        }
        i = i + 1;
    }
    assert(part.subrange(0, (n - from) as int) == part);
    acc < cap
}

/// Whether a token subject belongs to the older, numeric format.
pub fn is_legacy_subject(sub: &str) -> (r: bool)
    ensures
        r == legacy_subject(sub@),
{
    proof {
        reveal_strlit("0");
    }
    let n = sub.unicode_len();
    if n == 1 && sub.get_char(0) == '0' {
        assert(sub@ =~= "0"@);
        return true;
    }
    if n == 0 {
        return false;
    }
    let from: usize = if sub.get_char(0) == '+' {
        1
    } else {
        0
    };
    if from == n {
        return false;
    }
    proof {
        if from == 1 {
            assert(sub@.subrange(1, n as int) =~= sub@.drop_first());
        } else {
            assert(sub@.subrange(0, n as int) =~= sub@);
        }
    }
    digits_fit_u32(sub, from)
}

/// Accepts the subject of a verified sign-in token as the acting member id,
/// unless it is of the older, numeric format.
pub fn accept_subject(sub: String) -> (r: Result<String, AuthError>)
    ensures
        match r {
            Ok(id) => id@ == sub@ && !legacy_subject(sub@),
            Err(_) => legacy_subject(sub@),
        },
{
    if is_legacy_subject(sub.as_str()) {
        Err(AuthError::Unauthorized)
    } else {
        Ok(sub)
    }
}

} // verus!
