//! The keys that requests are rate-limited by.
use crate::date::{find_char, first_index, lemma_first_index_bounds};
use vstd::prelude::*;

verus! {

/// Rate-limits signed-in requests by the member id in their token.
pub struct UserKeyExtractor;

/// Rate-limits requests before sign-in by the client's address.
pub struct IpKeyExtractor;

impl UserKeyExtractor {
    pub fn name(&self) -> (r: &'static str)
        ensures
            r@ == "user_id"@,
    {
        "user_id"
    }
}

impl IpKeyExtractor {
    pub fn name(&self) -> (r: &'static str)
        ensures
            r@ == "client_ip"@,
    {
        "client_ip"
    }
}

/// What `str::trim` makes of a string.
pub uninterp spec fn trimmed_of(s: Seq<char>) -> Seq<char>;

/// Relies on `str::trim`: leading and trailing whitespace removed; the
/// result depends on the characters alone.
#[verifier::external_body]
fn trim(s: &str) -> (r: String)
    ensures
        r@ == trimmed_of(s@),
{
    s.trim().to_string()
}

/// The first entry of an `X-Forwarded-For` list: what stands before the first comma.
pub open spec fn first_forwarded(s: Seq<char>) -> Seq<char> {
    s.subrange(0, first_index(s, ','))
}

/// A header value trimmed, unless nothing is left.
pub open spec fn usable(v: Option<Seq<char>>) -> Option<Seq<char>> {
    match v {
        Some(s) => if trimmed_of(s).len() > 0 {
            Some(trimmed_of(s))
        } else {
            None
        },
        None => None,
    }
}

pub open spec fn forwarded_entry(v: Option<Seq<char>>) -> Option<Seq<char>> {
    match v {
        Some(s) => Some(first_forwarded(s)),
        None => None,
    }
}

/// The client address: the first entry of `X-Forwarded-For`, else
/// `X-Real-IP`, else `CF-Connecting-IP`, each trimmed and only where it is
/// not empty.
pub open spec fn client_address_spec(
    forwarded_for: Option<Seq<char>>,
    real_ip: Option<Seq<char>>,
    cf_connecting_ip: Option<Seq<char>>,
) -> Option<Seq<char>> {
    if usable(forwarded_entry(forwarded_for)) is Some {
        usable(forwarded_entry(forwarded_for))
    } else if usable(real_ip) is Some {
        usable(real_ip)
    } else {
        usable(cf_connecting_ip)
    }
}

pub open spec fn opt_view(v: Option<&str>) -> Option<Seq<char>> {
    match v {
        Some(s) => Some(s@),
        None => None,
    }
}

pub open spec fn nonempty(v: Option<Seq<char>>) -> Option<Seq<char>> {
    match v {
        Some(s) => if s.len() > 0 {
            Some(s)
        } else {
            None
        },
        None => None,
    }
}

pub open spec fn opt_string_view(v: Option<String>) -> Option<Seq<char>> {
    match v {
        Some(s) => Some(s@),
        None => None,
    }
}

/// The first of three already trimmed header values that is not empty.
pub fn first_nonempty(a: Option<String>, b: Option<String>, c: Option<String>) -> (r: Option<String>)
    ensures
        opt_string_view(r) == if nonempty(opt_string_view(a)) is Some {
            nonempty(opt_string_view(a))
        } else if nonempty(opt_string_view(b)) is Some {
            nonempty(opt_string_view(b))
        } else {
            nonempty(opt_string_view(c))
        },
{
    match a {
        Some(s) if s.as_str().unicode_len() > 0 => return Some(s),
        _ => {},
    }
    match b {
        Some(s) if s.as_str().unicode_len() > 0 => return Some(s),
        _ => {},
    }
    match c {
        Some(s) if s.as_str().unicode_len() > 0 => Some(s),
        _ => None,
    }
}

fn trimmed(v: Option<&str>) -> (r: Option<String>)
    ensures
        opt_string_view(r) == match v {
            Some(s) => Some(trimmed_of(s@)),
            None => None,
        },
{
    match v {
        Some(s) => Some(trim(s)),
        None => None,
    }
}

impl IpKeyExtractor {
    /// The client address taken from the proxy headers, where one is given.
    pub fn client_address(
        &self,
        forwarded_for: Option<&str>,
        real_ip: Option<&str>,
        cf_connecting_ip: Option<&str>,
    ) -> (r: Option<String>)
        ensures
            match r {
                Some(s) => client_address_spec(
                    opt_view(forwarded_for),
                    opt_view(real_ip),
                    opt_view(cf_connecting_ip),
                ) == Some(s@),
                None => client_address_spec(
                    opt_view(forwarded_for),
                    opt_view(real_ip),
                    opt_view(cf_connecting_ip),
                ) is None,
            },
    {
        let first: Option<&str> = match forwarded_for {
            Some(f) => {
                let k = find_char(f, ',');
                proof {
                    lemma_first_index_bounds(f@, ',');
                }
                Some(f.substring_char(0, k))
            },
            None => None,
        };
        assert(opt_view(first) == forwarded_entry(opt_view(forwarded_for)));
        first_nonempty(trimmed(first), trimmed(real_ip), trimmed(cf_connecting_ip))
    }
}

} // verus!
