//! Password-reset tokens: at most one per user, each with an expiry checked
//! when it is read.
use crate::date::now_utc;
use vstd::prelude::*;

verus! {

/// How long a reset token lasts, in seconds (24 hours).
pub const RESET_TOKEN_LIFETIME_SECS: i64 = 86400;

/// A password-reset token. Times are seconds since the Unix epoch.
pub struct ResetToken {
    pub token: String,
    pub user_id: String,
    pub created_at: i64,
    pub expires_at: i64,
}

/// The contents of a reset token.
pub struct TokenSpec {
    pub token: Seq<char>,
    pub user_id: Seq<char>,
    pub created_at: i64,
    pub expires_at: i64,
}

impl View for ResetToken {
    type V = TokenSpec;

    open spec fn view(&self) -> TokenSpec {
        TokenSpec {
            token: self.token@,
            user_id: self.user_id@,
            created_at: self.created_at,
            expires_at: self.expires_at,
        }
    }
}

impl ResetToken {
    /// A field-by-field copy.
    pub fn duplicate(&self) -> (r: ResetToken)
        ensures
            r@ == self@,
    {
        ResetToken {
            token: self.token.clone(),
            user_id: self.user_id.clone(),
            created_at: self.created_at,
            expires_at: self.expires_at,
        }
    }
}

/// The tokens of `s` that satisfy `f`, in order.
pub open spec fn retain(s: Seq<TokenSpec>, f: spec_fn(TokenSpec) -> bool) -> Seq<TokenSpec>
    decreases s.len(),
{
    if s.len() == 0 {
        Seq::empty()
    } else if f(s.last()) {
        retain(s.drop_last(), f).push(s.last())
    } else {
        retain(s.drop_last(), f)
    }
}

/// The last token of `s` named `t`.
pub open spec fn lookup(s: Seq<TokenSpec>, t: Seq<char>) -> Option<TokenSpec>
    decreases s.len(),
{
    if s.len() == 0 {
        None
    } else if s.last().token == t {
        Some(s.last())
    } else {
        lookup(s.drop_last(), t)
    }
}

pub open spec fn has_token(s: Seq<TokenSpec>, t: Seq<char>) -> bool {
    exists|i: int| 0 <= i < s.len() && (#[trigger] s[i]).token == t
}

pub open spec fn has_user(s: Seq<TokenSpec>, u: Seq<char>) -> bool {
    exists|i: int| 0 <= i < s.len() && (#[trigger] s[i]).user_id == u
}

/// No two tokens share a name, and no user holds two tokens.
pub open spec fn distinct_tokens(s: Seq<TokenSpec>) -> bool {
    forall|i: int, j: int|
        0 <= i < s.len() && 0 <= j < s.len() && i != j ==> (#[trigger] s[i]).token != (
        #[trigger] s[j]).token && s[i].user_id != s[j].user_id
}

/// The tokens of `s` that expire after `now`.
pub open spec fn unexpired_at(s: Seq<TokenSpec>, now: i64) -> Seq<TokenSpec> {
    retain(s, |e: TokenSpec| e.expires_at > now)
}

/// The expiry of a token issued at `now`, stopping at `i64::MAX`.
pub open spec fn expiry_of(now: i64) -> i64 {
    if now > i64::MAX - RESET_TOKEN_LIFETIME_SECS {
        i64::MAX
    } else {
        (now + RESET_TOKEN_LIFETIME_SECS) as i64
    }
}

/// Every token kept by `retain` stands in the original sequence, and the
/// order of any two of them is kept.
pub proof fn lemma_retain_subsequence(s: Seq<TokenSpec>, f: spec_fn(TokenSpec) -> bool)
    ensures
        retain(s, f).len() <= s.len(),
        forall|i: int| 0 <= i < retain(s, f).len() ==> f(#[trigger] retain(s, f)[i]),
        forall|i: int|
            0 <= i < retain(s, f).len() ==> exists|j: int|
                0 <= j < s.len() && s[j] == #[trigger] retain(s, f)[i],
        distinct_tokens(s) ==> distinct_tokens(retain(s, f)),
    decreases s.len(),
{
    if s.len() > 0 {
        let p = s.drop_last();
        lemma_retain_subsequence(p, f);
        let r = retain(s, f);
        let rp = retain(p, f);
        assert forall|i: int| 0 <= i < r.len() implies exists|j: int|
            0 <= j < s.len() && s[j] == #[trigger] r[i] by {
            if i < rp.len() {
                let j = choose|j: int| 0 <= j < p.len() && p[j] == rp[i];
                assert(s[j] == p[j]);
                assert(r[i] == rp[i]);
            } else {
                assert(r[i] == s.last());
                assert(s[s.len() - 1] == s.last());
            }
        }
        if distinct_tokens(s) {
            assert(distinct_tokens(p)) by {
                assert forall|i: int, j: int|
                    0 <= i < p.len() && 0 <= j < p.len() && i != j implies (#[trigger] p[i]).token
                    != (#[trigger] p[j]).token && p[i].user_id != p[j].user_id by {
                    assert(p[i] == s[i] && p[j] == s[j]);
                }
            }
            if f(s.last()) {
                assert forall|i: int, j: int|
                    0 <= i < r.len() && 0 <= j < r.len() && i != j implies (#[trigger] r[i]).token
                    != (#[trigger] r[j]).token && r[i].user_id != r[j].user_id by {
                    if i < rp.len() && j < rp.len() {
                        assert(r[i] == rp[i] && r[j] == rp[j]);
                    } else if i < rp.len() {
                        let k = choose|k: int| 0 <= k < p.len() && p[k] == rp[i];
                        assert(r[i] == s[k]);
                        assert(r[j] == s[s.len() - 1]);
                    } else {
                        let k = choose|k: int| 0 <= k < p.len() && p[k] == rp[j];
                        assert(r[j] == s[k]);
                        assert(r[i] == s[s.len() - 1]);
                    }
                }
            }
        }
    }
}

/// In a sequence of distinct tokens, a present token is found as itself.
pub proof fn lemma_lookup_distinct(s: Seq<TokenSpec>, i: int)
    requires
        distinct_tokens(s),
        0 <= i < s.len(),
    ensures
        lookup(s, s[i].token) == Some(s[i]),
    decreases s.len(),
{
    if i < s.len() - 1 {
        let p = s.drop_last();
        assert(s[s.len() - 1].token != s[i].token);
        assert forall|a: int, b: int|
            0 <= a < p.len() && 0 <= b < p.len() && a != b implies (#[trigger] p[a]).token != (
            #[trigger] p[b]).token && p[a].user_id != p[b].user_id by {
            assert(p[a] == s[a] && p[b] == s[b]);
        }
        assert(p[i] == s[i]);
        lemma_lookup_distinct(p, i);
    }
}

/// `lookup` finds a token exactly when one of that name is present.
pub proof fn lemma_lookup_some(s: Seq<TokenSpec>, t: Seq<char>)
    ensures
        lookup(s, t) is Some <==> has_token(s, t),
        lookup(s, t) is Some ==> lookup(s, t)->0.token == t,
    decreases s.len(),
{
    if s.len() > 0 {
        let p = s.drop_last();
        lemma_lookup_some(p, t);
        if has_token(p, t) {
            let i = choose|i: int| 0 <= i < p.len() && (#[trigger] p[i]).token == t;
            assert(s[i] == p[i]);
        }
        if has_token(s, t) && s.last().token != t {
            let i = choose|i: int| 0 <= i < s.len() && (#[trigger] s[i]).token == t;
            assert(i < s.len() - 1);
            assert(p[i] == s[i]);
        }
    }
}

/// Relies on `uuid::Uuid::new_v4` and on its `Display`, which writes the
/// hyphenated form of 36 characters: a fresh random token name.
#[verifier::external_body]
fn new_token_name() -> (r: String)
    ensures
        r@.len() == 36,
{
    uuid::Uuid::new_v4().to_string()
}

/// Which tokens a pass over the store keeps.
enum Keep {
    /// Those not named so.
    OtherThan(String),
    /// Those neither named so nor held by that user.
    NeitherNorOf(String, String),
    /// Those expiring after that time.
    ExpiringAfter(i64),
}

spec fn keeps(k: Keep, e: TokenSpec) -> bool {
    match k {
        Keep::OtherThan(name) => e.token != name@,
        Keep::NeitherNorOf(name, user) => e.token != name@ && e.user_id != user@,
        Keep::ExpiringAfter(now) => e.expires_at > now,
    }
}

/// The reset tokens currently issued.
pub struct TokenStore {
    tokens: Vec<ResetToken>,
}

impl View for TokenStore {
    type V = Seq<TokenSpec>;

    closed spec fn view(&self) -> Seq<TokenSpec> {
        self.tokens@.map_values(|t: ResetToken| t@)
    }
}

impl TokenStore {
    pub open spec fn well_formed(&self) -> bool {
        distinct_tokens(self@)
    }

    /// An empty store.
    pub fn new() -> (r: TokenStore)
        ensures
            r@ == Seq::<TokenSpec>::empty(),
            r.well_formed(),
    {
        let r = TokenStore { tokens: Vec::new() };
        assert(r@ =~= Seq::<TokenSpec>::empty());
        r
    }

    /// Keeps the tokens that `k` accepts.
    fn retain_where(&mut self, k: &Keep)
        ensures
            final(self)@ == retain(old(self)@, |e: TokenSpec| keeps(*k, e)),
    {
        let ghost f = |e: TokenSpec| keeps(*k, e);
        let ghost start = self@;
        let mut out: Vec<ResetToken> = Vec::new();
        let mut i: usize = 0;
        while i < self.tokens.len()
            invariant
                i <= self.tokens@.len(),
                self@ == start,
                f == (|e: TokenSpec| keeps(*k, e)),
                out@.map_values(|t: ResetToken| t@) == retain(start.subrange(0, i as int), f),
            decreases self.tokens@.len() - i,
        {
            let t = &self.tokens[i];
            proof {
                assert(start.subrange(0, i + 1).drop_last() == start.subrange(0, i as int));
                assert(start[i as int] == t@);
                assert(start.subrange(0, i + 1).last() == t@);
            }
            let keep = match k {
                Keep::OtherThan(name) => t.token != *name,
                Keep::NeitherNorOf(name, user) => t.token != *name && t.user_id != *user,
                Keep::ExpiringAfter(now) => t.expires_at > *now,
            };
            if keep {
                let c = t.duplicate();
                proof {
                    assert(out@.push(c).map_values(|t: ResetToken| t@) =~= out@.map_values(
                        |t: ResetToken| t@,
                    ).push(c@));
                }
                out.push(c);
            }
            i = i + 1;
        }
        proof {
            assert(start.subrange(0, start.len() as int) == start);
        }
        self.tokens = out;
    }

    /// Issues `token` to `user_id` at `now`, replacing any token the user
    /// held and any token of the same name.
    pub fn create_reset_token_at(&mut self, user_id: String, token: String, now: i64) -> (r: String)
        requires
            old(self).well_formed(),
        ensures
            r@ == token@,
            final(self).well_formed(),
            final(self)@ == retain(
                old(self)@,
                |e: TokenSpec| e.token != token@ && e.user_id != user_id@,
            ).push(
                TokenSpec {
                    token: token@,
                    user_id: user_id@,
                    created_at: now,
                    expires_at: expiry_of(now),
                },
            ),
    {
        let ghost f = |e: TokenSpec| e.token != token@ && e.user_id != user_id@;
        let k = Keep::NeitherNorOf(token.clone(), user_id.clone());
        self.retain_where(&k);
        assert((|e: TokenSpec| keeps(k, e)) =~= f);
        let expires_at: i64 = if now > i64::MAX - RESET_TOKEN_LIFETIME_SECS {
            i64::MAX
        } else {
            now + RESET_TOKEN_LIFETIME_SECS
        };
        let t = ResetToken { token: token.clone(), user_id, created_at: now, expires_at };
        let ghost kept = self@;
        proof {
            lemma_retain_subsequence(old(self)@, f);
        }
        self.tokens.push(t);
        proof {
            let s = self@;
            assert(s =~= kept.push(t@));
            assert forall|i: int, j: int|
                0 <= i < s.len() && 0 <= j < s.len() && i != j implies (#[trigger] s[i]).token != (
                #[trigger] s[j]).token && s[i].user_id != s[j].user_id by {
                if i < kept.len() && j < kept.len() {
                    assert(s[i] == kept[i] && s[j] == kept[j]);
                } else if i < kept.len() {
                    assert(s[i] == kept[i]);
                    assert(f(kept[i]));
                } else {
                    assert(s[j] == kept[j]);
                    assert(f(kept[j]));
                }
            }
        }
        token
    }

    /// The token named `token`, if issued.
    pub fn get_reset_token(&self, token: &String) -> (r: Option<ResetToken>)
        ensures
            match r {
                Some(t) => lookup(self@, token@) == Some(t@),
                None => lookup(self@, token@) is None,
            },
    {
        let mut i: usize = self.tokens.len();
        assert(self@.subrange(0, i as int) == self@);
        while i > 0
            invariant
                i <= self.tokens@.len(),
                lookup(self@, token@) == lookup(self@.subrange(0, i as int), token@),
            decreases i,
        {
            let t = &self.tokens[i - 1];
            proof {
                let pre = self@.subrange(0, i as int);
                assert(pre.last() == t@);
                assert(pre.drop_last() == self@.subrange(0, i - 1));
            }
            if t.token == *token {
                return Some(t.duplicate());
            }
            i = i - 1;
        }
        None
    }

    /// Removes the token named `token` and hands it back, if issued.
    pub fn consume_reset_token(&mut self, token: &String) -> (r: Option<ResetToken>)
        requires
            old(self).well_formed(),
        ensures
            final(self).well_formed(),
            final(self)@ == retain(old(self)@, |e: TokenSpec| e.token != token@),
            match r {
                Some(t) => lookup(old(self)@, token@) == Some(t@),
                None => lookup(old(self)@, token@) is None,
            },
            lookup(final(self)@, token@) is None,
    {
        let found = self.get_reset_token(token);
        let ghost f = |e: TokenSpec| e.token != token@;
        let k = Keep::OtherThan(token.clone());
        self.retain_where(&k);
        assert((|e: TokenSpec| keeps(k, e)) =~= f);
        proof {
            lemma_retain_subsequence(old(self)@, f);
            lemma_lookup_some(self@, token@);
            if has_token(self@, token@) {
                let i = choose|i: int| 0 <= i < self@.len() && (#[trigger] self@[i]).token == token@;
                assert(f(self@[i]));
            }
        }
        found
    }

    /// Whether the token named `token` is issued and unexpired at `now`.
    pub fn is_token_valid_at(&self, token: &String, now: i64) -> (r: bool)
        ensures
            r == (lookup(self@, token@) is Some && lookup(self@, token@)->0.expires_at > now),
    {
        match self.get_reset_token(token) {
            Some(t) => t.expires_at > now,
            None => false,
        }
    }

    /// Drops every token expired at `now`.
    pub fn cleanup_expired_tokens_at(&mut self, now: i64)
        requires
            old(self).well_formed(),
        ensures
            final(self).well_formed(),
            final(self)@ == unexpired_at(old(self)@, now),
    {
        let ghost f = |e: TokenSpec| e.expires_at > now;
        let k = Keep::ExpiringAfter(now);
        self.retain_where(&k);
        assert((|e: TokenSpec| keeps(k, e)) =~= f);
        proof {
            lemma_retain_subsequence(old(self)@, f);
        }
    }

    /// Issues a fresh random token to `user_id`, replacing any token the user
    /// held; it expires 24 hours from now.
    pub fn create_reset_token(&mut self, user_id: String) -> (r: String)
        requires
            old(self).well_formed(),
        ensures
            final(self).well_formed(),
            r@.len() == 36,
            exists|now: i64|
                final(self)@ == retain(
                    old(self)@,
                    |e: TokenSpec| e.token != r@ && e.user_id != user_id@,
                ).push(
                    TokenSpec {
                        token: r@,
                        user_id: user_id@,
                        created_at: now,
                        expires_at: expiry_of(now),
                    },
                ),
    {
        let token = new_token_name();
        let (_, now) = now_utc();
        self.create_reset_token_at(user_id, token, now)
    }

    /// Whether the token named `token` is issued and unexpired now.
    pub fn is_token_valid(&self, token: &String) -> (r: bool)
        ensures
            r ==> lookup(self@, token@) is Some,
    {
        let (_, now) = now_utc();
        self.is_token_valid_at(token, now)
    }

    /// Drops every token expired now.
    pub fn cleanup_expired_tokens(&mut self)
        requires
            old(self).well_formed(),
        ensures
            final(self).well_formed(),
            exists|now: i64| final(self)@ == #[trigger] unexpired_at(old(self)@, now),
    {
        let (_, now) = now_utc();
        self.cleanup_expired_tokens_at(now);
    }
}

} // verus!
