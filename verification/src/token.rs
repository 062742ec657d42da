//! The token lifecycle: the persisted record, freshness, expiry derivation,
//! and the decisions a materialization makes.
//!
//! The provider calls themselves (refresh grant, validation round trip) stay
//! with the caller; what to call and what the record looks like afterwards is
//! decided here.

use vstd::prelude::*;

use crate::errors::TokenError;
use crate::strutil::{is_plain_str, plain_str};
use crate::time::{ts_in_range, MAX_TIMESTAMP};

verus! {

/// How long a grant is taken to stay valid when the provider does not report
/// a remaining lifetime, in seconds.
pub const DEFAULT_VALIDITY_SECS: i64 = 600;

/// The persisted token record, one file per logical purpose.
///
/// The store's invariant: the text fields hold no quote, backslash or
/// control character, and both instants lie in the on-disk form's range
/// ([`token_wf`]). The canonical on-disk form writes strings without
/// escapes, so only such records are representable; decoding only ever
/// yields such records, and [`Token::is_well_formed`] checks the invariant
/// before a record from any other source is persisted.
#[derive(Debug, Clone, PartialEq, Eq)]
pub struct Token {
    /// The opaque secret the provider issued.
    pub access_token: String,
    /// The secret a refresh grant takes; absent for non-refreshable grants.
    pub refresh_token: Option<String>,
    /// When the token was obtained or last refreshed, UTC seconds.
    pub created_at: i64,
    /// When the token stops being usable, UTC seconds; recomputed at the
    /// moment a token is obtained or refreshed, never carried forward.
    pub valid_till: i64,
    /// The permission identifiers the token carries, in request order.
    pub scopes: Option<Vec<String>>,
}

/// The mathematical value of a token record.
pub struct TokenView {
    /// The secret's text.
    pub access_token: Seq<char>,
    /// The refresh secret's text, if the grant was refreshable.
    pub refresh_token: Option<Seq<char>>,
    /// When the token was obtained or last refreshed, UTC seconds.
    pub created_at: i64,
    /// When the token stops being usable, UTC seconds.
    pub valid_till: i64,
    /// The permission identifiers, if recorded.
    pub scopes: Option<Seq<Seq<char>>>,
}

impl View for Token {
    type V = TokenView;

    open spec fn view(&self) -> TokenView {
        TokenView {
            access_token: self.access_token@,
            refresh_token: match self.refresh_token {
                Some(r) => Some(r@),
                None => None,
            },
            created_at: self.created_at,
            valid_till: self.valid_till,
            scopes: match self.scopes {
                Some(ss) => Some(ss.deep_view()),
                None => None,
            },
        }
    }
}

/// Well-formedness of a token record's value: instants the on-disk form can
/// carry, and field text free of quotes, backslashes and control characters.
pub open spec fn token_view_wf(v: TokenView) -> bool {
    &&& ts_in_range(v.created_at)
    &&& ts_in_range(v.valid_till)
    &&& plain_str(v.access_token)
    &&& (v.refresh_token matches Some(r) ==> plain_str(r))
    &&& (v.scopes matches Some(ss) ==> forall|i: int|
        0 <= i < ss.len() ==> plain_str(#[trigger] ss[i]))
}

/// Well-formedness of a token record.
pub open spec fn token_wf(t: Token) -> bool {
    token_view_wf(t@)
}

/// A token is stale once the current instant has reached its expiry.
pub open spec fn spec_is_expired(valid_till: i64, now: i64) -> bool {
    now >= valid_till
}

/// The expiry derived for a grant obtained at `now`: the provider's reported
/// remaining lifetime where it gave one, the fixed short default otherwise.
pub open spec fn spec_derive_valid_till(now: i64, lifetime: Option<i64>) -> int {
    match lifetime {
        Some(l) => now + l,
        None => now + DEFAULT_VALIDITY_SECS,
    }
}

/// Derives the expiry instant of a grant obtained at `now`.
pub fn derive_valid_till(now: i64, lifetime: Option<i64>) -> (r: i64)
    requires
        ts_in_range(now),
        lifetime matches Some(l) ==> l >= 0 && now + l <= MAX_TIMESTAMP,
        lifetime is None ==> now + DEFAULT_VALIDITY_SECS <= MAX_TIMESTAMP,
    ensures
        r == spec_derive_valid_till(now, lifetime),
        ts_in_range(r),
{
    match lifetime {
        Some(l) => now + l,
        None => now + DEFAULT_VALIDITY_SECS,
    }
}

/// What a materialization must do for a stored record at instant `now`.
pub enum MaterializePlan {
    /// The record is stale: perform exactly one refresh grant before use.
    Refresh,
    /// The record is fresh: resolve it directly, no refresh.
    UseExisting,
}

/// What the provider's refresh grant returned, as plain values.
pub enum RefreshOutcome {
    /// The grant succeeded.
    Granted {
        /// The fresh secret.
        access_token: String,
        /// The refresh secret to keep, if the provider returned one.
        refresh_token: Option<String>,
        /// The reported remaining lifetime in seconds, if reported.
        expires_in: Option<i64>,
        /// The scopes the refreshed token carries.
        scopes: Option<Vec<String>>,
    },
    /// The provider rejected the grant.
    Rejected,
}

impl Token {
    /// Checks the record's well-formedness: instants the on-disk form can
    /// carry, and field text free of quotes, backslashes and control
    /// characters. A record that fails this cannot be rendered.
    pub fn is_well_formed(&self) -> (r: bool)
        ensures
            r == token_wf(*self),
    {
        if !(0 <= self.created_at && self.created_at <= MAX_TIMESTAMP && 0 <= self.valid_till
            && self.valid_till <= MAX_TIMESTAMP) {
            return false;
        }
        if !is_plain_str(self.access_token.as_str()) {
            return false;
        }
        if let Some(rt) = &self.refresh_token {
            if !is_plain_str(rt.as_str()) {
                return false;
            }
        }
        if let Some(ss) = &self.scopes {
            let n = ss.len();
            let mut i: usize = 0;
            proof {
                assert(ss.deep_view().len() == ss@.len());
            }
            while i < n
                invariant
                    self.scopes matches Some(ss2) && ss2 == *ss,
                    n == ss@.len(),
                    ss.deep_view().len() == n,
                    i <= n,
                    forall|j: int| 0 <= j < i ==> plain_str(#[trigger] ss.deep_view()[j]),
                decreases n - i,
            {
                proof {
                    assert(ss.deep_view()[i as int] == ss@[i as int]@);
                }
                if !is_plain_str(ss[i].as_str()) {
                    proof {
                        assert(self@.scopes->Some_0 == ss.deep_view());
                        assert(!token_view_wf(self@));
                    }
                    return false;
                }
                i += 1;
            }
        }
        true
    }

    /// Whether the record is stale at instant `now`.
    pub fn is_expired(&self, now: i64) -> (r: bool)
        ensures
            r == spec_is_expired(self.valid_till, now),
    {
        now >= self.valid_till
    }

    /// Decides what materializing this record at instant `now` takes: a
    /// stale record takes exactly one refresh grant first; a fresh one is
    /// resolved as it stands.
    pub fn materialize_plan(&self, now: i64) -> (r: MaterializePlan)
        ensures
            r is Refresh <==> spec_is_expired(self.valid_till, now),
    {
        if self.is_expired(now) {
            MaterializePlan::Refresh
        } else {
            MaterializePlan::UseExisting
        }
    }

    /// Turns the provider's answer to a refresh grant into the record to
    /// persist and use. A rejected grant is fatal: the caller must restart
    /// with a fresh interactive authorization, never silently retry.
    pub fn apply_refresh(outcome: RefreshOutcome, now: i64) -> (r: Result<Token, TokenError>)
        requires
            ts_in_range(now),
            now + DEFAULT_VALIDITY_SECS <= MAX_TIMESTAMP,
            outcome matches RefreshOutcome::Granted { expires_in: Some(l), .. } ==> l >= 0 && now
                + l <= MAX_TIMESTAMP,
        ensures
            match outcome {
                RefreshOutcome::Granted { access_token, refresh_token, expires_in, scopes } => {
                    &&& r matches Ok(t)
                    &&& t.access_token == access_token
                    &&& t.refresh_token == refresh_token
                    &&& t.created_at == now
                    &&& t.valid_till == spec_derive_valid_till(now, expires_in)
                    &&& t.scopes == scopes
                },
                RefreshOutcome::Rejected => r matches Err(e) && e is RefreshRejected,
            },
    {
        match outcome {
            RefreshOutcome::Granted { access_token, refresh_token, expires_in, scopes } => {
                let valid_till = derive_valid_till(now, expires_in);
                Ok(Token { access_token, refresh_token, created_at: now, valid_till, scopes })
            },
            RefreshOutcome::Rejected => Err(TokenError::RefreshRejected),
        }
    }
}

/// A provider-validated, ready-to-use token: the secrets together with the
/// identity metadata the validation round trip resolved.
#[derive(Debug, Clone)]
pub struct ActiveToken {
    /// The opaque secret used on every authenticated call.
    pub access_token: String,
    /// The refresh secret, if the grant was refreshable.
    pub refresh_token: Option<String>,
    /// The platform user id of the token's own identity; the session derives
    /// its moderator id from it.
    pub user_id: String,
    /// The login name of the token's own identity.
    pub login: String,
    /// When the token stops being usable, UTC seconds.
    pub valid_till: i64,
    /// The permission identifiers the provider reported.
    pub scopes: Vec<String>,
}

impl ActiveToken {
    /// Assembles an active token from what the provider's validation round
    /// trip reported at instant `now`, deriving the expiry from the reported
    /// remaining lifetime or the fixed short default.
    pub fn new(
        access_token: String,
        refresh_token: Option<String>,
        user_id: String,
        login: String,
        scopes: Vec<String>,
        now: i64,
        expires_in: Option<i64>,
    ) -> (r: ActiveToken)
        requires
            ts_in_range(now),
            expires_in matches Some(l) ==> l >= 0 && now + l <= MAX_TIMESTAMP,
            expires_in is None ==> now + DEFAULT_VALIDITY_SECS <= MAX_TIMESTAMP,
        ensures
            r.access_token == access_token,
            r.refresh_token == refresh_token,
            r.user_id == user_id,
            r.login == login,
            r.scopes == scopes,
            r.valid_till == spec_derive_valid_till(now, expires_in),
            ts_in_range(r.valid_till),
    {
        let valid_till = derive_valid_till(now, expires_in);
        ActiveToken { access_token, refresh_token, user_id, login, valid_till, scopes }
    }

    /// Whether the token is stale at instant `now`.
    pub fn is_elapsed(&self, now: i64) -> (r: bool)
        ensures
            r == spec_is_expired(self.valid_till, now),
    {
        now >= self.valid_till
    }

    /// Resolves a stored record into the ready-to-use token: both secrets
    /// are carried through unchanged, and only the identity metadata and the
    /// remaining lifetime come from the provider's validation round trip
    /// (which is not a refresh).
    pub fn from_validated(
        record: &Token,
        user_id: String,
        login: String,
        scopes: Vec<String>,
        now: i64,
        expires_in: Option<i64>,
    ) -> (r: ActiveToken)
        requires
            ts_in_range(now),
            expires_in matches Some(l) ==> l >= 0 && now + l <= MAX_TIMESTAMP,
            expires_in is None ==> now + DEFAULT_VALIDITY_SECS <= MAX_TIMESTAMP,
        ensures
            r.access_token == record.access_token,
            r.refresh_token == record.refresh_token,
            r.user_id == user_id,
            r.login == login,
            r.scopes == scopes,
            r.valid_till == spec_derive_valid_till(now, expires_in),
            ts_in_range(r.valid_till),
    {
        let valid_till = derive_valid_till(now, expires_in);
        ActiveToken {
            access_token: record.access_token.clone(),
            refresh_token: match &record.refresh_token {
                Some(rt) => Some(rt.clone()),
                None => None,
            },
            user_id,
            login,
            valid_till,
            scopes,
        }
    }
}

impl Token {
    /// The record to persist for an active token: the secrets and scopes as
    /// they stand, the creation instant stamped `now`, the expiry taken from
    /// the active token, where it was freshly derived.
    pub fn from_active(active: &ActiveToken, now: i64) -> (r: Token)
        ensures
            r.access_token == active.access_token,
            r.refresh_token == active.refresh_token,
            r.created_at == now,
            r.valid_till == active.valid_till,
            r.scopes matches Some(ss) && ss@ == active.scopes@,
    {
        Token {
            access_token: active.access_token.clone(),
            refresh_token: match &active.refresh_token {
                Some(rt) => Some(rt.clone()),
                None => None,
            },
            created_at: now,
            valid_till: active.valid_till,
            scopes: Some(clone_strings(&active.scopes)),
        }
    }
}

/// A field-for-field copy of a list of strings.
fn clone_strings(v: &Vec<String>) -> (r: Vec<String>)
    ensures
        r@ == v@,
{
    let mut out: Vec<String> = Vec::new();
    let mut i: usize = 0;
    while i < v.len()
        invariant
            i <= v@.len(),
            out@ =~= v@.take(i as int),
        decreases v@.len() - i,
    {
        out.push(v[i].clone());
        proof {
            assert(out@ =~= v@.take(i as int + 1));
        }
        i += 1;
    }
    proof {
        assert(out@ =~= v@);
    }
    out
}

/// Law: a stored record whose expiry lies strictly in the past is stale, so
/// its materialization plans exactly one refresh grant, and whatever lifetime
/// that grant reports, the freshly derived expiry lies strictly after the
/// call instant.
pub proof fn lemma_stale_record_refreshes(t: Token, now: i64, lifetime: Option<i64>)
    requires
        t.valid_till < now,
        lifetime matches Some(l) ==> l >= 1,
    ensures
        spec_is_expired(t.valid_till, now),
        spec_derive_valid_till(now, lifetime) > now,
{
}

} // verus!
