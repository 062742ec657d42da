//! The authorization-code flow's decisions: the callback query, its
//! anti-forgery check, and the extraction of the state and code values.
//!
//! The interactive plumbing (the local callback endpoint, the rendezvous
//! channel, the exchange of the code) stays with the caller; the rules that
//! accept or reject what the callback carried live here.

use vstd::prelude::*;
use vstd::string::StringExecFns;

use crate::errors::AuthError;
use crate::strutil::str_eq_str;

verus! {

/// The query string of a callback delivery, as key/value pairs in the order
/// they arrived. A lookup takes the first pair with the given key.
pub struct Query {
    pub pairs: Vec<(String, String)>,
}

/// First-match lookup in a sequence of key/value pairs.
pub open spec fn spec_lookup(pairs: Seq<(Seq<char>, Seq<char>)>, key: Seq<char>) -> Option<
    Seq<char>,
>
    decreases pairs.len(),
{
    if pairs.len() == 0 {
        None
    } else if pairs[0].0 == key {
        Some(pairs[0].1)
    } else {
        spec_lookup(pairs.drop_first(), key)
    }
}

impl View for Query {
    type V = Seq<(Seq<char>, Seq<char>)>;

    open spec fn view(&self) -> Seq<(Seq<char>, Seq<char>)> {
        Seq::new(self.pairs@.len(), |i: int| (self.pairs@[i].0@, self.pairs@[i].1@))
    }
}

impl Query {
    /// An empty query.
    pub fn new() -> (r: Query)
        ensures
            r@ =~= Seq::<(Seq<char>, Seq<char>)>::empty(),
    {
        Query { pairs: Vec::new() }
    }

    /// Appends one key/value pair.
    pub fn push(&mut self, key: String, value: String)
        ensures
            final(self)@ =~= old(self)@.push((key@, value@)),
    {
        self.pairs.push((key, value));
    }

    /// The value of the first pair whose key is `key`, if any.
    pub fn get<'a>(&'a self, key: &str) -> (r: Option<&'a String>)
        ensures
            match r {
                Some(v) => spec_lookup(self@, key@) == Some(v@),
                None => spec_lookup(self@, key@) is None,
            },
    {
        let mut i: usize = 0;
        let n = self.pairs.len();
        proof {
            assert(self@.skip(0) =~= self@);
        }
        while i < n
            invariant
                n == self.pairs.len(),
                i <= n,
                spec_lookup(self@, key@) == spec_lookup(self@.skip(i as int), key@),
            decreases n - i,
        {
            proof {
                assert(self@.skip(i as int)[0] == (self.pairs@[i as int].0@,
                self.pairs@[i as int].1@));
                assert(self@.skip(i as int).drop_first() =~= self@.skip(i as int + 1));
            }
            if str_eq_str(self.pairs[i].0.as_str(), key) {
                return Some(&self.pairs[i].1);
            }
            i += 1;
        }
        proof {
            assert(self@.skip(n as int) =~= Seq::<(Seq<char>, Seq<char>)>::empty());
        }
        None
    }
}

/// Looks two keys up in one query, each by first match.
pub fn extract_pair<'a>(query: &'a Query, key1: &str, key2: &str) -> (r: (
    Option<&'a String>,
    Option<&'a String>,
))
    ensures
        match r.0 {
            Some(v) => spec_lookup(query@, key1@) == Some(v@),
            None => spec_lookup(query@, key1@) is None,
        },
        match r.1 {
            Some(v) => spec_lookup(query@, key2@) == Some(v@),
            None => spec_lookup(query@, key2@) is None,
        },
{
    let value1 = query.get(key1);
    let value2 = query.get(key2);
    (value1, value2)
}

/// What one interactive authorization attempt asks for.
pub struct CreateContext {
    /// The permission identifiers the token shall carry.
    pub scopes: Vec<String>,
    /// Whether the provider shall re-prompt even for an already-authorized
    /// application.
    pub force_verify: bool,
    /// Where the provider shall redirect the user's browser.
    pub redirect_url: String,
}

impl CreateContext {
    /// Bundles the request parameters of one attempt.
    pub fn new(scopes: Vec<String>, force_verify: bool, redirect_url: String) -> (r: CreateContext)
        ensures
            r.scopes == scopes,
            r.force_verify == force_verify,
            r.redirect_url == redirect_url,
    {
        CreateContext { scopes, force_verify, redirect_url }
    }
}

/// The request parameters of the EventSub purpose's interactive flow: its
/// fixed scope list in request order, no forced re-prompt, and the local
/// callback url.
pub fn eventsub_create_context() -> (r: CreateContext)
    ensures
        !r.force_verify,
        r.redirect_url@ == "http://localhost:3000/auth/twitch/callback"@,
        r.scopes@.len() == 3,
        r.scopes@[0]@ == "moderator:read:followers"@,
        r.scopes@[1]@ == "moderator:manage:banned_users"@,
        r.scopes@[2]@ == "channel:read:subscriptions"@,
{
    let mut scopes: Vec<String> = Vec::new();
    scopes.push(<String as StringExecFns>::from_str("moderator:read:followers"));
    scopes.push(<String as StringExecFns>::from_str("moderator:manage:banned_users"));
    scopes.push(<String as StringExecFns>::from_str("channel:read:subscriptions"));
    CreateContext {
        scopes,
        force_verify: false,
        redirect_url: <String as StringExecFns>::from_str(
            "http://localhost:3000/auth/twitch/callback",
        ),
    }
}

/// One interactive flow in progress: the request parameters together with the
/// authorization URL and the single-use anti-forgery token the provider
/// issued for it. Discarded once a token is obtained or the flow fails.
pub struct AuthorizationAttempt {
    /// The request parameters the attempt was started with.
    pub ctx: CreateContext,
    /// The URL the user is sent to.
    pub authorize_url: String,
    /// The anti-forgery token bound to `authorize_url`; the callback's
    /// `state` must equal it.
    pub state: String,
}

impl AuthorizationAttempt {
    /// Records a generated authorization URL and its anti-forgery token.
    pub fn new(ctx: CreateContext, authorize_url: String, state: String) -> (r:
        AuthorizationAttempt)
        ensures
            r.ctx == ctx,
            r.authorize_url == authorize_url,
            r.state == state,
    {
        AuthorizationAttempt { ctx, authorize_url, state }
    }
}

/// Checks the callback's anti-forgery token: the query must carry `state`,
/// and its value must equal the token generated for the current attempt.
/// Either failure is fatal to the attempt.
pub fn verify_csrf_token(query: &Query, expected_state: &str) -> (r: Result<(), AuthError>)
    ensures
        match spec_lookup(query@, "state"@) {
            Some(s) => if s == expected_state@ {
                r is Ok
            } else {
                r matches Err(e) && e is StateMismatch
            },
            None => r matches Err(e) && e is MissingState,
        },
{
    match query.get("state") {
        Some(s) => {
            if str_eq_str(s.as_str(), expected_state) {
                Ok(())
            } else {
                Err(AuthError::StateMismatch)
            }
        },
        None => Err(AuthError::MissingState),
    }
}

/// Extracts the `state` and `code` values from the query a callback
/// delivered. A query carrying `error` and `error_description` is a provider
/// denial and fatal; otherwise both `state` and `code` must be present.
pub fn extract_url(query: &Query) -> (r: Result<(String, String), AuthError>)
    ensures
        match (spec_lookup(query@, "error"@), spec_lookup(query@, "error_description"@)) {
            (Some(e), Some(d)) => r matches Err(AuthError::ProviderDenied {
                error,
                error_description,
            }) && error@ == e && error_description@ == d,
            _ => match (spec_lookup(query@, "state"@), spec_lookup(query@, "code"@)) {
                (Some(s), Some(c)) => r matches Ok((state, code)) && state@ == s && code@ == c,
                (None, _) => r matches Err(e) && e is MissingState,
                (Some(_), None) => r matches Err(e) && e is MissingCode,
            },
        },
{
    let (error, error_description) = extract_pair(query, "error", "error_description");
    match (error, error_description) {
        (Some(e), Some(d)) => Err(
            AuthError::ProviderDenied { error: e.clone(), error_description: d.clone() },
        ),
        _ => {
            let (state, code) = extract_pair(query, "state", "code");
            match (state, code) {
                (Some(s), Some(c)) => Ok((s.clone(), c.clone())),
                (None, _) => Err(AuthError::MissingState),
                (Some(_), None) => Err(AuthError::MissingCode),
            }
        },
    }
}

/// Validates one callback delivery against the current attempt, in the
/// flow's fixed order: a provider denial is fatal first; then `state` must be
/// present; then it must equal the attempt's anti-forgery token; only then is
/// `code` required and read. Returns the state and code to exchange.
pub fn validate_callback(query: &Query, attempt: &AuthorizationAttempt) -> (r: Result<
    (String, String),
    AuthError,
>)
    ensures
        match (spec_lookup(query@, "error"@), spec_lookup(query@, "error_description"@)) {
            (Some(e), Some(d)) => r matches Err(AuthError::ProviderDenied {
                error,
                error_description,
            }) && error@ == e && error_description@ == d,
            _ => match spec_lookup(query@, "state"@) {
                None => r matches Err(e) && e is MissingState,
                Some(s) => if s != attempt.state@ {
                    r matches Err(e) && e is StateMismatch
                } else {
                    match spec_lookup(query@, "code"@) {
                        None => r matches Err(e) && e is MissingCode,
                        Some(c) => r matches Ok((state, code)) && state@ == s && code@ == c,
                    }
                },
            },
        },
{
    let (error, error_description) = extract_pair(query, "error", "error_description");
    if let (Some(e), Some(d)) = (error, error_description) {
        return Err(AuthError::ProviderDenied { error: e.clone(), error_description: d.clone() });
    }
    verify_csrf_token(query, attempt.state.as_str())?;
    extract_url(query)
}

} // verus!
