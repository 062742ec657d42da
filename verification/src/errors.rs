//! Error taxonomy: authorization failures, token lifecycle failures, and the
//! session error carried out of the WebSocket run loop.

use vstd::prelude::*;
use vstd::string::StringExecFns;

verus! {

/// Failure of the interactive authorization-code flow. Every variant is fatal
/// to the attempt: none is retried.
#[derive(Debug, Clone, PartialEq, Eq)]
pub enum AuthError {
    /// The provider denied the authorization: the callback carried `error`
    /// and `error_description` parameters.
    ProviderDenied { error: String, error_description: String },
    /// The callback carried no `state` parameter.
    MissingState,
    /// The callback's `state` did not equal the anti-forgery token generated
    /// for the current attempt.
    StateMismatch,
    /// The callback carried no `code` parameter.
    MissingCode,
}

/// Failure of the token lifecycle outside an interactive flow. Both variants
/// are fatal to the enclosing call.
#[derive(Debug, Clone, PartialEq, Eq)]
pub enum TokenError {
    /// The provider rejected the refresh grant.
    RefreshRejected,
    /// The persisted token record could not be decoded.
    Malformed,
}

/// What kind of failure ended, or would end, a WebSocket session.
#[derive(Debug, Clone, Copy, PartialEq, Eq, Structural)]
pub enum SessionErrorKind {
    /// Connect, read or write failure on the socket.
    Transport,
    /// A malformed frame, or an unexpected close.
    Protocol,
    /// The provider rejected a subscription-creation request.
    Subscription,
    /// The session's token was already expired when the session was welcomed.
    TokenExpired,
}

/// The error a WebSocket session run surfaces to its caller.
#[derive(Debug, Clone)]
pub struct WSError {
    /// The kind of failure.
    pub kind: SessionErrorKind,
    /// Human-readable detail.
    pub description: String,
}

impl WSError {
    /// Builds an error of the given kind.
    pub fn new(kind: SessionErrorKind, description: String) -> (r: WSError)
        ensures
            r.kind == kind,
            r.description == description,
    {
        WSError { kind, description }
    }

    /// The error rendered as text.
    pub fn display_text(&self) -> (r: String)
        ensures
            r@ == "error: "@ + self.description@,
    {
        let prefix: String = <String as StringExecFns>::from_str("error: ");
        prefix.concat(self.description.as_str())
    }
}

} // verus!
