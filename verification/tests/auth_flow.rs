use hewpme::auth::{
    extract_pair, extract_url, validate_callback, verify_csrf_token, AuthorizationAttempt,
    CreateContext, Query,
};
use hewpme::errors::AuthError;

fn attempt(state: &str) -> AuthorizationAttempt {
    let ctx = CreateContext::new(
        vec![String::from("moderator:read:followers")],
        false,
        String::from("http://localhost:3000/auth/twitch/callback"),
    );
    AuthorizationAttempt::new(
        ctx,
        String::from("https://id.example/oauth2/authorize?x=1"),
        String::from(state),
    )
}

fn query(pairs: &[(&str, &str)]) -> Query {
    let mut q = Query::new();
    for (k, v) in pairs {
        q.push(String::from(*k), String::from(*v));
    }
    q
}

#[test]
fn missing_state_is_rejected_before_code_is_read() {
    // the code is well-formed, yet the missing state decides first
    let q = query(&[("code", "split-second")]);
    assert_eq!(validate_callback(&q, &attempt("expected")), Err(AuthError::MissingState));
    assert_eq!(extract_url(&q), Err(AuthError::MissingState));
}

#[test]
fn mismatched_state_is_rejected_with_and_without_a_code() {
    let with_code = query(&[("state", "forged"), ("code", "c0de")]);
    assert_eq!(validate_callback(&with_code, &attempt("genuine")), Err(AuthError::StateMismatch));
    let without_code = query(&[("state", "forged")]);
    assert_eq!(
        validate_callback(&without_code, &attempt("genuine")),
        Err(AuthError::StateMismatch)
    );
    assert_eq!(verify_csrf_token(&without_code, "genuine"), Err(AuthError::StateMismatch));
}

#[test]
fn provider_denial_wins_over_everything_else() {
    let q = query(&[
        ("error", "access_denied"),
        ("error_description", "The user denied you access"),
        ("state", "genuine"),
        ("code", "c0de"),
    ]);
    let expected = AuthError::ProviderDenied {
        error: String::from("access_denied"),
        error_description: String::from("The user denied you access"),
    };
    assert_eq!(validate_callback(&q, &attempt("genuine")), Err(expected.clone()));
    assert_eq!(extract_url(&q), Err(expected));
}

#[test]
fn matching_state_without_a_code_is_rejected() {
    let q = query(&[("state", "genuine")]);
    assert_eq!(validate_callback(&q, &attempt("genuine")), Err(AuthError::MissingCode));
}

#[test]
fn matching_state_and_code_pass_validation() {
    let q = query(&[("state", "genuine"), ("code", "c0de")]);
    assert_eq!(
        validate_callback(&q, &attempt("genuine")),
        Ok((String::from("genuine"), String::from("c0de")))
    );
    assert_eq!(verify_csrf_token(&q, "genuine"), Ok(()));
    assert_eq!(extract_url(&q), Ok((String::from("genuine"), String::from("c0de"))));
}

#[test]
fn lookups_take_the_first_match() {
    let q = query(&[("k", "first"), ("k", "second"), ("other", "x")]);
    let (a, b) = extract_pair(&q, "k", "other");
    assert_eq!(a.map(String::as_str), Some("first"));
    assert_eq!(b.map(String::as_str), Some("x"));
    let (c, d) = extract_pair(&q, "absent", "k");
    assert!(c.is_none());
    assert_eq!(d.map(String::as_str), Some("first"));
}
