use hewpme::auth::{validate_callback, AuthorizationAttempt, CreateContext, Query};
use hewpme::errors::TokenError;
use hewpme::token::{ActiveToken, MaterializePlan, Token};
use hewpme::tokenfile::{parse_token, render_token};

// Scenario: no token file exists, so the authorization coordinator runs; the
// callback arrives with the matching state and a code; the obtained token is
// persisted; a later start with that file present and an unexpired record
// loads the token without any interactive flow or refresh call.
#[test]
fn first_start_authorizes_and_later_starts_load_silently() {
    // nothing on disk decodes, so the stored-token path fails over to the
    // interactive flow
    assert_eq!(parse_token(""), Err(TokenError::Malformed));

    // the provider issued an authorization url bound to a one-time state
    let ctx = CreateContext::new(
        vec![String::from("moderator:read:followers"), String::from("channel:read:subscriptions")],
        false,
        String::from("http://localhost:3000/auth/twitch/callback"),
    );
    let attempt = AuthorizationAttempt::new(
        ctx,
        String::from("https://id.example/oauth2/authorize?client_id=x"),
        String::from("one-time-state"),
    );

    // the single consumed callback carries the matching state and a code
    let mut q = Query::new();
    q.push(String::from("state"), String::from("one-time-state"));
    q.push(String::from("code"), String::from("c0de"));
    let (state, code) = validate_callback(&q, &attempt).expect("the callback validates");
    assert_eq!(state, "one-time-state");
    assert_eq!(code, "c0de");

    // exchanging the code yields a validated token; persist its record
    let now = 1_666_191_411;
    let active = ActiveToken::new(
        String::from("granted-access"),
        Some(String::from("granted-refresh")),
        String::from("98765"),
        String::from("botaccount"),
        vec![String::from("moderator:read:followers")],
        now,
        Some(3600),
    );
    let record = Token::from_active(&active, now);
    let persisted = render_token(&record);

    // the next process start finds the file, loads it field for field, and
    // with the expiry still ahead neither refreshes nor reauthorizes
    let loaded = parse_token(persisted.as_str()).expect("the persisted record loads");
    assert_eq!(loaded, record);
    assert!(loaded.valid_till > now + 10);
    assert!(matches!(loaded.materialize_plan(now + 10), MaterializePlan::UseExisting));
}
