use hewpme::time::{format_rfc3339, parse_rfc3339, MAX_TIMESTAMP};
use hewpme::token::{MaterializePlan, RefreshOutcome, Token, DEFAULT_VALIDITY_SECS};
use hewpme::tokenfile::{parse_token, render_token};
use hewpme::errors::TokenError;

fn sample_token() -> Token {
    Token {
        access_token: String::from("abcdef0123"),
        refresh_token: Some(String::from("refresh-9")),
        created_at: 0,
        valid_till: 100,
        scopes: Some(vec![String::from("moderator:read:followers"), String::from(
            "channel:read:subscriptions",
        )]),
    }
}

#[test]
fn renders_the_fixed_on_disk_shape() {
    let rendered = render_token(&sample_token());
    let expected = "{\"access_token\":\"abcdef0123\",\"refresh_token\":\"refresh-9\",\"created_at\":\"1970-01-01T00:00:00Z\",\"valid_till\":\"1970-01-01T00:01:40Z\",\"scopes\":[\"moderator:read:followers\",\"channel:read:subscriptions\"]}";
    assert_eq!(rendered, expected);
}

#[test]
fn renders_absent_fields_as_null() {
    let t = Token {
        access_token: String::from("a"),
        refresh_token: None,
        created_at: 20,
        valid_till: MAX_TIMESTAMP,
        scopes: None,
    };
    let rendered = render_token(&t);
    let expected = "{\"access_token\":\"a\",\"refresh_token\":null,\"created_at\":\"1970-01-01T00:00:20Z\",\"valid_till\":\"9999-12-31T23:59:59Z\",\"scopes\":null}";
    assert_eq!(rendered, expected);
}

#[test]
fn reloading_a_persisted_record_restores_every_field() {
    let t = sample_token();
    let reloaded = parse_token(render_token(&t).as_str()).expect("canonical text must decode");
    assert_eq!(reloaded.access_token, t.access_token);
    assert_eq!(reloaded.refresh_token, t.refresh_token);
    assert_eq!(reloaded.created_at, t.created_at);
    assert_eq!(reloaded.valid_till, t.valid_till);
    assert_eq!(reloaded.scopes, t.scopes);
}

#[test]
fn round_trip_with_null_fields_and_empty_scopes() {
    let t = Token {
        access_token: String::from("tok"),
        refresh_token: None,
        created_at: 1666191411,
        valid_till: 1666195011,
        scopes: Some(vec![]),
    };
    let reloaded = parse_token(render_token(&t).as_str()).unwrap();
    assert_eq!(reloaded.refresh_token, None);
    assert_eq!(reloaded.scopes, Some(vec![]));
    assert_eq!(reloaded.created_at, 1666191411);
    assert_eq!(reloaded.valid_till, 1666195011);

    let t2 = Token { refresh_token: None, scopes: None, ..t };
    let reloaded2 = parse_token(render_token(&t2).as_str()).unwrap();
    assert_eq!(reloaded2.scopes, None);
}

#[test]
fn malformed_records_are_rejected() {
    for bad in [
        "",
        "{}",
        "not json at all",
        "{\"access_token\":\"a\"}",
        // missing quotes around the access token
        "{\"access_token\":a,\"refresh_token\":null,\"created_at\":\"1970-01-01T00:00:20Z\",\"valid_till\":\"1970-01-01T00:00:20Z\",\"scopes\":null}",
        // a non-canonical timestamp: an offset instead of the Z suffix
        "{\"access_token\":\"a\",\"refresh_token\":null,\"created_at\":\"1970-01-01T00:00:20+00:00\",\"valid_till\":\"1970-01-01T00:00:20Z\",\"scopes\":null}",
        // an out-of-shape timestamp
        "{\"access_token\":\"a\",\"refresh_token\":null,\"created_at\":\"yesterday\",\"valid_till\":\"1970-01-01T00:00:20Z\",\"scopes\":null}",
        // an escape inside a string is outside the canonical form
        "{\"access_token\":\"a\\\"b\",\"refresh_token\":null,\"created_at\":\"1970-01-01T00:00:20Z\",\"valid_till\":\"1970-01-01T00:00:20Z\",\"scopes\":null}",
        // a broken scopes list
        "{\"access_token\":\"a\",\"refresh_token\":null,\"created_at\":\"1970-01-01T00:00:20Z\",\"valid_till\":\"1970-01-01T00:00:20Z\",\"scopes\":[\"x\"}",
    ] {
        assert_eq!(parse_token(bad), Err(TokenError::Malformed), "accepted: {bad}");
    }
    // trailing data after the record
    let mut with_tail = render_token(&sample_token());
    with_tail.push(' ');
    assert_eq!(parse_token(with_tail.as_str()), Err(TokenError::Malformed));
}

#[test]
fn instant_rendering_matches_rfc3339() {
    let s = format_rfc3339(0);
    assert_eq!(s, "1970-01-01T00:00:00Z");
    assert_eq!(format_rfc3339(1666191411), "2022-10-19T14:56:51Z");
    assert_eq!(parse_rfc3339("2022-10-19T14:56:51Z"), Some(1666191411));
    assert_eq!(parse_rfc3339("not a time"), None);
}

#[test]
fn expired_record_plans_exactly_one_refresh() {
    let t = sample_token();
    // valid_till is 100: strictly in the past at 101, and reached at 100
    assert!(matches!(t.materialize_plan(101), MaterializePlan::Refresh));
    assert!(matches!(t.materialize_plan(100), MaterializePlan::Refresh));
    assert!(matches!(t.materialize_plan(99), MaterializePlan::UseExisting));
}

#[test]
fn refresh_outcome_rebuilds_the_record() {
    let now = 1000;
    let granted = RefreshOutcome::Granted {
        access_token: String::from("fresh"),
        refresh_token: Some(String::from("next-refresh")),
        expires_in: Some(3600),
        scopes: Some(vec![String::from("chat:read")]),
    };
    let t = Token::apply_refresh(granted, now).expect("granted refresh yields a record");
    assert_eq!(t.access_token, "fresh");
    assert_eq!(t.refresh_token.as_deref(), Some("next-refresh"));
    assert_eq!(t.created_at, now);
    assert_eq!(t.valid_till, now + 3600);
    assert!(t.valid_till > now);

    let defaulted = RefreshOutcome::Granted {
        access_token: String::from("fresh"),
        refresh_token: None,
        expires_in: None,
        scopes: None,
    };
    let t2 = Token::apply_refresh(defaulted, now).unwrap();
    assert_eq!(t2.valid_till, now + DEFAULT_VALIDITY_SECS);

    assert_eq!(
        Token::apply_refresh(RefreshOutcome::Rejected, now),
        Err(TokenError::RefreshRejected)
    );
}
