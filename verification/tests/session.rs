use hewpme::config::{get_chat_config_file, get_eventsub_config_file};
use hewpme::errors::{SessionErrorKind, WSError};
use hewpme::helper::{create_new_chatters_list, create_new_twitch_event_list};
use hewpme::moderation::{ban_request, BAN_DURATION_SECS};
use hewpme::time::now_seconds;
use hewpme::token::ActiveToken;
use hewpme::websocket::{
    EventCategory, NotificationEvent, Phase, TransportEvent, WebsocketClient, WsMessage,
    SUBSCRIPTION_CATEGORY_COUNT,
};

const NOW: i64 = 1666191411;

fn fresh_token() -> ActiveToken {
    ActiveToken::new(
        String::from("secret"),
        Some(String::from("refresh")),
        String::from("98765"),
        String::from("botaccount"),
        vec![String::from("moderator:read:followers")],
        NOW,
        Some(3600),
    )
}

fn fresh_client(diagnostics: bool) -> WebsocketClient {
    WebsocketClient::new(
        None,
        fresh_token(),
        String::from("12826"),
        String::from("wss://eventsub.example/ws"),
        create_new_twitch_event_list(),
        diagnostics,
    )
}

#[test]
fn welcome_without_reconnect_url_keeps_the_target_and_subscribes_each_category_once() {
    let mut ws = fresh_client(false);
    let url_before = ws.connect_url.clone();
    ws.process_welcome_message(String::from("abc"), None, NOW).expect("fresh token");
    assert_eq!(ws.connect_url, url_before);
    assert_eq!(ws.session_id.as_deref(), Some("abc"));

    // exactly one subscription-creation call per configured category, in order
    let mut seen = Vec::new();
    while let Some(req) = ws.next_subscription() {
        assert_eq!(req.broadcaster_id, "12826");
        assert_eq!(req.moderator_id, "98765");
        assert_eq!(req.session_id, "abc");
        seen.push(req.category);
        ws.apply_subscription_result(true).unwrap();
    }
    assert_eq!(seen.len(), SUBSCRIPTION_CATEGORY_COUNT);
    assert_eq!(seen, vec![EventCategory::ChannelFollow, EventCategory::ChannelSubscribe]);
    assert_eq!(ws.phase, Phase::Welcomed);
}

#[test]
fn first_subscription_failure_aborts_before_the_remaining_calls() {
    let mut ws = fresh_client(false);
    ws.process_welcome_message(String::from("abc"), None, NOW).unwrap();
    let first = ws.next_subscription().expect("one request pending");
    assert_eq!(first.category, EventCategory::ChannelFollow);
    let err = ws.apply_subscription_result(false).unwrap_err();
    assert_eq!(err.kind, SessionErrorKind::Subscription);
    assert_eq!(ws.phase, Phase::Failed);
    // no further request is issued
    assert!(ws.next_subscription().is_none());
}

#[test]
fn welcome_adopts_a_carried_reconnect_url() {
    let mut ws = fresh_client(false);
    ws.process_welcome_message(
        String::from("abc"),
        Some(String::from("wss://eventsub.example/other")),
        NOW,
    )
    .unwrap();
    assert_eq!(ws.connect_url, "wss://eventsub.example/other");
}

#[test]
fn welcome_with_an_expired_token_is_fatal() {
    let mut ws = fresh_client(false);
    let past = ws.token.valid_till;
    let err = ws.process_welcome_message(String::from("abc"), None, past).unwrap_err();
    assert_eq!(err.kind, SessionErrorKind::TokenExpired);
    assert_eq!(ws.phase, Phase::Failed);
}

#[test]
fn reconnect_frame_retargets_the_next_connection_attempt() {
    let mut ws = fresh_client(false);
    ws.handle_reconnect(Some(String::from("wss://eventsub.example/next")));
    assert_eq!(ws.connect_url, "wss://eventsub.example/next");
    assert_eq!(ws.phase, Phase::Reconnecting);
}

#[test]
fn transport_reset_reconnects_once_to_the_same_url() {
    let mut ws = fresh_client(false);
    let url_before = ws.connect_url.clone();
    ws.on_transport_event(TransportEvent::ResetWithoutClose).expect("reset is transient");
    assert_eq!(ws.connect_url, url_before);
    assert_eq!(ws.phase, Phase::Connecting);

    let err = ws
        .on_transport_event(TransportEvent::Failure(String::from("read failed")))
        .unwrap_err();
    assert_eq!(err.kind, SessionErrorKind::Transport);
    assert_eq!(ws.phase, Phase::Failed);
}

#[test]
fn unrecognized_notification_leaves_both_sets_unchanged() {
    let mut ws = fresh_client(false);
    ws.handle_notification(NotificationEvent::Other);
    assert_eq!(ws.events_list.get_followers().len(), 0);
    assert_eq!(ws.events_list.get_subscribers().len(), 0);
}

#[test]
fn follow_and_subscribe_insert_idempotently() {
    let mut ws = fresh_client(false);
    ws.handle_notification(NotificationEvent::Follow {
        user_name: String::from("Awesome_User"),
        user_id: String::from("1337"),
    });
    ws.handle_notification(NotificationEvent::Follow {
        user_name: String::from("Awesome_User"),
        user_id: String::from("1337"),
    });
    ws.handle_notification(NotificationEvent::Subscribe {
        user_name: String::from("Cool_User"),
        user_id: String::from("1234"),
    });
    assert_eq!(ws.events_list.get_followers().as_slice(), ["Awesome_User"]);
    assert_eq!(ws.events_list.get_subscribers().as_slice(), ["Cool_User"]);
}

#[test]
fn diagnostics_mode_appends_the_user_id() {
    let mut ws = fresh_client(true);
    ws.handle_notification(NotificationEvent::Follow {
        user_name: String::from("Awesome_User"),
        user_id: String::from("1337"),
    });
    assert_eq!(ws.events_list.get_followers().as_slice(), ["Awesome_User1337"]);
}

#[test]
fn a_real_welcome_frame_is_decoded_and_welcomes_the_session() {
    let welcome = r#"{
        "metadata": {
            "message_id": "96a3f3b5-5dec-4eed-908e-e11ee657416c",
            "message_type": "session_welcome",
            "message_timestamp": "2022-10-19T14:56:51.634234626Z"
        },
        "payload": {
            "session": {
                "id": "AQoQILE98gtqShGmLD7AM6yJThAB",
                "status": "connected",
                "connected_at": "2022-10-19T14:56:51.616329898Z",
                "keepalive_timeout_seconds": 10,
                "reconnect_url": null
            }
        }
    }"#;
    let mut ws = fresh_client(false);
    ws.process_message(WsMessage::Text(String::from(welcome)), NOW).unwrap();
    assert_eq!(ws.session_id.as_deref(), Some("AQoQILE98gtqShGmLD7AM6yJThAB"));
    assert_eq!(ws.phase, Phase::Subscribing);
    assert!(ws.next_subscription().is_some());
}

#[test]
fn a_real_follow_notification_lands_in_the_follower_set() {
    let notification = r#"{
        "metadata": {
            "message_id": "befa7b53-d79d-478f-86b9-120f112b044e",
            "message_type": "notification",
            "message_timestamp": "2022-10-19T14:56:51.634234626Z",
            "subscription_type": "channel.follow",
            "subscription_version": "2"
        },
        "payload": {
            "subscription": {
                "id": "f1c2a387-161a-49f9-a165-0f21d7a4e1c4",
                "status": "enabled",
                "type": "channel.follow",
                "version": "2",
                "cost": 0,
                "condition": {
                    "broadcaster_user_id": "12826",
                    "moderator_user_id": "98765"
                },
                "transport": {
                    "method": "websocket",
                    "session_id": "AQoQILE98gtqShGmLD7AM6yJThAB"
                },
                "created_at": "2022-10-19T14:56:51.634234626Z"
            },
            "event": {
                "user_id": "1337",
                "user_login": "awesome_user",
                "user_name": "Awesome_User",
                "broadcaster_user_id": "12826",
                "broadcaster_user_login": "twitch",
                "broadcaster_user_name": "Twitch",
                "followed_at": "2020-07-15T18:16:11.17106713Z"
            }
        }
    }"#;
    let mut ws = fresh_client(false);
    ws.process_message(WsMessage::Text(String::from(notification)), NOW).unwrap();
    assert_eq!(ws.events_list.get_followers().as_slice(), ["Awesome_User"]);
    assert_eq!(ws.events_list.get_subscribers().len(), 0);
}

#[test]
fn a_real_reconnect_frame_retargets_the_session() {
    let reconnect = r#"{
        "metadata": {
            "message_id": "84c1e79a-2a4b-4c13-ba0b-4312293e9308",
            "message_type": "session_reconnect",
            "message_timestamp": "2022-11-18T09:10:11.634234626Z"
        },
        "payload": {
            "session": {
                "id": "AQoQILE98gtqShGmLD7AM6yJThAB",
                "status": "reconnecting",
                "keepalive_timeout_seconds": null,
                "reconnect_url": "wss://eventsub.example/ws?challenge=next",
                "connected_at": "2022-11-16T10:11:12.634234626Z"
            }
        }
    }"#;
    let mut ws = fresh_client(false);
    ws.process_message(WsMessage::Text(String::from(reconnect)), NOW).unwrap();
    assert_eq!(ws.connect_url, "wss://eventsub.example/ws?challenge=next");
    assert_eq!(ws.phase, Phase::Reconnecting);
}

#[test]
fn a_revocation_frame_keeps_the_connection_open_and_changes_nothing() {
    let revocation = r#"{
        "metadata": {
            "message_id": "84c1e79a-2a4b-4c13-ba0b-4312293e9308",
            "message_type": "revocation",
            "message_timestamp": "2022-11-16T10:11:12.123Z",
            "subscription_type": "channel.follow",
            "subscription_version": "1"
        },
        "payload": {
            "subscription": {
                "id": "f1c2a387-161a-49f9-a165-0f21d7a4e1c4",
                "status": "authorization_revoked",
                "type": "channel.follow",
                "version": "1",
                "cost": 1,
                "condition": {
                    "broadcaster_user_id": "12826"
                },
                "transport": {
                    "method": "websocket",
                    "session_id": "AQoQexAWVYKSTIu4ec_2VAxyuhAB"
                },
                "created_at": "2022-11-16T10:11:12.123Z"
            }
        }
    }"#;
    let mut ws = fresh_client(false);
    let url_before = ws.connect_url.clone();
    ws.process_message(WsMessage::Text(String::from(revocation)), NOW).unwrap();
    assert_eq!(ws.phase, Phase::Disconnected);
    assert_eq!(ws.connect_url, url_before);
    assert!(ws.session_id.is_none());
    assert_eq!(ws.events_list.get_followers().len(), 0);
}

#[test]
fn keepalive_and_ping_are_no_ops_and_close_is_fatal() {
    let keepalive = r#"{
        "metadata": {
            "message_id": "8d8e0935-0e0c-479a-8fa2-ad4c02cef742",
            "message_type": "session_keepalive",
            "message_timestamp": "2022-11-04T13:11:49.770459792Z"
        },
        "payload": {}
    }"#;
    let mut ws = fresh_client(false);
    ws.process_message(WsMessage::Text(String::from(keepalive)), NOW).unwrap();
    ws.process_message(WsMessage::Ping, NOW).unwrap();
    let err = ws.process_message(WsMessage::Close, NOW).unwrap_err();
    assert_eq!(err.kind, SessionErrorKind::Protocol);
    assert_eq!(ws.phase, Phase::Failed);
}

#[test]
fn an_undecodable_text_frame_is_a_protocol_error() {
    let mut ws = fresh_client(false);
    let err = ws.process_message(WsMessage::Text(String::from("{ not a frame")), NOW).unwrap_err();
    assert_eq!(err.kind, SessionErrorKind::Protocol);
    assert_eq!(ws.phase, Phase::Failed);
}

#[test]
fn sinks_and_paths_and_small_pieces() {
    let mut chatters = create_new_chatters_list();
    chatters.insert(String::from("viewer"));
    chatters.insert(String::from("viewer"));
    assert_eq!(chatters.len(), 1);
    assert!(chatters.contains("viewer"));
    assert!(!chatters.contains("stranger"));

    assert_eq!(get_eventsub_config_file("/home/bot/.config/app"), "/home/bot/.config/app/eventsub.json");
    assert_eq!(get_chat_config_file("/home/bot/.config/app"), "/home/bot/.config/app/chat.json");

    let ban = ban_request(String::from("1337"), String::from("lost the game"));
    assert_eq!(ban.duration_secs, BAN_DURATION_SECS);
    assert_eq!(ban.user_id, "1337");

    let e = WSError::new(SessionErrorKind::Transport, String::from("boom"));
    assert_eq!(e.display_text(), "error: boom");

    // the clock reads a post-2001 instant on any sanely configured machine
    assert!(now_seconds() > 1_000_000_000);
}
