//! The EventSub session: one WebSocket connection's state machine.
//!
//! The session owns the connection's phase, its session identifier, the url
//! the next connection attempt targets, the active token, and the event sink
//! it writes into. Each inbound protocol frame or transport event steps the
//! machine; the caller opens sockets, reads frames and fires the
//! subscription-creation calls the machine asks for.

use vstd::prelude::*;
use vstd::string::StringExecFns;

use twitch_api::eventsub::event::websocket::EventsubWebsocketData;
use twitch_api::eventsub::{Event, Message, Payload};

use crate::errors::{SessionErrorKind, WSError};
use crate::helper::{event_list_wf, names_set, TwitchEventList};
use crate::token::{spec_is_expired, ActiveToken};

verus! {

/// twitch_api's decoded EventSub event, carried opaquely inside a
/// notification frame until it is classified.
#[verifier::external_type_specification]
#[verifier::external_body]
pub struct ExEvent(Event);

/// One decoded protocol frame, by its message-type discriminator.
pub enum ParsedFrame {
    /// The server's first frame on a connection: the session identifier and,
    /// sometimes, a url to use for later reconnects.
    Welcome { session_id: String, reconnect_url: Option<String> },
    /// The server asks the client to move to another url.
    Reconnect { reconnect_url: Option<String> },
    /// A pushed event, still carrying the decoder's typed payload.
    Notification { event: Event },
    /// The server revoked a subscription; the connection stays open.
    Revocation,
    /// A liveness frame; nothing to do.
    Keepalive,
    /// A frame kind this client does not know; kept, not dropped.
    Unknown,
    /// A text that does not decode as a protocol frame; fatal.
    Undecodable,
}

/// The mathematical value of a decoded frame: its message-type discriminator
/// and the session data it carries. The notification payload stays behind
/// the decoder's opaque event type, so it has no value here.
pub enum FrameView {
    /// A welcome with its session identifier and optional reconnect url.
    Welcome { session_id: Seq<char>, reconnect_url: Option<Seq<char>> },
    /// A reconnect request with the url to move to.
    Reconnect { reconnect_url: Option<Seq<char>> },
    /// A pushed event.
    Notification,
    /// A revoked subscription.
    Revocation,
    /// A liveness frame.
    Keepalive,
    /// A frame kind this client does not know.
    Unknown,
    /// A text that does not decode as a protocol frame.
    Undecodable,
}

impl View for ParsedFrame {
    type V = FrameView;

    open spec fn view(&self) -> FrameView {
        match self {
            ParsedFrame::Welcome { session_id, reconnect_url } => FrameView::Welcome {
                session_id: session_id@,
                reconnect_url: match reconnect_url {
                    Some(u) => Some(u@),
                    None => None,
                },
            },
            ParsedFrame::Reconnect { reconnect_url } => FrameView::Reconnect {
                reconnect_url: match reconnect_url {
                    Some(u) => Some(u@),
                    None => None,
                },
            },
            ParsedFrame::Notification { .. } => FrameView::Notification,
            ParsedFrame::Revocation => FrameView::Revocation,
            ParsedFrame::Keepalive => FrameView::Keepalive,
            ParsedFrame::Unknown => FrameView::Unknown,
            ParsedFrame::Undecodable => FrameView::Undecodable,
        }
    }
}

/// The frame a text decodes to. Decoding depends on the text alone, so the
/// result has a name; the decoder's contract ties its return to it, and the
/// session's message step is exact over it.
pub uninterp spec fn frame_of(text: Seq<char>) -> FrameView;

/// A pushed event reduced to the categories this session handles.
pub enum NotificationEvent {
    /// Someone followed the channel.
    Follow { user_name: String, user_id: String },
    /// Someone subscribed to the channel.
    Subscribe { user_name: String, user_id: String },
    /// Any other event category; ignored without error.
    Other,
}

/// An inbound message of the transport, reduced to what the session reads.
pub enum WsMessage {
    /// A text frame, holding one JSON-encoded protocol frame.
    Text(String),
    /// A transport-level ping; nothing to do.
    Ping,
    /// A close frame; unexpected here and fatal.
    Close,
    /// Any other transport message kind; ignored.
    Other,
}

/// What ended the transport's read, where it was not a frame.
pub enum TransportEvent {
    /// The connection was reset without a close handshake: transient, the
    /// session reconnects once to the same url.
    ResetWithoutClose,
    /// Any other read or connect failure: fatal.
    Failure(String),
}

/// The connection lifecycle states of a session.
#[derive(Debug, Clone, Copy, PartialEq, Eq, Structural)]
pub enum Phase {
    /// No connection yet.
    Disconnected,
    /// A connection attempt is under way.
    Connecting,
    /// The socket is open; no welcome seen yet.
    Connected,
    /// Welcomed, with the subscription-creation calls still being issued.
    Subscribing,
    /// Welcomed and fully subscribed: the session is ready.
    Welcomed,
    /// A protocol reconnect was requested; the next attempt targets the new
    /// url.
    Reconnecting,
    /// A fatal condition ended the session.
    Failed,
}

/// The event categories this session subscribes to, in the fixed order the
/// subscription-creation calls are issued.
#[derive(Debug, Clone, Copy, PartialEq, Eq, Structural)]
pub enum EventCategory {
    /// `channel.follow`: someone followed the channel.
    ChannelFollow,
    /// `channel.subscribe`: someone subscribed to the channel.
    ChannelSubscribe,
}

/// How many event categories are configured.
pub const SUBSCRIPTION_CATEGORY_COUNT: usize = 2;

/// The category whose subscription-creation call is issued at position `i`.
pub open spec fn spec_category_at(i: int) -> EventCategory {
    if i == 0 {
        EventCategory::ChannelFollow
    } else {
        EventCategory::ChannelSubscribe
    }
}

/// One subscription-creation call the caller must fire: the category, the
/// channel and moderator it concerns, and the session the transport names.
pub struct SubscriptionRequest {
    /// The event category to subscribe to.
    pub category: EventCategory,
    /// The channel listened to.
    pub broadcaster_id: String,
    /// The token's own identity, acting as moderator.
    pub moderator_id: String,
    /// The welcomed session's identifier, naming this socket as transport.
    pub session_id: String,
}

/// How one subscription-creation outcome steps the machine: a success moves
/// to the next category, the last success completes the session, the first
/// failure is fatal and no further call is issued.
pub open spec fn spec_apply_subscription(pending: int, ok: bool) -> (Phase, int) {
    if !ok {
        (Phase::Failed, pending)
    } else if pending + 1 == SUBSCRIPTION_CATEGORY_COUNT as int {
        (Phase::Welcomed, pending + 1)
    } else {
        (Phase::Subscribing, pending + 1)
    }
}

/// The display identity an event payload renders to: the display name,
/// with the platform user id appended in diagnostics mode.
pub open spec fn spec_display(name: Seq<char>, id: Seq<char>, diagnostics: bool) -> Seq<char> {
    if diagnostics {
        name + id
    } else {
        name
    }
}

/// The EventSub session state machine.
pub struct WebsocketClient {
    /// The session id of the websocket connection; absent until a welcome.
    pub session_id: Option<String>,
    /// The token used to authenticate with the platform's API.
    pub token: ActiveToken,
    /// The user id of the channel to listen to.
    pub user_id: String,
    /// The url the next connection attempt targets.
    pub connect_url: String,
    /// The sink the session writes decoded events into.
    pub events_list: TwitchEventList,
    /// Where the connection stands.
    pub phase: Phase,
    /// How many subscription-creation calls have succeeded since the last
    /// welcome.
    pub pending_sub: usize,
    /// Whether display identities carry the platform user id too.
    pub diagnostics: bool,
}

/// A session's event sink is well formed.
pub open spec fn client_wf(c: WebsocketClient) -> bool {
    event_list_wf(c.events_list)
}

/// Everything of a session but its phase, subscription progress, session
/// id, target url and event sink is unchanged.
pub open spec fn same_session_identity(pre: WebsocketClient, post: WebsocketClient) -> bool {
    &&& post.token == pre.token
    &&& post.user_id == pre.user_id
    &&& post.diagnostics == pre.diagnostics
}

/// What one classified notification does to the event sink: a follow inserts
/// the display identity into the follower list, a subscribe into the
/// subscriber list, and an unrecognized category leaves both lists unchanged.
pub open spec fn notification_effect(
    pre: WebsocketClient,
    post: WebsocketClient,
    ev: NotificationEvent,
) -> bool {
    match ev {
        NotificationEvent::Follow { user_name, user_id } => {
            &&& names_set(post.events_list.followers_list@) == names_set(
                pre.events_list.followers_list@,
            ).insert(spec_display(user_name@, user_id@, pre.diagnostics))
            &&& post.events_list.subscribers_list == pre.events_list.subscribers_list
        },
        NotificationEvent::Subscribe { user_name, user_id } => {
            &&& names_set(post.events_list.subscribers_list@) == names_set(
                pre.events_list.subscribers_list@,
            ).insert(spec_display(user_name@, user_id@, pre.diagnostics))
            &&& post.events_list.followers_list == pre.events_list.followers_list
        },
        NotificationEvent::Other => post.events_list == pre.events_list,
    }
}

/// Relies on twitch_api's `Event::parse_websocket`: decodes one EventSub
/// websocket frame and hands its message-type discriminator and session data
/// through unchanged; a text the decoder refuses is `Undecodable`. The
/// decoder reads the text alone, so the result is `frame_of` the text.
#[verifier::external_body]
fn parse_frame_text(text: &str) -> (r: ParsedFrame)
    ensures
        r@ == frame_of(text@),
{
    match twitch_api::eventsub::Event::parse_websocket(text) {
        Ok(EventsubWebsocketData::Welcome { payload, .. }) => ParsedFrame::Welcome {
            session_id: payload.session.id.to_string(),
            reconnect_url: payload.session.reconnect_url.map(|u| u.to_string()),
        },
        Ok(EventsubWebsocketData::Reconnect { payload, .. }) => ParsedFrame::Reconnect {
            reconnect_url: payload.session.reconnect_url.map(|u| u.to_string()),
        },
        Ok(EventsubWebsocketData::Notification { payload, .. }) => ParsedFrame::Notification { event: payload },
        Ok(EventsubWebsocketData::Revocation { .. }) => ParsedFrame::Revocation,
        Ok(EventsubWebsocketData::Keepalive { .. }) => ParsedFrame::Keepalive,
        Ok(_) => ParsedFrame::Unknown,
        Err(_) => ParsedFrame::Undecodable,
    }
}

/// Relies on twitch_api's `Event` enum: tells the channel-follow and
/// channel-subscribe notification payloads apart and moves out the display
/// name and user id they carry; every other category is `Other`.
#[verifier::external_body]
fn classify_event(ev: Event) -> (r: NotificationEvent) {
    match ev {
        Event::ChannelFollowV2(Payload { message: Message::Notification(p), .. }) => {
            NotificationEvent::Follow { user_name: p.user_name.take(), user_id: p.user_id.take() }
        },
        Event::ChannelSubscribeV1(Payload { message: Message::Notification(p), .. }) => {
            NotificationEvent::Subscribe {
                user_name: p.user_name.take(),
                user_id: p.user_id.take(),
            }
        },
        _ => NotificationEvent::Other,
    }
}

impl WebsocketClient {
    /// A fresh session: disconnected, no session id, aimed at `connect_url`.
    pub fn new(
        session_id: Option<String>,
        token: ActiveToken,
        user_id: String,
        connect_url: String,
        events_list: TwitchEventList,
        diagnostics: bool,
    ) -> (r: WebsocketClient)
        ensures
            r.session_id == session_id,
            r.token == token,
            r.user_id == user_id,
            r.connect_url == connect_url,
            r.events_list == events_list,
            r.diagnostics == diagnostics,
            r.phase is Disconnected,
            r.pending_sub == 0,
    {
        WebsocketClient {
            session_id,
            token,
            user_id,
            connect_url,
            events_list,
            phase: Phase::Disconnected,
            pending_sub: 0,
            diagnostics,
        }
    }

    /// A connection attempt starts: the caller is about to open a socket to
    /// `connect_url`.
    pub fn start_connect(&mut self)
        ensures
            final(self).phase is Connecting,
            final(self).connect_url == old(self).connect_url,
            final(self).session_id == old(self).session_id,
            final(self).pending_sub == old(self).pending_sub,
            same_session_identity(*old(self), *final(self)),
            final(self).events_list == old(self).events_list,
    {
        self.phase = Phase::Connecting;
    }

    /// The socket opened.
    pub fn connected(&mut self)
        ensures
            final(self).phase is Connected,
            final(self).connect_url == old(self).connect_url,
            final(self).session_id == old(self).session_id,
            final(self).pending_sub == old(self).pending_sub,
            same_session_identity(*old(self), *final(self)),
            final(self).events_list == old(self).events_list,
    {
        self.phase = Phase::Connected;
    }

    /// The connection attempt failed: fatal, surfaced to the caller of the
    /// run loop.
    pub fn connect_failed(&mut self, description: String) -> (r: WSError)
        ensures
            final(self).phase is Failed,
            final(self).connect_url == old(self).connect_url,
            final(self).session_id == old(self).session_id,
            same_session_identity(*old(self), *final(self)),
            final(self).events_list == old(self).events_list,
            r.kind is Transport,
            r.description == description,
    {
        self.phase = Phase::Failed;
        WSError::new(SessionErrorKind::Transport, description)
    }

    /// Steps the machine on a welcome frame: the session id is adopted, a
    /// reconnect url (if any) replaces the target url, a stale token is fatal
    /// since mid-session refresh is unsupported, and otherwise the
    /// subscription-creation calls start from the first category.
    pub fn process_welcome_message(
        &mut self,
        session_id: String,
        reconnect_url: Option<String>,
        now: i64,
    ) -> (r: Result<(), WSError>)
        ensures
            final(self).session_id matches Some(sid) && sid == session_id,
            reconnect_url matches Some(u) ==> final(self).connect_url == u,
            reconnect_url is None ==> final(self).connect_url == old(self).connect_url,
            same_session_identity(*old(self), *final(self)),
            final(self).events_list == old(self).events_list,
            spec_is_expired(old(self).token.valid_till, now) ==> final(self).phase is Failed && (
            r matches Err(e) && e.kind is TokenExpired),
            !spec_is_expired(old(self).token.valid_till, now) ==> final(self).phase is Subscribing
                && final(self).pending_sub == 0 && r is Ok,
    {
        self.session_id = Some(session_id);
        if let Some(url) = reconnect_url {
            self.connect_url = url;
        }
        if self.token.is_elapsed(now) {
            self.phase = Phase::Failed;
            return Err(
                WSError::new(
                    SessionErrorKind::TokenExpired,
                    <String as StringExecFns>::from_str(
                        "the session's token expired and mid-session refresh is unsupported",
                    ),
                ),
            );
        }
        self.phase = Phase::Subscribing;
        self.pending_sub = 0;
        Ok(())
    }

    /// Steps the machine on a reconnect frame: the carried url becomes the
    /// next connection attempt's target and the session re-enters the
    /// connection cycle.
    pub fn handle_reconnect(&mut self, reconnect_url: Option<String>)
        ensures
            reconnect_url matches Some(u) ==> final(self).connect_url == u,
            reconnect_url is None ==> final(self).connect_url == old(self).connect_url,
            final(self).phase is Reconnecting,
            final(self).session_id == old(self).session_id,
            final(self).pending_sub == old(self).pending_sub,
            same_session_identity(*old(self), *final(self)),
            final(self).events_list == old(self).events_list,
    {
        if let Some(url) = reconnect_url {
            self.connect_url = url;
        }
        self.phase = Phase::Reconnecting;
    }

    /// The next subscription-creation call to fire, if the session is still
    /// subscribing; in welcome order, one category after another.
    pub fn next_subscription(&self) -> (r: Option<SubscriptionRequest>)
        ensures
            match r {
                Some(req) => {
                    &&& self.phase is Subscribing
                    &&& self.pending_sub < SUBSCRIPTION_CATEGORY_COUNT
                    &&& req.category == spec_category_at(self.pending_sub as int)
                    &&& req.broadcaster_id@ == self.user_id@
                    &&& req.moderator_id@ == self.token.user_id@
                    &&& (self.session_id matches Some(sid) && req.session_id@ == sid@)
                },
                None => !(self.phase is Subscribing && self.pending_sub
                    < SUBSCRIPTION_CATEGORY_COUNT && self.session_id is Some),
            },
    {
        if !(matches!(self.phase, Phase::Subscribing)) {
            return None;
        }
        if self.pending_sub >= SUBSCRIPTION_CATEGORY_COUNT {
            return None;
        }
        let sid = match &self.session_id {
            Some(sid) => sid.clone(),
            None => {
                return None;
            },
        };
        let category = if self.pending_sub == 0 {
            EventCategory::ChannelFollow
        } else {
            EventCategory::ChannelSubscribe
        };
        Some(
            SubscriptionRequest {
                category,
                broadcaster_id: self.user_id.clone(),
                moderator_id: self.token.user_id.clone(),
                session_id: sid,
            },
        )
    }

    /// Steps the machine on one subscription-creation outcome: a success
    /// moves on to the next category and the last one completes the session;
    /// the first failure is fatal to session establishment, and no further
    /// call is issued (no partial subscription set is retained as progress).
    pub fn apply_subscription_result(&mut self, ok: bool) -> (r: Result<(), WSError>)
        requires
            old(self).phase is Subscribing,
            old(self).pending_sub < SUBSCRIPTION_CATEGORY_COUNT,
        ensures
            (final(self).phase, final(self).pending_sub as int) == spec_apply_subscription(
                old(self).pending_sub as int,
                ok,
            ),
            final(self).connect_url == old(self).connect_url,
            final(self).session_id == old(self).session_id,
            same_session_identity(*old(self), *final(self)),
            final(self).events_list == old(self).events_list,
            ok <==> r is Ok,
            !ok ==> (r matches Err(e) && e.kind is Subscription),
    {
        if !ok {
            self.phase = Phase::Failed;
            return Err(
                WSError::new(
                    SessionErrorKind::Subscription,
                    <String as StringExecFns>::from_str(
                        "the provider rejected a subscription-creation request",
                    ),
                ),
            );
        }
        self.pending_sub = self.pending_sub + 1;
        if self.pending_sub == SUBSCRIPTION_CATEGORY_COUNT {
            self.phase = Phase::Welcomed;
        }
        Ok(())
    }

    /// Steps the machine on a classified notification: a follow inserts the
    /// display identity into the follower list, a subscribe into the
    /// subscriber list, both idempotently; an unrecognized category changes
    /// nothing and raises no error.
    pub fn handle_notification(&mut self, ev: NotificationEvent)
        requires
            client_wf(*old(self)),
        ensures
            client_wf(*final(self)),
            final(self).phase == old(self).phase,
            final(self).session_id == old(self).session_id,
            final(self).connect_url == old(self).connect_url,
            final(self).pending_sub == old(self).pending_sub,
            final(self).token == old(self).token,
            final(self).user_id == old(self).user_id,
            final(self).diagnostics == old(self).diagnostics,
            notification_effect(*old(self), *final(self), ev),
    {
        match ev {
            NotificationEvent::Follow { user_name, user_id } => {
                let display = self.display_identity(user_name, user_id);
                self.events_list.add_follower(display);
            },
            NotificationEvent::Subscribe { user_name, user_id } => {
                let display = self.display_identity(user_name, user_id);
                self.events_list.add_subscriber(display);
            },
            NotificationEvent::Other => (),
        }
    }

    /// The display identity an event renders to: the display name alone, or
    /// with the platform user id appended in diagnostics mode.
    fn display_identity(&self, user_name: String, user_id: String) -> (r: String)
        ensures
            r@ == spec_display(user_name@, user_id@, self.diagnostics),
    {
        if self.diagnostics {
            user_name.concat(user_id.as_str())
        } else {
            user_name
        }
    }

    /// Steps the machine on one decoded protocol frame at instant `now`.
    pub fn process_frame(&mut self, frame: ParsedFrame, now: i64) -> (r: Result<(), WSError>)
        requires
            client_wf(*old(self)),
        ensures
            client_wf(*final(self)),
            same_session_identity(*old(self), *final(self)),
            match frame {
                ParsedFrame::Welcome { session_id, reconnect_url } => {
                    &&& (final(self).session_id matches Some(sid) && sid == session_id)
                    &&& (reconnect_url matches Some(u) ==> final(self).connect_url == u)
                    &&& (reconnect_url is None ==> final(self).connect_url == old(
                        self,
                    ).connect_url)
                    &&& final(self).events_list == old(self).events_list
                    &&& (spec_is_expired(old(self).token.valid_till, now) ==> final(self).phase
                        is Failed && (r matches Err(e) && e.kind is TokenExpired))
                    &&& (!spec_is_expired(old(self).token.valid_till, now) ==> final(self).phase
                        is Subscribing && final(self).pending_sub == 0 && r is Ok)
                },
                ParsedFrame::Reconnect { reconnect_url } => {
                    &&& (reconnect_url matches Some(u) ==> final(self).connect_url == u)
                    &&& (reconnect_url is None ==> final(self).connect_url == old(
                        self,
                    ).connect_url)
                    &&& final(self).phase is Reconnecting
                    &&& final(self).session_id == old(self).session_id
                    &&& final(self).pending_sub == old(self).pending_sub
                    &&& final(self).events_list == old(self).events_list
                    &&& r is Ok
                },
                ParsedFrame::Notification { .. } => {
                    &&& r is Ok
                    &&& final(self).phase == old(self).phase
                    &&& final(self).session_id == old(self).session_id
                    &&& final(self).connect_url == old(self).connect_url
                    &&& final(self).pending_sub == old(self).pending_sub
                    &&& exists|ne: NotificationEvent|
                        notification_effect(*old(self), *final(self), ne)
                },
                ParsedFrame::Undecodable => {
                    &&& (r matches Err(e) && e.kind is Protocol)
                    &&& final(self).phase is Failed
                    &&& final(self).session_id == old(self).session_id
                    &&& final(self).connect_url == old(self).connect_url
                    &&& final(self).events_list == old(self).events_list
                    &&& final(self).pending_sub == old(self).pending_sub
                },
                _ => r is Ok && *final(self) == *old(self),
            },
    {
        match frame {
            ParsedFrame::Welcome { session_id, reconnect_url } => {
                self.process_welcome_message(session_id, reconnect_url, now)
            },
            ParsedFrame::Reconnect { reconnect_url } => {
                self.handle_reconnect(reconnect_url);
                Ok(())
            },
            ParsedFrame::Notification { event } => {
                let ne = classify_event(event);
                self.handle_notification(ne);
                Ok(())
            },
            ParsedFrame::Revocation => Ok(()),
            ParsedFrame::Keepalive => Ok(()),
            ParsedFrame::Unknown => Ok(()),
            ParsedFrame::Undecodable => {
                self.phase = Phase::Failed;
                Err(
                    WSError::new(
                        SessionErrorKind::Protocol,
                        <String as StringExecFns>::from_str("a frame could not be decoded"),
                    ),
                )
            },
        }
    }

    /// Steps the machine on one transport message at instant `now`: a text
    /// frame is decoded and handled by what it decodes to; an undecodable
    /// text, like an unexpected close frame, is fatal; pings and other
    /// message kinds are no-ops.
    pub fn process_message(&mut self, msg: WsMessage, now: i64) -> (r: Result<(), WSError>)
        requires
            client_wf(*old(self)),
        ensures
            client_wf(*final(self)),
            same_session_identity(*old(self), *final(self)),
            match msg {
                WsMessage::Text(text) => match frame_of(text@) {
                    FrameView::Welcome { session_id, reconnect_url } => {
                        &&& (final(self).session_id matches Some(sid) && sid@ == session_id)
                        &&& (reconnect_url matches Some(u) ==> final(self).connect_url@ == u)
                        &&& (reconnect_url is None
                            ==> final(self).connect_url == old(self).connect_url)
                        &&& final(self).events_list == old(self).events_list
                        &&& (spec_is_expired(old(self).token.valid_till, now)
                            ==> final(self).phase is Failed && (r matches Err(e) && e.kind
                            is TokenExpired))
                        &&& (!spec_is_expired(old(self).token.valid_till, now)
                            ==> final(self).phase is Subscribing && final(self).pending_sub == 0
                            && r is Ok)
                    },
                    FrameView::Reconnect { reconnect_url } => {
                        &&& (reconnect_url matches Some(u) ==> final(self).connect_url@ == u)
                        &&& (reconnect_url is None
                            ==> final(self).connect_url == old(self).connect_url)
                        &&& final(self).phase is Reconnecting
                        &&& final(self).session_id == old(self).session_id
                        &&& final(self).events_list == old(self).events_list
                        &&& r is Ok
                    },
                    FrameView::Notification => {
                        &&& r is Ok
                        &&& final(self).phase == old(self).phase
                        &&& final(self).session_id == old(self).session_id
                        &&& final(self).connect_url == old(self).connect_url
                        &&& final(self).pending_sub == old(self).pending_sub
                        &&& exists|ne: NotificationEvent|
                            notification_effect(*old(self), *final(self), ne)
                    },
                    FrameView::Undecodable => {
                        &&& (r matches Err(e) && e.kind is Protocol)
                        &&& final(self).phase is Failed
                        &&& final(self).session_id == old(self).session_id
                        &&& final(self).connect_url == old(self).connect_url
                        &&& final(self).events_list == old(self).events_list
                        &&& final(self).pending_sub == old(self).pending_sub
                    },
                    _ => r is Ok && *final(self) == *old(self),
                },
                WsMessage::Close => {
                    &&& final(self).phase is Failed
                    &&& (r matches Err(e) && e.kind is Protocol)
                    &&& final(self).session_id == old(self).session_id
                    &&& final(self).connect_url == old(self).connect_url
                    &&& final(self).events_list == old(self).events_list
                    &&& final(self).pending_sub == old(self).pending_sub
                },
                _ => r is Ok && *final(self) == *old(self),
            },
    {
        match msg {
            WsMessage::Text(text) => {
                let frame = parse_frame_text(text.as_str());
                let ghost decoded = frame;
                let r = self.process_frame(frame, now);
                proof {
                    assert(decoded@ == frame_of(text@));
                    match decoded {
                        ParsedFrame::Welcome { session_id, reconnect_url } => {
                            assert(frame_of(text@) == FrameView::Welcome {
                                session_id: session_id@,
                                reconnect_url: match reconnect_url {
                                    Some(u) => Some(u@),
                                    None => None,
                                },
                            });
                        },
                        ParsedFrame::Reconnect { reconnect_url } => {
                            assert(frame_of(text@) == FrameView::Reconnect {
                                reconnect_url: match reconnect_url {
                                    Some(u) => Some(u@),
                                    None => None,
                                },
                            });
                        },
                        _ => {},
                    }
                }
                r
            },
            WsMessage::Close => {
                self.phase = Phase::Failed;
                Err(
                    WSError::new(
                        SessionErrorKind::Protocol,
                        <String as StringExecFns>::from_str("unexpected close frame"),
                    ),
                )
            },
            WsMessage::Ping => Ok(()),
            WsMessage::Other => Ok(()),
        }
    }

    /// Steps the machine when the transport's read ends without a frame: a
    /// reset without a close handshake is transient, and the session
    /// reconnects exactly once to the same url, so the read loop goes on;
    /// anything else is fatal.
    pub fn on_transport_event(&mut self, ev: TransportEvent) -> (r: Result<(), WSError>)
        ensures
            same_session_identity(*old(self), *final(self)),
            final(self).events_list == old(self).events_list,
            final(self).connect_url == old(self).connect_url,
            final(self).session_id == old(self).session_id,
            match ev {
                TransportEvent::ResetWithoutClose => r is Ok && final(self).phase is Connecting,
                TransportEvent::Failure(d) => (r matches Err(e) && e.kind is Transport
                    && e.description == d) && final(self).phase is Failed,
            },
    {
        match ev {
            TransportEvent::ResetWithoutClose => {
                self.phase = Phase::Connecting;
                Ok(())
            },
            TransportEvent::Failure(description) => {
                self.phase = Phase::Failed;
                Err(WSError::new(SessionErrorKind::Transport, description))
            },
        }
    }
}

/// What a run of subscription-creation outcomes leaves the machine in,
/// starting from `pending` successes: outcomes are applied in order until
/// one fails or the run ends.
pub open spec fn spec_drive_subscriptions(pending: int, results: Seq<bool>) -> (Phase, int)
    decreases results.len(),
{
    if results.len() == 0 {
        (Phase::Subscribing, pending)
    } else {
        let step = spec_apply_subscription(pending, results[0]);
        if step.0 is Subscribing {
            spec_drive_subscriptions(step.1, results.drop_first())
        } else {
            step
        }
    }
}

/// Law: after a welcome, the session is ready exactly when as many
/// subscription-creation calls as there are configured event categories all
/// succeeded, in order; and a failure at any point leaves the session failed
/// right there, with only the earlier calls ever issued.
pub proof fn lemma_subscription_drive(results: Seq<bool>)
    requires
        results.len() == SUBSCRIPTION_CATEGORY_COUNT as int,
    ensures
        (forall|i: int| 0 <= i < results.len() ==> results[i]) ==> spec_drive_subscriptions(
            0,
            results,
        ).0 is Welcomed && spec_drive_subscriptions(0, results).1
            == SUBSCRIPTION_CATEGORY_COUNT as int,
        !results[0] ==> spec_drive_subscriptions(0, results).0 is Failed
            && spec_drive_subscriptions(0, results).1 == 0,
        results[0] && !results[1] ==> spec_drive_subscriptions(0, results).0 is Failed
            && spec_drive_subscriptions(0, results).1 == 1,
{
    assert(spec_drive_subscriptions(0, results) == {
        let step = spec_apply_subscription(0, results[0]);
        if step.0 is Subscribing {
            spec_drive_subscriptions(step.1, results.drop_first())
        } else {
            step
        }
    });
    if results[0] {
        assert(results.drop_first().len() == 1);
        assert(results.drop_first()[0] == results[1]);
    }
}

} // verus!
