//! The connection handler: the protocol state machine of one socket.
//!
//! A connection is upgraded, authenticated, active, closing and finally
//! closed. While it is active it serves two duties: it persists and then
//! publishes what the client sends, and it forwards what the room's
//! channel delivers. The transport feeds the machine one event at a time
//! and carries out the action that the machine answers with.

use crate::auth::middleware::{
    bearer_of, bearer_token, validate_token, validated, CurrentUser, CurrentUserView,
};
use crate::error::{ApiError, Fault, Invalid};
use crate::frames::{inbound_content, outbound_text, parse_inbound};
use crate::route_handlers::rooms::MessagePayload;
use crate::hub::{
    after_get_or_create, after_poll, after_publish, after_subscribe, after_unsubscribe,
    channel_index, channel_of, frame_waiting, has_channel, has_subscriber, is_subscribed,
    law_publish_observed, lemma_subscribed_valid, observed, receives, subscriber_of,
    valid_registry, Delivery, RegistryView, Subscription,
};
use crate::ids::{direct_channel_id, name_based_uuid, pair_key_text, uuid_text, Id};
use crate::message_log::{
    in_room, latest_direct_stamp, latest_room_stamp, stamp_after, LogView,
};
use crate::models::messages::DirectMessageView;
use crate::models::rooms::RoomMessageView;
use crate::room_directory::{is_member, Membership};
use crate::state::AppState;
use vstd::prelude::*;
use vstd::string::StringExecFns;

verus! {
/// Where a connection stands in its life.
#[derive(Clone, Copy, Debug, PartialEq, Eq, Structural)]
pub enum ConnectionState {
    Upgrading,
    Authenticating,
    Active,
    Closing,
    Closed,
}

/// What a connection is attached to: a room, or the direct conversation
/// with another user.
#[derive(Clone, Copy, Debug, PartialEq, Eq, Structural)]
pub enum Target {
    Room(Id),
    Direct(Id),
}

/// One socket's connection.
#[derive(Debug)]
pub struct Connection {
    state: ConnectionState,
    target: Target,
    user: Option<CurrentUser>,
    subscription: Option<Subscription>,
}

/// What a connection holds, as plain values.
pub struct ConnectionView {
    pub state: ConnectionState,
    pub target: Target,
    pub user: Option<CurrentUserView>,
    pub subscription: Option<Subscription>,
}

impl View for Connection {
    type V = ConnectionView;

    closed spec fn view(&self) -> ConnectionView {
        ConnectionView {
            state: self.state,
            target: self.target,
            user: match self.user {
                Some(u) => Some(u@),
                None => None,
            },
            subscription: self.subscription,
        }
    }
}

/// What the transport reports to the machine.
#[derive(Debug, PartialEq, Eq)]
pub enum SocketEvent {
    /// The credential was validated, with this outcome.
    Authenticated(Result<CurrentUser, ApiError>),
    /// A text frame arrived.
    Text(String),
    /// A frame that is not text arrived, the socket failed, or the peer
    /// closed it.
    Unreadable,
    /// The outbound duty asks for the next frame to forward.
    Poll,
    /// A frame could not be written to the socket.
    SendFailed,
    /// Both duties have stopped.
    Terminated,
}

/// An event as plain values.
pub enum SocketEventView {
    Authenticated(Result<CurrentUserView, ApiError>),
    Text(Seq<char>),
    Unreadable,
    Poll,
    SendFailed,
    Terminated,
}

impl View for SocketEvent {
    type V = SocketEventView;

    open spec fn view(&self) -> SocketEventView {
        match self {
            SocketEvent::Authenticated(Ok(user)) => SocketEventView::Authenticated(Ok(user@)),
            SocketEvent::Authenticated(Err(e)) => SocketEventView::Authenticated(Err(*e)),
            SocketEvent::Text(text) => SocketEventView::Text(text@),
            SocketEvent::Unreadable => SocketEventView::Unreadable,
            SocketEvent::Poll => SocketEventView::Poll,
            SocketEvent::SendFailed => SocketEventView::SendFailed,
            SocketEvent::Terminated => SocketEventView::Terminated,
        }
    }
}

/// What the machine asks of the transport.
#[derive(Debug, PartialEq, Eq)]
pub enum SocketAction {
    /// Nothing to do.
    Idle,
    /// Write this frame to the socket.
    Send(String),
    /// Refuse the connection with this error.
    Reject(ApiError),
    /// Stop both duties and report `Terminated`.
    Close,
}

/// An action as plain values.
pub enum SocketActionView {
    Idle,
    Send(Seq<char>),
    Reject(ApiError),
    Close,
}

impl View for SocketAction {
    type V = SocketActionView;

    open spec fn view(&self) -> SocketActionView {
        match self {
            SocketAction::Idle => SocketActionView::Idle,
            SocketAction::Send(frame) => SocketActionView::Send(frame@),
            SocketAction::Reject(e) => SocketActionView::Reject(*e),
            SocketAction::Close => SocketActionView::Close,
        }
    }
}

/// What a step of the machine can read and change: the connection, the
/// hub, the log, and the identity that the log gives out next.
pub struct World {
    pub conn: ConnectionView,
    pub hub: RegistryView,
    pub log: LogView,
    pub next_id: u128,
}

/// The credential of an upgrade request: the bearer credential of the
/// `Authorization` header where there is one, else the connection
/// parameter.
pub open spec fn credential_of(authorization: Option<Seq<char>>, param: Option<Seq<char>>) -> Option<
    Seq<char>,
> {
    match authorization {
        Some(header) => match bearer_of(header) {
            Some(token) => Some(token),
            None => param,
        },
        None => param,
    }
}

/// The channel of the conversation between two users.
pub open spec fn direct_channel(a: Id, b: Id) -> Id {
    Id { value: name_based_uuid(pair_key_text(a, b)) }
}

/// The world with the connection closing.
pub open spec fn closing(w: World) -> World {
    World { conn: ConnectionView { state: ConnectionState::Closing, ..w.conn }, ..w }
}

/// The world after the connection is torn down at `now`: its subscription,
/// if it has one, is released, and the connection is closed.
pub open spec fn released(w: World, now: i64) -> World {
    World {
        conn: ConnectionView { state: ConnectionState::Closed, subscription: None, ..w.conn },
        hub: match w.conn.subscription {
            Some(sub) => after_unsubscribe(w.hub, sub, now),
            None => w.hub,
        },
        ..w
    }
}

/// The world after the connection joins a channel as a user at `now`.
pub open spec fn activated(w: World, user: CurrentUserView, channel: Id, now: i64) -> World {
    World {
        conn: ConnectionView {
            state: ConnectionState::Active,
            user: Some(user),
            subscription: Some(Subscription { room_id: channel, id: w.hub.next_subscription }),
            ..w.conn
        },
        hub: after_subscribe(w.hub, channel, now),
        ..w
    }
}

/// The outbound duty's step: the oldest waiting frame is taken and sent;
/// with nothing waiting the duty idles; a subscription that lagged or is
/// gone closes the connection.
pub open spec fn poll_step(w: World) -> (World, SocketActionView) {
    match w.conn.subscription {
        Some(sub) => if frame_waiting(w.hub, sub) {
            (
                World { hub: after_poll(w.hub, sub), ..w },
                SocketActionView::Send(subscriber_of(channel_of(w.hub, sub.room_id), sub.id).pending[0]),
            )
        } else if is_subscribed(w.hub, sub) && !subscriber_of(
            channel_of(w.hub, sub.room_id),
            sub.id,
        ).lagged {
            (w, SocketActionView::Idle)
        } else {
            (closing(w), SocketActionView::Close)
        },
        None => (closing(w), SocketActionView::Close),
    }
}

/// What the machine answers where an event does not apply to the state:
/// nothing changes, and a connection that is closing or closed asks again
/// to be stopped.
pub open spec fn ignored(w: World) -> (World, SocketActionView) {
    (
        w,
        if w.conn.state == ConnectionState::Closing || w.conn.state == ConnectionState::Closed {
            SocketActionView::Close
        } else {
            SocketActionView::Idle
        },
    )
}

/// The world after a user's message to a room is persisted and then
/// published: the log gains the message, and the room's channel the frame
/// of that very message, where the frame can be rendered.
pub open spec fn room_message_sent(
    w: World,
    room_id: Id,
    user: CurrentUserView,
    content: Seq<char>,
    now: i64,
) -> World {
    let message = RoomMessageView {
        id: Id { value: w.next_id },
        room_id,
        author_id: user.id,
        content,
        created_at: stamp_after(latest_room_stamp(w.log), now),
        edited_at: None,
    };
    World {
        log: LogView { room_messages: w.log.room_messages.push(message), ..w.log },
        next_id: (w.next_id + 1) as u128,
        hub: match outbound_text(
            uuid_text(user.id.value),
            Some(user.username),
            content,
            message.created_at,
        ) {
            Some(frame) => after_publish(w.hub, room_id, frame),
            None => w.hub,
        },
        ..w
    }
}

/// The world after a user's direct message is persisted and then
/// published on the conversation's channel.
pub open spec fn direct_message_sent(
    w: World,
    other: Id,
    user: CurrentUserView,
    content: Seq<char>,
    now: i64,
) -> World {
    let message = DirectMessageView {
        id: Id { value: w.next_id },
        sender_id: user.id,
        receiver_id: other,
        content,
        created_at: stamp_after(latest_direct_stamp(w.log), now),
    };
    World {
        log: LogView { direct_messages: w.log.direct_messages.push(message), ..w.log },
        next_id: (w.next_id + 1) as u128,
        hub: match outbound_text(
            uuid_text(user.id.value),
            Some(user.username),
            content,
            message.created_at,
        ) {
            Some(frame) => after_publish(w.hub, direct_channel(user.id, other), frame),
            None => w.hub,
        },
        ..w
    }
}

/// One step of a room connection.
///
/// Terminated, in any state, releases the subscription and closes. Every
/// other event is ignored by a connection that is not attached to a room.
/// Authenticating: a failed validation is rejected as unauthorized, and a
/// user who is not a member of the room as such, and the connection is
/// closing; a member joins the room's channel and the connection is active.
/// Active: a well-formed text frame of a member is persisted and then
/// published; a malformed one is ignored; a poll forwards the next frame;
/// an unreadable socket or a failed send closes the connection.
pub open spec fn room_step(
    w: World,
    members: Seq<Membership>,
    event: SocketEventView,
    now: i64,
) -> (World, SocketActionView) {
    match (event, w.conn.target) {
        (SocketEventView::Terminated, _) => (released(w, now), SocketActionView::Close),
        (_, Target::Direct(_)) => ignored(w),
        (SocketEventView::Authenticated(outcome), Target::Room(room_id)) => if w.conn.state
            == ConnectionState::Authenticating {
            match outcome {
                Ok(user) => if !is_member(members, room_id, user.id) {
                    (closing(w), SocketActionView::Reject(ApiError::NotAMember))
                } else if w.hub.next_subscription == u64::MAX {
                    (closing(w), SocketActionView::Reject(ApiError::Internal(Fault::Other)))
                } else {
                    (activated(w, user, room_id, now), SocketActionView::Idle)
                },
                Err(_) => (closing(w), SocketActionView::Reject(ApiError::Auth)),
            }
        } else {
            ignored(w)
        },
        (SocketEventView::Text(text), Target::Room(room_id)) => if w.conn.state
            == ConnectionState::Active {
            match inbound_content(text) {
                Some(content) => match w.conn.user {
                    Some(user) => if is_member(members, room_id, user.id) {
                        (room_message_sent(w, room_id, user, content, now), SocketActionView::Idle)
                    } else {
                        (closing(w), SocketActionView::Close)
                    },
                    None => (closing(w), SocketActionView::Close),
                },
                None => (w, SocketActionView::Idle),
            }
        } else {
            ignored(w)
        },
        (SocketEventView::Poll, Target::Room(_)) => if w.conn.state == ConnectionState::Active {
            poll_step(w)
        } else {
            ignored(w)
        },
        (_, Target::Room(_)) => if w.conn.state == ConnectionState::Active {
            (closing(w), SocketActionView::Close)
        } else {
            ignored(w)
        },
    }
}

/// One step of a direct connection.
///
/// As for a room, except that no membership is asked for: the connection
/// joins the channel of the conversation between the two users, a
/// connection to oneself is rejected as invalid, and a text frame is
/// persisted as a direct message. Every event but Terminated is ignored by
/// a connection that is attached to a room.
pub open spec fn direct_step(w: World, event: SocketEventView, now: i64) -> (
    World,
    SocketActionView,
) {
    match (event, w.conn.target) {
        (SocketEventView::Terminated, _) => (released(w, now), SocketActionView::Close),
        (_, Target::Room(_)) => ignored(w),
        (SocketEventView::Authenticated(outcome), Target::Direct(other)) => if w.conn.state
            == ConnectionState::Authenticating {
            match outcome {
                Ok(user) => if user.id == other {
                    (
                        closing(w),
                        SocketActionView::Reject(ApiError::Validation(Invalid::SelfMessage)),
                    )
                } else if w.hub.next_subscription == u64::MAX {
                    (closing(w), SocketActionView::Reject(ApiError::Internal(Fault::Other)))
                } else {
                    (
                        activated(w, user, direct_channel(user.id, other), now),
                        SocketActionView::Idle,
                    )
                },
                Err(_) => (closing(w), SocketActionView::Reject(ApiError::Auth)),
            }
        } else {
            ignored(w)
        },
        (SocketEventView::Text(text), Target::Direct(other)) => if w.conn.state
            == ConnectionState::Active {
            match inbound_content(text) {
                Some(content) => match w.conn.user {
                    Some(user) => (
                        direct_message_sent(w, other, user, content, now),
                        SocketActionView::Idle,
                    ),
                    None => (closing(w), SocketActionView::Close),
                },
                None => (w, SocketActionView::Idle),
            }
        } else {
            ignored(w)
        },
        (SocketEventView::Poll, Target::Direct(_)) => if w.conn.state == ConnectionState::Active {
            poll_step(w)
        } else {
            ignored(w)
        },
        (_, Target::Direct(_)) => if w.conn.state == ConnectionState::Active {
            (closing(w), SocketActionView::Close)
        } else {
            ignored(w)
        },
    }
}

/// The world that a connection and a state make up.
pub open spec fn world_of(conn: &Connection, state: &AppState) -> World {
    World { conn: conn@, hub: state.rooms@, log: state.log@, next_id: state.log.next_id() }
}

impl Connection {
    /// A connection to a target, before its upgrade request is looked at.
    pub fn new(target: Target) -> (c: Connection)
        ensures
            c@ == (ConnectionView {
                state: ConnectionState::Upgrading,
                target,
                user: None,
                subscription: None,
            }),
    {
        Connection { state: ConnectionState::Upgrading, target, user: None, subscription: None }
    }

    /// Where the connection stands.
    pub fn state(&self) -> (s: ConnectionState)
        ensures
            s == self@.state,
    {
        self.state
    }

    /// What the connection is attached to.
    pub fn target(&self) -> (t: Target)
        ensures
            t == self@.target,
    {
        self.target
    }

    /// The connection's subscription, while it has one.
    pub fn subscription(&self) -> (s: Option<Subscription>)
        ensures
            s == self@.subscription,
    {
        self.subscription
    }

    /// Looks at the upgrade request of a connection that is upgrading:
    /// with a credential the connection goes on to authenticate it; without
    /// one it is closing, and the request is unauthorized.
    fn begin(&mut self, authorization: Option<&str>, token_param: Option<&str>) -> (r: Result<
        String,
        ApiError,
    >)
        requires
            old(self)@.state == ConnectionState::Upgrading,
        ensures
            match r {
                Ok(token) => Some(token@) == credential_of(
                    text_of(authorization),
                    text_of(token_param),
                ) && final(self)@ == (ConnectionView {
                    state: ConnectionState::Authenticating,
                    ..old(self)@
                }),
                Err(e) => e == ApiError::Auth && credential_of(
                    text_of(authorization),
                    text_of(token_param),
                ) is None && final(self)@ == (ConnectionView {
                    state: ConnectionState::Closing,
                    ..old(self)@
                }),
            },
    {
        let from_header = match authorization {
            Some(header) => bearer_token(header),
            None => None,
        };
        let credential = match from_header {
            Some(token) => Some(token),
            None => match token_param {
                Some(token) => Some(String::from_str(token)),
                None => None,
            },
        };
        match credential {
            Some(token) => {
                self.state = ConnectionState::Authenticating;
                Ok(token)
            },
            None => {
                self.state = ConnectionState::Closing;
                Err(ApiError::Auth)
            },
        }
    }

    fn fail(&mut self) -> (action: SocketAction)
        ensures
            final(self)@ == (ConnectionView { state: ConnectionState::Closing, ..old(self)@ }),
            action@ == SocketActionView::Close,
    {
        self.state = ConnectionState::Closing;
        SocketAction::Close
    }

    fn refuse(&mut self, error: ApiError) -> (action: SocketAction)
        ensures
            final(self)@ == (ConnectionView { state: ConnectionState::Closing, ..old(self)@ }),
            action@ == SocketActionView::Reject(error),
    {
        self.state = ConnectionState::Closing;
        SocketAction::Reject(error)
    }

    fn skip(&self) -> (action: SocketAction)
        ensures
            action@ == if self@.state == ConnectionState::Closing || self@.state
                == ConnectionState::Closed {
                SocketActionView::Close
            } else {
                SocketActionView::Idle
            },
    {
        match self.state {
            ConnectionState::Closing => SocketAction::Close,
            ConnectionState::Closed => SocketAction::Close,
            _ => SocketAction::Idle,
        }
    }

    fn is_in(&self, state: ConnectionState) -> (r: bool)
        ensures
            r == (self@.state == state),
    {
        match (self.state, state) {
            (ConnectionState::Upgrading, ConnectionState::Upgrading) => true,
            (ConnectionState::Authenticating, ConnectionState::Authenticating) => true,
            (ConnectionState::Active, ConnectionState::Active) => true,
            (ConnectionState::Closing, ConnectionState::Closing) => true,
            (ConnectionState::Closed, ConnectionState::Closed) => true,
            _ => false,
        }
    }

    fn activate(&mut self, state: &mut AppState, user: CurrentUser, channel: Id, now: i64) -> (action:
        SocketAction)
        requires
            old(state).wf(),
        ensures
            final(state).wf(),
            final(state).log == old(state).log,
            final(state).auth == old(state).auth,
            final(state).relationships == old(state).relationships,
            final(state).directory == old(state).directory,
            (world_of(final(self), final(state)), action@) == if old(state).rooms@.next_subscription
                == u64::MAX {
                (closing(world_of(old(self), old(state))), SocketActionView::Reject(ApiError::Internal(Fault::Other)))
            } else {
                (activated(world_of(old(self), old(state)), user@, channel, now), SocketActionView::Idle)
            },
    {
        match state.rooms.subscribe(channel, now) {
            Some(sub) => {
                self.state = ConnectionState::Active;
                self.user = Some(user);
                self.subscription = Some(sub);
                SocketAction::Idle
            },
            None => self.refuse(ApiError::Internal(Fault::Other)),
        }
    }

    fn poll(&mut self, state: &mut AppState) -> (action: SocketAction)
        requires
            old(state).wf(),
        ensures
            final(state).wf(),
            final(state).log == old(state).log,
            final(state).auth == old(state).auth,
            final(state).relationships == old(state).relationships,
            final(state).directory == old(state).directory,
            (world_of(final(self), final(state)), action@) == poll_step(
                world_of(old(self), old(state)),
            ),
    {
        let sub = match self.subscription {
            Some(sub) => sub,
            None => {
                return self.fail();
            },
        };
        match state.rooms.next_frame(sub) {
            Delivery::Frame(frame) => SocketAction::Send(frame),
            Delivery::Empty => SocketAction::Idle,
            Delivery::Lagged => self.fail(),
            Delivery::Closed => self.fail(),
        }
    }

    fn release(&mut self, state: &mut AppState, now: i64) -> (action: SocketAction)
        requires
            old(state).wf(),
        ensures
            final(state).wf(),
            final(state).log == old(state).log,
            final(state).auth == old(state).auth,
            final(state).relationships == old(state).relationships,
            final(state).directory == old(state).directory,
            world_of(final(self), final(state)) == released(world_of(old(self), old(state)), now),
            action@ == SocketActionView::Close,
    {
        match self.subscription {
            Some(sub) => {
                state.rooms.unsubscribe(sub, now);
            },
            None => {},
        }
        self.subscription = None;
        self.state = ConnectionState::Closed;
        SocketAction::Close
    }
}

/// An optional text as plain values.
pub open spec fn text_of(text: Option<&str>) -> Option<Seq<char>> {
    match text {
        Some(t) => Some(t@),
        None => None,
    }
}

/// Accepts the upgrade request for a room's socket: extracts the bearer
/// credential from the `Authorization` header or, failing that, from the
/// connection parameter. Without a credential the request is unauthorized.
pub fn ws_handler(room_id: Id, authorization: Option<&str>, token_param: Option<&str>) -> (r: Result<
    (Connection, String),
    ApiError,
>)
    ensures
        match r {
            Ok((conn, token)) => Some(token@) == credential_of(
                text_of(authorization),
                text_of(token_param),
            ) && conn@ == (ConnectionView {
                state: ConnectionState::Authenticating,
                target: Target::Room(room_id),
                user: None,
                subscription: None,
            }),
            Err(e) => e == ApiError::Auth && credential_of(
                text_of(authorization),
                text_of(token_param),
            ) is None,
        },
{
    let mut conn = Connection::new(Target::Room(room_id));
    match conn.begin(authorization, token_param) {
        Ok(token) => Ok((conn, token)),
        Err(e) => Err(e),
    }
}

/// Accepts the upgrade request for the socket of a direct conversation
/// with `other_user_id`, as `ws_handler` does for a room.
pub fn ws_dm_handler(
    other_user_id: Id,
    authorization: Option<&str>,
    token_param: Option<&str>,
) -> (r: Result<(Connection, String), ApiError>)
    ensures
        match r {
            Ok((conn, token)) => Some(token@) == credential_of(
                text_of(authorization),
                text_of(token_param),
            ) && conn@ == (ConnectionView {
                state: ConnectionState::Authenticating,
                target: Target::Direct(other_user_id),
                user: None,
                subscription: None,
            }),
            Err(e) => e == ApiError::Auth && credential_of(
                text_of(authorization),
                text_of(token_param),
            ) is None,
        },
{
    let mut conn = Connection::new(Target::Direct(other_user_id));
    match conn.begin(authorization, token_param) {
        Ok(token) => Ok((conn, token)),
        Err(e) => Err(e),
    }
}

/// Advances a room connection by one event at time `now` and says what
/// the transport has to do.
///
/// The step is exactly `room_step`. In particular a message is published
/// only after it has been appended to the log, and what is published is
/// the frame of the appended message; a connection that is not active
/// never writes to the log; and users, relationships and the directory are
/// never touched.
pub fn handle_socket(
    conn: &mut Connection,
    state: &mut AppState,
    event: SocketEvent,
    now: i64,
) -> (action: SocketAction)
    requires
        old(state).wf(),
    ensures
        final(state).wf(),
        final(state).auth == old(state).auth,
        final(state).relationships == old(state).relationships,
        final(state).directory == old(state).directory,
        (world_of(final(conn), final(state)), action@) == room_step(
            world_of(old(conn), old(state)),
            old(state).directory@.members,
            event@,
            now,
        ),
{
    let room_id = match (&event, conn.target) {
        (SocketEvent::Terminated, _) => {
            return conn.release(state, now);
        },
        (_, Target::Direct(_)) => {
            return conn.skip();
        },
        (_, Target::Room(room_id)) => room_id,
    };
    match event {
        SocketEvent::Authenticated(outcome) => {
            if !conn.is_in(ConnectionState::Authenticating) {
                return conn.skip();
            }
            match outcome {
                Ok(user) => {
                    if !state.directory.has_member(room_id, user.id) {
                        return conn.refuse(ApiError::NotAMember);
                    }
                    conn.activate(state, user, room_id, now)
                },
                Err(_) => conn.refuse(ApiError::Auth),
            }
        },
        SocketEvent::Text(text) => {
            if !conn.is_in(ConnectionState::Active) {
                return conn.skip();
            }
            let content = match parse_inbound(text.as_str()) {
                Some(content) => content,
                None => {
                    return SocketAction::Idle;
                },
            };
            let (author_id, username) = match &conn.user {
                Some(user) => (user.id, user.username.clone()),
                None => {
                    return conn.fail();
                },
            };
            if !state.directory.has_member(room_id, author_id) {
                return conn.fail();
            }
            let message = state.log.append(room_id, author_id, content, now);
            let payload = MessagePayload {
                sender_id: author_id.text(),
                username,
                content: message.content,
            };
            match payload.frame(message.created_at) {
                Some(frame) => {
                    state.rooms.publish(room_id, frame.as_str());
                },
                None => {},
            }
            SocketAction::Idle
        },
        SocketEvent::Poll => {
            if !conn.is_in(ConnectionState::Active) {
                return conn.skip();
            }
            conn.poll(state)
        },
        _ => {
            if !conn.is_in(ConnectionState::Active) {
                return conn.skip();
            }
            conn.fail()
        },
    }
}

/// Advances a direct connection by one event at time `now` and says what
/// the transport has to do. The step is exactly `direct_step`.
pub fn handle_dm_socket(
    conn: &mut Connection,
    state: &mut AppState,
    event: SocketEvent,
    now: i64,
) -> (action: SocketAction)
    requires
        old(state).wf(),
    ensures
        final(state).wf(),
        final(state).auth == old(state).auth,
        final(state).relationships == old(state).relationships,
        final(state).directory == old(state).directory,
        (world_of(final(conn), final(state)), action@) == direct_step(
            world_of(old(conn), old(state)),
            event@,
            now,
        ),
{
    let other_user_id = match (&event, conn.target) {
        (SocketEvent::Terminated, _) => {
            return conn.release(state, now);
        },
        (_, Target::Room(_)) => {
            return conn.skip();
        },
        (_, Target::Direct(other)) => other,
    };
    match event {
        SocketEvent::Authenticated(outcome) => {
            if !conn.is_in(ConnectionState::Authenticating) {
                return conn.skip();
            }
            match outcome {
                Ok(user) => {
                    if user.id.value == other_user_id.value {
                        return conn.refuse(ApiError::Validation(Invalid::SelfMessage));
                    }
                    let channel = direct_channel_id(user.id, other_user_id);
                    conn.activate(state, user, channel, now)
                },
                Err(_) => conn.refuse(ApiError::Auth),
            }
        },
        SocketEvent::Text(text) => {
            if !conn.is_in(ConnectionState::Active) {
                return conn.skip();
            }
            let content = match parse_inbound(text.as_str()) {
                Some(content) => content,
                None => {
                    return SocketAction::Idle;
                },
            };
            let (sender_id, username) = match &conn.user {
                Some(user) => (user.id, user.username.clone()),
                None => {
                    return conn.fail();
                },
            };
            let message = state.log.append_direct(sender_id, other_user_id, content, now);
            let payload = MessagePayload {
                sender_id: sender_id.text(),
                username,
                content: message.content,
            };
            match payload.frame(message.created_at) {
                Some(frame) => {
                    let channel = direct_channel_id(sender_id, other_user_id);
                    state.rooms.publish(channel, frame.as_str());
                },
                None => {},
            }
            SocketAction::Idle
        },
        SocketEvent::Poll => {
            if !conn.is_in(ConnectionState::Active) {
                return conn.skip();
            }
            conn.poll(state)
        },
        _ => {
            if !conn.is_in(ConnectionState::Active) {
                return conn.skip();
            }
            conn.fail()
        },
    }
}

/// The frame that carries a room message under a sender's name.
pub open spec fn room_frame(m: RoomMessageView, username: Seq<char>) -> Option<Seq<char>> {
    outbound_text(uuid_text(m.author_id.value), Some(username), m.content, m.created_at)
}

/// The frame that carries a direct message under a sender's name.
pub open spec fn direct_frame(m: DirectMessageView, username: Seq<char>) -> Option<Seq<char>> {
    outbound_text(uuid_text(m.sender_id.value), Some(username), m.content, m.created_at)
}

/// The frame is that of a message which the log holds for the channel: a
/// message of that room, or a direct message of that conversation.
pub open spec fn frame_logged(log: LogView, channel: Id, frame: Seq<char>) -> bool {
    ||| exists|i: int, username: Seq<char>|
        0 <= i < log.room_messages.len() && log.room_messages[i].room_id == channel
            && #[trigger] room_frame(log.room_messages[i], username) == Some(frame)
    ||| exists|i: int, username: Seq<char>|
        0 <= i < log.direct_messages.len() && direct_channel(
            log.direct_messages[i].sender_id,
            log.direct_messages[i].receiver_id,
        ) == channel && #[trigger] direct_frame(log.direct_messages[i], username) == Some(frame)
}

/// Every frame that any channel has published is that of a message which
/// the log holds for that channel.
pub open spec fn frames_logged(w: World) -> bool {
    forall|c: int, k: int|
        0 <= c < w.hub.channels.len() && 0 <= k < w.hub.channels[c].published.len()
            ==> frame_logged(
            w.log,
            w.hub.channels[c].room_id,
            #[trigger] w.hub.channels[c].published[k],
        )
}

/// The second log holds every message of the first, at the same place.
spec fn extends(log: LogView, longer: LogView) -> bool {
    &&& log.room_messages.len() <= longer.room_messages.len()
    &&& log.direct_messages.len() <= longer.direct_messages.len()
    &&& forall|i: int|
        0 <= i < log.room_messages.len() ==> #[trigger] longer.room_messages[i]
            == log.room_messages[i]
    &&& forall|i: int|
        0 <= i < log.direct_messages.len() ==> #[trigger] longer.direct_messages[i]
            == log.direct_messages[i]
}

proof fn lemma_logged_stays(log: LogView, longer: LogView, channel: Id, frame: Seq<char>)
    requires
        frame_logged(log, channel, frame),
        extends(log, longer),
    ensures
        frame_logged(longer, channel, frame),
{
    if exists|i: int, username: Seq<char>|
        0 <= i < log.room_messages.len() && log.room_messages[i].room_id == channel
            && #[trigger] room_frame(log.room_messages[i], username) == Some(frame) {
        let (i, username) = choose|i: int, username: Seq<char>|
            0 <= i < log.room_messages.len() && log.room_messages[i].room_id == channel
                && #[trigger] room_frame(log.room_messages[i], username) == Some(frame);
        assert(longer.room_messages[i] == log.room_messages[i]);
        assert(room_frame(longer.room_messages[i], username) == Some(frame));
    } else {
        let (i, username) = choose|i: int, username: Seq<char>|
            0 <= i < log.direct_messages.len() && direct_channel(
                log.direct_messages[i].sender_id,
                log.direct_messages[i].receiver_id,
            ) == channel && #[trigger] direct_frame(log.direct_messages[i], username) == Some(
                frame,
            );
        assert(longer.direct_messages[i] == log.direct_messages[i]);
        assert(direct_frame(longer.direct_messages[i], username) == Some(frame));
    }
}

/// The channel is found in the registry with the same room and the same
/// history.
spec fn kept(v: RegistryView, ch: crate::hub::ChannelView) -> bool {
    exists|b: int|
        0 <= b < v.channels.len() && (#[trigger] v.channels[b]).room_id == ch.room_id
            && ch.published == v.channels[b].published
}

/// The channel is found in the registry with the same room, and with the
/// same history but for `frame` at its end.
spec fn grown(v: RegistryView, ch: crate::hub::ChannelView, frame: Seq<char>) -> bool {
    exists|b: int|
        0 <= b < v.channels.len() && (#[trigger] v.channels[b]).room_id == ch.room_id
            && ch.published == v.channels[b].published.push(frame)
}

proof fn lemma_frames_kept(w: World, after: World)
    requires
        frames_logged(w),
        extends(w.log, after.log),
        forall|c: int|
            0 <= c < after.hub.channels.len() ==> (#[trigger] after.hub.channels[c]).published.len()
                == 0 || kept(w.hub, after.hub.channels[c]),
    ensures
        frames_logged(after),
{
    assert forall|c: int, k: int|
        0 <= c < after.hub.channels.len() && 0 <= k
            < after.hub.channels[c].published.len() implies frame_logged(
        after.log,
        after.hub.channels[c].room_id,
        #[trigger] after.hub.channels[c].published[k],
    ) by {
        let ch = after.hub.channels[c];
        assert(kept(w.hub, ch));
        let b = choose|b: int|
            0 <= b < w.hub.channels.len() && (#[trigger] w.hub.channels[b]).room_id == ch.room_id
                && ch.published == w.hub.channels[b].published;
        assert(frame_logged(w.log, w.hub.channels[b].room_id, w.hub.channels[b].published[k]));
        lemma_logged_stays(w.log, after.log, ch.room_id, ch.published[k]);
    }
}

proof fn lemma_frames_grown(w: World, after: World, room: Id, frame: Seq<char>)
    requires
        frames_logged(w),
        extends(w.log, after.log),
        frame_logged(after.log, room, frame),
        forall|c: int|
            0 <= c < after.hub.channels.len() ==> kept(w.hub, #[trigger] after.hub.channels[c]) || (
            after.hub.channels[c].room_id == room && grown(w.hub, after.hub.channels[c], frame)),
    ensures
        frames_logged(after),
{
    assert forall|c: int, k: int|
        0 <= c < after.hub.channels.len() && 0 <= k
            < after.hub.channels[c].published.len() implies frame_logged(
        after.log,
        after.hub.channels[c].room_id,
        #[trigger] after.hub.channels[c].published[k],
    ) by {
        let ch = after.hub.channels[c];
        if kept(w.hub, ch) {
            let b = choose|b: int|
                0 <= b < w.hub.channels.len() && (#[trigger] w.hub.channels[b]).room_id
                    == ch.room_id && ch.published == w.hub.channels[b].published;
            assert(frame_logged(w.log, w.hub.channels[b].room_id, w.hub.channels[b].published[k]));
            lemma_logged_stays(w.log, after.log, ch.room_id, ch.published[k]);
        } else {
            let b = choose|b: int|
                0 <= b < w.hub.channels.len() && (#[trigger] w.hub.channels[b]).room_id
                    == ch.room_id && ch.published == w.hub.channels[b].published.push(frame);
            let old_ch = w.hub.channels[b];
            if k < old_ch.published.len() {
                assert(ch.published[k] == old_ch.published[k]);
                assert(frame_logged(w.log, old_ch.room_id, old_ch.published[k]));
                lemma_logged_stays(w.log, after.log, ch.room_id, ch.published[k]);
            } else {
                assert(ch.published[k] == frame);
            }
        }
    }
}

proof fn lemma_same_keeps(v: RegistryView)
    ensures
        forall|c: int| 0 <= c < v.channels.len() ==> kept(v, #[trigger] v.channels[c]),
{
    assert forall|c: int| 0 <= c < v.channels.len() implies kept(v, #[trigger] v.channels[c]) by {
        assert(v.channels[c].room_id == v.channels[c].room_id);
    }
}

proof fn lemma_subscribe_keeps(v: RegistryView, room: Id, now: i64)
    requires
        valid_registry(v),
    ensures
        forall|c: int|
            0 <= c < after_subscribe(v, room, now).channels.len() ==> (#[trigger] after_subscribe(
                v,
                room,
                now,
            ).channels[c]).published.len() == 0 || kept(v, after_subscribe(v, room, now).channels[c]),
{
    let w = after_get_or_create(v, room, now);
    let x = after_subscribe(v, room, now);
    let n = v.channels.len() as int;
    if !has_channel(v, room) {
        assert(w.channels[n].room_id == room);
    }
    assert(has_channel(w, room));
    let i = channel_index(w, room);
    assert forall|c: int| 0 <= c < x.channels.len() implies (#[trigger] x.channels[c]).published.len()
        == 0 || kept(v, x.channels[c]) by {
        assert(x.channels[c].published == w.channels[c].published);
        assert(x.channels[c].room_id == w.channels[c].room_id);
        if c < n {
            assert(w.channels[c] == v.channels[c]);
            assert(v.channels[c].room_id == x.channels[c].room_id);
        }
    }
}

proof fn lemma_poll_keeps(v: RegistryView, sub: Subscription)
    ensures
        forall|c: int|
            0 <= c < after_poll(v, sub).channels.len() ==> kept(
                v,
                #[trigger] after_poll(v, sub).channels[c],
            ),
{
    let x = after_poll(v, sub);
    assert forall|c: int| 0 <= c < x.channels.len() implies kept(v, #[trigger] x.channels[c]) by {
        assert(v.channels[c].room_id == x.channels[c].room_id);
        assert(v.channels[c].published == x.channels[c].published);
    }
}

proof fn lemma_unsubscribe_keeps(v: RegistryView, sub: Subscription, now: i64)
    ensures
        forall|c: int|
            0 <= c < after_unsubscribe(v, sub, now).channels.len() ==> kept(
                v,
                #[trigger] after_unsubscribe(v, sub, now).channels[c],
            ),
{
    let x = after_unsubscribe(v, sub, now);
    assert forall|c: int| 0 <= c < x.channels.len() implies kept(v, #[trigger] x.channels[c]) by {
        assert(v.channels[c].room_id == x.channels[c].room_id);
        assert(v.channels[c].published == x.channels[c].published);
    }
}

proof fn lemma_publish_grows(v: RegistryView, room: Id, frame: Seq<char>)
    ensures
        forall|c: int|
            0 <= c < after_publish(v, room, frame).channels.len() ==> kept(
                v,
                #[trigger] after_publish(v, room, frame).channels[c],
            ) || (after_publish(v, room, frame).channels[c].room_id == room && grown(
                v,
                after_publish(v, room, frame).channels[c],
                frame,
            )),
{
    let x = after_publish(v, room, frame);
    assert forall|c: int| 0 <= c < x.channels.len() implies kept(v, #[trigger] x.channels[c]) || (
    x.channels[c].room_id == room && grown(v, x.channels[c], frame)) by {
        assert(v.channels[c].room_id == x.channels[c].room_id);
        if x.channels[c].published != v.channels[c].published {
            assert(has_channel(v, room));
            assert(c == channel_index(v, room));
            assert(x.channels[c].published == v.channels[c].published.push(frame));
        }
    }
}

proof fn lemma_step_keeps(w: World, after: World, now: i64, joined: Id)
    requires
        valid_registry(w.hub),
        frames_logged(w),
        extends(w.log, after.log),
        after.hub == w.hub || after.hub == after_subscribe(w.hub, joined, now) || (
        w.conn.subscription matches Some(sub) && (after.hub == after_poll(w.hub, sub) || after.hub
            == after_unsubscribe(w.hub, sub, now))),
    ensures
        frames_logged(after),
{
    lemma_same_keeps(w.hub);
    lemma_subscribe_keeps(w.hub, joined, now);
    match w.conn.subscription {
        Some(sub) => {
            lemma_poll_keeps(w.hub, sub);
            lemma_unsubscribe_keeps(w.hub, sub, now);
        },
        None => {},
    }
    lemma_frames_kept(w, after);
}

proof fn lemma_sent_keeps(w: World, after: World, room: Id, message_frame: Option<Seq<char>>)
    requires
        frames_logged(w),
        extends(w.log, after.log),
        message_frame matches Some(frame) ==> frame_logged(after.log, room, frame),
        after.hub == match message_frame {
            Some(frame) => after_publish(w.hub, room, frame),
            None => w.hub,
        },
    ensures
        frames_logged(after),
{
    match message_frame {
        Some(frame) => {
            lemma_publish_grows(w.hub, room, frame);
            lemma_frames_grown(w, after, room, frame);
        },
        None => {
            lemma_same_keeps(w.hub);
            lemma_frames_kept(w, after);
        },
    }
}

/// Nothing is seen that is not persisted. Where every frame that the
/// channels have published stems from a message in the log, the same holds
/// after any step of any connection, whatever the event: a frame reaches a
/// channel only together with its message reaching the log, and neither is
/// ever taken back. So while frames are published by the steps of
/// connections alone, every frame that a subscription delivers is that of
/// a message which a listing of the log returns.
pub proof fn law_frames_stem_from_the_log(
    w: World,
    members: Seq<Membership>,
    event: SocketEventView,
    now: i64,
)
    requires
        valid_registry(w.hub),
        frames_logged(w),
    ensures
        frames_logged(room_step(w, members, event, now).0),
        frames_logged(direct_step(w, event, now).0),
{
    let in_room = room_step(w, members, event, now).0;
    let direct = direct_step(w, event, now).0;
    let sends = event matches SocketEventView::Text(text) && inbound_content(text) is Some
        && w.conn.user is Some && w.conn.state == ConnectionState::Active;
    match w.conn.target {
        Target::Room(room_id) => {
            lemma_step_keeps(w, direct, now, room_id);
            if sends && in_room.log != w.log {
                let user = w.conn.user->0;
                let message = in_room.log.room_messages.last();
                let frame = room_frame(message, user.username);
                if frame is Some {
                    assert(in_room.log.room_messages[in_room.log.room_messages.len() - 1]
                        == message);
                    assert(room_frame(
                        in_room.log.room_messages[in_room.log.room_messages.len() - 1],
                        user.username,
                    ) == Some(frame->0));
                }
                lemma_sent_keeps(w, in_room, room_id, frame);
            } else {
                let joined = match event {
                    SocketEventView::Authenticated(Ok(user)) => room_id,
                    _ => room_id,
                };
                lemma_step_keeps(w, in_room, now, joined);
            }
        },
        Target::Direct(other) => {
            lemma_step_keeps(w, in_room, now, other);
            if sends {
                let user = w.conn.user->0;
                let message = direct.log.direct_messages.last();
                let frame = direct_frame(message, user.username);
                if frame is Some {
                    assert(direct.log.direct_messages[direct.log.direct_messages.len() - 1]
                        == message);
                    assert(direct_frame(
                        direct.log.direct_messages[direct.log.direct_messages.len() - 1],
                        user.username,
                    ) == Some(frame->0));
                }
                lemma_sent_keeps(w, direct, direct_channel(user.id, other), frame);
            } else {
                let joined = match event {
                    SocketEventView::Authenticated(Ok(user)) => direct_channel(user.id, other),
                    _ => other,
                };
                lemma_step_keeps(w, direct, now, joined);
            }
        },
    }
}

/// A member's message reaches every connection of the room. When the
/// message is handled and its creation time has an RFC 3339 form, each
/// subscriber of the room that has room in its buffer observes, after all
/// it had observed, the one frame that carries the sender's identity and
/// name, the content, and the creation time that the log gave the message.
pub proof fn law_sent_frame_reaches_subscribers(
    w: World,
    room_id: Id,
    user: CurrentUserView,
    content: Seq<char>,
    now: i64,
    subscriber: u64,
)
    requires
        valid_registry(w.hub),
        has_channel(w.hub, room_id),
        has_subscriber(channel_of(w.hub, room_id), subscriber),
        receives(subscriber_of(channel_of(w.hub, room_id), subscriber), w.hub.capacity),
        outbound_text(
            uuid_text(user.id.value),
            Some(user.username),
            content,
            stamp_after(latest_room_stamp(w.log), now),
        ) is Some,
    ensures
        ({
            let after = room_message_sent(w, room_id, user, content, now);
            let message = after.log.room_messages.last();
            &&& message.created_at == stamp_after(latest_room_stamp(w.log), now)
            &&& has_channel(after.hub, room_id)
            &&& has_subscriber(channel_of(after.hub, room_id), subscriber)
            &&& Some(
                observed(subscriber_of(channel_of(after.hub, room_id), subscriber)).last(),
            ) == room_frame(message, user.username)
            &&& observed(subscriber_of(channel_of(after.hub, room_id), subscriber)).drop_last()
                == observed(subscriber_of(channel_of(w.hub, room_id), subscriber))
        }),
{
    let frame = outbound_text(
        uuid_text(user.id.value),
        Some(user.username),
        content,
        stamp_after(latest_room_stamp(w.log), now),
    )->0;
    law_publish_observed(w.hub, room_id, frame, subscriber);
    let before = observed(subscriber_of(channel_of(w.hub, room_id), subscriber));
    assert(before.push(frame).drop_last() =~= before);
}

/// How far a connection has come in its life.
pub open spec fn progress(state: ConnectionState) -> nat {
    match state {
        ConnectionState::Upgrading => 0,
        ConnectionState::Authenticating => 1,
        ConnectionState::Active => 2,
        ConnectionState::Closing => 3,
        ConnectionState::Closed => 4,
    }
}

/// A connection only ever advances, and a closed connection stays closed:
/// no event takes a connection back to an earlier state. Only an active
/// connection writes to the log, so a connection that is closing or closed
/// attempts no further writes.
pub proof fn law_connection_only_advances(
    w: World,
    members: Seq<Membership>,
    event: SocketEventView,
    now: i64,
)
    ensures
        progress(room_step(w, members, event, now).0.conn.state) >= progress(w.conn.state),
        progress(direct_step(w, event, now).0.conn.state) >= progress(w.conn.state),
        w.conn.state == ConnectionState::Closed ==> room_step(w, members, event, now).0.conn.state
            == ConnectionState::Closed && direct_step(w, event, now).0.conn.state
            == ConnectionState::Closed,
        w.conn.state != ConnectionState::Active ==> room_step(w, members, event, now).0.log
            == w.log && direct_step(w, event, now).0.log == w.log,
        room_step(w, members, event, now).0.conn.target == w.conn.target,
        direct_step(w, event, now).0.conn.target == w.conn.target,
{
}

/// Persist, then publish. When an active member's message is handled, the
/// log gains exactly that message, so a later listing of the room returns
/// it; and the only frame that the room's channel gains is the frame of
/// that very message, with the identity and creation time that the log
/// gave it. Where the frame cannot be rendered nothing is published: a
/// message may be persisted without being seen, never seen without being
/// persisted.
pub proof fn law_persist_then_publish(
    w: World,
    room_id: Id,
    user: CurrentUserView,
    content: Seq<char>,
    now: i64,
)
    ensures
        ({
            let after = room_message_sent(w, room_id, user, content, now);
            let message = after.log.room_messages.last();
            &&& after.log.room_messages == w.log.room_messages.push(message)
            &&& message.room_id == room_id && message.author_id == user.id && message.content
                == content
            &&& in_room(after.log.room_messages, room_id) == in_room(w.log.room_messages, room_id).push(
                message,
            )
            &&& after.hub == w.hub || exists|frame: Seq<char>|
                Some(frame) == outbound_text(
                    uuid_text(message.author_id.value),
                    Some(user.username),
                    message.content,
                    message.created_at,
                ) && after.hub == #[trigger] after_publish(w.hub, room_id, frame)
        }),
{
    let after = room_message_sent(w, room_id, user, content, now);
    let message = after.log.room_messages.last();
    w.log.room_messages.lemma_filter_push(message, |m: RoomMessageView| m.room_id == room_id);
    match outbound_text(uuid_text(user.id.value), Some(user.username), content, message.created_at) {
        Some(frame) => {
        },
        None => {},
    }
}

/// Validates the credential of a connection that is authenticating and
/// advances the connection by the outcome, as `handle_socket` or
/// `handle_dm_socket` would for the event `Authenticated`.
///
/// Whatever the clock reads, the connection is active afterwards only as
/// the user that the credential validates as at some instant, with a
/// registered subscription on its own channel: that of its room, of which
/// the user is a member, or that of the conversation with the other user.
/// Otherwise it is closing and the answer is a rejection. A connection
/// that is not authenticating is left as it is, and is answered as any
/// event that does not apply.
pub fn authenticate(
    conn: &mut Connection,
    state: &mut AppState,
    token: &str,
    secret: &str,
    now: i64,
) -> (action: SocketAction)
    requires
        old(state).wf(),
    ensures
        final(state).wf(),
        final(state).auth == old(state).auth,
        final(state).relationships == old(state).relationships,
        final(state).directory == old(state).directory,
        final(state).log@ == old(state).log@,
        old(conn)@.state != ConnectionState::Authenticating ==> final(conn)@ == old(conn)@
            && final(state).rooms@ == old(state).rooms@ && action@ == ignored(
            world_of(old(conn), old(state)),
        ).1,
        old(conn)@.state == ConnectionState::Authenticating && final(conn)@.state
            == ConnectionState::Active ==> final(conn)@.target == old(conn)@.target && final(state).rooms@ == after_subscribe(old(state).rooms@, final(conn)@.subscription->0.room_id, now)
            && match old(conn)@.target {
            Target::Room(room_id) => final(conn)@.subscription->0.room_id == room_id && is_member(
                old(state).directory@.members,
                room_id,
                final(conn)@.user->0.id,
            ),
            Target::Direct(other) => final(conn)@.subscription->0.room_id == direct_channel(
                final(conn)@.user->0.id,
                other,
            ) && final(conn)@.user->0.id != other,
        },
        old(conn)@.state == ConnectionState::Authenticating && final(conn)@.state
            == ConnectionState::Active ==> exists|at: i64|
            final(conn)@.user == #[trigger] validated(old(state).auth@, secret@, token@, at),
        old(conn)@.state == ConnectionState::Authenticating ==> final(conn)@.state
            == ConnectionState::Active || final(conn)@.state == ConnectionState::Closing,
        old(conn)@.state == ConnectionState::Authenticating && final(conn)@.state
            == ConnectionState::Active ==> action@ == SocketActionView::Idle && final(conn)@.user
            is Some && final(conn)@.subscription is Some && is_subscribed(
            final(state).rooms@,
            final(conn)@.subscription->0,
        ),
        old(conn)@.state == ConnectionState::Authenticating && final(conn)@.state
            == ConnectionState::Closing ==> action@ is Reject && final(state).rooms@ == old(
            state,
        ).rooms@,
{
    if !conn.is_in(ConnectionState::Authenticating) {
        return conn.skip();
    }
    proof {
        if old(state).rooms@.next_subscription < u64::MAX {
            match old(conn)@.target {
                Target::Room(room_id) => {
                    lemma_subscribed_valid(old(state).rooms@, room_id, now);
                },
                Target::Direct(other) => {
                    assert forall|user: Id| true implies is_subscribed(
                        after_subscribe(
                            old(state).rooms@,
                            #[trigger] direct_channel(user, other),
                            now,
                        ),
                        Subscription {
                            room_id: direct_channel(user, other),
                            id: old(state).rooms@.next_subscription,
                        },
                    ) by {
                        lemma_subscribed_valid(old(state).rooms@, direct_channel(user, other), now);
                    }
                },
            }
        }
    }
    let outcome = validate_token(&state.auth, token, secret);
    match conn.target() {
        Target::Room(_) => handle_socket(conn, state, SocketEvent::Authenticated(outcome), now),
        Target::Direct(_) => handle_dm_socket(conn, state, SocketEvent::Authenticated(outcome), now),
    }
}
} // verus!
