//! Users and direct messages.

use crate::auth::sessions::{has_user_id, user_with_id, SessionAuthenticator};
use crate::error::{ApiError, Invalid, Missing};
use crate::ids::Id;
use crate::message_log::{
    chronological_direct, conversation, direct_views, latest_direct_stamp, stamp_after,
    MessageLog,
};
use crate::models::messages::{DirectMessage, DirectMessageView, SendMessageInput};
use crate::models::user::{SimpleUser, SimpleUserView};
use vstd::prelude::*;

verus! {
/// The identity and name of a user, or the not-found error.
pub fn get_user_by_id(user_id: Id, auth: &SessionAuthenticator) -> (r: Result<
    SimpleUser,
    ApiError,
>)
    requires
        auth.wf(),
    ensures
        match r {
            Ok(user) => has_user_id(auth@.users, user_id) && user@ == (SimpleUserView {
                id: user_id,
                username: user_with_id(auth@.users, user_id).username,
            }),
            Err(e) => !has_user_id(auth@.users, user_id) && e == ApiError::NotFound(Missing::User),
        },
{
    match auth.user_by_id(user_id) {
        Some(user) => Ok(user.simple()),
        None => Err(ApiError::NotFound(Missing::User)),
    }
}

/// Sends a message from `sender_id` to `receiver_id` at time `now`.
///
/// A message to oneself is rejected and the log is unchanged. Otherwise
/// the message is appended to the log and returned with its identity and
/// creation time.
pub fn send_direct_message(
    receiver_id: Id,
    sender_id: Id,
    log: &mut MessageLog,
    payload: SendMessageInput,
    now: i64,
) -> (r: Result<DirectMessage, ApiError>)
    requires
        old(log).wf(),
    ensures
        final(log).wf(),
        final(log)@.room_messages == old(log)@.room_messages,
        match r {
            Ok(m) => sender_id != receiver_id && m@ == (DirectMessageView {
                id: Id { value: old(log).next_id() },
                sender_id,
                receiver_id,
                content: payload.content@,
                created_at: stamp_after(latest_direct_stamp(old(log)@), now),
            }) && final(log)@.direct_messages == old(log)@.direct_messages.push(m@),
            Err(e) => sender_id == receiver_id && e == ApiError::Validation(Invalid::SelfMessage)
                && final(log)@ == old(log)@,
        },
{
    if sender_id.value == receiver_id.value {
        return Err(ApiError::Validation(Invalid::SelfMessage));
    }
    Ok(log.append_direct(sender_id, receiver_id, payload.content, now))
}

/// The messages between `my_id` and `other_user_id`, in either direction,
/// oldest first. Both users read the same conversation.
pub fn get_direct_messages(my_id: Id, other_user_id: Id, log: &MessageLog) -> (r: Vec<
    DirectMessage,
>)
    requires
        log.wf(),
    ensures
        direct_views(r@) == conversation(log@.direct_messages, my_id, other_user_id),
        direct_views(r@) == conversation(log@.direct_messages, other_user_id, my_id),
        chronological_direct(direct_views(r@)),
{
    proof {
        log.lemma_wf_view();
        crate::message_log::lemma_conversation_chronological(
            log@.direct_messages,
            my_id,
            other_user_id,
        );
    }
    log.list_direct(my_id, other_user_id)
}
} // verus!
