//! The error taxonomy shared by every operation, and how each error is
//! presented to a client.

use vstd::prelude::*;
use vstd::string::StringExecFns;

verus! {

/// Why a request was rejected as invalid.
#[derive(Clone, Copy, Debug, PartialEq, Eq, Structural)]
pub enum Invalid {
    /// A friendship was asked of oneself.
    SelfRequest,
    /// A block was put on oneself.
    SelfBlock,
    /// The removal of a relationship named oneself.
    SelfRemoval,
    /// A direct message, or a direct connection, was addressed to oneself.
    SelfMessage,
    /// An acceptance was asked for where no request is pending.
    NoPendingRequest,
    /// An identifier does not have the textual form of an identity.
    MalformedId,
}

/// What was looked for and is not there.
#[derive(Clone, Copy, Debug, PartialEq, Eq, Structural)]
pub enum Missing {
    /// The edge between two users.
    Relationship,
    /// A user.
    User,
    /// A room.
    Room,
    /// A pending request between two users.
    FriendRequest,
}

/// What failed inside.
#[derive(Clone, Copy, Debug, PartialEq, Eq, Structural)]
pub enum Fault {
    /// A password could not be hashed.
    Hashing,
    /// A stored password hash does not have the form of a hash.
    CorruptHash,
    /// Signing, an identity that was drawn twice, a time that cannot be
    /// represented, or identities that have run out.
    Other,
}

/// Every way an operation can fail.
#[derive(Clone, Copy, Debug, PartialEq, Eq, Structural)]
pub enum ApiError {
    /// Bad credentials, a malformed token, or an expired or revoked session.
    /// The cases are deliberately not told apart.
    Auth,
    /// The caller is authenticated but is not a member of the room.
    NotAMember,
    /// A malformed or self-referential request.
    Validation(Invalid),
    /// A resource that must be unique already exists.
    Conflict,
    /// The resource or edge does not exist.
    NotFound(Missing),
    /// Hashing, signing or bookkeeping failed.
    Internal(Fault),
}

/// The client-visible status of an error.
pub open spec fn status_of(e: ApiError) -> u16 {
    match e {
        ApiError::Auth => 401,
        ApiError::NotAMember => 401,
        ApiError::Validation(_) => 400,
        ApiError::Conflict => 409,
        ApiError::NotFound(_) => 404,
        ApiError::Internal(_) => 500,
    }
}

/// The client-visible text of an error. Authentication failures share one
/// text.
pub open spec fn message_of(e: ApiError) -> Seq<char> {
    match e {
        ApiError::Auth => "Unauthorized"@,
        ApiError::NotAMember => "You are not in this room"@,
        ApiError::Validation(Invalid::SelfRequest) => "Can't add yourself"@,
        ApiError::Validation(Invalid::SelfBlock) => "Cannot block yourself"@,
        ApiError::Validation(Invalid::SelfRemoval) => "Cannot unfriend yourself"@,
        ApiError::Validation(Invalid::SelfMessage) => "Cannot message yourself"@,
        ApiError::Validation(Invalid::NoPendingRequest) => "No pending request found"@,
        ApiError::Validation(Invalid::MalformedId) => "Invalid user ID"@,
        ApiError::Conflict => "Already exists"@,
        ApiError::NotFound(Missing::Relationship) => "No relationship to remove"@,
        ApiError::NotFound(Missing::User) => "User not found"@,
        ApiError::NotFound(Missing::Room) => "Room not found"@,
        ApiError::NotFound(Missing::FriendRequest) => "Friend request not found"@,
        ApiError::Internal(Fault::Hashing) => "Hashing error"@,
        ApiError::Internal(Fault::CorruptHash) => "Corrupt password hash"@,
        ApiError::Internal(Fault::Other) => "Internal error"@,
    }
}

impl ApiError {
    /// The status code under which the error is reported.
    pub fn status(&self) -> (code: u16)
        ensures
            code == status_of(*self),
    {
        match self {
            ApiError::Auth => 401,
            ApiError::NotAMember => 401,
            ApiError::Validation(_) => 400,
            ApiError::Conflict => 409,
            ApiError::NotFound(_) => 404,
            ApiError::Internal(_) => 500,
        }
    }

    /// The text under which the error is reported.
    pub fn message(&self) -> (text: String)
        ensures
            text@ == message_of(*self),
    {
        match self {
            ApiError::Auth => String::from_str("Unauthorized"),
            ApiError::NotAMember => String::from_str("You are not in this room"),
            ApiError::Validation(Invalid::SelfRequest) => String::from_str("Can't add yourself"),
            ApiError::Validation(Invalid::SelfBlock) => String::from_str("Cannot block yourself"),
            ApiError::Validation(Invalid::SelfRemoval) => String::from_str(
                "Cannot unfriend yourself",
            ),
            ApiError::Validation(Invalid::SelfMessage) => String::from_str(
                "Cannot message yourself",
            ),
            ApiError::Validation(Invalid::NoPendingRequest) => String::from_str(
                "No pending request found",
            ),
            ApiError::Validation(Invalid::MalformedId) => String::from_str("Invalid user ID"),
            ApiError::Conflict => String::from_str("Already exists"),
            ApiError::NotFound(Missing::Relationship) => String::from_str(
                "No relationship to remove",
            ),
            ApiError::NotFound(Missing::User) => String::from_str("User not found"),
            ApiError::NotFound(Missing::Room) => String::from_str("Room not found"),
            ApiError::NotFound(Missing::FriendRequest) => String::from_str(
                "Friend request not found",
            ),
            ApiError::Internal(Fault::Hashing) => String::from_str("Hashing error"),
            ApiError::Internal(Fault::CorruptHash) => String::from_str("Corrupt password hash"),
            ApiError::Internal(Fault::Other) => String::from_str("Internal error"),
        }
    }
}

} // verus!
