//! The data model of the surrounding request/response service: users, notes,
//! conversations and friendships. Timestamps are carried as unix timestamps
//! in seconds; the persistence layer converts at its own edge.

use vstd::prelude::*;

verus! {

/// A stored user row.
#[derive(Debug, Clone)]
pub struct User {
    pub id: i64,
    pub username: String,
    pub password_hash: String,
    pub email: Option<String>,
    pub created_at: i64,
    pub updated_at: i64,
}

/// The payload of a registration request.
#[derive(Debug, Clone)]
pub struct RegisterReuqest {
    pub username: String,
    pub password: String,
    pub email: Option<String>,
}

/// A stored note row.
#[derive(Debug, Clone)]
pub struct Note {
    pub id: i64,
    pub title: String,
    pub content: Option<String>,
    pub created_at: i64,
    pub updated_at: i64,
}

/// The payload creating a note.
#[derive(Debug, Clone)]
pub struct CreateNote {
    pub title: String,
    pub content: Option<String>,
}

/// The payload updating a note; an absent field keeps the stored value.
#[derive(Debug, Clone)]
pub struct UpdateNote {
    pub title: Option<String>,
    pub content: Option<String>,
}

/// Whether a conversation is a two-party chat or a group.
#[derive(Debug, Clone, Copy, PartialEq, Eq, Structural)]
pub enum ConversationType {
    Private,
    Group,
}

/// The role of a conversation member.
#[derive(Debug, Clone, Copy, PartialEq, Eq, Structural)]
pub enum MemberRole {
    Owner,
    Admin,
    Member,
}

/// A stored conversation-membership row.
#[derive(Debug, Clone)]
pub struct ConversationMember {
    pub id: i64,
    pub conversation_id: i64,
    pub user_id: i64,
    pub role: MemberRole,
    pub joined_at: i64,
}

/// The state of a friendship request.
#[derive(Debug, Clone, Copy, PartialEq, Eq, Structural)]
pub enum FriendShipStatus {
    Pending,
    Accepted,
    Rejected,
}

/// A stored friendship row.
#[derive(Debug, Clone)]
pub struct FriendShip {
    pub id: i64,
    pub requester_id: i64,
    pub receiver_id: i64,
    pub status: FriendShipStatus,
    pub created_at: i64,
    pub updated_at: i64,
}

} // verus!
