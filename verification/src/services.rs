//! The decision logic of the request/response services. The services talk to
//! relational storage; the storage calls themselves happen at the program's
//! edge, which hands the fetched rows and affected-row counts to the
//! functions here. Password hashing and checking call into the `bcrypt`
//! crate from here, behind trusted wrappers.

use vstd::prelude::*;
use vstd::string::*;

verus! {

use crate::error::AppError;
use crate::models::{ConversationType, FriendShip, FriendShipStatus, MemberRole, Note, User};
use crate::payload::{i64_to_dec, spec_int_dec};

/// User lookup and registration rules.
pub struct UserService;

/// What `bcrypt::verify` answers for a password against a stored hash: a
/// function of the two texts alone.
pub uninterp spec fn bcrypt_verifies(password: Seq<char>, hashed: Seq<char>) -> bool;

/// Relies on bcrypt::hash: hashes the password with a fresh random salt at
/// the default cost; the error, if any, is rendered as its message.
#[verifier::external_body]
fn bcrypt_hash(password: &str) -> (r: Result<String, String>) {
    bcrypt::hash(password, bcrypt::DEFAULT_COST).map_err(|e| e.to_string())
}

/// Relies on bcrypt::verify: answers whether `password` matches the bcrypt
/// hash `hashed`; the answer depends on the two texts alone. It errs when
/// `hashed` is not a well-formed bcrypt hash; the error is rendered as its
/// message.
#[verifier::external_body]
fn bcrypt_check(password: &str, hashed: &str) -> (r: Result<bool, String>)
    ensures
        r matches Ok(b) ==> b == bcrypt_verifies(password@, hashed@),
{
    bcrypt::verify(password, hashed).map_err(|e| e.to_string())
}

impl UserService {
    /// Decides whether a registration may proceed, from the number of users
    /// already holding the requested name: any existing user blocks it.
    pub fn register_precheck(existing_count: i64) -> (r: Result<(), AppError>)
        ensures
            existing_count <= 0 <==> r is Ok,
            r matches Err(e) ==> e matches AppError::BadRequest(m) && m@ == "用户名已存在"@,
    {
        if existing_count > 0 {
            Err(AppError::BadRequest(String::from_str("用户名已存在")))
        } else {
            Ok(())
        }
    }

    /// Hashes a password for storage. The hash is salted, so nothing relates
    /// two calls; failure surfaces as an internal error.
    pub fn hash_password(password: &str) -> (r: Result<String, AppError>)
        ensures
            r matches Err(e) ==> e is Internal,
    {
        match bcrypt_hash(password) {
            Ok(h) => Ok(h),
            Err(m) => Err(AppError::Internal(m)),
        }
    }

    /// Checks a password against a stored hash; a malformed stored hash
    /// surfaces as an internal error.
    pub fn verify_password(password: &str, hashed: &str) -> (r: Result<bool, AppError>)
        ensures
            r matches Ok(b) ==> b == bcrypt_verifies(password@, hashed@),
            r matches Err(e) ==> e is Internal,
    {
        match bcrypt_check(password, hashed) {
            Ok(b) => Ok(b),
            Err(m) => Err(AppError::Internal(m)),
        }
    }

    /// Turns the result of a user lookup into the service's answer: an
    /// absent row is "user not found".
    pub fn found_user(row: Option<User>) -> (r: Result<User, AppError>)
        ensures
            match row {
                Some(u) => r matches Ok(got) && got == u,
                None => r matches Err(e) && e matches AppError::NotFound(m) && m@
                    == "用户不存在"@,
            },
    {
        match row {
            Some(u) => Ok(u),
            None => Err(AppError::NotFound(String::from_str("用户不存在"))),
        }
    }

    /// Decides the outcome of a login from the password check: a wrong
    /// password is refused without saying which of name and password failed.
    pub fn login_check(password_ok: bool) -> (r: Result<(), AppError>)
        ensures
            password_ok <==> r is Ok,
            r matches Err(e) ==> e matches AppError::Unauthorized(m) && m@
                == "用户名或密码错误"@,
    {
        if password_ok {
            Ok(())
        } else {
            Err(AppError::Unauthorized(String::from_str("用户名或密码错误")))
        }
    }
}

/// Note lookup and deletion rules.
pub struct NoteService;

impl NoteService {
    /// Turns the result of a note lookup into the service's answer: an
    /// absent row is "Note <id> not found".
    pub fn found_note(id: i64, row: Option<Note>) -> (r: Result<Note, AppError>)
        ensures
            match row {
                Some(n) => r matches Ok(got) && got == n,
                None => r matches Err(e) && e matches AppError::NotFound(m) && m@ == "Note "@
                    + spec_int_dec(id as int) + " not found"@,
            },
    {
        match row {
            Some(n) => Ok(n),
            None => {
                let m = String::from_str("Note ").concat(i64_to_dec(id).as_str()).concat(
                    " not found",
                );
                proof {
                    assert(m@ =~= "Note "@ + spec_int_dec(id as int) + " not found"@);
                }
                Err(AppError::NotFound(m))
            },
        }
    }

    /// Decides the outcome of a deletion from the number of rows it
    /// affected: deleting a note that does not exist is "not found".
    pub fn delete_result(id: i64, rows_affected: u64) -> (r: Result<(), AppError>)
        ensures
            rows_affected > 0 <==> r is Ok,
            r matches Err(e) ==> e matches AppError::NotFound(m) && m@ == "Note "@
                + spec_int_dec(id as int) + " not found"@,
    {
        if rows_affected == 0 {
            let m = String::from_str("Note ").concat(i64_to_dec(id).as_str()).concat(
                " not found",
            );
            proof {
                assert(m@ =~= "Note "@ + spec_int_dec(id as int) + " not found"@);
            }
            Err(AppError::NotFound(m))
        } else {
            Ok(())
        }
    }
}

/// What storage should do about a new friendship request.
#[derive(Debug, Clone, Copy, PartialEq, Eq, Structural)]
pub enum FriendRequestAction {
    /// No row relates the two users yet: insert a pending request.
    CreatePending,
    /// A rejected row exists under this identifier: set it back to pending.
    ResetToPending(i64),
}

/// Friendship request rules.
pub struct FriednShipService;

impl FriednShipService {
    /// Decides a friendship request from the row already relating requester
    /// and receiver, if any: asking oneself, an accepted friendship and a
    /// still-pending request are refused; a rejected one is revived; absence
    /// creates a fresh pending request.
    pub fn send_request_decision(
        requester_id: i64,
        receiver_id: i64,
        existing: Option<&FriendShip>,
    ) -> (r: Result<FriendRequestAction, AppError>)
        ensures
            requester_id == receiver_id ==> (r matches Err(e) && e matches AppError::Unauthorized(
                m,
            ) && m@ == "不能添加自己为好友"@),
            requester_id != receiver_id ==> match existing {
                Some(rec) => match rec.status {
                    FriendShipStatus::Accepted => r matches Err(e) && e matches
                        AppError::Unauthorized(m) && m@ == "对方已是您的好友"@,
                    FriendShipStatus::Pending => r matches Err(e) && e matches
                        AppError::Unauthorized(m) && m@ == "不能重复添加"@,
                    FriendShipStatus::Rejected => r == Ok::<_, AppError>(
                        FriendRequestAction::ResetToPending(rec.id),
                    ),
                },
                None => r == Ok::<_, AppError>(FriendRequestAction::CreatePending),
            },
    {
        if requester_id == receiver_id {
            return Err(AppError::Unauthorized(String::from_str("不能添加自己为好友")));
        }
        match existing {
            Some(rec) => match rec.status {
                FriendShipStatus::Accepted => Err(
                    AppError::Unauthorized(String::from_str("对方已是您的好友")),
                ),
                FriendShipStatus::Pending => Err(
                    AppError::Unauthorized(String::from_str("不能重复添加")),
                ),
                FriendShipStatus::Rejected => Ok(FriendRequestAction::ResetToPending(rec.id)),
            },
            None => Ok(FriendRequestAction::CreatePending),
        }
    }

    /// Decides the outcome of accepting a request from the number of rows
    /// the acceptance update touched: nothing touched means the caller was
    /// not the request's receiver.
    pub fn accept_result(rows_affected: u64) -> (r: Result<bool, AppError>)
        ensures
            rows_affected > 0 <==> r == Ok::<bool, AppError>(true),
            r matches Err(e) ==> e matches AppError::Unauthorized(m) && m@
                == "只有接收方可以接收好友请求"@,
    {
        if rows_affected == 0 {
            Err(AppError::Unauthorized(String::from_str("只有接收方可以接收好友请求")))
        } else {
            Ok(true)
        }
    }
}

/// A conversation row as the conversation listing returns it.
#[derive(Debug, Clone)]
pub struct ConversationRes {
    pub id: i64,
    pub conversation_type: ConversationType,
    pub name: Option<String>,
    pub created_at: i64,
    pub is_deleted: bool,
}

/// Conversation creation and lookup rules.
pub struct ConversationServices;

impl ConversationServices {
    /// Plans the membership rows of a fresh conversation: the creator first
    /// — as owner exactly when more than one other member comes along — then
    /// every listed member as a plain member.
    pub fn plan_member_inserts(user_id: i64, member_ids: &Vec<i64>) -> (r: Vec<(i64, MemberRole)>)
        ensures
            r@.len() == member_ids@.len() + 1,
            r@[0].0 == user_id,
            r@[0].1 == (if member_ids@.len() > 1 {
                MemberRole::Owner
            } else {
                MemberRole::Member
            }),
            forall|i: int|
                0 <= i < member_ids@.len() ==> #[trigger] r@[i + 1] == (
                member_ids@[i],
                MemberRole::Member,
                ),
    {
        let mut r: Vec<(i64, MemberRole)> = Vec::new();
        let creator_role = if member_ids.len() > 1 {
            MemberRole::Owner
        } else {
            MemberRole::Member
        };
        r.push((user_id, creator_role));
        let n = member_ids.len();
        let mut i: usize = 0;
        while i < n
            invariant
                i <= n,
                n == member_ids@.len(),
                r@.len() == i + 1,
                r@[0].0 == user_id,
                r@[0].1 == (if member_ids@.len() > 1 {
                    MemberRole::Owner
                } else {
                    MemberRole::Member
                }),
                forall|k: int|
                    0 <= k < i ==> #[trigger] r@[k + 1] == (member_ids@[k], MemberRole::Member),
            decreases n - i,
        {
            r.push((member_ids[i], MemberRole::Member));
            i = i + 1;
        }
        r
    }

    /// Turns the result of a conversation lookup into the service's answer:
    /// an absent row is "conversation not found".
    pub fn found_conversation(row: Option<ConversationRes>) -> (r: Result<
        ConversationRes,
        AppError,
    >)
        ensures
            match row {
                Some(c) => r matches Ok(got) && got == c,
                None => r matches Err(e) && e matches AppError::NotFound(m) && m@
                    == "会话不存在"@,
            },
    {
        match row {
            Some(c) => Ok(c),
            None => Err(AppError::NotFound(String::from_str("会话不存在"))),
        }
    }
}

} // verus!
