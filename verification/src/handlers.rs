//! Request payload types of the HTTP handlers, and the handlers' own small
//! decisions. Transport, routing and storage live at the program's edge.

use vstd::prelude::*;
use vstd::string::*;

verus! {

use crate::error::AppError;
use crate::payload::str_eq;

/// The payload of a login request.
#[derive(Debug, Clone)]
pub struct LoginRequest {
    pub username: String,
    pub password: String,
}

/// The payload creating a conversation.
#[derive(Debug, Clone)]
pub struct CreateConversationReq {
    pub name: Option<String>,
    pub member_ids: Vec<i64>,
}

/// The payload adding a conversation member.
#[derive(Debug, Clone, Copy, PartialEq, Eq, Structural)]
pub struct AddMemberReq {
    pub user_id: i64,
}

/// The payload of a friendship request.
#[derive(Debug, Clone, Copy, PartialEq, Eq, Structural)]
pub struct FriendShipReq {
    pub receiver_id: i64,
}

/// The error-probing route's decision: which error, if any, a probe path
/// names.
pub fn test_error_decision(kind: &str) -> (r: Option<AppError>)
    ensures
        kind@ == "404"@ ==> (r matches Some(e) && e matches AppError::NotFound(m) && m@
            == "资源不存在"@),
        kind@ == "400"@ ==> (r matches Some(e) && e matches AppError::BadRequest(m) && m@
            == "参数错误"@),
        kind@ == "500"@ ==> (r matches Some(e) && e matches AppError::Internal(m) && m@
            == "数据库炸了"@),
        kind@ != "404"@ && kind@ != "400"@ && kind@ != "500"@ ==> r is None,
{
    proof {
        reveal_strlit("404");
        reveal_strlit("400");
        reveal_strlit("500");
        assert("404"@[2] != "400"@[2]);
        assert("404"@[0] != "500"@[0]);
        assert("400"@[0] != "500"@[0]);
    }
    if str_eq(kind, "404") {
        Some(AppError::NotFound(String::from_str("资源不存在")))
    } else if str_eq(kind, "400") {
        Some(AppError::BadRequest(String::from_str("参数错误")))
    } else if str_eq(kind, "500") {
        Some(AppError::Internal(String::from_str("数据库炸了")))
    } else {
        None
    }
}

} // verus!
