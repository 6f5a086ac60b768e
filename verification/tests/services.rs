use chat_core::error::AppError;
use chat_core::handlers::test_error_decision;
use chat_core::models::{FriendShip, FriendShipStatus, MemberRole, Note, User};
use chat_core::services::{
    ConversationServices, FriednShipService, FriendRequestAction, NoteService, UserService,
};

fn friendship(id: i64, status: FriendShipStatus) -> FriendShip {
    FriendShip {
        id,
        requester_id: 1,
        receiver_id: 2,
        status,
        created_at: 0,
        updated_at: 0,
    }
}

#[test]
fn register_precheck_blocks_taken_names() {
    assert!(UserService::register_precheck(0).is_ok());
    match UserService::register_precheck(1) {
        Err(AppError::BadRequest(m)) => assert_eq!(m, "用户名已存在"),
        other => panic!("expected bad request, got {:?}", other),
    }
}

#[test]
fn password_hash_roundtrip() {
    let hash = UserService::hash_password("s3cret").unwrap();
    assert_ne!(hash, "s3cret");
    assert_eq!(UserService::verify_password("s3cret", &hash).unwrap(), true);
    assert_eq!(UserService::verify_password("wrong", &hash).unwrap(), false);
}

#[test]
fn verify_password_rejects_malformed_hash() {
    assert!(matches!(
        UserService::verify_password("pw", "not-a-bcrypt-hash"),
        Err(AppError::Internal(_))
    ));
}

#[test]
fn user_lookup_result() {
    let u = User {
        id: 3,
        username: "ann".into(),
        password_hash: "h".into(),
        email: None,
        created_at: 0,
        updated_at: 0,
    };
    assert_eq!(UserService::found_user(Some(u)).unwrap().id, 3);
    match UserService::found_user(None) {
        Err(AppError::NotFound(m)) => assert_eq!(m, "用户不存在"),
        other => panic!("expected not found, got {:?}", other),
    }
}

#[test]
fn login_check_refuses_wrong_password() {
    assert!(UserService::login_check(true).is_ok());
    match UserService::login_check(false) {
        Err(AppError::Unauthorized(m)) => assert_eq!(m, "用户名或密码错误"),
        other => panic!("expected unauthorized, got {:?}", other),
    }
}

#[test]
fn note_lookup_names_the_note() {
    let n = Note { id: 7, title: "t".into(), content: None, created_at: 0, updated_at: 0 };
    assert_eq!(NoteService::found_note(7, Some(n)).unwrap().id, 7);
    match NoteService::found_note(7, None) {
        Err(AppError::NotFound(m)) => assert_eq!(m, "Note 7 not found"),
        other => panic!("expected not found, got {:?}", other),
    }
    match NoteService::delete_result(-3, 0) {
        Err(AppError::NotFound(m)) => assert_eq!(m, "Note -3 not found"),
        other => panic!("expected not found, got {:?}", other),
    }
    assert!(NoteService::delete_result(1, 2).is_ok());
}

#[test]
fn friendship_request_decisions() {
    match FriednShipService::send_request_decision(1, 1, None) {
        Err(AppError::Unauthorized(m)) => assert_eq!(m, "不能添加自己为好友"),
        other => panic!("expected unauthorized, got {:?}", other),
    }
    match FriednShipService::send_request_decision(1, 2, Some(&friendship(9, FriendShipStatus::Accepted))) {
        Err(AppError::Unauthorized(m)) => assert_eq!(m, "对方已是您的好友"),
        other => panic!("expected unauthorized, got {:?}", other),
    }
    match FriednShipService::send_request_decision(1, 2, Some(&friendship(9, FriendShipStatus::Pending))) {
        Err(AppError::Unauthorized(m)) => assert_eq!(m, "不能重复添加"),
        other => panic!("expected unauthorized, got {:?}", other),
    }
    assert_eq!(
        FriednShipService::send_request_decision(1, 2, Some(&friendship(9, FriendShipStatus::Rejected)))
            .unwrap(),
        FriendRequestAction::ResetToPending(9)
    );
    assert_eq!(
        FriednShipService::send_request_decision(1, 2, None).unwrap(),
        FriendRequestAction::CreatePending
    );
}

#[test]
fn friendship_accept_requires_receiver() {
    match FriednShipService::accept_result(0) {
        Err(AppError::Unauthorized(m)) => assert_eq!(m, "只有接收方可以接收好友请求"),
        other => panic!("expected unauthorized, got {:?}", other),
    }
    assert_eq!(FriednShipService::accept_result(1).unwrap(), true);
}

#[test]
fn conversation_member_plan() {
    let plan = ConversationServices::plan_member_inserts(9, &vec![1, 2]);
    assert_eq!(plan, vec![(9, MemberRole::Owner), (1, MemberRole::Member), (2, MemberRole::Member)]);
    let plan = ConversationServices::plan_member_inserts(9, &vec![4]);
    assert_eq!(plan, vec![(9, MemberRole::Member), (4, MemberRole::Member)]);
    let plan = ConversationServices::plan_member_inserts(9, &vec![]);
    assert_eq!(plan, vec![(9, MemberRole::Member)]);
}

#[test]
fn conversation_lookup_result() {
    match ConversationServices::found_conversation(None) {
        Err(AppError::NotFound(m)) => assert_eq!(m, "会话不存在"),
        other => panic!("expected not found, got {:?}", other),
    }
}

#[test]
fn error_probe_route_decisions() {
    match test_error_decision("404") {
        Some(AppError::NotFound(m)) => assert_eq!(m, "资源不存在"),
        other => panic!("expected not found, got {:?}", other),
    }
    match test_error_decision("400") {
        Some(AppError::BadRequest(m)) => assert_eq!(m, "参数错误"),
        other => panic!("expected bad request, got {:?}", other),
    }
    match test_error_decision("500") {
        Some(AppError::Internal(m)) => assert_eq!(m, "数据库炸了"),
        other => panic!("expected internal, got {:?}", other),
    }
    assert!(test_error_decision("ok").is_none());
}
