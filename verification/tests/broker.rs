use chat_core::broker::{ChatMessage, ChatServer, DeliveryHandle, HISTORY_LIMIT};

fn sorted_deliveries(fx: &[chat_core::broker::Delivery]) -> Vec<(i64, u64, String)> {
    let mut v: Vec<(i64, u64, String)> = fx
        .iter()
        .map(|d| (d.user_id, d.handle.id, d.payload.clone()))
        .collect();
    v.sort();
    v
}

#[test]
fn route_reaches_both_joined_users() {
    let mut s = ChatServer::new();
    s.register(1, DeliveryHandle { id: 11 });
    s.register(2, DeliveryHandle { id: 22 });
    s.join(1, 5);
    s.join(2, 5);
    let fx = s.route(1, 5, "hi");
    assert_eq!(
        sorted_deliveries(&fx.deliveries),
        vec![
            (1, 11, "1: hi".to_string()),
            (2, 22, "1: hi".to_string()),
        ]
    );
    assert_eq!(fx.persist.conversation_id, 5);
    assert_eq!(fx.persist.sender_id, 1);
    assert_eq!(fx.persist.content, "hi");
    assert_eq!(fx.persist.msg_type, "text");
}

#[test]
fn route_skips_user_in_other_room() {
    let mut s = ChatServer::new();
    s.register(1, DeliveryHandle { id: 11 });
    s.register(3, DeliveryHandle { id: 33 });
    s.join(1, 5);
    s.join(3, 6);
    let fx = s.route(1, 5, "hi");
    assert_eq!(sorted_deliveries(&fx.deliveries), vec![(1, 11, "1: hi".to_string())]);
}

#[test]
fn route_skips_member_without_session() {
    let mut s = ChatServer::new();
    s.register(1, DeliveryHandle { id: 11 });
    s.register(2, DeliveryHandle { id: 22 });
    s.join(1, 5);
    s.join(2, 5);
    s.unregister(1);
    let fx = s.route(2, 5, "bye");
    assert_eq!(sorted_deliveries(&fx.deliveries), vec![(2, 22, "2: bye".to_string())]);
}

#[test]
fn route_to_unknown_room_delivers_nothing() {
    let mut s = ChatServer::new();
    s.register(1, DeliveryHandle { id: 11 });
    let fx = s.route(1, 9, "hello");
    assert!(fx.deliveries.is_empty());
    assert_eq!(fx.persist.conversation_id, 9);
}

#[test]
fn sender_not_joined_still_persists_without_self_delivery() {
    let mut s = ChatServer::new();
    s.register(1, DeliveryHandle { id: 11 });
    s.register(2, DeliveryHandle { id: 22 });
    s.join(2, 5);
    let fx = s.route(1, 5, "hi");
    assert_eq!(sorted_deliveries(&fx.deliveries), vec![(2, 22, "1: hi".to_string())]);
    assert_eq!(fx.persist.sender_id, 1);
}

#[test]
fn unregister_cleans_every_room() {
    let mut s = ChatServer::new();
    s.register(1, DeliveryHandle { id: 11 });
    s.register(2, DeliveryHandle { id: 22 });
    s.join(1, 5);
    s.join(1, 6);
    s.join(2, 5);
    s.join(2, 6);
    s.unregister(1);
    s.register(1, DeliveryHandle { id: 99 });
    let fx5 = s.route(2, 5, "a");
    let fx6 = s.route(2, 6, "b");
    assert_eq!(sorted_deliveries(&fx5.deliveries), vec![(2, 22, "2: a".to_string())]);
    assert_eq!(sorted_deliveries(&fx6.deliveries), vec![(2, 22, "2: b".to_string())]);
}

#[test]
fn reconnect_supersedes_old_handle() {
    let mut s = ChatServer::new();
    s.register(1, DeliveryHandle { id: 11 });
    s.join(1, 5);
    s.register(1, DeliveryHandle { id: 99 });
    let fx = s.route(1, 5, "hi");
    assert_eq!(sorted_deliveries(&fx.deliveries), vec![(1, 99, "1: hi".to_string())]);
    let msgs = vec![ChatMessage { sender_id: 2, content: "old".to_string(), send_time: 0 }];
    let replay = s.deliver_history(1, &msgs);
    assert_eq!(replay.len(), 1);
    assert_eq!(replay[0].handle.id, 99);
}

#[test]
fn unregister_unknown_user_is_a_no_op() {
    let mut s = ChatServer::new();
    s.register(1, DeliveryHandle { id: 11 });
    s.join(1, 5);
    s.unregister(42);
    let fx = s.route(1, 5, "still here");
    assert_eq!(
        sorted_deliveries(&fx.deliveries),
        vec![(1, 11, "1: still here".to_string())]
    );
}

#[test]
fn join_requests_twenty_recent_messages() {
    let mut s = ChatServer::new();
    s.register(1, DeliveryHandle { id: 11 });
    let fetch = s.join(1, 5);
    assert_eq!(fetch.user_id, 1);
    assert_eq!(fetch.conversation_id, 5);
    assert_eq!(fetch.limit, 20);
    assert_eq!(HISTORY_LIMIT, 20);
}

#[test]
fn history_replay_caps_at_twenty_and_keeps_store_order() {
    let mut s = ChatServer::new();
    s.register(1, DeliveryHandle { id: 11 });
    s.register(2, DeliveryHandle { id: 22 });
    s.join(1, 5);
    s.join(2, 5);
    let msgs: Vec<ChatMessage> = (0..25)
        .map(|k| ChatMessage { sender_id: 7, content: format!("m{}", k), send_time: k })
        .collect();
    let replay = s.deliver_history(1, &msgs);
    assert_eq!(replay.len(), 20);
    for (k, d) in replay.iter().enumerate() {
        assert_eq!(d.user_id, 1);
        assert_eq!(d.handle.id, 11);
        assert_eq!(d.payload, format!("7: m{}", k));
    }
}

#[test]
fn history_replay_to_gone_session_is_dropped() {
    let mut s = ChatServer::new();
    s.register(1, DeliveryHandle { id: 11 });
    s.join(1, 5);
    s.unregister(1);
    let msgs = vec![ChatMessage { sender_id: 2, content: "x".to_string(), send_time: 0 }];
    let replay = s.deliver_history(1, &msgs);
    assert!(replay.is_empty());
}

#[test]
fn join_is_idempotent_for_delivery() {
    let mut s = ChatServer::new();
    s.register(1, DeliveryHandle { id: 11 });
    s.join(1, 5);
    s.join(1, 5);
    let fx = s.route(1, 5, "hi");
    assert_eq!(fx.deliveries.len(), 1);
}

#[test]
fn session_lookup_follows_registration() {
    let mut s = ChatServer::new();
    assert!(s.session_of(1).is_none());
    s.register(1, DeliveryHandle { id: 11 });
    assert_eq!(s.session_of(1).unwrap().id, 11);
    s.register(1, DeliveryHandle { id: 99 });
    assert_eq!(s.session_of(1).unwrap().id, 99);
    s.unregister(1);
    assert!(s.session_of(1).is_none());
}
