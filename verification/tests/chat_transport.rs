use homelab_backend::chat::{
    channel_not_found_ack, complete_create_message, created_ack, not_subscribed_ack,
    persist_failed_ack,
};
use homelab_backend::registry::ConnectionRegistry;
use homelab_backend::server::ChatServer;
use homelab_backend::{
    CreateChannelSchema, CreateMessageSchema, WebSocketRequest, WebSocketResponse,
};

fn schema(slug: &str) -> CreateChannelSchema {
    CreateChannelSchema { name: None, channel_type: 1, slug: slug.to_string() }
}

fn create_msg(channel_id: &str, contents: &str) -> CreateMessageSchema {
    CreateMessageSchema {
        channel_id: channel_id.to_string(),
        contents: contents.to_string(),
        reply_to: None,
    }
}

fn queue(server: &ChatServer, socket: usize) -> Vec<WebSocketResponse> {
    let mut out = Vec::new();
    let len = server.registry.queue_len(socket);
    let mut i = 0;
    while i < len {
        out.push(server.registry.queued_response(socket, i));
        i += 1;
    }
    out
}

fn expect_ack(resp: &WebSocketResponse, status: i64, msg: &str) {
    match resp {
        WebSocketResponse::SendAck(a) => {
            assert_eq!(a.status_code, status);
            assert_eq!(a.msg, msg);
        }
        WebSocketResponse::SendChatMessage(_) => panic!("expected an ack, found a chat message"),
    }
}

fn expect_message(resp: &WebSocketResponse, contents: &str, author: &str) {
    match resp {
        WebSocketResponse::SendChatMessage(m) => {
            assert_eq!(m.contents, contents);
            assert_eq!(m.author_id, author);
        }
        WebSocketResponse::SendAck(_) => panic!("expected a chat message, found an ack"),
    }
}

#[test]
fn registry_exclusivity() {
    let mut registry = ConnectionRegistry::new();
    let alice = "alice".to_string();
    let (h1, prev1) = registry.register(&alice);
    assert_eq!(prev1, None);
    assert_eq!(registry.lookup(&alice), Some(h1));
    let (h2, prev2) = registry.register(&alice);
    assert_eq!(prev2, Some(h1));
    assert_ne!(h1, h2);
    assert_eq!(registry.lookup(&alice), Some(h2));
}

#[test]
fn idempotent_removal() {
    let mut registry = ConnectionRegistry::new();
    let alice = "alice".to_string();
    let ghost_user = "nobody".to_string();
    registry.remove(&ghost_user);
    assert_eq!(registry.lookup(&ghost_user), None);
    let (h, _) = registry.register(&alice);
    registry.remove(&ghost_user);
    assert_eq!(registry.lookup(&alice), Some(h));
    registry.remove(&alice);
    registry.remove(&alice);
    assert_eq!(registry.lookup(&alice), None);
}

#[test]
fn membership_gate_rejects_outsider() {
    let mut server = ChatServer::new(1_000);
    let alice = "alice".to_string();
    let bob = "bob".to_string();
    let channel = server.store.insert_chat_channel(&schema("general"), alice.clone()).unwrap();
    let (bob_socket, _) = server.connect(&bob);
    server.handle_create_message(&bob, create_msg(&channel.id, "hi"));
    let bob_queue = queue(&server, bob_socket);
    assert_eq!(bob_queue.len(), 1);
    expect_ack(&bob_queue[0], 400, "You are not in this chat channel");
    assert_eq!(server.store.message_count(), 0);
}

#[test]
fn not_found_gate_rejects_unknown_channel() {
    let mut server = ChatServer::new(1_000);
    let alice = "alice".to_string();
    let (socket, _) = server.connect(&alice);
    server.handle_create_message(&alice, create_msg("does-not-exist", "hi"));
    let q = queue(&server, socket);
    assert_eq!(q.len(), 1);
    expect_ack(&q[0], 404, "Chat channel does not exist");
    assert_eq!(server.store.message_count(), 0);
}

#[test]
fn successful_fanout_reaches_every_live_subscriber() {
    let mut server = ChatServer::new(1_000);
    let alice = "alice".to_string();
    let bob = "bob".to_string();
    let carol = "carol".to_string();
    let channel = server.store.insert_chat_channel(&schema("general"), alice.clone()).unwrap();
    server.store.subscribe(&channel.id, &bob).unwrap();
    let (a_socket, _) = server.connect(&alice);
    let (b_socket, _) = server.connect(&bob);
    let (c_socket, _) = server.connect(&carol);

    server.handle_create_message(&alice, create_msg(&channel.id, "hello everyone"));

    assert_eq!(server.store.message_count(), 1);
    let stored = server.store.message_at(0);
    assert_eq!(stored.contents, "hello everyone");
    assert_eq!(stored.author_id, "alice");
    assert_eq!(stored.channel_id, channel.id);
    assert_eq!(stored.created_at, 1_000);
    assert_eq!(stored.updated_at, 1_000);
    assert!(!stored.pinned);
    assert!(stored.reactions.is_empty());

    // the requester: the message first, then exactly one 200 ack
    let a_queue = queue(&server, a_socket);
    assert_eq!(a_queue.len(), 2);
    expect_message(&a_queue[0], "hello everyone", "alice");
    expect_ack(&a_queue[1], 200, &format!("Created chat message with ID {}", stored.id));

    // the other subscriber: exactly one copy, no ack
    let b_queue = queue(&server, b_socket);
    assert_eq!(b_queue.len(), 1);
    expect_message(&b_queue[0], "hello everyone", "alice");

    // a connected non-subscriber: nothing
    assert_eq!(queue(&server, c_socket).len(), 0);
}

#[test]
fn offline_subscriber_is_skipped() {
    let mut server = ChatServer::new(1_000);
    let alice = "alice".to_string();
    let bob = "bob".to_string();
    let carol = "carol".to_string();
    let channel = server.store.insert_chat_channel(&schema("general"), alice.clone()).unwrap();
    server.store.subscribe(&channel.id, &bob).unwrap();
    server.store.subscribe(&channel.id, &carol).unwrap();
    let (a_socket, _) = server.connect(&alice);
    let (c_socket, _) = server.connect(&carol);
    // bob, though subscribed, never connects

    server.handle_create_message(&alice, create_msg(&channel.id, "anyone here?"));

    // the other subscribers are unaffected by bob's absence
    assert_eq!(server.store.message_count(), 1);
    let c_queue = queue(&server, c_socket);
    assert_eq!(c_queue.len(), 1);
    expect_message(&c_queue[0], "anyone here?", "alice");
    // and the requester still receives the success ack
    let a_queue = queue(&server, a_socket);
    assert_eq!(a_queue.len(), 2);
    expect_message(&a_queue[0], "anyone here?", "alice");
    match &a_queue[1] {
        WebSocketResponse::SendAck(a) => assert_eq!(a.status_code, 200),
        _ => panic!("expected the ack last"),
    }
}

#[test]
fn scenario_owner_messages_own_channel() {
    let mut server = ChatServer::new(50);
    let a = "user-a".to_string();
    let channel = server.store.insert_chat_channel(&schema("general"), a.clone()).unwrap();
    assert_eq!(channel.subscribers, vec!["user-a".to_string()]);
    let (socket, _) = server.connect(&a);
    server.handle_create_message(&a, create_msg(&channel.id, "hi"));
    let q = queue(&server, socket);
    assert_eq!(q.len(), 2);
    expect_message(&q[0], "hi", "user-a");
    match &q[1] {
        WebSocketResponse::SendAck(ack) => {
            assert_eq!(ack.status_code, 200);
            assert!(!ack.is_error());
        }
        _ => panic!("expected exactly one ack"),
    }
}

#[test]
fn scenario_outsider_gets_400_and_no_deliveries() {
    let mut server = ChatServer::new(50);
    let a = "user-a".to_string();
    let b = "user-b".to_string();
    let channel = server.store.insert_chat_channel(&schema("general"), a.clone()).unwrap();
    let (a_socket, _) = server.connect(&a);
    let (b_socket, _) = server.connect(&b);
    server.handle_create_message(&b, create_msg(&channel.id, "hi"));
    let b_queue = queue(&server, b_socket);
    assert_eq!(b_queue.len(), 1);
    expect_ack(&b_queue[0], 400, "You are not in this chat channel");
    assert!(match &b_queue[0] {
        WebSocketResponse::SendAck(ack) => ack.is_error(),
        _ => false,
    });
    // zero chat-message deliveries anywhere
    assert_eq!(queue(&server, a_socket).len(), 0);
    assert_eq!(server.store.message_count(), 0);
}

#[test]
fn scenario_reconnect_evicts_first_socket() {
    let mut server = ChatServer::new(50);
    let a = "user-a".to_string();
    let channel = server.store.insert_chat_channel(&schema("general"), a.clone()).unwrap();
    let (first_socket, prev) = server.connect(&a);
    assert_eq!(prev, None);
    let (second_socket, prev2) = server.connect(&a);
    assert_eq!(prev2, Some(first_socket));

    server.handle_create_message(&a, create_msg(&channel.id, "after reconnect"));

    // the first socket receives nothing further
    assert_eq!(queue(&server, first_socket).len(), 0);
    let q = queue(&server, second_socket);
    assert_eq!(q.len(), 2);
    expect_message(&q[0], "after reconnect", "user-a");
}

#[test]
fn dispatch_routes_create_message() {
    let mut server = ChatServer::new(10);
    let a = "a".to_string();
    let channel = server.store.insert_chat_channel(&schema("c"), a.clone()).unwrap();
    let (socket, _) = server.connect(&a);
    server.handle_request(
        &a,
        WebSocketRequest::CreateMessage(create_msg(&channel.id, "via dispatch")),
    );
    let q = queue(&server, socket);
    assert_eq!(q.len(), 2);
    expect_message(&q[0], "via dispatch", "a");
}

#[test]
fn persistence_failure_yields_500_and_no_fanout() {
    let mut registry = ConnectionRegistry::new();
    let a = "a".to_string();
    let b = "b".to_string();
    let (a_socket, _) = registry.register(&a);
    let (b_socket, _) = registry.register(&b);
    let subscribers = vec![a.clone(), b.clone()];
    complete_create_message(&mut registry, &a, &subscribers, None);
    assert_eq!(registry.queue_len(a_socket), 1);
    match registry.queued_response(a_socket, 0) {
        WebSocketResponse::SendAck(ack) => {
            assert_eq!(ack.status_code, 500);
            assert_eq!(ack.msg, "Failed to create a chat message with an unknown reason");
            assert!(!ack.is_error());
        }
        _ => panic!("expected the failure ack"),
    }
    assert_eq!(registry.queue_len(b_socket), 0);
}

#[test]
fn ack_constructors_carry_protocol_codes() {
    let nf = channel_not_found_ack();
    assert_eq!(nf.status_code, 404);
    assert_eq!(nf.msg, "Chat channel does not exist");
    assert!(nf.is_error());
    let ns = not_subscribed_ack();
    assert_eq!(ns.status_code, 400);
    assert_eq!(ns.msg, "You are not in this chat channel");
    assert!(ns.is_error());
    let pf = persist_failed_ack();
    assert_eq!(pf.status_code, 500);
    assert!(!pf.is_error());
    let ok = created_ack(&"42".to_string());
    assert_eq!(ok.status_code, 200);
    assert_eq!(ok.msg, "Created chat message with ID 42");
    assert!(!ok.is_error());
}

#[test]
fn ack_delivery_follows_current_handle() {
    // the requester reconnects between request and ack: the ack must land on
    // the handle that is current at send time
    let mut server = ChatServer::new(10);
    let a = "a".to_string();
    let channel = server.store.insert_chat_channel(&schema("c"), a.clone()).unwrap();
    let (old_socket, _) = server.connect(&a);
    let (new_socket, _) = server.connect(&a);
    server.handle_create_message(&a, create_msg(&channel.id, "x"));
    assert_eq!(queue(&server, old_socket).len(), 0);
    assert_eq!(queue(&server, new_socket).len(), 2);
}

#[test]
fn disconnected_requester_acks_nowhere() {
    let mut server = ChatServer::new(10);
    let a = "a".to_string();
    let channel = server.store.insert_chat_channel(&schema("c"), a.clone()).unwrap();
    let (socket, _) = server.connect(&a);
    server.disconnect(&a);
    server.handle_create_message(&a, create_msg(&channel.id, "x"));
    // the message is persisted; nobody is connected, so nothing is delivered
    assert_eq!(server.store.message_count(), 1);
    assert_eq!(queue(&server, socket).len(), 0);
}
