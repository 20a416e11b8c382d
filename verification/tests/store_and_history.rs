use homelab_backend::store::ChatStore;
use homelab_backend::{
    ChannelType, CreateChannelSchema, CreateMessageSchema, DbError, RequestMessagesSchema,
    ResourceKind, ServerError,
};

fn schema(slug: &str) -> CreateChannelSchema {
    CreateChannelSchema { name: None, channel_type: 1, slug: slug.to_string() }
}

fn named_schema(slug: &str, name: &str) -> CreateChannelSchema {
    CreateChannelSchema { name: Some(name.to_string()), channel_type: 1, slug: slug.to_string() }
}

fn msg(channel_id: &str, contents: &str) -> CreateMessageSchema {
    CreateMessageSchema {
        channel_id: channel_id.to_string(),
        contents: contents.to_string(),
        reply_to: None,
    }
}

#[test]
fn channel_creation_fills_record() {
    let mut store = ChatStore::new(77);
    let owner = "o".to_string();
    let c = store.insert_chat_channel(&named_schema("test_channel", "My Channel"), owner).unwrap();
    assert_eq!(c.slug, "test_channel");
    assert_eq!(c.name, Some("My Channel".to_string()));
    assert_eq!(c.owner_id, "o");
    assert_eq!(c.subscribers, vec!["o".to_string()]);
    assert!(c.pinned_messages.is_empty());
    assert_eq!(c.channel_type, ChannelType::Group);
    assert_eq!(c.created_at, 77);
    assert_eq!(c.id, "1");
    assert_eq!(store.channel_count(), 1);
}

#[test]
fn duplicate_slug_for_one_owner_is_rejected() {
    let mut store = ChatStore::new(0);
    let owner = "o".to_string();
    store.insert_chat_channel(&schema("test_channel"), owner.clone()).unwrap();
    let err = store.insert_chat_channel(&schema("test_channel"), owner).unwrap_err();
    assert_eq!(err.status_code(), 400);
    assert_eq!(err.message(), "A Chat Channel with identifier test_channel already exists");
    // the same slug under another owner is fine
    let other = "second".to_string();
    let c = store.insert_chat_channel(&schema("test_channel"), other).unwrap();
    assert_eq!(c.owner_id, "second");
    assert_eq!(store.channel_count(), 2);
}

#[test]
fn subscribe_rules_follow_the_update_filter() {
    let mut store = ChatStore::new(0);
    let owner = "o".to_string();
    let user = "u".to_string();
    let c = store.insert_chat_channel(&schema("general"), owner.clone()).unwrap();

    // a channel that does not exist
    let missing = "missing-id".to_string();
    let err = store.subscribe(&missing, &user).unwrap_err();
    assert_eq!(err.status_code(), 404);
    assert_eq!(err.message(), "Chat Channel with identifier missing-id not found");

    // a fresh subscriber is added
    let updated = store.subscribe(&c.id, &user).unwrap();
    assert_eq!(updated.subscribers, vec!["o".to_string(), "u".to_string()]);

    // subscribing twice matches nothing
    let err = store.subscribe(&c.id, &user).unwrap_err();
    assert_eq!(err.status_code(), 404);

    // the owner is already a subscriber
    assert!(store.subscribe(&c.id, &owner).is_err());
}

#[test]
fn unsubscribe_rules_follow_the_update_filter() {
    let mut store = ChatStore::new(0);
    let owner = "o".to_string();
    let user = "u".to_string();
    let outsider = "x".to_string();
    let c = store.insert_chat_channel(&schema("general"), owner.clone()).unwrap();
    store.subscribe(&c.id, &user).unwrap();

    // a channel that does not exist
    let missing = "missing-id".to_string();
    assert!(store.unsubscribe(&missing, &user).is_err());

    // a user who is not subscribed
    assert!(store.unsubscribe(&c.id, &outsider).is_err());

    // the owner cannot leave an owned channel
    assert!(store.unsubscribe(&c.id, &owner).is_err());

    // a subscriber can leave
    let updated = store.unsubscribe(&c.id, &user).unwrap();
    assert_eq!(updated.subscribers, vec!["o".to_string()]);

    // leaving twice matches nothing
    assert!(store.unsubscribe(&c.id, &user).is_err());
}

#[test]
fn channel_listing_filters() {
    let mut store = ChatStore::new(0);
    let me = "me".to_string();
    let other = "other".to_string();
    let mine = store.insert_chat_channel(&schema("mine"), me.clone()).unwrap();
    let theirs = store.insert_chat_channel(&schema("theirs"), other.clone()).unwrap();
    let joined = store.insert_chat_channel(&schema("joined"), other.clone()).unwrap();
    store.subscribe(&joined.id, &me).unwrap();

    let all = store.list_chat_channels(&me, None, None);
    assert_eq!(all.len(), 3);

    let owned = store.list_chat_channels(&me, Some(true), None);
    assert_eq!(owned.len(), 1);
    assert_eq!(owned[0].id, mine.id);

    let not_owned = store.list_chat_channels(&me, Some(false), None);
    assert_eq!(not_owned.len(), 2);

    let subscribed = store.list_chat_channels(&me, None, Some(true));
    assert_eq!(subscribed.len(), 2);

    let unsubscribed = store.list_chat_channels(&me, None, Some(false));
    assert_eq!(unsubscribed.len(), 1);
    assert_eq!(unsubscribed[0].id, theirs.id);

    let foreign_joined = store.list_chat_channels(&me, Some(false), Some(true));
    assert_eq!(foreign_joined.len(), 1);
    assert_eq!(foreign_joined[0].id, joined.id);
}

#[test]
fn message_lookup_by_id() {
    let mut store = ChatStore::new(5);
    let author = "a".to_string();
    let c = store.insert_chat_channel(&schema("general"), author.clone()).unwrap();
    let m = store.insert_chat_message(msg(&c.id, "hello"), &author);
    let found = store.get_chat_message_by_id(&m.id).unwrap();
    assert_eq!(found.contents, "hello");
    assert_eq!(found.id, m.id);
    let missing = "999".to_string();
    let err = store.get_chat_message_by_id(&missing).unwrap_err();
    assert_eq!(err.status_code(), 404);
    assert_eq!(err.message(), "Chat Message with identifier 999 not found");
}

#[test]
fn message_ids_and_timestamps_advance() {
    let mut store = ChatStore::new(100);
    let a = "a".to_string();
    let c = store.insert_chat_channel(&schema("general"), a.clone()).unwrap();
    let m1 = store.insert_chat_message(msg(&c.id, "one"), &a);
    store.set_time(150);
    let m2 = store.insert_chat_message(msg(&c.id, "two"), &a);
    assert_ne!(m1.id, m2.id);
    assert_eq!(m1.created_at, 100);
    assert_eq!(m2.created_at, 150);
    assert_eq!(store.message_count(), 2);
}

#[test]
fn reply_to_is_carried() {
    let mut store = ChatStore::new(0);
    let a = "a".to_string();
    let c = store.insert_chat_channel(&schema("general"), a.clone()).unwrap();
    let first = store.insert_chat_message(msg(&c.id, "root"), &a);
    let reply = store.insert_chat_message(
        CreateMessageSchema {
            channel_id: c.id.clone(),
            contents: "answer".to_string(),
            reply_to: Some(first.id.clone()),
        },
        &a,
    );
    assert_eq!(reply.reply_to, Some(first.id));
}

#[test]
fn history_pages_newest_first_before_cursor() {
    let mut store = ChatStore::new(0);
    let a = "a".to_string();
    let c = store.insert_chat_channel(&schema("general"), a.clone()).unwrap();
    let other = store.insert_chat_channel(&schema("noise"), a.clone()).unwrap();
    let m1 = store.insert_chat_message(msg(&c.id, "one"), &a);
    let _noise = store.insert_chat_message(msg(&other.id, "elsewhere"), &a);
    let m2 = store.insert_chat_message(msg(&c.id, "two"), &a);
    let m3 = store.insert_chat_message(msg(&c.id, "three"), &a);
    let m4 = store.insert_chat_message(msg(&c.id, "four"), &a);

    // strictly older than m4, newest first, at most 2
    let page = store.get_chat_state(&RequestMessagesSchema {
        message_count: 2,
        starting_message: m4.id.clone(),
        channel_id: c.id.clone(),
    });
    assert_eq!(page.len(), 2);
    assert_eq!(page[0].id, m3.id);
    assert_eq!(page[1].id, m2.id);

    // an unknown cursor pages from the newest message
    let page = store.get_chat_state(&RequestMessagesSchema {
        message_count: 10,
        starting_message: "unknown".to_string(),
        channel_id: c.id.clone(),
    });
    assert_eq!(page.len(), 4);
    assert_eq!(page[0].id, m4.id);
    assert_eq!(page[3].id, m1.id);

    // other channels' messages never appear
    assert!(page.iter().all(|m| m.channel_id == c.id));

    // a non-positive count yields an empty page
    let page = store.get_chat_state(&RequestMessagesSchema {
        message_count: 0,
        starting_message: m4.id.clone(),
        channel_id: c.id.clone(),
    });
    assert!(page.is_empty());

    // the oldest message has nothing older
    let page = store.get_chat_state(&RequestMessagesSchema {
        message_count: 10,
        starting_message: m1.id,
        channel_id: c.id,
    });
    assert!(page.is_empty());
}

#[test]
fn db_error_presentation() {
    let e = DbError::NotFound(ResourceKind::Reminder, "7".to_string());
    assert_eq!(e.status_code(), 404);
    assert_eq!(e.message(), "Reminder with identifier 7 not found");
    let e = DbError::AlreadyExists(ResourceKind::User, "foo".to_string());
    assert_eq!(e.status_code(), 400);
    assert_eq!(e.message(), "A User with identifier foo already exists");
    let e = DbError::RelationshipViolation(ResourceKind::ReminderCategory, "3".to_string());
    assert_eq!(e.status_code(), 400);
    assert_eq!(
        e.message(),
        "The request violates a relationship constraint on Reminder Category with identifier 3"
    );
    let e = DbError::EmptyDbExpression(ResourceKind::Reminder, "updating".to_string());
    assert_eq!(e.status_code(), 400);
    assert_eq!(e.message(), "Received no data while updating Reminder, resulting in a no-op");
    let e = DbError::BadId;
    assert_eq!(e.status_code(), 404);
    assert_eq!(e.message(), "The provided ID was not valid");
    let e = DbError::AuthFailure;
    assert_eq!(e.status_code(), 401);
    assert_eq!(e.message(), "Auth failure while reading database");
    let e = DbError::UnhandledException("saving".to_string());
    assert_eq!(e.status_code(), 500);
    assert_eq!(e.message(), "Unhandled exception when making a database request: saving");
}

#[test]
fn server_error_presentation() {
    let e = ServerError::FailedAuthentication("bad token".to_string());
    assert_eq!(e.status_code(), 401);
    assert_eq!(e.message(), "Auth failure: bad token");
    let e = ServerError::InternalFailure("Authenticating".to_string());
    assert_eq!(e.status_code(), 500);
    assert_eq!(e.message(), "Internal server error while: Authenticating");
}
