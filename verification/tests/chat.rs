use nimbuzyn::models::MessageType;
use nimbuzyn::store::Database;
use nimbuzyn::StoreError;

fn two_users(db: &mut Database) -> (String, String) {
    let a = db.register_user("ana", "Ana", "some password").unwrap();
    let b = db.register_user("bo", "Bo", "some password").unwrap();
    (a.uid, b.uid)
}

#[test]
fn thread_is_canonical_in_both_call_orders() {
    let mut db = Database::new();
    let (a, b) = two_users(&mut db);
    let c1 = db.get_or_create_chat(&a, &b).unwrap();
    let c2 = db.get_or_create_chat(&b, &a).unwrap();
    assert_eq!(c1.id, c2.id);
    assert_eq!(c1.participant_a, c2.participant_a);
    assert_eq!(c1.participant_b, c2.participant_b);
    assert!(c1.participant_a < c1.participant_b);
    assert_eq!(db.chats.len(), 1);
}

#[test]
fn opening_a_thread_twice_never_creates_a_second_row() {
    let mut db = Database::new();
    let (a, b) = two_users(&mut db);
    db.get_or_create_chat(&a, &b).unwrap();
    db.get_or_create_chat(&a, &b).unwrap();
    db.get_or_create_chat(&b, &a).unwrap();
    assert_eq!(db.chats.len(), 1);
}

#[test]
fn thread_with_oneself_is_rejected() {
    let mut db = Database::new();
    let (a, _) = two_users(&mut db);
    assert!(matches!(db.get_or_create_chat(&a, &a), Err(StoreError::SameUser)));
}

#[test]
fn new_thread_starts_empty() {
    let mut db = Database::new();
    let (a, b) = two_users(&mut db);
    let c = db.get_or_create_chat(&a, &b).unwrap();
    assert!(c.last_message.is_none());
    assert!(c.last_message_at.is_none());
    assert_eq!(c.unread_count, 0);
}

#[test]
fn message_and_preview_are_seen_together() {
    let mut db = Database::new();
    let (a, b) = two_users(&mut db);
    let c = db.get_or_create_chat(&a, &b).unwrap();
    let m = db.send_message(c.id, &a, "hello world", MessageType::Text, None, None).unwrap();
    let again = db.get_or_create_chat(&a, &b).unwrap();
    assert_eq!(again.last_message.as_deref(), Some("hello world"));
    assert_eq!(again.last_message_at.as_deref(), Some(m.sent_at.as_str()));
    assert!(!m.is_read);
    assert_eq!(m.sender_uid, a);
    assert_eq!(m.content, "hello world");
}

#[test]
fn non_text_preview_is_the_bracketed_type_tag() {
    let mut db = Database::new();
    let (a, b) = two_users(&mut db);
    let c = db.get_or_create_chat(&a, &b).unwrap();
    db.send_message(c.id, &a, "/tmp/cat.png", MessageType::Image, Some("cat.png"), Some(123))
        .unwrap();
    let again = db.get_or_create_chat(&a, &b).unwrap();
    assert_eq!(again.last_message.as_deref(), Some("[image]"));
}

#[test]
fn long_text_preview_keeps_the_first_fifty_characters() {
    let mut db = Database::new();
    let (a, b) = two_users(&mut db);
    let c = db.get_or_create_chat(&a, &b).unwrap();
    let body: String = "x".repeat(80);
    db.send_message(c.id, &a, &body, MessageType::Text, None, None).unwrap();
    let again = db.get_or_create_chat(&a, &b).unwrap();
    assert_eq!(again.last_message.as_deref(), Some("x".repeat(50).as_str()));
}

#[test]
fn sender_must_be_a_participant() {
    let mut db = Database::new();
    let (a, b) = two_users(&mut db);
    let outsider = db.register_user("cy", "Cy", "some password").unwrap();
    let c = db.get_or_create_chat(&a, &b).unwrap();
    let r = db.send_message(c.id, &outsider.uid, "hi", MessageType::Text, None, None);
    assert!(matches!(r, Err(StoreError::Validation)));
    assert_eq!(db.messages.len(), 0);
}

#[test]
fn overlong_text_is_rejected_not_truncated() {
    let mut db = Database::new();
    let (a, b) = two_users(&mut db);
    let c = db.get_or_create_chat(&a, &b).unwrap();
    let body: String = "y".repeat(1001);
    let r = db.send_message(c.id, &a, &body, MessageType::Text, None, None);
    assert!(matches!(r, Err(StoreError::Validation)));
    let ok: String = "y".repeat(1000);
    assert!(db.send_message(c.id, &a, &ok, MessageType::Text, None, None).is_ok());
}

#[test]
fn message_to_unknown_thread_misses() {
    let mut db = Database::new();
    let (a, _) = two_users(&mut db);
    let r = db.send_message(77, &a, "hi", MessageType::Text, None, None);
    assert!(matches!(r, Err(StoreError::NotFound)));
}

#[test]
fn messages_paginate_in_ascending_order() {
    let mut db = Database::new();
    let (a, b) = two_users(&mut db);
    let c = db.get_or_create_chat(&a, &b).unwrap();
    db.send_message(c.id, &a, "one", MessageType::Text, None, None).unwrap();
    db.send_message(c.id, &b, "two", MessageType::Text, None, None).unwrap();
    db.send_message(c.id, &a, "three", MessageType::Text, None, None).unwrap();
    let all = db.get_messages(c.id, 100, 0);
    assert_eq!(all.len(), 3);
    assert_eq!(all[0].content, "one");
    assert_eq!(all[1].content, "two");
    assert_eq!(all[2].content, "three");
    assert!(all[0].sent_at <= all[1].sent_at && all[1].sent_at <= all[2].sent_at);
    let page = db.get_messages(c.id, 1, 1);
    assert_eq!(page.len(), 1);
    assert_eq!(page[0].content, "two");
    let past_end = db.get_messages(c.id, 10, 5);
    assert!(past_end.is_empty());
}

#[test]
fn ledgers_of_two_threads_stay_apart() {
    let mut db = Database::new();
    let (a, b) = two_users(&mut db);
    let cy = db.register_user("cy", "Cy", "some password").unwrap();
    let c1 = db.get_or_create_chat(&a, &b).unwrap();
    let c2 = db.get_or_create_chat(&a, &cy.uid).unwrap();
    db.send_message(c1.id, &a, "for bo", MessageType::Text, None, None).unwrap();
    db.send_message(c2.id, &a, "for cy", MessageType::Text, None, None).unwrap();
    let m1 = db.get_messages(c1.id, 10, 0);
    let m2 = db.get_messages(c2.id, 10, 0);
    assert_eq!(m1.len(), 1);
    assert_eq!(m2.len(), 1);
    assert_eq!(m1[0].content, "for bo");
    assert_eq!(m2[0].content, "for cy");
}
